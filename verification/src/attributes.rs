//! Attributes of statements.
//!
//! A statement of the shape `__attributes = "..."` carries no meaning of its
//! own: its string is a list of attributes for the statement that follows it.
//! The list is written as items that end in `;` (the last `;` may be left
//! out); an item is a key, or a key and a value with `=` between them. White
//! space around keys and values does not count. No key may be empty or stand
//! twice, and no value may be empty.

use vstd::prelude::*;
use crate::error::{
    new_program_error, program_error, ParseProgramError, ParseProgramErrorView, ProgramError,
    ProgramErrorView,
};
use crate::estree::{LiteralValue, Node, NodeKind};
use crate::log::{opt_str_view, opt_string_view};
use crate::text::{
    chars_of, find_char, first_index, ranges_of, split, split_ranges, str_eq, substring, trim,
    trim_range,
};

verus! {

/// The mathematical value of a list of attributes: the keys with their
/// values, in the order in which they were written.
pub type AttributesView = Seq<(Seq<char>, Option<Seq<char>>)>;

/// The attributes of one statement: keys, each with a value or none, in the
/// order in which they were written.
#[derive(Debug)]
pub struct Attributes {
    pub entries: Vec<(String, Option<String>)>,
}

impl View for Attributes {
    type V = AttributesView;

    open spec fn view(&self) -> AttributesView {
        Seq::new(
            self.entries@.len(),
            |i: int| (self.entries@[i].0@, opt_string_view(self.entries@[i].1)),
        )
    }
}

/// Whether the key stands in the list.
pub open spec fn has_key(attrs: AttributesView, key: Seq<char>) -> bool {
    exists|i: int| 0 <= i < attrs.len() && (#[trigger] attrs[i]).0 == key
}

/// The value of the first attribute with the key: none where no attribute
/// has the key, and no value where that attribute has none.
pub open spec fn attr_value(attrs: AttributesView, key: Seq<char>) -> Option<Option<Seq<char>>>
    decreases attrs.len(),
{
    if attrs.len() == 0 {
        None
    } else if attrs[0].0 == key {
        Some(attrs[0].1)
    } else {
        attr_value(attrs.drop_first(), key)
    }
}

/// An attribute has the key exactly where the key has a value or none.
pub proof fn lemma_attr_value(attrs: AttributesView, key: Seq<char>)
    ensures
        attr_value(attrs, key) is Some <==> has_key(attrs, key),
    decreases attrs.len(),
{
    if attrs.len() == 0 {
    } else if attrs[0].0 == key {
        assert(has_key(attrs, key));
    } else {
        let rest = attrs.drop_first();
        lemma_attr_value(rest, key);
        if has_key(rest, key) {
            let i = choose|i: int| 0 <= i < rest.len() && (#[trigger] rest[i]).0 == key;
            assert(attrs[i + 1].0 == key);
        }
        if has_key(attrs, key) {
            let i = choose|i: int| 0 <= i < attrs.len() && (#[trigger] attrs[i]).0 == key;
            assert(rest[i - 1].0 == key);
        }
    }
}

/// The mathematical value of what `Attributes::get` gives.
pub open spec fn attr_value_view(value: Option<&Option<String>>) -> Option<Option<Seq<char>>> {
    match value {
        Some(v) => Some(opt_string_view(*v)),
        None => None,
    }
}

/// Whether no key stands twice in the list.
pub open spec fn unique_keys(attrs: AttributesView) -> bool {
    forall|i: int, j: int| 0 <= i < j < attrs.len() ==> attrs[i].0 != attrs[j].0
}

impl Attributes {
    /// No attribute.
    pub fn new() -> (a: Attributes)
        ensures
            a@ == AttributesView::empty(),
    {
        let a = Attributes { entries: Vec::new() };
        assert(a@ =~= AttributesView::empty());
        a
    }

    /// The number of attributes.
    pub fn len(&self) -> (n: usize)
        ensures
            n == self@.len(),
    {
        self.entries.len()
    }

    /// Whether there is no attribute.
    pub fn is_empty(&self) -> (e: bool)
        ensures
            e == (self@.len() == 0),
    {
        self.entries.len() == 0
    }

    /// The position of the first attribute with the given key.
    pub fn position(&self, key: &str) -> (at: Option<usize>)
        ensures
            match at {
                Some(i) => i < self@.len() && self@[i as int].0 == key@ && forall|j: int|
                    0 <= j < i ==> self@[j].0 != key@,
                None => !has_key(self@, key@),
            },
    {
        let mut i: usize = 0;
        while i < self.entries.len()
            invariant
                i <= self.entries@.len(),
                forall|j: int| 0 <= j < i ==> self@[j].0 != key@,
            decreases self.entries@.len() - i,
        {
            if str_eq(self.entries[i].0.as_str(), key) {
                return Some(i);
            }
            i = i + 1;
        }
        None
    }

    /// A copy of the attributes.
    pub fn duplicate(&self) -> (copy: Attributes)
        ensures
            copy@ == self@,
    {
        let mut entries: Vec<(String, Option<String>)> = Vec::new();
        let mut i: usize = 0;
        while i < self.entries.len()
            invariant
                i <= self.entries@.len(),
                entries@.len() == i,
                forall|k: int|
                    0 <= k < i ==> (#[trigger] entries@[k]).0@ == self.entries@[k].0@
                        && opt_string_view(entries@[k].1) == opt_string_view(self.entries@[k].1),
            decreases self.entries@.len() - i,
        {
            let value = match &self.entries[i].1 {
                Some(v) => Some(v.clone()),
                None => None,
            };
            entries.push((self.entries[i].0.clone(), value));
            i = i + 1;
        }
        let copy = Attributes { entries };
        assert(copy@ =~= self@);
        copy
    }

    /// Whether an attribute has the given key.
    pub fn contains_key(&self, key: &str) -> (found: bool)
        ensures
            found == has_key(self@, key@),
    {
        self.position(key).is_some()
    }

    /// The value of the first attribute with the given key.
    pub fn get(&self, key: &str) -> (value: Option<&Option<String>>)
        ensures
            attr_value_view(value) == attr_value(self@, key@),
    {
        let ghost view = self@;
        let mut i: usize = 0;
        assert(view.skip(0) =~= view);
        while i < self.entries.len()
            invariant
                i <= self.entries@.len(),
                view == self@,
                attr_value(view, key@) == attr_value(view.skip(i as int), key@),
            decreases self.entries@.len() - i,
        {
            proof {
                assert(view.skip(i as int)[0] == view[i as int]);
                assert(view.skip(i as int).drop_first() =~= view.skip(i + 1));
            }
            if str_eq(self.entries[i].0.as_str(), key) {
                return Some(&self.entries[i].1);
            }
            i = i + 1;
        }
        None
    }
}

/// The pieces that the terminator cuts the sequence into: what `split`
/// gives, without the last piece where that is empty.
pub open spec fn split_terminator(s: Seq<char>, sep: char) -> Seq<Seq<char>> {
    let pieces = split(s, sep);
    if pieces.last().len() == 0 {
        pieces.drop_last()
    } else {
        pieces
    }
}

/// The key and the value that one item of an attribute string stands for;
/// none where the item is not well formed.
pub open spec fn spec_parse_item(raw: Seq<char>) -> Option<(Seq<char>, Option<Seq<char>>)> {
    let item = trim(raw);
    let eq = first_index(item, '=');
    if 0 <= eq < item.len() {
        let key = trim(item.take(eq));
        let val = trim(item.skip(eq + 1));
        if key.len() == 0 || val.len() == 0 {
            None
        } else {
            Some((key, Some(val)))
        }
    } else if item.len() == 0 {
        None
    } else {
        Some((item, None))
    }
}

/// The attributes that the items stand for, in order; none where an item is
/// not well formed or a key stands twice.
pub open spec fn spec_parse_items(items: Seq<Seq<char>>) -> Option<AttributesView>
    decreases items.len(),
{
    if items.len() == 0 {
        Some(AttributesView::empty())
    } else {
        match (spec_parse_items(items.drop_last()), spec_parse_item(items.last())) {
            (Some(before), Some(entry)) => if has_key(before, entry.0) {
                None
            } else {
                Some(before.push(entry))
            },
            _ => None,
        }
    }
}

/// Items that start with items which stand for no attributes stand for
/// none.
pub proof fn lemma_parse_items_prefix(items: Seq<Seq<char>>, n: int)
    requires
        0 <= n <= items.len(),
        spec_parse_items(items.take(n)) is None,
    ensures
        spec_parse_items(items) is None,
    decreases items.len() - n,
{
    if n == items.len() {
        assert(items.take(n) =~= items);
    } else {
        assert(items.take(n + 1).drop_last() =~= items.take(n));
        lemma_parse_items_prefix(items, n + 1);
    }
}

/// The attributes that an attribute string stands for; none where the
/// string does not follow the grammar.
pub open spec fn spec_parse_attributes(text: Seq<char>) -> Option<AttributesView> {
    spec_parse_items(split_terminator(text, ';'))
}

/// Reads an attribute string.
///
/// Keys and values lose the white space around them. The string is refused
/// where a key or a value is empty or a key stands twice.
pub fn parse_attributes(text: &str) -> (result: Result<Attributes, ()>)
    ensures
        match result {
            Ok(attrs) => spec_parse_attributes(text@) == Some(attrs@) && unique_keys(attrs@),
            Err(_) => spec_parse_attributes(text@) is None,
        },
{
    let chars = chars_of(text);
    let ranges = split_ranges(&chars, 0, chars.len(), ';');
    assert(chars@.subrange(0, chars@.len() as int) =~= text@);
    let ghost pieces = split(text@, ';');
    let last = ranges[ranges.len() - 1];
    let count: usize = if last.0 == last.1 {
        ranges.len() - 1
    } else {
        ranges.len()
    };
    let ghost items = split_terminator(text@, ';');
    proof {
        assert(pieces.last() == chars@.subrange(last.0 as int, last.1 as int));
        assert(items =~= pieces.take(count as int));
    }
    let mut ret = Attributes::new();
    let mut k: usize = 0;
    while k < count
        invariant
            k <= count <= ranges@.len(),
            chars@ == text@,
            items == pieces.take(count as int),
            items == split_terminator(text@, ';'),
            pieces == ranges_of(chars@, ranges@),
            crate::text::ranges_within(ranges@, 0, chars@.len() as int),
            spec_parse_items(items.take(k as int)) == Some(ret@),
            unique_keys(ret@),
        decreases count - k,
    {
        let (a, b) = ranges[k];
        let ghost raw = chars@.subrange(a as int, b as int);
        let ghost item = trim(raw);
        proof {
            assert(items.take(k + 1).drop_last() =~= items.take(k as int));
            assert(items.take(k + 1).last() == raw);
        }
        let (lo, hi) = trim_range(&chars, a, b);
        let eq = find_char(&chars, lo, hi, '=');
        let key: String;
        let val: Option<String>;
        if eq < hi {
            let (klo, khi) = trim_range(&chars, lo, eq);
            let (vlo, vhi) = trim_range(&chars, eq + 1, hi);
            proof {
                assert(item.take(eq - lo) =~= chars@.subrange(lo as int, eq as int));
                assert(item.skip(eq - lo + 1) =~= chars@.subrange(eq + 1, hi as int));
            }
            if klo == khi || vlo == vhi {
                proof {
                    assert(spec_parse_item(raw) is None);
                    lemma_parse_items_prefix(items, k + 1);
                }
                return Err(());
            }
            key = substring(text, klo, khi);
            val = Some(substring(text, vlo, vhi));
        } else {
            if lo == hi {
                proof {
                    assert(spec_parse_item(raw) is None);
                    lemma_parse_items_prefix(items, k + 1);
                }
                return Err(());
            }
            key = substring(text, lo, hi);
            val = None;
        }
        assert(spec_parse_item(raw) == Some((key@, opt_string_view(val))));
        if ret.contains_key(key.as_str()) {
            proof {
                lemma_parse_items_prefix(items, k + 1);
            }
            return Err(());
        }
        let ghost before = ret@;
        ret.entries.push((key, val));
        proof {
            assert(ret@ =~= before.push((key@, opt_string_view(val))));
            assert forall|i: int, j: int| 0 <= i < j < ret@.len() implies ret@[i].0 != ret@[j].0 by {
                if j == before.len() {
                    assert(before[i].0 != key@);
                }
            }
        }
        k = k + 1;
    }
    assert(items.take(count as int) =~= items);
    Ok(ret)
}

/// The right-hand side of the statement where it is an attribute statement:
/// an expression statement that assigns to the name `__attributes`.
pub open spec fn attribute_value(node: Node) -> Option<Node> {
    match node.kind {
        NodeKind::ExpressionStatement(stmt) => match stmt.expression.kind {
            NodeKind::AssignmentExpression(assign) => match assign.left.kind {
                NodeKind::Identifier(id) => if id.name@ == "__attributes"@ {
                    Some(*assign.right)
                } else {
                    None
                },
                _ => None,
            },
            _ => None,
        },
        _ => None,
    }
}

/// The characters of the node where it is a string literal.
pub open spec fn string_literal(node: Node) -> Option<Seq<char>> {
    match node.kind {
        NodeKind::Literal(lit) => match lit.value {
            LiteralValue::String(s) => Some(s@),
            _ => None,
        },
        _ => None,
    }
}

/// The attributes that the right-hand side of an attribute statement stands
/// for, or what is wrong with it.
pub open spec fn spec_read_attributes(value: Node, filename: Option<Seq<char>>) -> Result<
    AttributesView,
    ProgramErrorView,
> {
    match string_literal(value) {
        None => Err(
            program_error(
                value.loc,
                filename,
                ParseProgramErrorView::AttributeNotStringLiteralError,
            ),
        ),
        Some(text) => match spec_parse_attributes(text) {
            None => Err(
                program_error(value.loc, filename, ParseProgramErrorView::AttributeParseError),
            ),
            Some(attrs) => Ok(attrs),
        },
    }
}

/// What comes next in a list of statements that is read with attributes.
pub enum AttributedStep {
    /// The list has no further statement.
    End,
    /// The statement at position `index` with its attributes; the reading
    /// goes on at position `next`.
    Item { index: int, attrs: AttributesView, next: int },
}

/// What comes next in the list of statements from position `at` on, where
/// the statement at `at` has no attributes pending: the statement itself
/// without attributes, or, where it is an attribute statement, the statement
/// after it with the attributes.
///
/// An attribute statement that no statement follows is dangling, and so is
/// one that another attribute statement follows (unless that one is ill
/// formed, which is reported first).
#[verifier::opaque]
pub open spec fn spec_next_attributed(body: Seq<Node>, at: int, filename: Option<Seq<char>>) -> Result<
    AttributedStep,
    ProgramErrorView,
> {
    if at < 0 || at >= body.len() {
        Ok(AttributedStep::End)
    } else {
        match attribute_value(body[at]) {
            None => Ok(
                AttributedStep::Item { index: at, attrs: AttributesView::empty(), next: at + 1 },
            ),
            Some(value) => match spec_read_attributes(value, filename) {
                Err(e) => Err(e),
                Ok(attrs) => {
                    let dangling = program_error(
                        body[at].loc,
                        filename,
                        ParseProgramErrorView::DanglingAttributeError,
                    );
                    if at + 1 >= body.len() {
                        Err(dangling)
                    } else {
                        match attribute_value(body[at + 1]) {
                            None => Ok(AttributedStep::Item { index: at + 1, attrs, next: at + 2 }),
                            Some(second) => match spec_read_attributes(second, filename) {
                                Err(e) => Err(e),
                                Ok(_) => Err(dangling),
                            },
                        }
                    }
                },
            },
        }
    }
}

/// The right-hand side of the statement where it is an attribute statement.
pub fn attribute_value_of(node: &Node) -> (value: Option<&Node>)
    ensures
        match value {
            Some(v) => attribute_value(*node) == Some(*v),
            None => attribute_value(*node) is None,
        },
{
    match &node.kind {
        NodeKind::ExpressionStatement(stmt) => match &stmt.expression.kind {
            NodeKind::AssignmentExpression(assign) => match &assign.left.kind {
                NodeKind::Identifier(id) => if str_eq(id.name.as_str(), "__attributes") {
                    Some(&*assign.right)
                } else {
                    None
                },
                _ => None,
            },
            _ => None,
        },
        _ => None,
    }
}

/// Reads the right-hand side of an attribute statement.
pub fn read_attributes(value: &Node, filename: Option<&str>) -> (result: Result<
    Attributes,
    ProgramError,
>)
    ensures
        match result {
            Ok(attrs) => spec_read_attributes(*value, opt_str_view(filename)) == Ok::<
                AttributesView,
                ProgramErrorView,
            >(attrs@) && unique_keys(attrs@),
            Err(e) => spec_read_attributes(*value, opt_str_view(filename)) == Err::<
                AttributesView,
                ProgramErrorView,
            >(e@),
        },
{
    match &value.kind {
        NodeKind::Literal(lit) => match &lit.value {
            LiteralValue::String(text) => match parse_attributes(text.as_str()) {
                Ok(attrs) => Ok(attrs),
                Err(_) => Err(
                    new_program_error(&value.loc, filename, ParseProgramError::AttributeParseError),
                ),
            },
            _ => Err(
                new_program_error(
                    &value.loc,
                    filename,
                    ParseProgramError::AttributeNotStringLiteralError,
                ),
            ),
        },
        _ => Err(
            new_program_error(
                &value.loc,
                filename,
                ParseProgramError::AttributeNotStringLiteralError,
            ),
        ),
    }
}

/// The mathematical value of what `next_attributed` gives.
pub open spec fn attributed_step_view(step: Option<(usize, Attributes, usize)>) -> AttributedStep {
    match step {
        None => AttributedStep::End,
        Some((index, attrs, next)) => AttributedStep::Item {
            index: index as int,
            attrs: attrs@,
            next: next as int,
        },
    }
}

/// Reads on in a list of statements with attributes: gives the position of
/// the next statement that is no attribute statement, its attributes, and
/// the position at which to read on; nothing at the end of the list.
pub fn next_attributed(body: &Vec<Node>, at: usize, filename: Option<&str>) -> (result: Result<
    Option<(usize, Attributes, usize)>,
    ProgramError,
>)
    ensures
        match result {
            Ok(step) => spec_next_attributed(body@, at as int, opt_str_view(filename)) == Ok::<
                AttributedStep,
                ProgramErrorView,
            >(attributed_step_view(step)),
            Err(e) => spec_next_attributed(body@, at as int, opt_str_view(filename)) == Err::<
                AttributedStep,
                ProgramErrorView,
            >(e@),
        },
        result matches Ok(Some((index, attrs, next))) ==> at <= index < next <= body@.len()
            && unique_keys(attrs@),
{
    reveal(spec_next_attributed);
    if at >= body.len() {
        return Ok(None);
    }
    match attribute_value_of(&body[at]) {
        None => Ok(Some((at, Attributes::new(), at + 1))),
        Some(value) => {
            let attrs = read_attributes(value, filename)?;
            if at + 1 >= body.len() {
                return Err(
                    new_program_error(
                        &body[at].loc,
                        filename,
                        ParseProgramError::DanglingAttributeError,
                    ),
                );
            }
            match attribute_value_of(&body[at + 1]) {
                None => Ok(Some((at + 1, attrs, at + 2))),
                Some(second) => {
                    let _ = read_attributes(second, filename)?;
                    Err(
                        new_program_error(
                            &body[at].loc,
                            filename,
                            ParseProgramError::DanglingAttributeError,
                        ),
                    )
                },
            }
        },
    }
}

/// The statements of a list from position `at` on that are no attribute
/// statements, each as its position with its attributes, after those in
/// `so_far`.
pub open spec fn spec_each_with_attributes(
    body: Seq<Node>,
    at: int,
    so_far: Seq<(int, AttributesView)>,
    filename: Option<Seq<char>>,
) -> Result<Seq<(int, AttributesView)>, ProgramErrorView>
    decreases body.len() - at,
{
    match spec_next_attributed(body, at, filename) {
        Err(e) => Err(e),
        Ok(AttributedStep::End) => Ok(so_far),
        Ok(AttributedStep::Item { index, attrs, next }) => if at < next <= body.len() {
            spec_each_with_attributes(body, next, so_far.push((index, attrs)), filename)
        } else {
            Ok(so_far)
        },
    }
}

/// The mathematical value of a list of positions with attributes.
pub open spec fn attributed_view(items: Seq<(usize, Attributes)>) -> Seq<(int, AttributesView)> {
    Seq::new(items.len(), |i: int| (items[i].0 as int, items[i].1@))
}

/// The statements of a list that are no attribute statements, each as its
/// position in the list with the attributes that the attribute statement
/// before it gives.
pub fn each_with_attributes(body: &Vec<Node>, filename: Option<&str>) -> (result: Result<
    Vec<(usize, Attributes)>,
    ProgramError,
>)
    ensures
        match result {
            Ok(items) => spec_each_with_attributes(
                body@,
                0,
                Seq::<(int, AttributesView)>::empty(),
                opt_str_view(filename),
            ) == Ok::<Seq<(int, AttributesView)>, ProgramErrorView>(attributed_view(items@))
                && (forall|i: int| 0 <= i < items@.len() ==> (#[trigger] items@[i]).0 < body@.len())
                && (forall|i: int, j: int|
                0 <= i < j < items@.len() ==> (#[trigger] items@[i]).0 < (#[trigger] items@[j]).0),
            Err(e) => spec_each_with_attributes(
                body@,
                0,
                Seq::<(int, AttributesView)>::empty(),
                opt_str_view(filename),
            ) == Err::<Seq<(int, AttributesView)>, ProgramErrorView>(e@),
        },
{
    let mut items: Vec<(usize, Attributes)> = Vec::new();
    let ghost fname = opt_str_view(filename);
    let mut at: usize = 0;
    assert(attributed_view(items@) =~= Seq::<(int, AttributesView)>::empty());
    loop
        invariant
            at <= body@.len(),
            fname == opt_str_view(filename),
            forall|i: int| 0 <= i < items@.len() ==> (#[trigger] items@[i]).0 < at,
            forall|i: int, j: int|
                0 <= i < j < items@.len() ==> (#[trigger] items@[i]).0 < (#[trigger] items@[j]).0,
            spec_each_with_attributes(body@, 0, Seq::<(int, AttributesView)>::empty(), fname)
                == spec_each_with_attributes(body@, at as int, attributed_view(items@), fname),
        decreases body@.len() - at,
    {
        match next_attributed(body, at, filename)? {
            None => {
                return Ok(items);
            },
            Some((index, attrs, next)) => {
                let ghost before = attributed_view(items@);
                let ghost view = attrs@;
                items.push((index, attrs));
                assert(attributed_view(items@) =~= before.push((index as int, view)));
                at = next;
            },
        }
    }
}

/// Whether `result` can be what comes of reading the list from position
/// `at` on, statement by statement, when `carried` is the value that `f` got
/// last: `f` gets each statement that is no attribute statement with its
/// attributes and the value that it gave back for the statement before, and
/// the first error ends the reading, be it an error of the attributes or
/// one of `f`.
pub open spec fn read_with<A, F: Fn(A, &Node, Attributes) -> Result<A, ProgramError>>(
    f: F,
    body: Seq<Node>,
    at: int,
    filename: Option<Seq<char>>,
    carried: A,
    result: Result<A, ProgramError>,
) -> bool
    decreases body.len() - at,
{
    match spec_next_attributed(body, at, filename) {
        Err(err) => result matches Err(e) && e@ == err,
        Ok(AttributedStep::End) => result == Ok::<A, ProgramError>(carried),
        Ok(AttributedStep::Item { index, attrs, next }) => if 0 <= index < body.len() && at < next
            <= body.len() {
            exists|a: Attributes, r: Result<A, ProgramError>|
                {
                    &&& a@ == attrs
                    &&& #[trigger] call_ensures(f, (carried, &body[index], a), r)
                    &&& match r {
                        Err(e) => result == Err::<A, ProgramError>(e),
                        Ok(given) => read_with(f, body, next, filename, given, result),
                    }
                }
        } else {
            false
        },
    }
}

/// Whether the arguments are such as the reading of the list hands to `f`:
/// a statement of the list, attributes without a key that stands twice, and
/// as the value carried along `start` or what `f` gave back before.
pub open spec fn read_hands<A, F: Fn(A, &Node, Attributes) -> Result<A, ProgramError>>(
    f: F,
    body: Seq<Node>,
    start: A,
    carried: A,
    node: &Node,
    attrs: Attributes,
) -> bool {
    &&& body.contains(*node)
    &&& unique_keys(attrs@)
    &&& carried == start || exists|had: A, earlier: &Node, a: Attributes|
        #[trigger] call_ensures(f, (had, earlier, a), Ok::<A, ProgramError>(carried))
}

/// Reads a list of statements with their attributes, statement by
/// statement: `f` gets each statement that is no attribute statement with
/// its attributes, as soon as they are read, and a value that is carried
/// along, which is `start` at first and then what `f` gave back. Gives what
/// the last call gave back, or the first error.
pub fn each_with_attributes_with<A, F: Fn(A, &Node, Attributes) -> Result<A, ProgramError>>(
    body: &Vec<Node>,
    filename: Option<&str>,
    start: A,
    f: F,
) -> (result: Result<A, ProgramError>)
    requires
        forall|carried: A, node: &Node, attrs: Attributes|
            read_hands(f, body@, start, carried, node, attrs) ==> #[trigger] call_requires(
                f,
                (carried, node, attrs),
            ),
    ensures
        read_with(f, body@, 0, opt_str_view(filename), start, result),
{
    let ghost fname = opt_str_view(filename);
    let mut carried = start;
    let mut at: usize = 0;
    loop
        invariant
            at <= body@.len(),
            fname == opt_str_view(filename),
            carried == start || exists|had: A, earlier: &Node, a: Attributes|
                #[trigger] call_ensures(f, (had, earlier, a), Ok::<A, ProgramError>(carried)),
            forall|carried: A, node: &Node, attrs: Attributes|
                read_hands(f, body@, start, carried, node, attrs) ==> #[trigger] call_requires(
                    f,
                    (carried, node, attrs),
                ),
            forall|r: Result<A, ProgramError>|
                #[trigger] read_with(f, body@, at as int, fname, carried, r) ==> read_with(
                    f,
                    body@,
                    0,
                    fname,
                    start,
                    r,
                ),
        decreases body@.len() - at,
    {
        let ghost had = carried;
        match next_attributed(body, at, filename) {
            Err(e) => {
                assert(read_with(f, body@, at as int, fname, had, Err::<A, ProgramError>(e)));
                return Err(e);
            },
            Ok(None) => {
                assert(read_with(f, body@, at as int, fname, had, Ok::<A, ProgramError>(carried)));
                return Ok(carried);
            },
            Ok(Some((index, attrs, next))) => {
                let ghost given_attrs = attrs;
                assert(body@.contains(body@[index as int]));
                let r = f(carried, &body[index], attrs);
                match r {
                    Err(e) => {
                        assert(read_with(f, body@, at as int, fname, had, Err::<A, ProgramError>(e)));
                        return Err(e);
                    },
                    Ok(given) => {
                        proof {
                            assert forall|out: Result<A, ProgramError>| #[trigger]
                                read_with(f, body@, next as int, fname, given, out) implies read_with(
                                f,
                                body@,
                                0,
                                fname,
                                start,
                                out,
                            ) by {
                                assert(call_ensures(
                                    f,
                                    (had, &body@[index as int], given_attrs),
                                    Ok::<A, ProgramError>(given),
                                ));
                                assert(read_with(f, body@, at as int, fname, had, out));
                            }
                        }
                        carried = given;
                        at = next;
                    },
                }
            },
        }
    }
}

/// Reads a list of statements with their attributes, without a change to
/// the list.
pub trait NodeForEachWithAttributes<E> {
    /// The statements that are no attribute statements, each as its position
    /// with its attributes.
    fn each_with_attributes(&self, filename: Option<&str>) -> Result<
        Vec<(usize, Attributes)>,
        ProgramError,
    >;
}

impl NodeForEachWithAttributes<Node> for Vec<Node> {
    fn each_with_attributes(&self, filename: Option<&str>) -> (result: Result<
        Vec<(usize, Attributes)>,
        ProgramError,
    >)
        ensures
            match result {
                Ok(items) => spec_each_with_attributes(
                    self@,
                    0,
                    Seq::<(int, AttributesView)>::empty(),
                    opt_str_view(filename),
                ) == Ok::<Seq<(int, AttributesView)>, ProgramErrorView>(attributed_view(items@))
                    && (forall|i: int| 0 <= i < items@.len() ==> (#[trigger] items@[i]).0 < self@.len())
                    && (forall|i: int, j: int|
                    0 <= i < j < items@.len() ==> (#[trigger] items@[i]).0 < (#[trigger] items@[j]).0),
                Err(e) => spec_each_with_attributes(
                    self@,
                    0,
                    Seq::<(int, AttributesView)>::empty(),
                    opt_str_view(filename),
                ) == Err::<Seq<(int, AttributesView)>, ProgramErrorView>(e@),
            },
    {
        self::each_with_attributes(self, filename)
    }
}

/// Reads a list of statements with their attributes, for a change to the
/// statements.
pub trait NodeForEachWithAttributesMut<E> {
    /// The statements that are no attribute statements, each as its position
    /// with its attributes: the positions at which the list may be changed.
    fn each_with_attributes_mut(&mut self, filename: Option<&str>) -> Result<
        Vec<(usize, Attributes)>,
        ProgramError,
    >;
}

impl NodeForEachWithAttributesMut<Node> for Vec<Node> {
    fn each_with_attributes_mut(&mut self, filename: Option<&str>) -> (result: Result<
        Vec<(usize, Attributes)>,
        ProgramError,
    >)
        ensures
            *final(self) == *old(self),
            match result {
                Ok(items) => spec_each_with_attributes(
                    old(self)@,
                    0,
                    Seq::<(int, AttributesView)>::empty(),
                    opt_str_view(filename),
                ) == Ok::<Seq<(int, AttributesView)>, ProgramErrorView>(attributed_view(items@))
                    && (forall|i: int|
                    0 <= i < items@.len() ==> (#[trigger] items@[i]).0 < old(self)@.len())
                    && (forall|i: int, j: int|
                    0 <= i < j < items@.len() ==> (#[trigger] items@[i]).0 < (#[trigger] items@[j]).0),
                Err(e) => spec_each_with_attributes(
                    old(self)@,
                    0,
                    Seq::<(int, AttributesView)>::empty(),
                    opt_str_view(filename),
                ) == Err::<Seq<(int, AttributesView)>, ProgramErrorView>(e@),
            },
    {
        self::each_with_attributes(self, filename)
    }
}

/// Reads a list of statements with their attributes, consuming the list.
pub trait NodeForEachWithAttributesInto<E> {
    /// The statements that are no attribute statements, each with its
    /// attributes.
    fn each_with_attributes_into(self, filename: Option<&str>) -> Result<
        Vec<(E, Attributes)>,
        ProgramError,
    >;
}

impl NodeForEachWithAttributesInto<Node> for Vec<Node> {
    fn each_with_attributes_into(self, filename: Option<&str>) -> (result: Result<
        Vec<(Node, Attributes)>,
        ProgramError,
    >)
        ensures
            match result {
                Ok(items) => exists|positions: Seq<(int, AttributesView)>|
                    {
                        &&& #[trigger] spec_each_with_attributes(
                            self@,
                            0,
                            Seq::<(int, AttributesView)>::empty(),
                            opt_str_view(filename),
                        ) == Ok::<Seq<(int, AttributesView)>, ProgramErrorView>(positions)
                        &&& items@.len() == positions.len()
                        &&& forall|i: int|
                            0 <= i < items@.len() ==> 0 <= positions[i].0 < self@.len()
                                && (#[trigger] items@[i]).0 == self@[positions[i].0]
                                && items@[i].1@ == positions[i].1
                    },
                Err(e) => spec_each_with_attributes(
                    self@,
                    0,
                    Seq::<(int, AttributesView)>::empty(),
                    opt_str_view(filename),
                ) == Err::<Seq<(int, AttributesView)>, ProgramErrorView>(e@),
            },
    {
        let positions = self::each_with_attributes(&self, filename)?;
        let ghost pv = attributed_view(positions@);
        let ghost nodes = self@;
        let count = self.len();
        let mut items: Vec<(Node, Attributes)> = Vec::new();
        let mut p: usize = 0;
        let mut i: usize = 0;
        for node in it: self
            invariant
                count == nodes.len(),
                i == it.index,
                it.seq() == nodes,
                pv == attributed_view(positions@),
                p <= positions@.len(),
                items@.len() == p,
                forall|k: int| 0 <= k < positions@.len() ==> (#[trigger] positions@[k]).0 < nodes.len(),
                forall|k: int, j: int|
                    0 <= k < j < positions@.len() ==> (#[trigger] positions@[k]).0 < (
                    #[trigger] positions@[j]).0,
                forall|k: int| 0 <= k < p ==> (#[trigger] positions@[k]).0 < i,
                forall|k: int| p <= k < positions@.len() ==> (#[trigger] positions@[k]).0 >= i,
                forall|k: int|
                    0 <= k < items@.len() ==> (#[trigger] items@[k]).0 == nodes[pv[k].0] && items@[k].1@
                        == pv[k].1,
        {
            assert(i < count);
            if p < positions.len() && positions[p].0 == i {
                let attrs = positions[p].1.duplicate();
                assert(pv[p as int] == (positions@[p as int].0 as int, positions@[p as int].1@));
                items.push((node, attrs));
                p = p + 1;
            }
            i = i + 1;
        }
        proof {
            if p < positions@.len() {
                assert(positions@[p as int].0 >= nodes.len());
            }
            assert forall|k: int| 0 <= k < items@.len() implies 0 <= (#[trigger] pv[k]).0 < nodes.len() by {
                assert(pv[k] == (positions@[k].0 as int, positions@[k].1@));
            }
        }
        Ok(items)
    }
}

} // verus!
