//! Constraints on the parameters of a direct function.
//!
//! A constraint is written as a list of items with `,` between them; an item
//! is the name of a parameter, `:`, and the name of a type. White space
//! around names does not count. The types are `any`, `undefined`, `number`,
//! `boolean`, `string` and `function`. No parameter may be named twice.

use vstd::prelude::*;
use crate::text::{
    chars_of, find_char, first_index, range_eq, ranges_of, ranges_within, split, split_ranges,
    str_eq, substring, trim, trim_range,
};
use crate::vartype::VarType;

verus! {

/// The mathematical value of a list of constraints: names of parameters,
/// each with its type.
pub type ConstraintsView = Seq<(Seq<char>, VarType)>;

/// The type of the parameter under the constraints: the type that the first
/// entry with its name gives, and `Any` where it has none.
pub open spec fn constrained_type(constraints: ConstraintsView, name: Seq<char>) -> VarType
    decreases constraints.len(),
{
    if constraints.len() == 0 {
        VarType::Any
    } else if constraints[0].0 == name {
        constraints[0].1
    } else {
        constrained_type(constraints.drop_first(), name)
    }
}

/// Whether the constraints name the parameter.
pub open spec fn constrains(constraints: ConstraintsView, name: Seq<char>) -> bool {
    exists|i: int| 0 <= i < constraints.len() && (#[trigger] constraints[i]).0 == name
}

/// The type that the name stands for.
pub open spec fn spec_type_of_name(name: Seq<char>) -> Option<VarType> {
    if name == "any"@ {
        Some(VarType::Any)
    } else if name == "undefined"@ {
        Some(VarType::Undefined)
    } else if name == "number"@ {
        Some(VarType::Number)
    } else if name == "boolean"@ {
        Some(VarType::Boolean)
    } else if name == "string"@ {
        Some(VarType::String)
    } else if name == "function"@ {
        Some(VarType::Func)
    } else {
        None
    }
}

/// Why a constraint is refused: an item is not a name, `:` and a type.
pub const REASON_SHAPE: &'static str = "Constraint item must be of the form 'name: type'";

/// Why a constraint is refused: the type of an item is no type.
pub const REASON_TYPE: &'static str = "Unknown type name in the 'constraint' attribute";

/// Why a constraint is refused: two items name the same parameter.
pub const REASON_TWICE: &'static str = "Parameter name specified twice in the 'constraint' attribute";

/// The name and the type that one item of a constraint stands for, or the
/// reason why it stands for none.
pub open spec fn spec_parse_constraint_item(raw: Seq<char>) -> Result<(Seq<char>, VarType), Seq<char>> {
    let colon = first_index(raw, ':');
    if 0 <= colon < raw.len() {
        let name = trim(raw.take(colon));
        if name.len() == 0 {
            Err(REASON_SHAPE@)
        } else {
            match spec_type_of_name(trim(raw.skip(colon + 1))) {
                Some(t) => Ok((name, t)),
                None => Err(REASON_TYPE@),
            }
        }
    } else {
        Err(REASON_SHAPE@)
    }
}

/// The constraints that the items stand for, or the reason why the first
/// item that is refused is refused.
pub open spec fn spec_parse_constraint_items(items: Seq<Seq<char>>) -> Result<ConstraintsView, Seq<char>>
    decreases items.len(),
{
    if items.len() == 0 {
        Ok(ConstraintsView::empty())
    } else {
        match spec_parse_constraint_items(items.drop_last()) {
            Err(reason) => Err(reason),
            Ok(before) => match spec_parse_constraint_item(items.last()) {
                Err(reason) => Err(reason),
                Ok(entry) => if constrains(before, entry.0) {
                    Err(REASON_TWICE@)
                } else {
                    Ok(before.push(entry))
                },
            },
        }
    }
}

/// The constraints that the text stands for, or the reason why it stands
/// for none.
pub open spec fn spec_parse_constraint(text: Seq<char>) -> Result<ConstraintsView, Seq<char>> {
    spec_parse_constraint_items(split(text, ','))
}

/// The mathematical value of a list of constraints.
pub open spec fn constraints_view(c: Seq<(String, VarType)>) -> ConstraintsView {
    Seq::new(c.len(), |i: int| (c[i].0@, c[i].1))
}

/// The mathematical value of the result of reading a constraint.
pub open spec fn constraint_result_view(r: Result<Vec<(String, VarType)>, &'static str>) -> Result<
    ConstraintsView,
    Seq<char>,
> {
    match r {
        Ok(c) => Ok(constraints_view(c@)),
        Err(reason) => Err(reason@),
    }
}

/// Items that start with items which are refused are refused for the same
/// reason.
proof fn lemma_constraint_items_prefix(items: Seq<Seq<char>>, n: int)
    requires
        0 <= n <= items.len(),
        spec_parse_constraint_items(items.take(n)) is Err,
    ensures
        spec_parse_constraint_items(items) == spec_parse_constraint_items(items.take(n)),
    decreases items.len() - n,
{
    if n == items.len() {
        assert(items.take(n) =~= items);
    } else {
        assert(items.take(n + 1).drop_last() =~= items.take(n));
        lemma_constraint_items_prefix(items, n + 1);
    }
}

/// The type that the part of `chars` from `start` to `end` names.
fn type_of_name(chars: &Vec<char>, start: usize, end: usize) -> (t: Option<VarType>)
    requires
        start <= end <= chars@.len(),
    ensures
        t == spec_type_of_name(chars@.subrange(start as int, end as int)),
{
    if range_eq(chars, start, end, "any") {
        Some(VarType::Any)
    } else if range_eq(chars, start, end, "undefined") {
        Some(VarType::Undefined)
    } else if range_eq(chars, start, end, "number") {
        Some(VarType::Number)
    } else if range_eq(chars, start, end, "boolean") {
        Some(VarType::Boolean)
    } else if range_eq(chars, start, end, "string") {
        Some(VarType::String)
    } else if range_eq(chars, start, end, "function") {
        Some(VarType::Func)
    } else {
        None
    }
}

/// The position of the first constraint on the parameter.
pub fn constraint_position(constraints: &Vec<(String, VarType)>, name: &str) -> (at: Option<usize>)
    ensures
        match at {
            Some(i) => i < constraints@.len() && constraints@[i as int].0@ == name@ && forall|
                j: int,
            |
                0 <= j < i ==> constraints@[j].0@ != name@,
            None => !constrains(constraints_view(constraints@), name@),
        },
{
    let mut i: usize = 0;
    while i < constraints.len()
        invariant
            i <= constraints@.len(),
            forall|j: int| 0 <= j < i ==> constraints@[j].0@ != name@,
        decreases constraints@.len() - i,
    {
        if str_eq(constraints[i].0.as_str(), name) {
            return Some(i);
        }
        i = i + 1;
    }
    proof {
        if constrains(constraints_view(constraints@), name@) {
            let k = choose|k: int|
                0 <= k < constraints_view(constraints@).len() && (#[trigger] constraints_view(
                    constraints@,
                )[k]).0 == name@;
            assert(constraints@[k].0@ == name@);
        }
    }
    None
}

/// The type of the parameter under the constraints, and `Any` where they do
/// not name it.
pub fn type_of_param(constraints: &Vec<(String, VarType)>, name: &str) -> (t: VarType)
    ensures
        t == constrained_type(constraints_view(constraints@), name@),
{
    let ghost view = constraints_view(constraints@);
    let mut i: usize = 0;
    assert(view.skip(0) =~= view);
    while i < constraints.len()
        invariant
            i <= constraints@.len(),
            view == constraints_view(constraints@),
            constrained_type(view, name@) == constrained_type(view.skip(i as int), name@),
        decreases constraints@.len() - i,
    {
        proof {
            assert(view.skip(i as int)[0] == view[i as int]);
            assert(view.skip(i as int).drop_first() =~= view.skip(i + 1));
        }
        if str_eq(constraints[i].0.as_str(), name) {
            return constraints[i].1;
        }
        i = i + 1;
    }
    VarType::Any
}

/// Reads a constraint: the types that it gives to parameters, by name.
pub fn parse_constraint(text: &str) -> (result: Result<Vec<(String, VarType)>, &'static str>)
    ensures
        constraint_result_view(result) == spec_parse_constraint(text@),
{
    let chars = chars_of(text);
    let ranges = split_ranges(&chars, 0, chars.len(), ',');
    assert(chars@.subrange(0, chars@.len() as int) =~= text@);
    let ghost items = split(text@, ',');
    let mut ret: Vec<(String, VarType)> = Vec::new();
    let mut k: usize = 0;
    assert(constraints_view(ret@) =~= ConstraintsView::empty());
    while k < ranges.len()
        invariant
            k <= ranges@.len(),
            chars@ == text@,
            items == split(text@, ','),
            items == ranges_of(chars@, ranges@),
            ranges_within(ranges@, 0, chars@.len() as int),
            spec_parse_constraint_items(items.take(k as int)) == Ok::<ConstraintsView, Seq<char>>(
                constraints_view(ret@),
            ),
        decreases ranges@.len() - k,
    {
        let (a, b) = ranges[k];
        let ghost raw = chars@.subrange(a as int, b as int);
        proof {
            assert(items.take(k + 1).drop_last() =~= items.take(k as int));
            assert(items.take(k + 1).last() == raw);
        }
        let colon = find_char(&chars, a, b, ':');
        if colon == b {
            proof {
                lemma_constraint_items_prefix(items, k + 1);
            }
            return Err(REASON_SHAPE);
        }
        let (nlo, nhi) = trim_range(&chars, a, colon);
        let (tlo, thi) = trim_range(&chars, colon + 1, b);
        proof {
            assert(raw.take(colon - a) =~= chars@.subrange(a as int, colon as int));
            assert(raw.skip(colon - a + 1) =~= chars@.subrange(colon + 1, b as int));
        }
        if nlo == nhi {
            proof {
                lemma_constraint_items_prefix(items, k + 1);
            }
            return Err(REASON_SHAPE);
        }
        let t = match type_of_name(&chars, tlo, thi) {
            Some(t) => t,
            None => {
                proof {
                    lemma_constraint_items_prefix(items, k + 1);
                }
                return Err(REASON_TYPE);
            },
        };
        let name = substring(text, nlo, nhi);
        if let Some(i) = constraint_position(&ret, name.as_str()) {
            proof {
                assert(constraints_view(ret@)[i as int].0 == name@);
                lemma_constraint_items_prefix(items, k + 1);
            }
            return Err(REASON_TWICE);
        }
        let ghost before = constraints_view(ret@);
        ret.push((name, t));
        assert(constraints_view(ret@) =~= before.push((name@, t)));
        k = k + 1;
    }
    assert(items.take(k as int) =~= items);
    Ok(ret)
}

} // verus!
