//! The attribute string as a notation: a list of attributes can be written
//! down, and what is written is read as the list again.

use vstd::prelude::*;
use vstd::string::*;
use crate::attributes::{
    has_key, spec_parse_attributes, spec_parse_item, spec_parse_items, split_terminator,
    unique_keys, Attributes, AttributesView,
};
use crate::log::opt_string_view;
use crate::text::{
    first_index, is_whitespace, leading_spaces, lemma_first_index, lemma_first_index_is_first,
    split, trailing_spaces, trim,
};

verus! {

/// How one attribute is written: the key, and `=` and the value where it
/// has one.
pub open spec fn item_text(entry: (Seq<char>, Option<Seq<char>>)) -> Seq<char> {
    match entry.1 {
        Some(value) => entry.0 + seq!['='] + value,
        None => entry.0,
    }
}

/// How a list of attributes is written: each attribute, followed by `;`.
pub open spec fn spec_serialize(attrs: AttributesView) -> Seq<char>
    decreases attrs.len(),
{
    if attrs.len() == 0 {
        Seq::<char>::empty()
    } else {
        item_text(attrs[0]) + seq![';'] + spec_serialize(attrs.drop_first())
    }
}

/// Whether the characters can stand for themselves in an attribute string:
/// there is one at least, no white space at either end, and no `;` among
/// them.
pub open spec fn plain(s: Seq<char>) -> bool {
    &&& s.len() > 0
    &&& !is_whitespace(s[0])
    &&& !is_whitespace(s.last())
    &&& forall|i: int| 0 <= i < s.len() ==> s[i] != ';'
}

/// Whether the attribute is one that an attribute string can stand for: its
/// key and its value can stand for themselves, and the key holds no `=`.
pub open spec fn canonical_entry(entry: (Seq<char>, Option<Seq<char>>)) -> bool {
    &&& plain(entry.0)
    &&& forall|i: int| 0 <= i < entry.0.len() ==> entry.0[i] != '='
    &&& entry.1 matches Some(value) ==> plain(value)
}

/// Whether the list of attributes is one that an attribute string can stand
/// for.
pub open spec fn canonical(attrs: AttributesView) -> bool {
    &&& unique_keys(attrs)
    &&& forall|i: int| 0 <= i < attrs.len() ==> canonical_entry(#[trigger] attrs[i])
}

/// The attributes as they are written, one by one.
pub open spec fn items_of(attrs: AttributesView) -> Seq<Seq<char>> {
    Seq::new(attrs.len(), |i: int| item_text(attrs[i]))
}

/// Characters that can stand for themselves are trimmed already.
proof fn lemma_trim_plain(s: Seq<char>)
    requires
        s.len() > 0,
        !is_whitespace(s[0]),
        !is_whitespace(s.last()),
    ensures
        trim(s) == s,
{
    assert(s.subrange(0, s.len() as int) =~= s);
}

/// What is written for an attribute is read as the attribute.
proof fn lemma_parse_item_text(entry: (Seq<char>, Option<Seq<char>>))
    requires
        canonical_entry(entry),
    ensures
        spec_parse_item(item_text(entry)) == Some(entry),
        forall|i: int| 0 <= i < item_text(entry).len() ==> item_text(entry)[i] != ';',
{
    let raw = item_text(entry);
    let key = entry.0;
    match entry.1 {
        Some(value) => {
            assert(raw[0] == key[0]);
            assert(raw.last() == value.last());
            lemma_trim_plain(raw);
            assert forall|j: int| 0 <= j < key.len() implies raw[j] != '=' by {
                assert(raw[j] == key[j]);
            }
            assert(raw[key.len() as int] == '=');
            lemma_first_index(raw, '=', key.len() as int);
            assert(raw.take(key.len() as int) =~= key);
            assert(raw.skip(key.len() as int + 1) =~= value);
            lemma_trim_plain(key);
            lemma_trim_plain(value);
            assert forall|i: int| 0 <= i < raw.len() implies raw[i] != ';' by {
                if i < key.len() {
                    assert(raw[i] == key[i]);
                } else if i > key.len() {
                    assert(raw[i] == value[i - key.len() - 1]);
                }
            }
        },
        None => {
            lemma_trim_plain(raw);
            lemma_first_index(raw, '=', raw.len() as int);
        },
    }
}

/// What is written for a list of attributes is cut by `;` into what is
/// written for each of them, and an empty piece at the end.
proof fn lemma_split_serialized(attrs: AttributesView)
    requires
        canonical(attrs),
    ensures
        split(spec_serialize(attrs), ';') == items_of(attrs).push(Seq::<char>::empty()),
    decreases attrs.len(),
{
    let text = spec_serialize(attrs);
    if attrs.len() == 0 {
        assert(split(text, ';') =~= seq![text]);
        assert(items_of(attrs).push(Seq::<char>::empty()) =~= seq![text]);
    } else {
        let rest = attrs.drop_first();
        let item = item_text(attrs[0]);
        assert(canonical(rest)) by {
            assert forall|i: int| 0 <= i < rest.len() implies canonical_entry(#[trigger] rest[i]) by {
                assert(rest[i] == attrs[i + 1]);
            }
            assert forall|i: int, j: int| 0 <= i < j < rest.len() implies rest[i].0 != rest[j].0 by {
                assert(rest[i] == attrs[i + 1]);
                assert(rest[j] == attrs[j + 1]);
            }
        }
        lemma_split_serialized(rest);
        lemma_parse_item_text(attrs[0]);
        assert forall|j: int| 0 <= j < item.len() implies text[j] != ';' by {
            assert(text[j] == item[j]);
        }
        assert(text[item.len() as int] == ';');
        lemma_first_index(text, ';', item.len() as int);
        assert(text.take(item.len() as int) =~= item);
        assert(text.skip(item.len() as int + 1) =~= spec_serialize(rest));
        assert(split(text, ';') =~= seq![item] + split(spec_serialize(rest), ';'));
        assert(seq![item] + items_of(rest).push(Seq::<char>::empty()) =~= items_of(attrs).push(
            Seq::<char>::empty(),
        )) by {
            let left = seq![item] + items_of(rest).push(Seq::<char>::empty());
            let right = items_of(attrs).push(Seq::<char>::empty());
            assert(left.len() == right.len());
            assert forall|i: int| 0 <= i < left.len() implies left[i] == right[i] by {
                if 0 < i < left.len() - 1 {
                    assert(rest[i - 1] == attrs[i]);
                }
            }
        }
    }
}

/// What is written for each attribute of a list is read as the list.
proof fn lemma_parse_items_of(attrs: AttributesView)
    requires
        canonical(attrs),
    ensures
        spec_parse_items(items_of(attrs)) == Some(attrs),
    decreases attrs.len(),
{
    if attrs.len() == 0 {
        assert(attrs =~= AttributesView::empty());
    } else {
        let front = attrs.drop_last();
        assert(canonical(front)) by {
            assert forall|i: int| 0 <= i < front.len() implies canonical_entry(#[trigger] front[i]) by {
                assert(front[i] == attrs[i]);
            }
            assert forall|i: int, j: int| 0 <= i < j < front.len() implies front[i].0 != front[j].0 by {
                assert(front[i] == attrs[i]);
                assert(front[j] == attrs[j]);
            }
        }
        lemma_parse_items_of(front);
        assert(items_of(attrs).drop_last() =~= items_of(front));
        assert(items_of(attrs).last() == item_text(attrs.last()));
        lemma_parse_item_text(attrs.last());
        assert(!has_key(front, attrs.last().0)) by {
            if has_key(front, attrs.last().0) {
                let i = choose|i: int| 0 <= i < front.len() && (#[trigger] front[i]).0 == attrs.last().0;
                assert(front[i] == attrs[i]);
                assert(attrs[i].0 != attrs[attrs.len() - 1].0);
            }
        }
        assert(front.push(attrs.last()) =~= attrs);
    }
}

/// A list of attributes that is written down is read as the same list.
pub proof fn law_serialized_is_read_back(attrs: AttributesView)
    requires
        canonical(attrs),
    ensures
        spec_parse_attributes(spec_serialize(attrs)) == Some(attrs),
{
    lemma_split_serialized(attrs);
    let pieces = split(spec_serialize(attrs), ';');
    assert(pieces.last().len() == 0);
    assert(pieces.drop_last() =~= items_of(attrs));
    lemma_parse_items_of(attrs);
}

/// No piece that a separator cuts a sequence into holds the separator.
proof fn lemma_split_no_sep(s: Seq<char>, sep: char)
    ensures
        split(s, sep).len() >= 1,
        forall|i: int, j: int|
            0 <= i < split(s, sep).len() && 0 <= j < split(s, sep)[i].len() ==> (
            #[trigger] split(s, sep)[i][j]) != sep,
    decreases s.len(),
{
    let at = first_index(s, sep);
    lemma_first_index_is_first(s, sep);
    if at < 0 || at >= s.len() {
    } else {
        let rest = s.skip(at + 1);
        lemma_split_no_sep(rest, sep);
        let pieces = split(s, sep);
        assert(pieces =~= seq![s.take(at)] + split(rest, sep));
        assert forall|i: int, j: int|
            0 <= i < pieces.len() && 0 <= j < pieces[i].len() implies (#[trigger] pieces[i][j])
            != sep by {
            if i == 0 {
                assert(pieces[0][j] == s[j]);
            } else {
                assert(pieces[i] == split(rest, sep)[i - 1]);
            }
        }
    }
}

/// The white space that a sequence starts with ends before the sequence
/// does, or at a character that is none.
proof fn lemma_leading(s: Seq<char>)
    ensures
        0 <= leading_spaces(s) <= s.len(),
        leading_spaces(s) < s.len() ==> !is_whitespace(s[leading_spaces(s)]),
    decreases s.len(),
{
    if s.len() > 0 && is_whitespace(s[0]) {
        lemma_leading(s.drop_first());
        let rest = s.drop_first();
        if leading_spaces(rest) < rest.len() {
            assert(rest[leading_spaces(rest)] == s[leading_spaces(rest) + 1]);
        }
    }
}

/// The white space that a sequence ends with is white space, and starts
/// behind a character that is none, or with the sequence.
proof fn lemma_trailing(s: Seq<char>)
    ensures
        0 <= trailing_spaces(s) <= s.len(),
        trailing_spaces(s) < s.len() ==> !is_whitespace(s[s.len() - 1 - trailing_spaces(s)]),
        forall|j: int| s.len() - trailing_spaces(s) <= j < s.len() ==> is_whitespace(s[j]),
    decreases s.len(),
{
    if s.len() > 0 && is_whitespace(s.last()) {
        let front = s.drop_last();
        lemma_trailing(front);
        if trailing_spaces(front) < front.len() {
            assert(front[front.len() - 1 - trailing_spaces(front)] == s[s.len() - 1 - trailing_spaces(
                s,
            )]);
        }
        assert forall|j: int| s.len() - trailing_spaces(s) <= j < s.len() implies is_whitespace(
            s[j],
        ) by {
            if j < s.len() - 1 {
                assert(front[j] == s[j]);
            }
        }
    }
}

/// What trimming leaves is a stretch of the sequence that neither starts
/// nor ends with white space.
proof fn lemma_trim(s: Seq<char>)
    ensures
        trim(s).len() > 0 ==> !is_whitespace(trim(s)[0]) && !is_whitespace(trim(s).last()),
        exists|lo: int|
            0 <= lo && lo + trim(s).len() <= s.len() && trim(s) == #[trigger] s.subrange(
                lo,
                lo + trim(s).len(),
            ),
{
    lemma_leading(s);
    lemma_trailing(s);
    let lead = leading_spaces(s);
    let trail = trailing_spaces(s);
    if lead == s.len() {
        assert(trim(s).len() == 0);
        assert(trim(s) =~= s.subrange(0int, 0int + trim(s).len()));
    } else {
        if trail > s.len() - 1 - lead {
            assert(is_whitespace(s[lead]));
        }
        let t = trim(s);
        assert(t == s.subrange(lead, s.len() - trail));
        assert(t[0] == s[lead]);
        assert(t.last() == s[s.len() - trail - 1]);
        assert(t == s.subrange(lead, lead + t.len()));
    }
}

/// What trimming leaves holds no character that the sequence does not hold.
proof fn lemma_trim_without(s: Seq<char>, c: char)
    requires
        forall|i: int| 0 <= i < s.len() ==> s[i] != c,
    ensures
        forall|i: int| 0 <= i < trim(s).len() ==> trim(s)[i] != c,
{
    lemma_trim(s);
    let t = trim(s);
    let lo = choose|lo: int|
        0 <= lo && lo + t.len() <= s.len() && t == #[trigger] s.subrange(lo, lo + t.len());
    assert forall|i: int| 0 <= i < t.len() implies t[i] != c by {
        assert(t[i] == s[lo + i]);
    }
}

/// An attribute that is read from an item without `;` is one that an
/// attribute string can stand for.
proof fn lemma_item_canonical(raw: Seq<char>)
    requires
        spec_parse_item(raw) is Some,
        forall|i: int| 0 <= i < raw.len() ==> raw[i] != ';',
    ensures
        canonical_entry(spec_parse_item(raw)->0),
{
    let item = trim(raw);
    lemma_trim(raw);
    lemma_trim_without(raw, ';');
    let eq = first_index(item, '=');
    lemma_first_index_is_first(item, '=');
    if 0 <= eq < item.len() {
        let before = item.take(eq);
        let after = item.skip(eq + 1);
        assert forall|i: int| 0 <= i < before.len() implies before[i] != ';' by {
            assert(before[i] == item[i]);
        }
        assert forall|i: int| 0 <= i < before.len() implies before[i] != '=' by {
            assert(before[i] == item[i]);
        }
        assert forall|i: int| 0 <= i < after.len() implies after[i] != ';' by {
            assert(after[i] == item[i + eq + 1]);
        }
        lemma_trim(before);
        lemma_trim(after);
        lemma_trim_without(before, ';');
        lemma_trim_without(before, '=');
        lemma_trim_without(after, ';');
    } else {
    }
}

/// The attributes that are read from items are as many as the items, each
/// is read from its item, and no two have one key.
proof fn lemma_parse_items_each(items: Seq<Seq<char>>)
    requires
        spec_parse_items(items) is Some,
    ensures
        spec_parse_items(items)->0.len() == items.len(),
        unique_keys(spec_parse_items(items)->0),
        forall|i: int|
            0 <= i < items.len() ==> spec_parse_item(#[trigger] items[i]) == Some(
                spec_parse_items(items)->0[i],
            ),
    decreases items.len(),
{
    if items.len() > 0 {
        let front = items.drop_last();
        lemma_parse_items_each(front);
        let before = spec_parse_items(front)->0;
        let entry = spec_parse_item(items.last())->0;
        let all = spec_parse_items(items)->0;
        assert(all == before.push(entry));
        assert forall|i: int, j: int| 0 <= i < j < all.len() implies all[i].0 != all[j].0 by {
            if j == before.len() {
                assert(before[i].0 != entry.0);
            } else {
                assert(all[i] == before[i]);
                assert(all[j] == before[j]);
            }
        }
        assert forall|i: int| 0 <= i < items.len() implies spec_parse_item(#[trigger] items[i])
            == Some(all[i]) by {
            if i < front.len() {
                assert(items[i] == front[i]);
                assert(all[i] == before[i]);
            }
        }
    }
}

/// The attributes that are read from an attribute string are such that an
/// attribute string can stand for them.
pub proof fn law_read_is_canonical(text: Seq<char>)
    requires
        spec_parse_attributes(text) is Some,
    ensures
        canonical(spec_parse_attributes(text)->0),
{
    let pieces = split(text, ';');
    let items = split_terminator(text, ';');
    let attrs = spec_parse_attributes(text)->0;
    lemma_split_no_sep(text, ';');
    lemma_parse_items_each(items);
    assert forall|i: int| 0 <= i < attrs.len() implies canonical_entry(#[trigger] attrs[i]) by {
        assert(items[i] == pieces[i]);
        assert forall|j: int| 0 <= j < items[i].len() implies items[i][j] != ';' by {
            assert(pieces[i][j] != ';');
        }
        assert(spec_parse_item(items[i]) == Some(attrs[i]));
        lemma_item_canonical(items[i]);
    }
}

/// Reading is idempotent under writing: the attributes that are read from
/// an attribute string, written down and read again, are the same.
pub proof fn law_reparse_is_identity(text: Seq<char>)
    requires
        spec_parse_attributes(text) is Some,
    ensures
        spec_parse_attributes(spec_serialize(spec_parse_attributes(text)->0))
            == spec_parse_attributes(text),
{
    law_read_is_canonical(text);
    law_serialized_is_read_back(spec_parse_attributes(text)->0);
}

/// Writes a list of attributes down as an attribute string.
pub fn serialize_attributes(attrs: &Attributes) -> (text: String)
    ensures
        text@ == spec_serialize(attrs@),
{
    let mut text = String::new();
    let mut i: usize = attrs.entries.len();
    let ghost view = attrs@;
    assert(view.skip(i as int) =~= AttributesView::empty());
    proof {
        reveal_strlit("=");
        reveal_strlit(";");
    }
    while i > 0
        invariant
            i <= attrs.entries@.len(),
            view == attrs@,
            text@ == spec_serialize(view.skip(i as int)),
        decreases i,
    {
        i = i - 1;
        let mut item = String::new();
        item.append(attrs.entries[i].0.as_str());
        match &attrs.entries[i].1 {
            Some(value) => {
                item.append("=");
                item.append(value.as_str());
            },
            None => {},
        }
        item.append(";");
        item.append(text.as_str());
        proof {
            reveal_strlit("=");
            reveal_strlit(";");
            assert("="@ =~= seq!['=']);
            assert(";"@ =~= seq![';']);
            let rest = view.skip(i as int);
            assert(rest[0] == view[i as int]);
            assert(rest.drop_first() =~= view.skip(i + 1));
            assert(view[i as int] == (attrs.entries@[i as int].0@, opt_string_view(attrs.entries@[i as int].1)));
            assert(item@ =~= item_text(rest[0]) + seq![';'] + spec_serialize(rest.drop_first()));
        }
        text = item;
    }
    assert(view.skip(0) =~= view);
    text
}

} // verus!
