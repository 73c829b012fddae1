//! Strings as sequences of characters: comparison, search, trimming, and
//! lengths in bytes.

use vstd::prelude::*;

verus! {

/// The characters of a string slice, in order.
pub fn chars_of(s: &str) -> (chars: Vec<char>)
    ensures
        chars@ == s@,
{
    let mut chars: Vec<char> = Vec::new();
    for c in it: s.chars()
        invariant
            chars@ == it.seq().take(it.index as int),
    {
        chars.push(c);
    }
    chars
}

/// Whether two sequences of characters are the same.
pub fn chars_eq(a: &Vec<char>, b: &Vec<char>) -> (same: bool)
    ensures
        same == (a@ == b@),
{
    if a.len() != b.len() {
        return false;
    }
    let mut i: usize = 0;
    while i < a.len()
        invariant
            a@.len() == b@.len(),
            i <= a@.len(),
            forall|j: int| 0 <= j < i ==> a@[j] == b@[j],
        decreases a@.len() - i,
    {
        if a[i] != b[i] {
            return false;
        }
        i = i + 1;
    }
    assert(a@ =~= b@);
    true
}

/// Whether two string slices hold the same characters.
pub fn str_eq(a: &str, b: &str) -> (same: bool)
    ensures
        same == (a@ == b@),
{
    let ca = chars_of(a);
    let cb = chars_of(b);
    chars_eq(&ca, &cb)
}

/// Whether the part of `chars` from `start` to `end` holds the characters of
/// `word`.
pub fn range_eq(chars: &Vec<char>, start: usize, end: usize, word: &str) -> (same: bool)
    requires
        start <= end <= chars@.len(),
    ensures
        same == (chars@.subrange(start as int, end as int) == word@),
{
    let w = chars_of(word);
    if w.len() != end - start {
        return false;
    }
    let mut i: usize = 0;
    while i < w.len()
        invariant
            start <= end <= chars@.len(),
            w@ == word@,
            w@.len() == end - start,
            i <= w@.len(),
            forall|j: int| 0 <= j < i ==> chars@[start + j] == w@[j],
        decreases w@.len() - i,
    {
        if chars[start + i] != w[i] {
            assert(chars@.subrange(start as int, end as int)[i as int] == chars@[start + i]);
            assert(w@ == word@);
            return false;
        }
        i = i + 1;
    }
    assert(chars@.subrange(start as int, end as int) =~= w@);
    true
}

/// A string with the characters of the part of `text` from `start` to `end`.
pub fn substring(text: &str, start: usize, end: usize) -> (s: String)
    requires
        start <= end <= text@.len(),
    ensures
        s@ == text@.subrange(start as int, end as int),
{
    text.substring_char(start, end).to_owned()
}

/// Whether the character is white space: the characters that trimming
/// removes.
pub open spec fn is_whitespace(c: char) -> bool {
    let u = c as u32;
    ||| 0x09 <= u <= 0x0d
    ||| u == 0x20
    ||| u == 0x85
    ||| u == 0xa0
    ||| u == 0x1680
    ||| 0x2000 <= u <= 0x200a
    ||| u == 0x2028
    ||| u == 0x2029
    ||| u == 0x202f
    ||| u == 0x205f
    ||| u == 0x3000
}

/// Whether the character is white space.
pub fn is_space(c: char) -> (r: bool)
    ensures
        r == is_whitespace(c),
{
    let u: u32 = c as u32;
    (0x09 <= u && u <= 0x0d) || u == 0x20 || u == 0x85 || u == 0xa0 || u == 0x1680 || (0x2000 <= u
        && u <= 0x200a) || u == 0x2028 || u == 0x2029 || u == 0x202f || u == 0x205f || u == 0x3000
}

/// The position of the first `c` in `s`; the length of `s` where there is
/// none.
pub open spec fn first_index(s: Seq<char>, c: char) -> int
    decreases s.len(),
{
    if s.len() == 0 {
        0
    } else if s[0] == c {
        0
    } else {
        1 + first_index(s.drop_first(), c)
    }
}

/// The position of the first `c` is the only one that holds `c`, or ends the
/// sequence, with no `c` before it.
pub proof fn lemma_first_index(s: Seq<char>, c: char, k: int)
    requires
        0 <= k <= s.len(),
        forall|j: int| 0 <= j < k ==> s[j] != c,
        k < s.len() ==> s[k] == c,
    ensures
        first_index(s, c) == k,
    decreases s.len(),
{
    if s.len() == 0 || k == 0 {
    } else {
        assert(s[0] != c);
        let rest = s.drop_first();
        assert forall|j: int| 0 <= j < k - 1 implies rest[j] != c by {
            assert(rest[j] == s[j + 1]);
        }
        lemma_first_index(rest, c, k - 1);
    }
}

/// The position of the first `c` lies in the sequence or at its end, holds
/// `c` where it lies in the sequence, and no `c` comes before it.
pub proof fn lemma_first_index_is_first(s: Seq<char>, c: char)
    ensures
        0 <= first_index(s, c) <= s.len(),
        forall|j: int| 0 <= j < first_index(s, c) ==> s[j] != c,
        first_index(s, c) < s.len() ==> s[first_index(s, c)] == c,
    decreases s.len(),
{
    if s.len() == 0 || s[0] == c {
    } else {
        let rest = s.drop_first();
        lemma_first_index_is_first(rest, c);
        assert forall|j: int| 0 <= j < first_index(s, c) implies s[j] != c by {
            if j > 0 {
                assert(rest[j - 1] == s[j]);
            }
        }
    }
}

/// The position of the first `c` in the part of `chars` from `start` to
/// `end`; `end` where there is none.
pub fn find_char(chars: &Vec<char>, start: usize, end: usize, c: char) -> (at: usize)
    requires
        start <= end <= chars@.len(),
    ensures
        start <= at <= end,
        at == start + first_index(chars@.subrange(start as int, end as int), c),
{
    let mut i: usize = start;
    while i < end && chars[i] != c
        invariant
            start <= i <= end <= chars@.len(),
            forall|j: int| start <= j < i ==> chars@[j] != c,
        decreases end - i,
    {
        i = i + 1;
    }
    proof {
        let part = chars@.subrange(start as int, end as int);
        lemma_first_index(part, c, i - start);
    }
    i
}

/// The number of white-space characters that `s` starts with.
pub open spec fn leading_spaces(s: Seq<char>) -> int
    decreases s.len(),
{
    if s.len() == 0 || !is_whitespace(s[0]) {
        0
    } else {
        1 + leading_spaces(s.drop_first())
    }
}

/// The number of white-space characters that `s` ends with.
pub open spec fn trailing_spaces(s: Seq<char>) -> int
    decreases s.len(),
{
    if s.len() == 0 || !is_whitespace(s.last()) {
        0
    } else {
        1 + trailing_spaces(s.drop_last())
    }
}

/// The sequence without the white space that it starts and ends with.
pub open spec fn trim(s: Seq<char>) -> Seq<char> {
    let lead = leading_spaces(s);
    if lead == s.len() {
        Seq::<char>::empty()
    } else {
        s.subrange(lead, s.len() - trailing_spaces(s))
    }
}

/// The number of leading white-space characters is the position of the
/// first character that is none.
pub proof fn lemma_leading_spaces(s: Seq<char>, k: int)
    requires
        0 <= k <= s.len(),
        forall|j: int| 0 <= j < k ==> is_whitespace(s[j]),
        k < s.len() ==> !is_whitespace(s[k]),
    ensures
        leading_spaces(s) == k,
    decreases s.len(),
{
    if s.len() == 0 || k == 0 {
    } else {
        assert(is_whitespace(s[0]));
        let rest = s.drop_first();
        assert forall|j: int| 0 <= j < k - 1 implies is_whitespace(rest[j]) by {
            assert(rest[j] == s[j + 1]);
        }
        lemma_leading_spaces(rest, k - 1);
    }
}

/// The number of trailing white-space characters is the distance from the
/// end of the last character that is none.
pub proof fn lemma_trailing_spaces(s: Seq<char>, k: int)
    requires
        0 <= k <= s.len(),
        forall|j: int| s.len() - k <= j < s.len() ==> is_whitespace(s[j]),
        k < s.len() ==> !is_whitespace(s[s.len() - k - 1]),
    ensures
        trailing_spaces(s) == k,
    decreases s.len(),
{
    if s.len() == 0 || k == 0 {
    } else {
        assert(is_whitespace(s.last()));
        let rest = s.drop_last();
        assert forall|j: int| rest.len() - (k - 1) <= j < rest.len() implies is_whitespace(
            rest[j],
        ) by {
            assert(rest[j] == s[j]);
        }
        lemma_trailing_spaces(rest, k - 1);
    }
}

/// The bounds of the part of `chars` from `start` to `end` without the white
/// space that it starts and ends with.
pub fn trim_range(chars: &Vec<char>, start: usize, end: usize) -> (bounds: (usize, usize))
    requires
        start <= end <= chars@.len(),
    ensures
        start <= bounds.0 <= bounds.1 <= end,
        chars@.subrange(bounds.0 as int, bounds.1 as int) == trim(
            chars@.subrange(start as int, end as int),
        ),
{
    let ghost part = chars@.subrange(start as int, end as int);
    let mut lo: usize = start;
    while lo < end && is_space(chars[lo])
        invariant
            start <= lo <= end <= chars@.len(),
            forall|j: int| start <= j < lo ==> is_whitespace(chars@[j]),
        decreases end - lo,
    {
        lo = lo + 1;
    }
    proof {
        lemma_leading_spaces(part, lo - start);
    }
    if lo == end {
        assert(chars@.subrange(lo as int, lo as int) =~= Seq::<char>::empty());
        return (lo, lo);
    }
    let mut hi: usize = end;
    while hi > lo && is_space(chars[hi - 1])
        invariant
            start <= lo < end <= chars@.len(),
            lo <= hi <= end,
            !is_whitespace(chars@[lo as int]),
            forall|j: int| hi <= j < end ==> is_whitespace(chars@[j]),
        decreases hi - lo,
    {
        hi = hi - 1;
    }
    proof {
        assert(hi > lo);
        lemma_trailing_spaces(part, end - hi);
        assert(chars@.subrange(lo as int, hi as int) =~= part.subrange(
            lo - start,
            part.len() - (end - hi),
        ));
    }
    (lo, hi)
}

/// The number of bytes that the character takes in UTF-8.
pub open spec fn utf8_len(c: char) -> int {
    let u = c as u32;
    if u < 0x80 {
        1
    } else if u < 0x800 {
        2
    } else if u < 0x10000 {
        3
    } else {
        4
    }
}

/// The number of bytes that the characters take in UTF-8.
pub open spec fn byte_len(s: Seq<char>) -> int
    decreases s.len(),
{
    if s.len() == 0 {
        0
    } else {
        byte_len(s.drop_last()) + utf8_len(s.last())
    }
}

/// The smaller of the number and the largest `i32`.
pub open spec fn clamp_i32(n: int) -> i32 {
    if n > i32::MAX {
        i32::MAX
    } else {
        n as i32
    }
}

/// The number of bytes that the part of `chars` from `start` to `end` takes
/// in UTF-8, or the largest `i32` where it takes more.
pub fn byte_len_of(chars: &Vec<char>, start: usize, end: usize) -> (n: i32)
    requires
        start <= end <= chars@.len(),
    ensures
        n == clamp_i32(byte_len(chars@.subrange(start as int, end as int))),
{
    let mut n: i32 = 0;
    let mut i: usize = start;
    while i < end
        invariant
            start <= i <= end <= chars@.len(),
            0 <= n,
            n == clamp_i32(byte_len(chars@.subrange(start as int, i as int))),
            byte_len(chars@.subrange(start as int, i as int)) >= 0,
        decreases end - i,
    {
        let u: u32 = chars[i] as u32;
        let w: i32 = if u < 0x80 {
            1
        } else if u < 0x800 {
            2
        } else if u < 0x10000 {
            3
        } else {
            4
        };
        proof {
            let next = chars@.subrange(start as int, i + 1);
            assert(next.drop_last() =~= chars@.subrange(start as int, i as int));
            assert(next.last() == chars@[i as int]);
        }
        n = if n > i32::MAX - w {
            i32::MAX
        } else {
            n + w
        };
        i = i + 1;
    }
    n
}

/// The pieces that the separator cuts the sequence into: one more than there
/// are separators in it.
pub open spec fn split(s: Seq<char>, sep: char) -> Seq<Seq<char>>
    decreases s.len(),
{
    let i = first_index(s, sep);
    if i < 0 || i >= s.len() {
        seq![s]
    } else {
        seq![s.take(i)] + split(s.skip(i + 1), sep)
    }
}

/// The parts of `s` that the pairs of bounds mark.
pub open spec fn ranges_of(s: Seq<char>, ranges: Seq<(usize, usize)>) -> Seq<Seq<char>> {
    Seq::new(ranges.len(), |i: int| s.subrange(ranges[i].0 as int, ranges[i].1 as int))
}

/// Whether each pair of bounds marks a part of the stretch from `start` to
/// `end`.
pub open spec fn ranges_within(ranges: Seq<(usize, usize)>, start: int, end: int) -> bool {
    forall|i: int|
        0 <= i < ranges.len() ==> start <= (#[trigger] ranges[i]).0 <= ranges[i].1 <= end
}

/// The bounds of the pieces that the separator cuts the part of `chars` from
/// `start` to `end` into.
pub fn split_ranges(chars: &Vec<char>, start: usize, end: usize, sep: char) -> (ranges: Vec<
    (usize, usize),
>)
    requires
        start <= end <= chars@.len(),
    ensures
        ranges@.len() >= 1,
        ranges_within(ranges@, start as int, end as int),
        ranges_of(chars@, ranges@) == split(chars@.subrange(start as int, end as int), sep),
{
    let ghost whole = chars@.subrange(start as int, end as int);
    let mut ranges: Vec<(usize, usize)> = Vec::new();
    let mut pos: usize = start;
    loop
        invariant
            start <= pos <= end <= chars@.len(),
            whole == chars@.subrange(start as int, end as int),
            ranges_within(ranges@, start as int, end as int),
            split(whole, sep) == ranges_of(chars@, ranges@) + split(
                chars@.subrange(pos as int, end as int),
                sep,
            ),
        decreases end - pos,
    {
        let at = find_char(chars, pos, end, sep);
        let ghost rest = chars@.subrange(pos as int, end as int);
        let ghost before = ranges@;
        ranges.push((pos, at));
        proof {
            assert(ranges_of(chars@, ranges@) =~= ranges_of(chars@, before).push(
                chars@.subrange(pos as int, at as int),
            ));
        }
        if at == end {
            proof {
                assert(split(rest, sep) =~= seq![rest]);
                assert(split(whole, sep) =~= ranges_of(chars@, ranges@));
            }
            return ranges;
        }
        proof {
            assert(rest.take(at - pos) =~= chars@.subrange(pos as int, at as int));
            assert(rest.skip(at - pos + 1) =~= chars@.subrange(at + 1, end as int));
            assert(split(whole, sep) =~= ranges_of(chars@, ranges@) + split(
                chars@.subrange(at + 1, end as int),
                sep,
            ));
        }
        pos = at + 1;
    }
}

} // verus!
