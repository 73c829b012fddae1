//! How a variable is used in a stretch of a program.
//!
//! The three ways form a chain: used, used and modified, address taken (a
//! function inside the scope of the variable uses it, so the variable
//! outlives the scope and lives in the heap). The usages of two stretches
//! that run one after the other, or of which one runs, are joined variable
//! by variable: the graver usage wins.

use vstd::prelude::*;
use crate::frontendvar::VarLocId;

verus! {

/// How a variable is used.
#[derive(Clone, Copy, Debug, PartialEq, Eq, Structural)]
pub enum Usage {
    Used,
    UsedAndModified,
    AddressTaken,
}

impl Usage {
    /// The place of the usage in the chain.
    pub open spec fn rank(self) -> int {
        match self {
            Usage::Used => 0,
            Usage::UsedAndModified => 1,
            Usage::AddressTaken => 2,
        }
    }

    /// The graver of two usages.
    pub open spec fn spec_join(self, other: Usage) -> Usage {
        if self.rank() >= other.rank() {
            self
        } else {
            other
        }
    }

    /// The graver of two usages.
    pub fn join(self, other: Usage) -> (r: Usage)
        ensures
            r == self.spec_join(other),
    {
        match (self, other) {
            (Usage::AddressTaken, _) => Usage::AddressTaken,
            (_, Usage::AddressTaken) => Usage::AddressTaken,
            (Usage::UsedAndModified, _) => Usage::UsedAndModified,
            (_, Usage::UsedAndModified) => Usage::UsedAndModified,
            _ => Usage::Used,
        }
    }
}

/// The mathematical value of a usage map: its entries in the order of
/// locations.
pub type UsageView = Seq<(VarLocId, Usage)>;

/// The place of a location in the order of locations, as a number.
pub open spec fn ord(v: VarLocId) -> int {
    v.depth * 0x1_0000_0000_0000_0000 + v.index
}

/// The numbers of two locations are ordered as the locations are.
pub proof fn lemma_ord(a: VarLocId, b: VarLocId)
    ensures
        a.spec_lt(b) <==> ord(a) < ord(b),
        a == b <==> ord(a) == ord(b),
{
}

/// Whether the entries stand in the strict order of their locations.
pub open spec fn sorted(s: UsageView) -> bool {
    forall|i: int, j: int| 0 <= i < j < s.len() ==> ord(#[trigger] s[i].0) < ord(#[trigger] s[j].0)
}

/// The usage of the variable in the entries; none where it has no entry.
pub open spec fn usage_of(s: UsageView, v: VarLocId) -> Option<Usage>
    decreases s.len(),
{
    if s.len() == 0 {
        None
    } else if s.last().0 == v {
        Some(s.last().1)
    } else {
        usage_of(s.drop_last(), v)
    }
}

/// The graver of two usages of which either may be missing.
pub open spec fn join_opt(a: Option<Usage>, b: Option<Usage>) -> Option<Usage> {
    match (a, b) {
        (Some(x), Some(y)) => Some(x.spec_join(y)),
        (Some(x), None) => Some(x),
        (None, y) => y,
    }
}

/// The entries of two ordered maps in one ordered map, the usages of a
/// variable that stands in both joined.
pub open spec fn merge(a: UsageView, b: UsageView) -> UsageView
    decreases a.len() + b.len(),
{
    if a.len() == 0 {
        b
    } else if b.len() == 0 {
        a
    } else if ord(a[0].0) < ord(b[0].0) {
        seq![a[0]] + merge(a.drop_first(), b)
    } else if ord(b[0].0) < ord(a[0].0) {
        seq![b[0]] + merge(a, b.drop_first())
    } else {
        seq![(a[0].0, a[0].1.spec_join(b[0].1))] + merge(a.drop_first(), b.drop_first())
    }
}

/// The entries with every usage raised to `AddressTaken`.
pub open spec fn wrapped(s: UsageView) -> UsageView {
    Seq::new(s.len(), |i: int| (s[i].0, Usage::AddressTaken))
}

/// The entries of the variables that are declared less deep than `depth`.
pub open spec fn outer_part(s: UsageView, depth: usize) -> UsageView
    decreases s.len(),
{
    if s.len() == 0 {
        s
    } else if s.last().0.depth < depth {
        outer_part(s.drop_last(), depth).push(s.last())
    } else {
        outer_part(s.drop_last(), depth)
    }
}

/// The indices of the variables that are declared at `depth` or deeper and
/// have their address taken, in the order of the entries.
pub open spec fn taken_indices(s: UsageView, depth: usize) -> Seq<usize>
    decreases s.len(),
{
    if s.len() == 0 {
        Seq::<usize>::empty()
    } else if s.last().0.depth >= depth && s.last().1 == Usage::AddressTaken {
        taken_indices(s.drop_last(), depth).push(s.last().0.index)
    } else {
        taken_indices(s.drop_last(), depth)
    }
}

/// The locations of the entries, in order.
pub open spec fn keys_of(s: UsageView) -> Seq<VarLocId> {
    Seq::new(s.len(), |i: int| s[i].0)
}

/// The usages of the variables of a stretch of a program, by location.
#[derive(Debug)]
pub struct UsageMap {
    pub entries: Vec<(VarLocId, Usage)>,
}

impl View for UsageMap {
    type V = UsageView;

    open spec fn view(&self) -> UsageView {
        self.entries@
    }
}

impl UsageMap {
    /// The invariant of a usage map: its entries stand in the strict order
    /// of their locations, so no variable has two.
    pub open spec fn wf(&self) -> bool {
        sorted(self@)
    }

    /// The map without entries.
    pub fn new() -> (m: UsageMap)
        ensures
            m@ == UsageView::empty(),
            m.wf(),
    {
        UsageMap { entries: Vec::new() }
    }

    /// Whether the map has no entry.
    pub fn is_empty(&self) -> (e: bool)
        ensures
            e == (self@.len() == 0),
    {
        self.entries.len() == 0
    }

    /// The number of entries.
    pub fn len(&self) -> (n: usize)
        ensures
            n == self@.len(),
    {
        self.entries.len()
    }

    /// The usage of the variable; none where it has no entry.
    pub fn get(&self, v: VarLocId) -> (u: Option<Usage>)
        ensures
            u == usage_of(self@, v),
    {
        let mut i: usize = self.entries.len();
        assert(self@.take(i as int) =~= self@);
        while i > 0
            invariant
                i <= self@.len(),
                usage_of(self@, v) == usage_of(self@.take(i as int), v),
            decreases i,
        {
            i = i - 1;
            proof {
                assert(self@.take(i + 1).drop_last() =~= self@.take(i as int));
                assert(self@.take(i + 1).last() == self@[i as int]);
            }
            if self.entries[i].0 == v {
                return Some(self.entries[i].1);
            }
        }
        None
    }
}

/// The map that says of one variable that it is used.
pub fn from_used(v: VarLocId) -> (m: UsageMap)
    ensures
        m@ == seq![(v, Usage::Used)],
        m.wf(),
{
    let mut entries: Vec<(VarLocId, Usage)> = Vec::new();
    entries.push((v, Usage::Used));
    let m = UsageMap { entries };
    assert(m@ =~= seq![(v, Usage::Used)]);
    m
}

/// The map that says of one variable that it is used and modified.
pub fn from_modified(v: VarLocId) -> (m: UsageMap)
    ensures
        m@ == seq![(v, Usage::UsedAndModified)],
        m.wf(),
{
    let mut entries: Vec<(VarLocId, Usage)> = Vec::new();
    entries.push((v, Usage::UsedAndModified));
    let m = UsageMap { entries };
    assert(m@ =~= seq![(v, Usage::UsedAndModified)]);
    m
}

/// The first location of a merge is the first location of one of the two
/// maps, and a merge is empty only where both maps are.
proof fn lemma_merge_head(a: UsageView, b: UsageView)
    ensures
        merge(a, b).len() == 0 <==> (a.len() == 0 && b.len() == 0),
        merge(a, b).len() > 0 ==> (a.len() > 0 && merge(a, b)[0].0 == a[0].0) || (b.len() > 0
            && merge(a, b)[0].0 == b[0].0),
{
}

/// The merge of two ordered maps is ordered.
pub proof fn lemma_merge_sorted(a: UsageView, b: UsageView)
    requires
        sorted(a),
        sorted(b),
    ensures
        sorted(merge(a, b)),
    decreases a.len() + b.len(),
{
    if a.len() == 0 || b.len() == 0 {
    } else {
        let (ra, rb) = if ord(a[0].0) < ord(b[0].0) {
            (a.drop_first(), b)
        } else if ord(b[0].0) < ord(a[0].0) {
            (a, b.drop_first())
        } else {
            (a.drop_first(), b.drop_first())
        };
        assert(sorted(a.drop_first())) by {
            assert forall|i: int, j: int| 0 <= i < j < a.drop_first().len() implies ord(
                #[trigger] a.drop_first()[i].0,
            ) < ord(#[trigger] a.drop_first()[j].0) by {
                assert(a.drop_first()[i] == a[i + 1]);
                assert(a.drop_first()[j] == a[j + 1]);
            }
        }
        assert(sorted(b.drop_first())) by {
            assert forall|i: int, j: int| 0 <= i < j < b.drop_first().len() implies ord(
                #[trigger] b.drop_first()[i].0,
            ) < ord(#[trigger] b.drop_first()[j].0) by {
                assert(b.drop_first()[i] == b[i + 1]);
                assert(b.drop_first()[j] == b[j + 1]);
            }
        }
        lemma_merge_sorted(ra, rb);
        lemma_merge_head(ra, rb);
        let rest = merge(ra, rb);
        let m = merge(a, b);
        let head = m[0];
        assert(m == seq![head] + rest);
        if rest.len() > 0 {
            if ra.len() > 0 && rest[0].0 == ra[0].0 {
                if ra.len() == a.len() - 1 {
                    assert(ra[0] == a[1]);
                }
            }
            if rb.len() > 0 && rest[0].0 == rb[0].0 {
                if rb.len() == b.len() - 1 {
                    assert(rb[0] == b[1]);
                }
            }
            assert(ord(head.0) < ord(rest[0].0));
        }
        assert forall|i: int, j: int| 0 <= i < j < m.len() implies ord(#[trigger] m[i].0) < ord(
            #[trigger] m[j].0,
        ) by {
            if i == 0 {
                assert(m[j] == rest[j - 1]);
                if j - 1 > 0 {
                    assert(ord(rest[0].0) < ord(rest[j - 1].0));
                }
            } else {
                assert(m[i] == rest[i - 1]);
                assert(m[j] == rest[j - 1]);
            }
        }
    }
}

/// The usages of two stretches that run one after the other: the entries of
/// both, in order, the usages of a variable that both use joined.
pub fn merge_series(first: UsageMap, second: UsageMap) -> (m: UsageMap)
    ensures
        m@ == merge(first@, second@),
        first.wf() && second.wf() ==> m.wf(),
{
    let mut out: Vec<(VarLocId, Usage)> = Vec::new();
    let mut i: usize = 0;
    let mut j: usize = 0;
    let a = &first.entries;
    let b = &second.entries;
    assert(a@.skip(0) =~= a@);
    assert(b@.skip(0) =~= b@);
    while i < a.len() && j < b.len()
        invariant
            i <= a@.len(),
            j <= b@.len(),
            merge(a@, b@) == out@ + merge(a@.skip(i as int), b@.skip(j as int)),
        decreases a@.len() - i + b@.len() - j,
    {
        let x = a[i];
        let y = b[j];
        let ghost ra = a@.skip(i as int);
        let ghost rb = b@.skip(j as int);
        let ghost before = out@;
        proof {
            assert(ra[0] == x);
            assert(rb[0] == y);
            assert(ra.drop_first() =~= a@.skip(i + 1));
            assert(rb.drop_first() =~= b@.skip(j + 1));
            lemma_ord(x.0, y.0);
            lemma_ord(y.0, x.0);
        }
        if x.0.lt(y.0) {
            out.push(x);
            i = i + 1;
            assert(out@ + merge(a@.skip(i as int), rb) =~= before + merge(ra, rb));
        } else if y.0.lt(x.0) {
            out.push(y);
            j = j + 1;
            assert(out@ + merge(ra, b@.skip(j as int)) =~= before + merge(ra, rb));
        } else {
            out.push((x.0, x.1.join(y.1)));
            i = i + 1;
            j = j + 1;
            assert(out@ + merge(a@.skip(i as int), b@.skip(j as int)) =~= before + merge(ra, rb));
        }
    }
    while i < a.len()
        invariant
            i <= a@.len(),
            j <= b@.len(),
            i == a@.len() || j == b@.len(),
            merge(a@, b@) == out@ + merge(a@.skip(i as int), b@.skip(j as int)),
        decreases a@.len() - i,
    {
        let ghost before = out@;
        let ghost ra = a@.skip(i as int);
        out.push(a[i]);
        proof {
            assert(b@.skip(j as int).len() == 0);
            assert(merge(ra, b@.skip(j as int)) == ra);
            assert(a@.skip(i + 1).len() == 0 || merge(a@.skip(i + 1), b@.skip(j as int)) == a@.skip(
                i + 1,
            ));
            assert(merge(a@.skip(i + 1), b@.skip(j as int)) =~= a@.skip(i + 1));
            assert(before + ra =~= out@ + a@.skip(i + 1));
        }
        i = i + 1;
    }
    while j < b.len()
        invariant
            i == a@.len(),
            j <= b@.len(),
            merge(a@, b@) == out@ + merge(a@.skip(i as int), b@.skip(j as int)),
        decreases b@.len() - j,
    {
        let ghost before = out@;
        let ghost rb = b@.skip(j as int);
        out.push(b[j]);
        proof {
            assert(a@.skip(i as int).len() == 0);
            assert(merge(a@.skip(i as int), rb) == rb);
            assert(merge(a@.skip(i as int), b@.skip(j + 1)) == b@.skip(j + 1));
            assert(before + rb =~= out@ + b@.skip(j + 1));
        }
        j = j + 1;
    }
    assert(merge(a@.skip(i as int), b@.skip(j as int)).len() == 0);
    assert(out@ =~= merge(a@, b@));
    proof {
        if first.wf() && second.wf() {
            lemma_merge_sorted(first@, second@);
        }
    }
    UsageMap { entries: out }
}

/// The usages of two stretches of which one runs: the same as of two that
/// run one after the other.
pub fn merge_parallel(first: UsageMap, second: UsageMap) -> (m: UsageMap)
    ensures
        m@ == merge(first@, second@),
        first.wf() && second.wf() ==> m.wf(),
{
    merge_series(first, second)
}

/// The usages that a function hands to the scope around it: every variable
/// that the function uses has its address taken.
pub fn wrap_closure(usages: UsageMap) -> (m: UsageMap)
    ensures
        m@ == wrapped(usages@),
        usages.wf() ==> m.wf(),
{
    let mut out: Vec<(VarLocId, Usage)> = Vec::new();
    let mut i: usize = 0;
    while i < usages.entries.len()
        invariant
            i <= usages@.len(),
            out@ == wrapped(usages@).take(i as int),
        decreases usages@.len() - i,
    {
        out.push((usages.entries[i].0, Usage::AddressTaken));
        assert(wrapped(usages@).take(i + 1) =~= wrapped(usages@).take(i as int).push(
            wrapped(usages@)[i as int],
        ));
        i = i + 1;
    }
    assert(wrapped(usages@).take(i as int) =~= wrapped(usages@));
    UsageMap { entries: out }
}

/// Takes out of the map every variable that is declared at `depth` or
/// deeper, and gives the indices of those among them that have their address
/// taken, in the order of their entries. What stays are the variables of the
/// scopes around.
pub fn split_off_address_taken_vars(ret_usages: &mut UsageMap, depth: usize) -> (taken: Vec<usize>)
    ensures
        final(ret_usages)@ == outer_part(old(ret_usages)@, depth),
        taken@ == taken_indices(old(ret_usages)@, depth),
        old(ret_usages).wf() ==> final(ret_usages).wf(),
{
    let mut kept: Vec<(VarLocId, Usage)> = Vec::new();
    let mut taken: Vec<usize> = Vec::new();
    let mut i: usize = 0;
    let ghost all = ret_usages@;
    while i < ret_usages.entries.len()
        invariant
            i <= all.len(),
            ret_usages@ == all,
            kept@ == outer_part(all.take(i as int), depth),
            taken@ == taken_indices(all.take(i as int), depth),
        decreases all.len() - i,
    {
        let entry = ret_usages.entries[i];
        proof {
            assert(all.take(i + 1).drop_last() =~= all.take(i as int));
            assert(all.take(i + 1).last() == entry);
        }
        if entry.0.depth < depth {
            kept.push(entry);
        } else if entry.1 == Usage::AddressTaken {
            taken.push(entry.0.index);
        }
        i = i + 1;
    }
    proof {
        assert(all.take(i as int) =~= all);
        if sorted(all) {
            lemma_outer_part_sorted(all, depth);
        }
    }
    ret_usages.entries = kept;
    taken
}

/// The variables of the map, in order.
pub fn clone_varusages(ret_usages: &UsageMap) -> (vars: Vec<VarLocId>)
    ensures
        vars@ == keys_of(ret_usages@),
{
    let mut vars: Vec<VarLocId> = Vec::new();
    let mut i: usize = 0;
    while i < ret_usages.entries.len()
        invariant
            i <= ret_usages@.len(),
            vars@ == keys_of(ret_usages@).take(i as int),
        decreases ret_usages@.len() - i,
    {
        vars.push(ret_usages.entries[i].0);
        assert(keys_of(ret_usages@).take(i + 1) =~= keys_of(ret_usages@).take(i as int).push(
            keys_of(ret_usages@)[i as int],
        ));
        i = i + 1;
    }
    assert(keys_of(ret_usages@).take(i as int) =~= keys_of(ret_usages@));
    vars
}

/// Every entry of the outer part is an entry of the map, and the outer part
/// of an ordered map is ordered.
pub proof fn lemma_outer_part_sorted(s: UsageView, depth: usize)
    requires
        sorted(s),
    ensures
        sorted(outer_part(s, depth)),
        forall|i: int|
            0 <= i < outer_part(s, depth).len() ==> s.contains(#[trigger] outer_part(s, depth)[i]),
        outer_part(s, depth).len() > 0 ==> s.len() > 0 && ord(outer_part(s, depth).last().0) <= ord(
            s.last().0,
        ),
    decreases s.len(),
{
    if s.len() > 0 {
        let front = s.drop_last();
        assert(sorted(front)) by {
            assert forall|i: int, j: int| 0 <= i < j < front.len() implies ord(
                #[trigger] front[i].0,
            ) < ord(#[trigger] front[j].0) by {
                assert(front[i] == s[i]);
                assert(front[j] == s[j]);
            }
        }
        lemma_outer_part_sorted(front, depth);
        let of = outer_part(front, depth);
        let o = outer_part(s, depth);
        assert forall|i: int| 0 <= i < o.len() implies s.contains(#[trigger] o[i]) by {
            if i < of.len() {
                assert(front.contains(of[i]));
                let k = choose|k: int| 0 <= k < front.len() && front[k] == of[i];
                assert(s[k] == of[i]);
            } else {
                assert(o[i] == s.last());
                assert(s[s.len() - 1] == s.last());
            }
        }
        if of.len() > 0 && front.len() > 0 {
            assert(front.last() == s[s.len() - 2]);
            assert(ord(s[s.len() - 2].0) < ord(s[s.len() - 1].0));
        }
        if s.last().0.depth < depth {
            assert forall|i: int, j: int| 0 <= i < j < o.len() implies ord(#[trigger] o[i].0) < ord(
                #[trigger] o[j].0,
            ) by {
                if j == of.len() {
                    assert(o[i] == of[i]);
                    if i < of.len() - 1 {
                        assert(ord(of[i].0) < ord(of[of.len() - 1].0));
                    }
                } else {
                    assert(o[i] == of[i]);
                    assert(o[j] == of[j]);
                }
            }
        }
    }
}

/// Whether an entry of the map is the entry of a variable that is declared
/// at `depth` or deeper, has its address taken and has the given index.
pub open spec fn reports(s: UsageView, depth: usize, index: usize) -> bool {
    exists|k: int|
        0 <= k < s.len() && (#[trigger] s[k]).0.depth >= depth && s[k].1 == Usage::AddressTaken
            && s[k].0.index == index
}

/// Taking the variables of a scope out of a map parts the map: what stays
/// are exactly the entries of the variables that are declared less deep
/// (so no entry of the scope itself stays), and the indices that are given
/// are exactly those of the entries that go and have their address taken.
pub proof fn law_split_off_partitions(s: UsageView, depth: usize)
    ensures
        forall|e: (VarLocId, Usage)|
            #[trigger] outer_part(s, depth).contains(e) <==> (s.contains(e) && e.0.depth < depth),
        forall|index: usize|
            #[trigger] taken_indices(s, depth).contains(index) <==> reports(s, depth, index),
    decreases s.len(),
{
    if s.len() == 0 {
        assert forall|index: usize| !reports(s, depth, index) by {}
    } else {
        let front = s.drop_last();
        let last = s.last();
        law_split_off_partitions(front, depth);
        let of = outer_part(front, depth);
        let o = outer_part(s, depth);
        assert forall|e: (VarLocId, Usage)| #[trigger] o.contains(e) <==> (s.contains(e) && e.0.depth
            < depth) by {
            if o.contains(e) {
                let i = choose|i: int| 0 <= i < o.len() && o[i] == e;
                if i < of.len() {
                    assert(of[i] == e);
                    assert(of.contains(e));
                    let k = choose|k: int| 0 <= k < front.len() && front[k] == e;
                    assert(s[k] == e);
                } else {
                    assert(e == last);
                    assert(s[s.len() - 1] == e);
                }
            }
            if s.contains(e) && e.0.depth < depth {
                let k = choose|k: int| 0 <= k < s.len() && s[k] == e;
                if k < front.len() {
                    assert(front[k] == e);
                    assert(front.contains(e));
                    assert(of.contains(e));
                    let i = choose|i: int| 0 <= i < of.len() && of[i] == e;
                    assert(o[i] == e);
                } else {
                    assert(o[o.len() - 1] == e);
                }
            }
        }
        let tf = taken_indices(front, depth);
        let t = taken_indices(s, depth);
        let goes = last.0.depth >= depth && last.1 == Usage::AddressTaken;
        assert forall|index: usize| #[trigger] t.contains(index) <==> reports(s, depth, index) by {
            if t.contains(index) {
                let i = choose|i: int| 0 <= i < t.len() && t[i] == index;
                if i < tf.len() {
                    assert(tf[i] == index);
                    assert(tf.contains(index));
                    assert(reports(front, depth, index));
                    let k = choose|k: int|
                        0 <= k < front.len() && (#[trigger] front[k]).0.depth >= depth && front[k].1
                            == Usage::AddressTaken && front[k].0.index == index;
                    assert(s[k] == front[k]);
                } else {
                    assert(s[s.len() - 1] == last);
                }
            }
            if reports(s, depth, index) {
                let k = choose|k: int|
                    0 <= k < s.len() && (#[trigger] s[k]).0.depth >= depth && s[k].1
                        == Usage::AddressTaken && s[k].0.index == index;
                if k < front.len() {
                    assert(front[k] == s[k]);
                    assert(reports(front, depth, index));
                    assert(tf.contains(index));
                    let i = choose|i: int| 0 <= i < tf.len() && tf[i] == index;
                    assert(t[i] == index);
                } else {
                    assert(goes);
                    assert(t[t.len() - 1] == index);
                }
            }
        }
    }
}

/// The usage of a variable in a map that starts with one more entry.
proof fn lemma_usage_of_cons(head: (VarLocId, Usage), rest: UsageView, v: VarLocId)
    ensures
        usage_of(seq![head] + rest, v) == match usage_of(rest, v) {
            Some(u) => Some(u),
            None => if head.0 == v {
                Some(head.1)
            } else {
                None
            },
        },
    decreases rest.len(),
{
    let whole = seq![head] + rest;
    if rest.len() == 0 {
        assert(whole.drop_last() =~= Seq::<(VarLocId, Usage)>::empty());
        assert(whole.last() == head);
        assert(usage_of(Seq::<(VarLocId, Usage)>::empty(), v) is None);
        assert(usage_of(rest, v) is None);
    } else {
        assert(whole.last() == rest.last());
        assert(whole.drop_last() =~= seq![head] + rest.drop_last());
        lemma_usage_of_cons(head, rest.drop_last(), v);
    }
}

/// A variable has a usage in an ordered map only where its location is not
/// before the first location of the map.
proof fn lemma_usage_of_bound(s: UsageView, v: VarLocId)
    requires
        sorted(s),
        usage_of(s, v) is Some,
    ensures
        s.len() > 0,
        ord(s[0].0) <= ord(v),
    decreases s.len(),
{
    if s.last().0 != v {
        let front = s.drop_last();
        assert forall|i: int, j: int| 0 <= i < j < front.len() implies ord(#[trigger] front[i].0) < ord(
            #[trigger] front[j].0,
        ) by {
            assert(front[i] == s[i]);
            assert(front[j] == s[j]);
        }
        lemma_usage_of_bound(front, v);
        assert(front[0] == s[0]);
    } else {
        if s.len() > 1 {
            assert(ord(s[0].0) < ord(s[s.len() - 1].0));
        }
    }
}

/// The ordered map without its first entry is ordered.
proof fn lemma_sorted_rest(s: UsageView)
    requires
        sorted(s),
        s.len() > 0,
    ensures
        sorted(s.drop_first()),
{
    let rest = s.drop_first();
    assert forall|i: int, j: int| 0 <= i < j < rest.len() implies ord(#[trigger] rest[i].0) < ord(
        #[trigger] rest[j].0,
    ) by {
        assert(rest[i] == s[i + 1]);
        assert(rest[j] == s[j + 1]);
    }
}

/// The usage of a variable in the merge of two ordered maps is the graver
/// of its usages in the two: merging is the join of the lattice of usages,
/// variable by variable.
pub proof fn law_merge_joins(a: UsageView, b: UsageView, v: VarLocId)
    requires
        sorted(a),
        sorted(b),
    ensures
        usage_of(merge(a, b), v) == join_opt(usage_of(a, v), usage_of(b, v)),
    decreases a.len() + b.len(),
{
    if a.len() == 0 {
    } else if b.len() == 0 {
    } else {
        lemma_sorted_rest(a);
        lemma_sorted_rest(b);
        lemma_ord(a[0].0, v);
        lemma_ord(b[0].0, v);
        lemma_ord(a[0].0, b[0].0);
        assert(a =~= seq![a[0]] + a.drop_first());
        assert(b =~= seq![b[0]] + b.drop_first());
        lemma_usage_of_cons(a[0], a.drop_first(), v);
        lemma_usage_of_cons(b[0], b.drop_first(), v);
        if usage_of(a.drop_first(), v) is Some {
            lemma_usage_of_bound(a.drop_first(), v);
            assert(a.drop_first()[0] == a[1]);
            assert(ord(a[0].0) < ord(a[1].0));
        }
        if usage_of(b.drop_first(), v) is Some {
            lemma_usage_of_bound(b.drop_first(), v);
            assert(b.drop_first()[0] == b[1]);
            assert(ord(b[0].0) < ord(b[1].0));
        }
        if usage_of(a, v) is Some {
            lemma_usage_of_bound(a, v);
        }
        if usage_of(b, v) is Some {
            lemma_usage_of_bound(b, v);
        }
        if ord(a[0].0) < ord(b[0].0) {
            law_merge_joins(a.drop_first(), b, v);
            lemma_usage_of_cons(a[0], merge(a.drop_first(), b), v);
        } else if ord(b[0].0) < ord(a[0].0) {
            law_merge_joins(a, b.drop_first(), v);
            lemma_usage_of_cons(b[0], merge(a, b.drop_first()), v);
        } else {
            law_merge_joins(a.drop_first(), b.drop_first(), v);
            lemma_usage_of_cons(
                (a[0].0, a[0].1.spec_join(b[0].1)),
                merge(a.drop_first(), b.drop_first()),
                v,
            );
        }
    }
}

/// A variable that has its address taken in one of two ordered maps has
/// its address taken in their merge: what a function inside a scope uses
/// stays in the heap, whatever else the scope does with it.
pub proof fn law_merge_keeps_address_taken(a: UsageView, b: UsageView, v: VarLocId)
    requires
        sorted(a),
        sorted(b),
        usage_of(a, v) == Some(Usage::AddressTaken) || usage_of(b, v) == Some(Usage::AddressTaken),
    ensures
        usage_of(merge(a, b), v) == Some(Usage::AddressTaken),
{
    law_merge_joins(a, b, v);
}

/// Whether the map says of the variable that its address is taken.
pub open spec fn taken(s: UsageView, v: VarLocId) -> bool {
    s.contains((v, Usage::AddressTaken))
}

/// Whether the map has an entry for the variable.
pub open spec fn mentions(s: UsageView, v: VarLocId) -> bool {
    exists|i: int| 0 <= i < s.len() && (#[trigger] s[i]).0 == v
}

/// The address of a variable is taken in a merge exactly where it is taken
/// in one of the two maps.
pub proof fn lemma_merge_taken(a: UsageView, b: UsageView, v: VarLocId)
    ensures
        taken(merge(a, b), v) <==> (taken(a, v) || taken(b, v)),
    decreases a.len() + b.len(),
{
    let e = (v, Usage::AddressTaken);
    if a.len() == 0 || b.len() == 0 {
        if a.len() == 0 {
            assert(!a.contains(e));
        } else {
            assert(!b.contains(e));
        }
    } else {
        let (head, ra, rb) = if ord(a[0].0) < ord(b[0].0) {
            (a[0], a.drop_first(), b)
        } else if ord(b[0].0) < ord(a[0].0) {
            (b[0], a, b.drop_first())
        } else {
            ((a[0].0, a[0].1.spec_join(b[0].1)), a.drop_first(), b.drop_first())
        };
        lemma_merge_taken(ra, rb, v);
        let rest = merge(ra, rb);
        let m = merge(a, b);
        assert(m == seq![head] + rest);
        lemma_ord(a[0].0, b[0].0);
        // what stands in a map stands first in it or in the rest of it
        assert(a.contains(e) <==> (a[0] == e || a.drop_first().contains(e))) by {
            if a.contains(e) {
                let i = choose|i: int| 0 <= i < a.len() && a[i] == e;
                if i > 0 {
                    assert(a.drop_first()[i - 1] == e);
                }
            }
            if a.drop_first().contains(e) {
                let i = choose|i: int| 0 <= i < a.drop_first().len() && a.drop_first()[i] == e;
                assert(a[i + 1] == e);
            }
        }
        assert(b.contains(e) <==> (b[0] == e || b.drop_first().contains(e))) by {
            if b.contains(e) {
                let i = choose|i: int| 0 <= i < b.len() && b[i] == e;
                if i > 0 {
                    assert(b.drop_first()[i - 1] == e);
                }
            }
            if b.drop_first().contains(e) {
                let i = choose|i: int| 0 <= i < b.drop_first().len() && b.drop_first()[i] == e;
                assert(b[i + 1] == e);
            }
        }
        assert(m.contains(e) <==> (head == e || rest.contains(e))) by {
            if m.contains(e) {
                let i = choose|i: int| 0 <= i < m.len() && m[i] == e;
                if i > 0 {
                    assert(rest[i - 1] == e);
                }
            }
            if rest.contains(e) {
                let i = choose|i: int| 0 <= i < rest.len() && rest[i] == e;
                assert(m[i + 1] == e);
            }
            if head == e {
                assert(m[0] == e);
            }
        }
    }
}

/// A function takes the address of every variable that it uses: what it
/// hands to the scope around it says so of exactly the variables that its
/// usages mention.
pub proof fn lemma_wrapped_taken(s: UsageView, v: VarLocId)
    ensures
        taken(wrapped(s), v) <==> mentions(s, v),
{
    let w = wrapped(s);
    if taken(w, v) {
        let i = choose|i: int| 0 <= i < w.len() && w[i] == (v, Usage::AddressTaken);
        assert(s[i].0 == v);
    }
    if mentions(s, v) {
        let i = choose|i: int| 0 <= i < s.len() && (#[trigger] s[i]).0 == v;
        assert(w[i] == (v, Usage::AddressTaken));
    }
}

/// The variables that a scope hands on are those that it mentions and does
/// not declare itself.
pub proof fn lemma_outer_part_mentions(s: UsageView, depth: usize, v: VarLocId)
    ensures
        mentions(outer_part(s, depth), v) <==> (mentions(s, v) && v.depth < depth),
        taken(outer_part(s, depth), v) <==> (taken(s, v) && v.depth < depth),
{
    law_split_off_partitions(s, depth);
    let o = outer_part(s, depth);
    if mentions(o, v) {
        let i = choose|i: int| 0 <= i < o.len() && (#[trigger] o[i]).0 == v;
        assert(o.contains(o[i]));
        assert(s.contains(o[i]));
        let k = choose|k: int| 0 <= k < s.len() && s[k] == o[i];
        assert(s[k].0 == v);
    }
    if mentions(s, v) && v.depth < depth {
        let i = choose|i: int| 0 <= i < s.len() && (#[trigger] s[i]).0 == v;
        assert(s.contains(s[i]));
        assert(o.contains(s[i]));
        let k = choose|k: int| 0 <= k < o.len() && o[k] == s[i];
        assert(o[k].0 == v);
    }
    assert(o.contains((v, Usage::AddressTaken)) <==> (s.contains((v, Usage::AddressTaken))
        && v.depth < depth));
}

} // verus!
