//! What a name of the source stands for, before parsing proper: a place
//! with a stable location, or a set of direct functions.

use vstd::prelude::*;
use crate::text::str_eq;
use crate::vartype::VarType;

verus! {

/// The location of a variable: how deep the scope that declares it lies
/// (the module's scope has depth 0), and which of the scope's variables it
/// is.
#[derive(Clone, Copy, Debug, PartialEq, Eq, Structural)]
pub struct VarLocId {
    pub depth: usize,
    pub index: usize,
}

impl VarLocId {
    /// The order of locations: by depth, and by index at equal depth.
    pub open spec fn spec_lt(self, other: VarLocId) -> bool {
        self.depth < other.depth || (self.depth == other.depth && self.index < other.index)
    }

    /// Whether this location comes before the other in the order of
    /// locations.
    pub fn lt(self, other: VarLocId) -> (r: bool)
        ensures
            r == self.spec_lt(other),
    {
        self.depth < other.depth || (self.depth == other.depth && self.index < other.index)
    }
}

/// What a name stands for where it is used.
#[derive(Clone, Copy, Debug, PartialEq, Eq, Structural)]
pub enum PreVar {
    /// A variable with a location.
    Target(VarLocId),
    /// A function that uses no variable of a scope around it, and may have
    /// several signatures.
    Direct,
}

/// A copy of a list of types.
pub fn copy_types(types: &Vec<VarType>) -> (copy: Vec<VarType>)
    ensures
        copy@ == types@,
{
    let mut copy: Vec<VarType> = Vec::new();
    let mut i: usize = 0;
    while i < types.len()
        invariant
            i <= types@.len(),
            copy@ == types@.take(i as int),
        decreases types@.len() - i,
    {
        copy.push(types[i]);
        assert(types@.take(i + 1) =~= types@.take(i as int).push(types@[i as int]));
        i = i + 1;
    }
    assert(types@.take(i as int) =~= types@);
    copy
}

/// Whether two lists of types are the same.
pub fn types_eq(a: &Vec<VarType>, b: &Vec<VarType>) -> (same: bool)
    ensures
        same == (a@ == b@),
{
    if a.len() != b.len() {
        return false;
    }
    let mut i: usize = 0;
    while i < a.len()
        invariant
            a@.len() == b@.len(),
            i <= a@.len(),
            forall|j: int| 0 <= j < i ==> a@[j] == b@[j],
        decreases a@.len() - i,
    {
        if a[i] != b[i] {
            return false;
        }
        i = i + 1;
    }
    assert(a@ =~= b@);
    true
}

/// The signatures of a set of overloads, as sequences of parameter types.
pub open spec fn signatures_view(sigs: Seq<Vec<VarType>>) -> Seq<Seq<VarType>> {
    Seq::new(sigs.len(), |i: int| sigs[i]@)
}

/// A copy of a set of signatures.
pub fn copy_signatures(sigs: &Vec<Vec<VarType>>) -> (copy: Vec<Vec<VarType>>)
    ensures
        signatures_view(copy@) == signatures_view(sigs@),
{
    let mut copy: Vec<Vec<VarType>> = Vec::new();
    let mut i: usize = 0;
    while i < sigs.len()
        invariant
            i <= sigs@.len(),
            signatures_view(copy@) == signatures_view(sigs@).take(i as int),
        decreases sigs@.len() - i,
    {
        let ghost before = copy@;
        copy.push(copy_types(&sigs[i]));
        assert(signatures_view(copy@) =~= signatures_view(before).push(sigs@[i as int]@));
        assert(signatures_view(sigs@).take(i + 1) =~= signatures_view(sigs@).take(i as int).push(
            sigs@[i as int]@,
        ));
        i = i + 1;
    }
    assert(signatures_view(sigs@).take(i as int) =~= signatures_view(sigs@));
    copy
}

/// What a name stands for where it is declared, imported or exported.
#[derive(Debug)]
pub enum VarValue {
    /// A variable with a location.
    Target(VarLocId),
    /// A set of direct functions, each given by the types of its parameters.
    Direct(Vec<Vec<VarType>>),
}

/// The mathematical value of a `VarValue`.
pub enum VarValueView {
    Target(VarLocId),
    Direct(Seq<Seq<VarType>>),
}

impl View for VarValue {
    type V = VarValueView;

    open spec fn view(&self) -> VarValueView {
        match self {
            VarValue::Target(v) => VarValueView::Target(*v),
            VarValue::Direct(sigs) => VarValueView::Direct(signatures_view(sigs@)),
        }
    }
}

impl VarValueView {
    /// What a use of a name with this value is resolved to.
    pub open spec fn prevar(self) -> PreVar {
        match self {
            VarValueView::Target(v) => PreVar::Target(v),
            VarValueView::Direct(_) => PreVar::Direct,
        }
    }
}

impl VarValue {
    /// The value of a direct function with one signature.
    pub fn new_direct(params: Vec<VarType>) -> (v: VarValue)
        ensures
            v@ == VarValueView::Direct(seq![params@]),
    {
        let mut sigs: Vec<Vec<VarType>> = Vec::new();
        sigs.push(params);
        let v = VarValue::Direct(sigs);
        assert(signatures_view(sigs@) =~= seq![params@]);
        v
    }

    /// A copy of the value.
    pub fn duplicate(&self) -> (v: VarValue)
        ensures
            v@ == self@,
    {
        match self {
            VarValue::Target(loc) => VarValue::Target(*loc),
            VarValue::Direct(sigs) => VarValue::Direct(copy_signatures(sigs)),
        }
    }

    /// What a use of a name with this value is resolved to.
    pub fn prevar(&self) -> (p: PreVar)
        ensures
            p == self@.prevar(),
    {
        match self {
            VarValue::Target(loc) => PreVar::Target(*loc),
            VarValue::Direct(_) => PreVar::Direct,
        }
    }
}

/// Whether a signature of `new` stands in `existing` already.
pub open spec fn signatures_clash(existing: Seq<Seq<VarType>>, new: Seq<Seq<VarType>>) -> bool {
    exists|i: int, j: int|
        0 <= i < existing.len() && 0 <= j < new.len() && #[trigger] existing[i] == #[trigger] new[j]
}

/// The mathematical value of a `VarCtx`: names with their values, in the
/// order in which the names came in.
pub type VarCtxView = Seq<(Seq<char>, VarValueView)>;

/// The position of the name in the context; -1 where it has none.
pub open spec fn ctx_index(ctx: VarCtxView, name: Seq<char>) -> int
    decreases ctx.len(),
{
    if ctx.len() == 0 {
        -1
    } else if ctx.last().0 == name {
        ctx.len() - 1
    } else {
        ctx_index(ctx.drop_last(), name)
    }
}

/// The value of the name in the context.
pub open spec fn ctx_get(ctx: VarCtxView, name: Seq<char>) -> Option<VarValueView> {
    let i = ctx_index(ctx, name);
    if 0 <= i < ctx.len() {
        Some(ctx[i].1)
    } else {
        None
    }
}

/// The context after the name has come in with the value; none where the
/// two cannot be brought together.
///
/// A new name is added. A set of direct functions is joined to the set that
/// the name has already, unless a signature stands in both. Nothing else
/// goes together: a variable does not with a variable, nor with a function.
pub open spec fn spec_try_coalesce(ctx: VarCtxView, name: Seq<char>, value: VarValueView) -> Option<
    VarCtxView,
> {
    let i = ctx_index(ctx, name);
    if 0 <= i < ctx.len() {
        match (ctx[i].1, value) {
            (VarValueView::Direct(existing), VarValueView::Direct(new)) => if signatures_clash(
                existing,
                new,
            ) {
                None
            } else {
                Some(ctx.update(i, (name, VarValueView::Direct(existing + new))))
            },
            _ => None,
        }
    } else {
        Some(ctx.push((name, value)))
    }
}

/// The names of one scope, or the names that a module exports, each with
/// what it stands for.
#[derive(Debug)]
pub struct VarCtx {
    pub entries: Vec<(String, VarValue)>,
}

/// The names that a module exports, each with what it stands for.
pub type ProgramPreExports = VarCtx;

impl View for VarCtx {
    type V = VarCtxView;

    open spec fn view(&self) -> VarCtxView {
        Seq::new(self.entries@.len(), |i: int| (self.entries@[i].0@, self.entries@[i].1@))
    }
}

/// The position of a name in a context lies in the context or is -1; where
/// it lies in the context, the name stands there.
pub proof fn lemma_ctx_index(ctx: VarCtxView, name: Seq<char>)
    ensures
        -1 <= ctx_index(ctx, name) < ctx.len(),
        ctx_index(ctx, name) >= 0 ==> ctx[ctx_index(ctx, name)].0 == name,
        ctx_index(ctx, name) == -1 ==> forall|j: int| 0 <= j < ctx.len() ==> ctx[j].0 != name,
    decreases ctx.len(),
{
    if ctx.len() > 0 && ctx.last().0 != name {
        lemma_ctx_index(ctx.drop_last(), name);
        assert forall|j: int| 0 <= j < ctx.len() && ctx_index(ctx, name) == -1 implies ctx[j].0
            != name by {
            if j < ctx.len() - 1 {
                assert(ctx.drop_last()[j] == ctx[j]);
            }
        }
    }
}

/// Whether one of the signatures is the given one.
fn has_signature(sigs: &Vec<Vec<VarType>>, sig: &Vec<VarType>) -> (found: bool)
    ensures
        found == exists|i: int| 0 <= i < sigs@.len() && (#[trigger] sigs@[i])@ == sig@,
{
    let mut i: usize = 0;
    while i < sigs.len()
        invariant
            i <= sigs@.len(),
            forall|j: int| 0 <= j < i ==> (#[trigger] sigs@[j])@ != sig@,
        decreases sigs@.len() - i,
    {
        if types_eq(&sigs[i], sig) {
            return true;
        }
        i = i + 1;
    }
    false
}

/// Whether a signature of `new` stands in `existing` already.
fn overloads_clash(existing: &Vec<Vec<VarType>>, new: &Vec<Vec<VarType>>) -> (clash: bool)
    ensures
        clash == signatures_clash(signatures_view(existing@), signatures_view(new@)),
{
    let mut j: usize = 0;
    while j < new.len()
        invariant
            j <= new@.len(),
            forall|i: int, k: int|
                0 <= i < existing@.len() && 0 <= k < j ==> (#[trigger] existing@[i])@
                    != (#[trigger] new@[k])@,
        decreases new@.len() - j,
    {
        if has_signature(existing, &new[j]) {
            proof {
                let i = choose|i: int| 0 <= i < existing@.len() && (#[trigger] existing@[i])@ == new@[j as int]@;
                assert(signatures_view(existing@)[i] == signatures_view(new@)[j as int]);
            }
            return true;
        }
        j = j + 1;
    }
    proof {
        if signatures_clash(signatures_view(existing@), signatures_view(new@)) {
            let (i, k) = choose|i: int, k: int|
                0 <= i < signatures_view(existing@).len() && 0 <= k < signatures_view(new@).len()
                    && #[trigger] signatures_view(existing@)[i] == #[trigger] signatures_view(
                    new@,
                )[k];
            assert(existing@[i]@ == new@[k]@);
        }
    }
    false
}

impl VarCtx {
    /// A context without names.
    pub fn new() -> (ctx: VarCtx)
        ensures
            ctx@ == VarCtxView::empty(),
    {
        let ctx = VarCtx { entries: Vec::new() };
        assert(ctx@ =~= VarCtxView::empty());
        ctx
    }

    /// The number of names.
    pub fn len(&self) -> (n: usize)
        ensures
            n == self@.len(),
    {
        self.entries.len()
    }

    /// The position of the name.
    pub fn position(&self, name: &str) -> (at: Option<usize>)
        ensures
            match at {
                Some(i) => i == ctx_index(self@, name@),
                None => ctx_index(self@, name@) == -1,
            },
            ctx_index(self@, name@) < self@.len(),
    {
        let mut i: usize = self.entries.len();
        proof {
            assert(self@.take(i as int) =~= self@);
            lemma_ctx_index(self@, name@);
        }
        while i > 0
            invariant
                i <= self.entries@.len(),
                ctx_index(self@, name@) == ctx_index(self@.take(i as int), name@),
            decreases i,
        {
            i = i - 1;
            proof {
                assert(self@.take(i + 1).drop_last() =~= self@.take(i as int));
                assert(self@.take(i + 1).last() == self@[i as int]);
            }
            if str_eq(self.entries[i].0.as_str(), name) {
                return Some(i);
            }
        }
        None
    }

    /// The value of the name.
    pub fn get(&self, name: &str) -> (value: Option<&VarValue>)
        ensures
            match value {
                Some(v) => ctx_get(self@, name@) == Some(v@),
                None => ctx_get(self@, name@) is None,
            },
    {
        match self.position(name) {
            Some(i) => Some(&self.entries[i].1),
            None => None,
        }
    }

    /// Brings the name into the context with the value, where the two go
    /// together, and says whether they did.
    pub fn try_coalesce(&mut self, name: String, value: VarValue) -> (done: bool)
        ensures
            match spec_try_coalesce(old(self)@, name@, value@) {
                Some(ctx) => done && final(self)@ == ctx,
                None => !done && final(self)@ == old(self)@,
            },
    {
        match self.position(name.as_str()) {
            Some(i) => {
                let ghost before = self@;
                match value {
                    VarValue::Target(_) => false,
                    VarValue::Direct(new) => {
                        let clash = match &self.entries[i].1 {
                            VarValue::Target(_) => true,
                            VarValue::Direct(existing) => overloads_clash(existing, &new),
                        };
                        if clash {
                            return false;
                        }
                        let mut new = new;
                        let ghost added = signatures_view(new@);
                        let (kept_name, kept) = self.entries.remove(i);
                        let mut joined = match kept {
                            VarValue::Direct(existing) => existing,
                            VarValue::Target(_) => Vec::new(),
                        };
                        let ghost existing = signatures_view(joined@);
                        joined.append(&mut new);
                        assert(signatures_view(joined@) =~= existing + added);
                        self.entries.insert(i, (kept_name, VarValue::Direct(joined)));
                        proof {
                            lemma_ctx_index(before, name@);
                            assert(before[i as int] == (
                                old(self).entries@[i as int].0@,
                                old(self).entries@[i as int].1@,
                            ));
                            let want = before.update(
                                i as int,
                                (name@, VarValueView::Direct(existing + added)),
                            );
                            assert(self@.len() == want.len());
                            assert forall|j: int| 0 <= j < want.len() implies self@[j] == want[j] by {
                                if j < i {
                                    assert(self.entries@[j] == old(self).entries@[j]);
                                } else if j > i {
                                    assert(self.entries@[j] == old(self).entries@[j]);
                                } else {
                                }
                                assert(before[j] == (
                                    old(self).entries@[j].0@,
                                    old(self).entries@[j].1@,
                                ));
                            }
                            assert(self@ =~= want);
                        }
                        true
                    },
                }
            },
            None => {
                let ghost before = self@;
                self.entries.push((name, value));
                assert(self@ =~= before.push((name@, value@)));
                true
            },
        }
    }
}

/// The mathematical value of the names in scope: names with what each is
/// resolved to, the innermost scope last.
pub type NameCtxView = Seq<(Seq<char>, PreVar)>;

/// What a use of the name is resolved to: what the last entry with the name
/// says.
pub open spec fn resolve(ctx: NameCtxView, name: Seq<char>) -> Option<PreVar>
    decreases ctx.len(),
{
    if ctx.len() == 0 {
        None
    } else if ctx.last().0 == name {
        Some(ctx.last().1)
    } else {
        resolve(ctx.drop_last(), name)
    }
}

/// The mathematical value of a list of declarations.
pub open spec fn decls_view(decls: Seq<(String, PreVar)>) -> NameCtxView {
    Seq::new(decls.len(), |i: int| (decls[i].0@, decls[i].1))
}

/// The names in scope at a place of the program, with what each is resolved
/// to. A scope that is entered adds its names on top; the names of a scope
/// that is left are taken off again.
#[derive(Debug)]
pub struct NameCtx {
    pub entries: Vec<(String, PreVar)>,
}

impl View for NameCtx {
    type V = NameCtxView;

    open spec fn view(&self) -> NameCtxView {
        decls_view(self.entries@)
    }
}

impl NameCtx {
    /// No name in scope.
    pub fn new() -> (ctx: NameCtx)
        ensures
            ctx@ == NameCtxView::empty(),
    {
        let ctx = NameCtx { entries: Vec::new() };
        assert(ctx@ =~= NameCtxView::empty());
        ctx
    }

    /// Declares one name on top of the others.
    pub fn insert(&mut self, name: String, prevar: PreVar)
        ensures
            final(self)@ == old(self)@.push((name@, prevar)),
    {
        self.entries.push((name, prevar));
        assert(self@ =~= old(self)@.push((name@, prevar)));
    }

    /// What a use of the name is resolved to.
    pub fn get(&self, name: &str) -> (prevar: Option<PreVar>)
        ensures
            prevar == resolve(self@, name@),
    {
        let mut i: usize = self.entries.len();
        proof {
            assert(self@.take(i as int) =~= self@);
        }
        while i > 0
            invariant
                i <= self.entries@.len(),
                resolve(self@, name@) == resolve(self@.take(i as int), name@),
            decreases i,
        {
            i = i - 1;
            proof {
                assert(self@.take(i + 1).drop_last() =~= self@.take(i as int));
                assert(self@.take(i + 1).last() == self@[i as int]);
            }
            if str_eq(self.entries[i].0.as_str(), name) {
                return Some(self.entries[i].1);
            }
        }
        None
    }

    /// Enters a scope with the given declarations. The result is what
    /// `remove_scope` needs to leave the scope again.
    pub fn add_scope(&mut self, decls: Vec<(String, PreVar)>) -> (undo: usize)
        ensures
            final(self)@ == old(self)@ + decls_view(decls@),
            undo == old(self)@.len(),
    {
        let undo = self.entries.len();
        let mut decls = decls;
        let ghost added = decls_view(decls@);
        self.entries.append(&mut decls);
        assert(self@ =~= old(self)@ + added);
        undo
    }

    /// Leaves the scope that was entered when `add_scope` gave `undo`.
    pub fn remove_scope(&mut self, undo: usize)
        requires
            undo <= old(self)@.len(),
        ensures
            final(self)@ == old(self)@.take(undo as int),
    {
        self.entries.truncate(undo);
        assert(self@ =~= old(self)@.take(undo as int));
    }
}

} // verus!
