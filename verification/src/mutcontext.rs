//! The bookkeeping of one function while its code is emitted: which
//! WebAssembly locals hold which local of the intermediate representation,
//! which scratch locals are lent out, and which branch targets are open.
//!
//! Locals, scratch locals and branch targets all come and go like the
//! entries of a stack: what was opened last is closed first.

use vstd::prelude::*;
use vstd::slice::slice_subrange;
use crate::vartype::{encode_vartype, vartype_cells, ValType, VarType};
use crate::wasm::instr::{ExprBuilder, LocalIdx};
use crate::var_conv::scratch_restored;
use crate::wasm::scratch::Scratch;

verus! {

/// An open branch target that the intermediate representation can branch
/// to: the number that the target had among all open targets when it was
/// opened (the first target has the number 1), the type of the value that a
/// branch carries, and the locals that hold what the target needs.
pub type Landing = (usize, VarType, Vec<LocalIdx>);

/// The locals of a function and how they are in use.
///
/// A local of the intermediate representation is held in a group of
/// WebAssembly locals: the group of local `i` are the entries of
/// `wasm_local_map` from position `local_map[i]` to the start of the next
/// group. The locals that the source names have positions of their own,
/// which `named_local_map` turns into positions in `local_map`; a local
/// that the emitter made for itself (a shadow local) has none.
#[derive(Debug)]
pub struct MutContext<W> {
    pub scratch: Scratch,
    pub wasm_local_map: Vec<LocalIdx>,
    pub local_map: Vec<usize>,
    pub local_types: Vec<VarType>,
    pub named_local_map: Vec<usize>,
    pub ir_landings: Vec<Landing>,
    pub wasm_landing_count: usize,
    pub module_wrapper: W,
    pub temp_array_length: usize,
}

/// Where the group of the local at position `i` ends.
pub open spec fn group_end(local_map: Seq<usize>, wasm_len: nat, i: int) -> int {
    if i + 1 < local_map.len() {
        local_map[i + 1] as int
    } else {
        wasm_len as int
    }
}

/// Whether each local has the group of WebAssembly locals that its type
/// needs, the groups following one another in the order of the locals.
pub open spec fn layout_ok(types: Seq<VarType>, local_map: Seq<usize>, wasm_len: nat) -> bool {
    &&& types.len() == local_map.len()
    &&& forall|i: int|
        0 <= i < types.len() ==> {
            &&& (#[trigger] types[i]) != VarType::Unassigned
            &&& local_map[i] + vartype_cells(types[i]).len() == group_end(local_map, wasm_len, i)
        }
    &&& forall|i: int, j: int| 0 <= i <= j < local_map.len() ==> local_map[i] <= local_map[j]
}

/// The locals among `idxs` whose type, by `types`, is `ty`, in order.
pub open spec fn of_type(idxs: Seq<LocalIdx>, types: Seq<ValType>, ty: ValType) -> Seq<LocalIdx>
    decreases idxs.len(),
{
    if idxs.len() == 0 || types.len() != idxs.len() {
        Seq::<LocalIdx>::empty()
    } else if types.last() == ty {
        of_type(idxs.drop_last(), types.drop_last(), ty).push(idxs.last())
    } else {
        of_type(idxs.drop_last(), types.drop_last(), ty)
    }
}

/// The mathematical value of the open branch targets.
pub open spec fn landings_view(landings: Seq<Landing>) -> Seq<(usize, VarType, Seq<LocalIdx>)> {
    Seq::new(landings.len(), |i: int| (landings[i].0, landings[i].1, landings[i].2@))
}

impl<W> MutContext<W> {
    /// The invariant of the context: every local has its group of
    /// WebAssembly locals, every named local is a local, and every open
    /// branch target that the intermediate representation can branch to is
    /// one of the open targets.
    pub open spec fn wf(&self) -> bool {
        &&& self.scratch.wf()
        &&& layout_ok(self.local_types@, self.local_map@, self.wasm_local_map@.len())
        &&& forall|i: int|
            0 <= i < self.named_local_map@.len() ==> (#[trigger] self.named_local_map@[i])
                < self.local_map@.len()
        &&& self.ir_landings@.len() <= self.wasm_landing_count
        &&& forall|i: int|
            0 <= i < self.ir_landings@.len() ==> 1 <= (#[trigger] self.ir_landings@[i]).0
                <= self.wasm_landing_count
    }

    /// Whether the two contexts have the same locals, with the same groups
    /// and the same names, and the same scratch locals lent out.
    pub open spec fn same_locals(&self, other: &MutContext<W>) -> bool {
        &&& self.wasm_local_map@ == other.wasm_local_map@
        &&& self.local_map@ == other.local_map@
        &&& self.local_types@ == other.local_types@
        &&& self.named_local_map@ == other.named_local_map@
        &&& self.scratch.same_live(&other.scratch)
        &&& self.scratch.base() == other.scratch.base()
    }

    /// Whether the two contexts have the same branch targets open.
    pub open spec fn same_landings(&self, other: &MutContext<W>) -> bool {
        &&& landings_view(self.ir_landings@) == landings_view(other.ir_landings@)
        &&& self.wasm_landing_count == other.wasm_landing_count
    }

    /// Whether this context is `base` with one more local of the given
    /// type on top, whose group are scratch locals that were lent out last.
    pub open spec fn has_local_on_top(&self, base: &MutContext<W>, ir_vartype: VarType) -> bool {
        let cells = vartype_cells(ir_vartype);
        let group = self.wasm_local_map@.skip(base.wasm_local_map@.len() as int);
        &&& self.local_types@ == base.local_types@.push(ir_vartype)
        &&& self.local_map@ == base.local_map@.push(base.wasm_local_map@.len() as usize)
        &&& self.wasm_local_map@.len() == base.wasm_local_map@.len() + cells.len()
        &&& self.wasm_local_map@.take(base.wasm_local_map@.len() as int) == base.wasm_local_map@
        &&& self.scratch.base() == base.scratch.base()
        &&& forall|ty: ValType|
            #[trigger] self.scratch.live(ty) == base.scratch.live(ty) + of_type(group, cells, ty)
    }

    /// Whether the local on top, which has the given type, can be taken
    /// off: its group are the scratch locals that were lent out last.
    pub open spec fn can_pop(&self, ir_vartype: VarType) -> bool {
        let cells = vartype_cells(ir_vartype);
        let count = self.wasm_local_map@.len() - cells.len();
        let group = self.wasm_local_map@.skip(count);
        &&& self.local_types@.len() > 0
        &&& self.local_types@.last() == ir_vartype
        &&& forall|ty: ValType|
            {
                let lent = of_type(group, cells, ty);
                &&& lent.len() <= (#[trigger] self.scratch.live(ty)).len()
                &&& self.scratch.live(ty).skip(self.scratch.live(ty).len() - lent.len()) == lent
            }
    }

    /// The context of a function with the given locals, all of them named,
    /// no scratch local lent out and no branch target open.
    pub fn new(
        scratch: Scratch,
        wasm_local_map: &[LocalIdx],
        local_map: &[usize],
        local_types: &[VarType],
        module_wrapper: W,
    ) -> (ctx: MutContext<W>)
        requires
            scratch.wf(),
            layout_ok(local_types@, local_map@, wasm_local_map@.len()),
        ensures
            ctx.wf(),
            ctx.scratch == scratch,
            ctx.wasm_local_map@ == wasm_local_map@,
            ctx.local_map@ == local_map@,
            ctx.local_types@ == local_types@,
            ctx.named_local_map@ == Seq::new(local_map@.len(), |i: int| i as usize),
            ctx.ir_landings@.len() == 0,
            ctx.wasm_landing_count == 0,
            ctx.module_wrapper == module_wrapper,
            ctx.temp_array_length == 0,
    {
        let num_locals = local_map.len();
        let mut named_local_map: Vec<usize> = Vec::new();
        let mut i: usize = 0;
        while i < num_locals
            invariant
                i <= num_locals,
                named_local_map@ == Seq::new(i as nat, |k: int| k as usize),
            decreases num_locals - i,
        {
            named_local_map.push(i);
            assert(named_local_map@ =~= Seq::new((i + 1) as nat, |k: int| k as usize));
            i = i + 1;
        }
        MutContext {
            scratch,
            wasm_local_map: vstd::slice::slice_to_vec(wasm_local_map),
            local_map: vstd::slice::slice_to_vec(local_map),
            local_types: vstd::slice::slice_to_vec(local_types),
            named_local_map,
            ir_landings: Vec::new(),
            wasm_landing_count: 0,
            module_wrapper,
            temp_array_length: 0,
        }
    }

    /// The type of a named local.
    pub fn named_local_types_elem(&self, named_idx: usize) -> (t: VarType)
        requires
            self.wf(),
            named_idx < self.named_local_map@.len(),
        ensures
            t == self.local_types@[self.named_local_map@[named_idx as int] as int],
    {
        self.local_types[self.named_local_map[named_idx]]
    }

    /// The pool of scratch locals.
    pub fn scratch_mut(&mut self) -> (scratch: &mut Scratch)
        ensures
            *scratch == old(self).scratch,
            *final(self) == (MutContext { scratch: *final(scratch), ..*old(self) }),
    {
        &mut self.scratch
    }

    /// What stands for the module under construction.
    pub fn module_wrapper(&mut self) -> (wrapper: &mut W)
        ensures
            *wrapper == old(self).module_wrapper,
            *final(self) == (MutContext { module_wrapper: *final(wrapper), ..*old(self) }),
    {
        &mut self.module_wrapper
    }

    /// The group of WebAssembly locals of a local.
    pub fn wasm_local_slice(&self, ir_localidx: usize) -> (group: &[LocalIdx])
        requires
            self.wf(),
            ir_localidx < self.local_map@.len(),
        ensures
            group@ == self.wasm_local_map@.subrange(
                self.local_map@[ir_localidx as int] as int,
                group_end(self.local_map@, self.wasm_local_map@.len(), ir_localidx as int),
            ),
            group@.len() == vartype_cells(self.local_types@[ir_localidx as int]).len(),
    {
        assert(self.local_types@[ir_localidx as int] != VarType::Unassigned);
        let count: usize = self.local_map.len();
        proof {
            let last = self.local_map@.len() - 1;
            assert(self.local_types@[last] != VarType::Unassigned);
            assert(self.local_map@[last] <= self.wasm_local_map@.len());
            if ir_localidx + 1 < count {
                assert(self.local_map@[ir_localidx + 1] <= self.local_map@[last]);
            }
        }
        let end = if ir_localidx + 1 < count {
            self.local_map[ir_localidx + 1]
        } else {
            self.wasm_local_map.len()
        };
        slice_subrange(self.wasm_local_map.as_slice(), self.local_map[ir_localidx], end)
    }

    /// The group of WebAssembly locals of a named local.
    pub fn named_wasm_local_slice(&self, named_ir_localidx: usize) -> (group: &[LocalIdx])
        requires
            self.wf(),
            named_ir_localidx < self.named_local_map@.len(),
        ensures
            group@ == self.wasm_local_map@.subrange(
                self.local_map@[self.named_local_map@[named_ir_localidx as int] as int] as int,
                group_end(
                    self.local_map@,
                    self.wasm_local_map@.len(),
                    self.named_local_map@[named_ir_localidx as int] as int,
                ),
            ),
            group@.len() == vartype_cells(
                self.local_types@[self.named_local_map@[named_ir_localidx as int] as int],
            ).len(),
    {
        let ir_localidx = self.named_local_map[named_ir_localidx];
        self.wasm_local_slice(ir_localidx)
    }

    /// Notes the length of the array that is about to be allocated. No
    /// other allocation of an array may be under way.
    pub fn set_temp_array_length(&mut self, new_array_length: usize)
        requires
            old(self).temp_array_length == 0,
        ensures
            *final(self) == (MutContext { temp_array_length: new_array_length, ..*old(self) }),
    {
        self.temp_array_length = new_array_length;
    }

    /// The length of the array that is about to be allocated; 0 where none
    /// is.
    pub fn temp_array_length(&self) -> (n: usize)
        ensures
            n == self.temp_array_length,
    {
        self.temp_array_length
    }

    /// Notes that the allocation of the array is over. One must be under
    /// way.
    pub fn reset_temp_array_length(&mut self)
        requires
            old(self).temp_array_length != 0,
        ensures
            *final(self) == (MutContext { temp_array_length: 0, ..*old(self) }),
    {
        self.temp_array_length = 0;
    }

    /// For a branch target that the intermediate representation knows as
    /// the `ir_landing`-th of its open targets, counted from the innermost:
    /// how many targets of the WebAssembly code lie between the branch and
    /// the target, the type that the branch carries, and the locals that
    /// hold what the target needs.
    pub fn get_wasm_landing(&self, ir_landing: usize) -> (landing: (usize, VarType, Vec<LocalIdx>))
        requires
            self.wf(),
            ir_landing < self.ir_landings@.len(),
        ensures
            ({
                let entry = self.ir_landings@[self.ir_landings@.len() - ir_landing - 1];
                &&& landing.0 == self.wasm_landing_count - entry.0
                &&& landing.1 == entry.1
                &&& landing.2@ == entry.2@
            }),
    {
        let entry = &self.ir_landings[self.ir_landings.len() - ir_landing - 1];
        let mut landing_ctx: Vec<LocalIdx> = Vec::new();
        let mut i: usize = 0;
        while i < entry.2.len()
            invariant
                i <= entry.2@.len(),
                landing_ctx@ == entry.2@.take(i as int),
            decreases entry.2@.len() - i,
        {
            landing_ctx.push(entry.2[i]);
            assert(entry.2@.take(i + 1) =~= entry.2@.take(i as int).push(entry.2@[i as int]));
            i = i + 1;
        }
        assert(entry.2@.take(i as int) =~= entry.2@);
        (self.wasm_landing_count - entry.0, entry.1, landing_ctx)
    }
}

impl<W> MutContext<W> {
    /// Whether the two contexts differ in their locals and in the pool of
    /// scratch locals at most.
    pub open spec fn same_rest(&self, other: &MutContext<W>) -> bool {
        &&& self.named_local_map == other.named_local_map
        &&& self.ir_landings == other.ir_landings
        &&& self.wasm_landing_count == other.wasm_landing_count
        &&& self.module_wrapper == other.module_wrapper
        &&& self.temp_array_length == other.temp_array_length
    }

    /// Whether the two contexts have the same module and the same length
    /// noted for the temporary array, which no scope touches.
    pub open spec fn same_module(&self, other: &MutContext<W>) -> bool {
        &&& self.module_wrapper == other.module_wrapper
        &&& self.temp_array_length == other.temp_array_length
    }

    /// Whether no name stands for the local on top.
    pub open spec fn top_is_unnamed(&self) -> bool {
        forall|i: int|
            0 <= i < self.named_local_map@.len() ==> (#[trigger] self.named_local_map@[i]) + 1
                < self.local_map@.len()
    }

    /// Puts a local of the given type on top of the locals. Its group are
    /// scratch locals, which are lent out for it.
    pub fn push_local(&mut self, ir_vartype: VarType)
        requires
            old(self).wf(),
            ir_vartype != VarType::Unassigned,
        ensures
            final(self).wf(),
            final(self).has_local_on_top(old(self), ir_vartype),
            final(self).can_pop(ir_vartype),
            final(self).top_is_unnamed(),
            final(self).same_rest(old(self)),
    {
        let ghost before = *self;
        let ghost cells = vartype_cells(ir_vartype);
        self.local_types.push(ir_vartype);
        self.local_map.push(self.wasm_local_map.len());
        let wasm_valtypes = encode_vartype(ir_vartype);
        let count = wasm_valtypes.len();
        if count >= 1 {
            let localidx = self.scratch.push(wasm_valtypes[0]);
            self.wasm_local_map.push(localidx);
        }
        if count >= 2 {
            let localidx = self.scratch.push(wasm_valtypes[1]);
            self.wasm_local_map.push(localidx);
        }
        proof {
            reveal_with_fuel(of_type, 3);
            let start = before.wasm_local_map@.len() as int;
            let group = self.wasm_local_map@.skip(start);
            assert(self.wasm_local_map@.take(start) =~= before.wasm_local_map@);
            assert(group.len() == cells.len());
            if cells.len() == 1 {
                assert(group.drop_last().len() == 0);
                assert(cells.drop_last().len() == 0);
            } else if cells.len() == 2 {
                assert(group.drop_last().drop_last().len() == 0);
                assert(cells.drop_last().drop_last().len() == 0);
                assert(group.drop_last().last() == group[0]);
                assert(cells.drop_last().last() == cells[0]);
            }
            assert forall|ty: ValType| #[trigger] self.scratch.live(ty) == before.scratch.live(ty)
                + of_type(group, cells, ty) by {
                assert(self.scratch.live(ty) =~= before.scratch.live(ty) + of_type(group, cells, ty));
            }
            assert forall|ty: ValType|
                {
                    let lent = of_type(group, cells, ty);
                    &&& lent.len() <= (#[trigger] self.scratch.live(ty)).len()
                    &&& self.scratch.live(ty).skip(self.scratch.live(ty).len() - lent.len()) == lent
                } by {
                let lent = of_type(group, cells, ty);
                assert(self.scratch.live(ty).skip(self.scratch.live(ty).len() - lent.len())
                    =~= lent);
            }
            assert(self.wasm_local_map@.skip(self.wasm_local_map@.len() - cells.len()) == group);
            assert forall|i: int, j: int| 0 <= i <= j < self.local_map@.len() implies self.local_map@[i]
                <= self.local_map@[j] by {
                if j < before.local_map@.len() {
                    assert(self.local_map@[i] == before.local_map@[i]);
                    assert(self.local_map@[j] == before.local_map@[j]);
                } else if i < before.local_map@.len() {
                    let last = before.local_map@.len() - 1;
                    assert(self.local_map@[i] == before.local_map@[i]);
                    assert(before.local_types@[last] != VarType::Unassigned);
                    assert(before.local_map@[i] <= before.local_map@[last]);
                    assert(before.local_map@[last] <= before.wasm_local_map@.len());
                }
            }
            assert forall|i: int| 0 <= i < self.local_types@.len() implies {
                &&& (#[trigger] self.local_types@[i]) != VarType::Unassigned
                &&& self.local_map@[i] + vartype_cells(self.local_types@[i]).len() == group_end(
                    self.local_map@,
                    self.wasm_local_map@.len(),
                    i,
                )
            } by {
                if i < before.local_types@.len() {
                    assert(self.local_types@[i] == before.local_types@[i]);
                    assert(self.local_map@[i] == before.local_map@[i]);
                    assert(before.local_map@[i] + vartype_cells(before.local_types@[i]).len()
                        == group_end(before.local_map@, before.wasm_local_map@.len(), i));
                    if i + 1 < before.local_map@.len() {
                        assert(self.local_map@[i + 1] == before.local_map@[i + 1]);
                    }
                }
            }
        }
    }

    /// Takes the local on top, which has the given type, off the locals,
    /// and takes back the scratch locals of its group.
    pub fn pop_local(&mut self, ir_vartype: VarType)
        requires
            old(self).wf(),
            old(self).can_pop(ir_vartype),
            old(self).top_is_unnamed(),
        ensures
            final(self).wf(),
            final(self).same_rest(old(self)),
            final(self).local_types@ == old(self).local_types@.drop_last(),
            final(self).local_map@ == old(self).local_map@.drop_last(),
            final(self).wasm_local_map@ == old(self).wasm_local_map@.take(
                old(self).local_map@.last() as int,
            ),
            final(self).scratch.pool() == old(self).scratch.pool(),
            final(self).scratch.base() == old(self).scratch.base(),
            forall|base: MutContext<W>|
                old(self).has_local_on_top(&base, ir_vartype) ==> #[trigger] final(self).same_locals(
                    &base,
                ) || final(self).named_local_map@ != base.named_local_map@,
    {
        let ghost before = *self;
        let ghost cells = vartype_cells(ir_vartype);
        let ghost start = before.wasm_local_map@.len() - cells.len();
        let ghost group = before.wasm_local_map@.skip(start);
        proof {
            reveal_with_fuel(of_type, 3);
            let last = before.local_types@.len() - 1;
            assert(before.local_types@[last] == ir_vartype);
            assert(before.local_map@[last] + cells.len() == before.wasm_local_map@.len());
            assert(group.len() == cells.len());
            if cells.len() == 1 {
                assert(group.drop_last().len() == 0);
                assert(cells.drop_last().len() == 0);
            } else if cells.len() == 2 {
                assert(group.drop_last().drop_last().len() == 0);
                assert(cells.drop_last().drop_last().len() == 0);
                assert(cells.drop_last().last() == cells[0]);
            }
            assert(before.scratch.live(cells[0]).len() >= of_type(group, cells, cells[0]).len());
            if cells.len() == 2 {
                assert(before.scratch.live(cells[1]).len() >= of_type(group, cells, cells[1]).len());
            }
        }
        let wasm_valtypes = encode_vartype(ir_vartype);
        let count = wasm_valtypes.len();
        if count >= 1 {
            self.wasm_local_map.pop();
            self.scratch.pop(wasm_valtypes[0]);
        }
        if count >= 2 {
            self.wasm_local_map.pop();
            self.scratch.pop(wasm_valtypes[1]);
        }
        self.local_map.pop();
        self.local_types.pop();
        proof {
            assert(self.wasm_local_map@ =~= before.wasm_local_map@.take(start));
            assert forall|i: int| 0 <= i < self.local_types@.len() implies {
                &&& (#[trigger] self.local_types@[i]) != VarType::Unassigned
                &&& self.local_map@[i] + vartype_cells(self.local_types@[i]).len() == group_end(
                    self.local_map@,
                    self.wasm_local_map@.len(),
                    i,
                )
            } by {
                assert(self.local_types@[i] == before.local_types@[i]);
                assert(self.local_map@[i] == before.local_map@[i]);
                assert(before.local_map@[i] + vartype_cells(before.local_types@[i]).len()
                    == group_end(before.local_map@, before.wasm_local_map@.len(), i));
                if i + 1 < self.local_map@.len() {
                    assert(self.local_map@[i + 1] == before.local_map@[i + 1]);
                } else {
                    assert(before.local_types@[i + 1] == ir_vartype);
                    assert(before.local_map@[i + 1] + cells.len() == before.wasm_local_map@.len());
                }
            }
            assert forall|base: MutContext<W>|
                before.has_local_on_top(&base, ir_vartype) && self.named_local_map@
                    == base.named_local_map@ implies #[trigger] self.same_locals(&base) by {
                assert(start == base.wasm_local_map@.len());
                assert(self.local_types@ =~= base.local_types@);
                assert(self.local_map@ =~= base.local_map@);
                assert(self.wasm_local_map@ =~= base.wasm_local_map@);
                assert forall|ty: ValType| #[trigger] self.scratch.live(ty) == base.scratch.live(
                    ty,
                ) by {
                    let lent = of_type(group, cells, ty);
                    assert(before.scratch.live(ty) == base.scratch.live(ty) + lent);
                    assert(self.scratch.live(ty) =~= base.scratch.live(ty));
                }
            }
        }
    }

    /// Puts a local of the given type on top of the locals and gives its
    /// position. The local is to be taken off again with
    /// `remove_shadow_local`, and something is to be stored in it before
    /// anything is allocated.
    pub fn add_uninitialized_shadow_local(&mut self, ir_vartype: VarType) -> (idx: usize)
        requires
            old(self).wf(),
            ir_vartype != VarType::Unassigned,
        ensures
            idx == old(self).local_types@.len(),
            final(self).wf(),
            final(self).has_local_on_top(old(self), ir_vartype),
            final(self).can_pop(ir_vartype),
            final(self).top_is_unnamed(),
            final(self).same_rest(old(self)),
    {
        let ret = self.local_types.len();
        self.push_local(ir_vartype);
        ret
    }

    /// Takes the local on top, which has the given type, off the locals.
    pub fn remove_shadow_local(&mut self, ir_vartype: VarType)
        requires
            old(self).wf(),
            old(self).can_pop(ir_vartype),
            old(self).top_is_unnamed(),
        ensures
            final(self).wf(),
            final(self).same_rest(old(self)),
            final(self).local_types@ == old(self).local_types@.drop_last(),
            final(self).local_map@ == old(self).local_map@.drop_last(),
            final(self).wasm_local_map@ == old(self).wasm_local_map@.take(
                old(self).local_map@.last() as int,
            ),
            forall|base: MutContext<W>|
                old(self).has_local_on_top(&base, ir_vartype) ==> #[trigger] final(self).same_locals(
                    &base,
                ) || final(self).named_local_map@ != base.named_local_map@,
    {
        self.pop_local(ir_vartype);
    }
}

/// What manages the heap of the compiled program: it emits the code that
/// allocates, and the code that tells the collector which locals hold
/// pointers. Each of its methods gets the types of locals, the starts of
/// their groups and the WebAssembly locals of the groups, and may borrow
/// scratch locals, which it gives back, and append code.
pub trait HeapManager {
    /// Emits the code that makes the given locals, the last ones of the
    /// function, safe for the collector to look at.
    fn encode_local_roots_init(
        &self,
        local_types: &[VarType],
        local_map: &[usize],
        wasm_local_map: &[LocalIdx],
        scratch: &mut Scratch,
        expr_builder: &mut ExprBuilder,
    )
        requires
            old(scratch).wf(),
        ensures
            scratch_restored(old(scratch), final(scratch)),
            old(expr_builder)@.is_prefix_of(final(expr_builder)@),
    ;

    /// Emits the code that shows the locals to the collector before a call.
    fn encode_local_roots_prologue(
        &self,
        local_types: &[VarType],
        local_map: &[usize],
        wasm_local_map: &[LocalIdx],
        scratch: &mut Scratch,
        expr_builder: &mut ExprBuilder,
    )
        requires
            old(scratch).wf(),
        ensures
            scratch_restored(old(scratch), final(scratch)),
            old(expr_builder)@.is_prefix_of(final(expr_builder)@),
    ;

    /// Emits the code that takes the locals back from the collector after a
    /// call.
    fn encode_local_roots_epilogue(
        &self,
        local_types: &[VarType],
        local_map: &[usize],
        wasm_local_map: &[LocalIdx],
        scratch: &mut Scratch,
        expr_builder: &mut ExprBuilder,
    )
        requires
            old(scratch).wf(),
        ensures
            scratch_restored(old(scratch), final(scratch)),
            old(expr_builder)@.is_prefix_of(final(expr_builder)@),
    ;

    /// Emits the code that allocates a value of the given type.
    fn encode_fixed_allocation(
        &self,
        vartype: VarType,
        local_types: &[VarType],
        local_map: &[usize],
        wasm_local_map: &[LocalIdx],
        scratch: &mut Scratch,
        expr_builder: &mut ExprBuilder,
    )
        requires
            old(scratch).wf(),
        ensures
            scratch_restored(old(scratch), final(scratch)),
            old(expr_builder)@.is_prefix_of(final(expr_builder)@),
    ;

    /// Emits the code that allocates an array of values of the given type,
    /// of the given length, which is not 0.
    fn encode_dynamic_allocation(
        &self,
        vartype: VarType,
        local_types: &[VarType],
        local_map: &[usize],
        wasm_local_map: &[LocalIdx],
        scratch: &mut Scratch,
        expr_builder: &mut ExprBuilder,
        temp_array_length: usize,
    )
        requires
            old(scratch).wf(),
            temp_array_length != 0,
        ensures
            scratch_restored(old(scratch), final(scratch)),
            old(expr_builder)@.is_prefix_of(final(expr_builder)@),
    ;
}

/// What holds of a context that has one more local of the given type than
/// `base`, before the local is in use.
pub open spec fn local_opened<W>(ctx: &MutContext<W>, base: &MutContext<W>, ir_vartype: VarType) -> bool {
    &&& ctx.wf()
    &&& ctx.has_local_on_top(base, ir_vartype)
    &&& ctx.can_pop(ir_vartype)
    &&& ctx.top_is_unnamed()
    &&& ctx.named_local_map == base.named_local_map
    &&& ctx.same_landings(base)
    &&& ctx.temp_array_length == base.temp_array_length
}

/// A context with the locals of another has what that one has on top.
pub proof fn lemma_same_locals_on_top<W>(
    a: &MutContext<W>,
    b: &MutContext<W>,
    base: &MutContext<W>,
    ir_vartype: VarType,
)
    requires
        a.same_locals(b),
        b.has_local_on_top(base, ir_vartype),
        b.can_pop(ir_vartype),
        b.top_is_unnamed(),
    ensures
        a.has_local_on_top(base, ir_vartype),
        a.can_pop(ir_vartype),
        a.top_is_unnamed(),
{
    let cells = vartype_cells(ir_vartype);
    let group = a.wasm_local_map@.skip(base.wasm_local_map@.len() as int);
    assert forall|ty: ValType| #[trigger] a.scratch.live(ty) == base.scratch.live(ty) + of_type(
        group,
        cells,
        ty,
    ) by {
        assert(a.scratch.live(ty) == b.scratch.live(ty));
    }
    assert forall|ty: ValType|
        {
            let lent = of_type(a.wasm_local_map@.skip(a.wasm_local_map@.len() - cells.len()), cells, ty);
            &&& lent.len() <= (#[trigger] a.scratch.live(ty)).len()
            &&& a.scratch.live(ty).skip(a.scratch.live(ty).len() - lent.len()) == lent
        } by {
        assert(a.scratch.live(ty) == b.scratch.live(ty));
    }
}

impl<W> MutContext<W> {
    /// Puts a local of the given type on top of the locals for the time of
    /// `f`, which gets the position of the local. `f` is to store something
    /// in the local before anything is allocated, and to leave the locals
    /// as it found them.
    pub fn with_uninitialized_shadow_local<R, F: FnOnce(&mut MutContext<W>, usize) -> R>(
        &mut self,
        ir_vartype: VarType,
        f: F,
    ) -> (result: R)
        requires
            old(self).wf(),
            ir_vartype != VarType::Unassigned,
            forall|c: &mut MutContext<W>, i: usize|
                local_opened(&mut_ref_current(c), old(self), ir_vartype) && i == old(
                    self,
                ).local_types@.len() ==> #[trigger] call_requires(f, (c, i)),
            forall|c: &mut MutContext<W>, i: usize, r: R|
                #[trigger] call_ensures(f, (c, i), r) ==> mut_ref_future(c).wf() && mut_ref_future(
                    c,
                ).same_locals(&mut_ref_current(c)),
        ensures
            final(self).wf(),
            final(self).same_locals(old(self)),
            exists|c: &mut MutContext<W>, i: usize|
                #[trigger] call_ensures(f, (c, i), result) && local_opened(
                    &mut_ref_current(c),
                    old(self),
                    ir_vartype,
                ) && i == old(self).local_types@.len() && final(self).same_module(&mut_ref_future(c)),
    {
        let idx = self.local_types.len();
        self.push_local(ir_vartype);
        let ghost opened = *self;
        let result = f(self, idx);
        proof {
            lemma_same_locals_on_top(self, &opened, old(self), ir_vartype);
        }
        self.pop_local(ir_vartype);
        result
    }

    /// Like `with_uninitialized_shadow_local`, for a local with a name:
    /// `f` gets the position of the local among the named locals.
    pub fn with_uninitialized_named_local<R, F: FnOnce(&mut MutContext<W>, usize) -> R>(
        &mut self,
        ir_vartype: VarType,
        f: F,
    ) -> (result: R)
        requires
            old(self).wf(),
            ir_vartype != VarType::Unassigned,
            forall|c: &mut MutContext<W>, i: usize|
                mut_ref_current(c).wf() && mut_ref_current(c).has_local_on_top(
                    old(self),
                    ir_vartype,
                ) && mut_ref_current(c).named_local_map@ == old(self).named_local_map@.push(
                    old(self).local_types@.len() as usize,
                ) && mut_ref_current(c).same_landings(old(self)) && i == old(
                    self,
                ).named_local_map@.len() ==> #[trigger] call_requires(f, (c, i)),
            forall|c: &mut MutContext<W>, i: usize, r: R|
                #[trigger] call_ensures(f, (c, i), r) ==> mut_ref_future(c).wf() && mut_ref_future(
                    c,
                ).same_locals(&mut_ref_current(c)),
        ensures
            final(self).wf(),
            final(self).same_locals(old(self)),
            exists|c: &mut MutContext<W>, i: usize|
                #[trigger] call_ensures(f, (c, i), result) && mut_ref_current(c).has_local_on_top(
                    old(self),
                    ir_vartype,
                ) && mut_ref_current(c).named_local_map@ == old(self).named_local_map@.push(
                    old(self).local_types@.len() as usize,
                ) && i == old(self).named_local_map@.len() && final(self).same_module(
                    &mut_ref_future(c),
                ),
    {
        let ir_localidx = self.local_types.len();
        self.push_local(ir_vartype);
        let ghost opened = *self;
        let named_ir_localidx = self.named_local_map.len();
        self.named_local_map.push(ir_localidx);
        let ghost named = *self;
        proof {
            assert(named.local_map@.len() == ir_localidx + 1);
        }
        let result = f(self, named_ir_localidx);
        self.named_local_map.pop();
        proof {
            assert(self.named_local_map@ =~= opened.named_local_map@);
            assert(self.same_locals(&opened));
            lemma_same_locals_on_top(self, &opened, old(self), ir_vartype);
        }
        self.pop_local(ir_vartype);
        result
    }

    /// Puts a local of the given type on top of the locals for the time of
    /// `f`, which gets the position of the local; before `f`, emits the
    /// code that makes the local safe for the collector to look at. `f` is
    /// to leave the locals as it found them, and to append to the code only.
    pub fn with_shadow_local<
        H: HeapManager,
        R,
        F: FnOnce(&mut MutContext<W>, &mut ExprBuilder, usize) -> R,
    >(&mut self, ir_vartype: VarType, heap: &H, expr_builder: &mut ExprBuilder, f: F) -> (result: R)
        requires
            old(self).wf(),
            ir_vartype != VarType::Unassigned,
            forall|c: &mut MutContext<W>, b: &mut ExprBuilder, i: usize|
                mut_ref_current(c).wf() && mut_ref_current(c).has_local_on_top(
                    old(self),
                    ir_vartype,
                ) && mut_ref_current(c).named_local_map == old(self).named_local_map
                    && mut_ref_current(c).same_landings(old(self)) && old(
                    expr_builder,
                )@.is_prefix_of(mut_ref_current(b)@) && i == old(self).local_types@.len()
                    ==> #[trigger] call_requires(f, (c, b, i)),
            forall|c: &mut MutContext<W>, b: &mut ExprBuilder, i: usize, r: R|
                #[trigger] call_ensures(f, (c, b, i), r) ==> mut_ref_future(c).wf()
                    && mut_ref_future(c).same_locals(&mut_ref_current(c)) && mut_ref_current(
                    b,
                )@.is_prefix_of(mut_ref_future(b)@),
        ensures
            final(self).wf(),
            final(self).same_locals(old(self)),
            exists|
                local_types: &[VarType],
                local_map: &[usize],
                wasm_local_map: &[LocalIdx],
                s: &mut Scratch,
                a: &mut ExprBuilder,
                c: &mut MutContext<W>,
                b: &mut ExprBuilder,
                i: usize,
            |
                {
                    &&& #[trigger] call_ensures(
                        H::encode_local_roots_init,
                        (heap, local_types, local_map, wasm_local_map, s, a),
                        (),
                    )
                    &&& #[trigger] call_ensures(f, (c, b, i), result)
                    &&& i == old(self).local_types@.len()
                    &&& mut_ref_current(c).has_local_on_top(old(self), ir_vartype)
                    &&& mut_ref_current(c).named_local_map == old(self).named_local_map
                    &&& local_types@ == mut_ref_current(c).local_types@.skip(i as int)
                    &&& local_map@ == mut_ref_current(c).local_map@.skip(i as int)
                    &&& wasm_local_map@ == mut_ref_current(c).wasm_local_map@
                    &&& mut_ref_current(s).same_live(&mut_ref_current(c).scratch)
                    &&& mut_ref_future(s) == mut_ref_current(c).scratch
                    &&& mut_ref_current(a) == *old(expr_builder)
                    &&& mut_ref_future(a) == mut_ref_current(b)
                    &&& mut_ref_future(b) == *final(expr_builder)
                    &&& final(self).same_module(&mut_ref_future(c))
                },
            old(expr_builder)@.is_prefix_of(final(expr_builder)@),
    {
        let idx = self.local_types.len();
        self.push_local(ir_vartype);
        let ghost opened = *self;
        heap.encode_local_roots_init(
            slice_subrange(self.local_types.as_slice(), idx, self.local_types.len()),
            slice_subrange(self.local_map.as_slice(), idx, self.local_map.len()),
            self.wasm_local_map.as_slice(),
            &mut self.scratch,
            expr_builder,
        );
        let ghost ready = *self;
        proof {
            assert(ready.same_locals(&opened));
            lemma_same_locals_on_top(&ready, &opened, old(self), ir_vartype);
            assert(ready.local_types@.subrange(idx as int, ready.local_types@.len() as int)
                =~= ready.local_types@.skip(idx as int));
            assert(ready.local_map@.subrange(idx as int, ready.local_map@.len() as int)
                =~= ready.local_map@.skip(idx as int));
        }
        let result = f(self, expr_builder, idx);
        proof {
            lemma_same_locals_on_top(self, &ready, old(self), ir_vartype);
        }
        self.pop_local(ir_vartype);
        result
    }

    /// Like `with_shadow_local`, for a local with a name: `f` gets the
    /// position of the local among the named locals.
    pub fn with_named_local<
        H: HeapManager,
        R,
        F: FnOnce(&mut MutContext<W>, &mut ExprBuilder, usize) -> R,
    >(&mut self, ir_vartype: VarType, heap: &H, expr_builder: &mut ExprBuilder, f: F) -> (result: R)
        requires
            old(self).wf(),
            ir_vartype != VarType::Unassigned,
            forall|c: &mut MutContext<W>, b: &mut ExprBuilder, i: usize|
                mut_ref_current(c).wf() && mut_ref_current(c).has_local_on_top(
                    old(self),
                    ir_vartype,
                ) && mut_ref_current(c).named_local_map@ == old(self).named_local_map@.push(
                    old(self).local_types@.len() as usize,
                ) && mut_ref_current(c).same_landings(old(self)) && old(
                    expr_builder,
                )@.is_prefix_of(mut_ref_current(b)@) && i == old(self).named_local_map@.len()
                    ==> #[trigger] call_requires(f, (c, b, i)),
            forall|c: &mut MutContext<W>, b: &mut ExprBuilder, i: usize, r: R|
                #[trigger] call_ensures(f, (c, b, i), r) ==> mut_ref_future(c).wf()
                    && mut_ref_future(c).same_locals(&mut_ref_current(c)) && mut_ref_current(
                    b,
                )@.is_prefix_of(mut_ref_future(b)@),
        ensures
            final(self).wf(),
            final(self).same_locals(old(self)),
            exists|
                local_types: &[VarType],
                local_map: &[usize],
                wasm_local_map: &[LocalIdx],
                s: &mut Scratch,
                a: &mut ExprBuilder,
                c: &mut MutContext<W>,
                b: &mut ExprBuilder,
                i: usize,
            |
                {
                    &&& #[trigger] call_ensures(
                        H::encode_local_roots_init,
                        (heap, local_types, local_map, wasm_local_map, s, a),
                        (),
                    )
                    &&& #[trigger] call_ensures(f, (c, b, i), result)
                    &&& i == old(self).named_local_map@.len()
                    &&& mut_ref_current(c).has_local_on_top(old(self), ir_vartype)
                    &&& mut_ref_current(c).named_local_map@ == old(self).named_local_map@.push(
                        old(self).local_types@.len() as usize,
                    )
                    &&& local_types@ == mut_ref_current(c).local_types@.skip(
                        old(self).local_types@.len() as int,
                    )
                    &&& local_map@ == mut_ref_current(c).local_map@.skip(
                        old(self).local_types@.len() as int,
                    )
                    &&& wasm_local_map@ == mut_ref_current(c).wasm_local_map@
                    &&& mut_ref_current(s).same_live(&mut_ref_current(c).scratch)
                    &&& mut_ref_future(s) == mut_ref_current(c).scratch
                    &&& mut_ref_current(a) == *old(expr_builder)
                    &&& mut_ref_future(a) == mut_ref_current(b)
                    &&& mut_ref_future(b) == *final(expr_builder)
                    &&& final(self).same_module(&mut_ref_future(c))
                },
            old(expr_builder)@.is_prefix_of(final(expr_builder)@),
    {
        let ir_localidx = self.local_types.len();
        self.push_local(ir_vartype);
        let ghost opened = *self;
        heap.encode_local_roots_init(
            slice_subrange(self.local_types.as_slice(), ir_localidx, self.local_types.len()),
            slice_subrange(self.local_map.as_slice(), ir_localidx, self.local_map.len()),
            self.wasm_local_map.as_slice(),
            &mut self.scratch,
            expr_builder,
        );
        let ghost ready = *self;
        proof {
            assert(ready.same_locals(&opened));
            lemma_same_locals_on_top(&ready, &opened, old(self), ir_vartype);
            assert(ready.local_types@.subrange(ir_localidx as int, ready.local_types@.len() as int)
                =~= ready.local_types@.skip(ir_localidx as int));
            assert(ready.local_map@.subrange(ir_localidx as int, ready.local_map@.len() as int)
                =~= ready.local_map@.skip(ir_localidx as int));
        }
        let named_ir_localidx = self.named_local_map.len();
        self.named_local_map.push(ir_localidx);
        proof {
            assert(self.local_map@.len() == ir_localidx + 1);
        }
        let result = f(self, expr_builder, named_ir_localidx);
        self.named_local_map.pop();
        proof {
            assert(self.named_local_map@ =~= ready.named_local_map@);
            assert(self.same_locals(&ready));
            lemma_same_locals_on_top(self, &ready, old(self), ir_vartype);
        }
        self.pop_local(ir_vartype);
        result
    }

    /// Lends a scratch local of the given type for the time of `f`. `f` is
    /// to leave the scratch locals as it found them.
    pub fn with_scratch<R, F: FnOnce(&mut MutContext<W>, LocalIdx) -> R>(
        &mut self,
        valtype: ValType,
        f: F,
    ) -> (result: R)
        requires
            old(self).wf(),
            forall|c: &mut MutContext<W>, idx: LocalIdx|
                mut_ref_current(c).wf() && mut_ref_current(c).scratch.live(valtype) == old(
                    self,
                ).scratch.live(valtype).push(idx) && !old(self).scratch.is_live(idx)
                    && mut_ref_current(c).scratch.pool()[idx.idx as int] == valtype
                    ==> #[trigger] call_requires(f, (c, idx)),
            forall|c: &mut MutContext<W>, idx: LocalIdx, r: R|
                #[trigger] call_ensures(f, (c, idx), r) ==> mut_ref_future(c).wf()
                    && mut_ref_future(c).same_locals(&mut_ref_current(c)),
        ensures
            final(self).wf(),
            final(self).same_locals(old(self)),
            exists|c: &mut MutContext<W>, idx: LocalIdx|
                #[trigger] call_ensures(f, (c, idx), result) && mut_ref_current(c).scratch.live(
                    valtype,
                ) == old(self).scratch.live(valtype).push(idx) && !old(self).scratch.is_live(idx)
                    && final(self).same_rest(&mut_ref_future(c)),
    {
        let idx = self.scratch.push(valtype);
        let ghost lent = *self;
        let result = f(self, idx);
        proof {
            assert(self.scratch.live(valtype) == lent.scratch.live(valtype));
        }
        self.scratch.pop(valtype);
        proof {
            assert forall|ty: ValType| #[trigger] self.scratch.live(ty) == old(self).scratch.live(
                ty,
            ) by {
                assert(self.scratch.live(ty) =~= old(self).scratch.live(ty));
            }
        }
        result
    }

    /// Lends a scratch local of type `i32` for the time of `f`.
    pub fn with_scratch_i32<R, F: FnOnce(&mut MutContext<W>, LocalIdx) -> R>(&mut self, f: F) -> (result:
        R)
        requires
            old(self).wf(),
            forall|c: &mut MutContext<W>, idx: LocalIdx|
                mut_ref_current(c).wf() && mut_ref_current(c).scratch.live(ValType::I32) == old(
                    self,
                ).scratch.live(ValType::I32).push(idx) && !old(self).scratch.is_live(idx)
                    && mut_ref_current(c).scratch.pool()[idx.idx as int] == ValType::I32
                    ==> #[trigger] call_requires(f, (c, idx)),
            forall|c: &mut MutContext<W>, idx: LocalIdx, r: R|
                #[trigger] call_ensures(f, (c, idx), r) ==> mut_ref_future(c).wf()
                    && mut_ref_future(c).same_locals(&mut_ref_current(c)),
        ensures
            final(self).wf(),
            final(self).same_locals(old(self)),
            exists|c: &mut MutContext<W>, idx: LocalIdx|
                #[trigger] call_ensures(f, (c, idx), result) && mut_ref_current(c).scratch.live(
                    ValType::I32,
                ) == old(self).scratch.live(ValType::I32).push(idx) && !old(self).scratch.is_live(idx)
                    && final(self).same_rest(&mut_ref_future(c)),
    {
        self.with_scratch(ValType::I32, f)
    }

    /// Lends a scratch local of type `i64` for the time of `f`.
    pub fn with_scratch_i64<R, F: FnOnce(&mut MutContext<W>, LocalIdx) -> R>(&mut self, f: F) -> (result:
        R)
        requires
            old(self).wf(),
            forall|c: &mut MutContext<W>, idx: LocalIdx|
                mut_ref_current(c).wf() && mut_ref_current(c).scratch.live(ValType::I64) == old(
                    self,
                ).scratch.live(ValType::I64).push(idx) && !old(self).scratch.is_live(idx)
                    && mut_ref_current(c).scratch.pool()[idx.idx as int] == ValType::I64
                    ==> #[trigger] call_requires(f, (c, idx)),
            forall|c: &mut MutContext<W>, idx: LocalIdx, r: R|
                #[trigger] call_ensures(f, (c, idx), r) ==> mut_ref_future(c).wf()
                    && mut_ref_future(c).same_locals(&mut_ref_current(c)),
        ensures
            final(self).wf(),
            final(self).same_locals(old(self)),
            exists|c: &mut MutContext<W>, idx: LocalIdx|
                #[trigger] call_ensures(f, (c, idx), result) && mut_ref_current(c).scratch.live(
                    ValType::I64,
                ) == old(self).scratch.live(ValType::I64).push(idx) && !old(self).scratch.is_live(idx)
                    && final(self).same_rest(&mut_ref_future(c)),
    {
        self.with_scratch(ValType::I64, f)
    }

    /// Lends a scratch local of type `f32` for the time of `f`.
    pub fn with_scratch_f32<R, F: FnOnce(&mut MutContext<W>, LocalIdx) -> R>(&mut self, f: F) -> (result:
        R)
        requires
            old(self).wf(),
            forall|c: &mut MutContext<W>, idx: LocalIdx|
                mut_ref_current(c).wf() && mut_ref_current(c).scratch.live(ValType::F32) == old(
                    self,
                ).scratch.live(ValType::F32).push(idx) && !old(self).scratch.is_live(idx)
                    && mut_ref_current(c).scratch.pool()[idx.idx as int] == ValType::F32
                    ==> #[trigger] call_requires(f, (c, idx)),
            forall|c: &mut MutContext<W>, idx: LocalIdx, r: R|
                #[trigger] call_ensures(f, (c, idx), r) ==> mut_ref_future(c).wf()
                    && mut_ref_future(c).same_locals(&mut_ref_current(c)),
        ensures
            final(self).wf(),
            final(self).same_locals(old(self)),
            exists|c: &mut MutContext<W>, idx: LocalIdx|
                #[trigger] call_ensures(f, (c, idx), result) && mut_ref_current(c).scratch.live(
                    ValType::F32,
                ) == old(self).scratch.live(ValType::F32).push(idx) && !old(self).scratch.is_live(idx)
                    && final(self).same_rest(&mut_ref_future(c)),
    {
        self.with_scratch(ValType::F32, f)
    }

    /// Lends a scratch local of type `f64` for the time of `f`.
    pub fn with_scratch_f64<R, F: FnOnce(&mut MutContext<W>, LocalIdx) -> R>(&mut self, f: F) -> (result:
        R)
        requires
            old(self).wf(),
            forall|c: &mut MutContext<W>, idx: LocalIdx|
                mut_ref_current(c).wf() && mut_ref_current(c).scratch.live(ValType::F64) == old(
                    self,
                ).scratch.live(ValType::F64).push(idx) && !old(self).scratch.is_live(idx)
                    && mut_ref_current(c).scratch.pool()[idx.idx as int] == ValType::F64
                    ==> #[trigger] call_requires(f, (c, idx)),
            forall|c: &mut MutContext<W>, idx: LocalIdx, r: R|
                #[trigger] call_ensures(f, (c, idx), r) ==> mut_ref_future(c).wf()
                    && mut_ref_future(c).same_locals(&mut_ref_current(c)),
        ensures
            final(self).wf(),
            final(self).same_locals(old(self)),
            exists|c: &mut MutContext<W>, idx: LocalIdx|
                #[trigger] call_ensures(f, (c, idx), result) && mut_ref_current(c).scratch.live(
                    ValType::F64,
                ) == old(self).scratch.live(ValType::F64).push(idx) && !old(self).scratch.is_live(idx)
                    && final(self).same_rest(&mut_ref_future(c)),
    {
        self.with_scratch(ValType::F64, f)
    }

    /// Opens a branch target that the intermediate representation can
    /// branch to, for the time of `f`. `f` is to leave the branch targets
    /// as it found them.
    pub fn with_landing<R, F: FnOnce(&mut MutContext<W>) -> R>(
        &mut self,
        ir_vartype: VarType,
        landing_ctx: &[LocalIdx],
        f: F,
    ) -> (result: R)
        requires
            old(self).wf(),
            old(self).wasm_landing_count < usize::MAX,
            forall|c: &mut MutContext<W>|
                mut_ref_current(c).wf() && mut_ref_current(c).same_locals(old(self))
                    && mut_ref_current(c).wasm_landing_count == old(self).wasm_landing_count + 1
                    && landings_view(mut_ref_current(c).ir_landings@) == landings_view(
                    old(self).ir_landings@,
                ).push((mut_ref_current(c).wasm_landing_count, ir_vartype, landing_ctx@))
                    ==> #[trigger] call_requires(f, (c,)),
            forall|c: &mut MutContext<W>, r: R|
                #[trigger] call_ensures(f, (c,), r) ==> mut_ref_future(c).wf() && mut_ref_future(
                    c,
                ).same_landings(&mut_ref_current(c)) && mut_ref_future(c).same_locals(&mut_ref_current(c)),
        ensures
            final(self).wf(),
            final(self).same_landings(old(self)),
            final(self).same_locals(old(self)),
            exists|c: &mut MutContext<W>|
                #[trigger] call_ensures(f, (c,), result) && mut_ref_current(c).same_locals(old(self))
                    && mut_ref_current(c).wasm_landing_count == old(self).wasm_landing_count + 1
                    && landings_view(mut_ref_current(c).ir_landings@) == landings_view(
                    old(self).ir_landings@,
                ).push((mut_ref_current(c).wasm_landing_count, ir_vartype, landing_ctx@))
                    && final(self).same_module(&mut_ref_future(c)),
    {
        let ghost before = landings_view(self.ir_landings@);
        self.wasm_landing_count = self.wasm_landing_count + 1;
        self.ir_landings.push(
            (self.wasm_landing_count, ir_vartype, vstd::slice::slice_to_vec(landing_ctx)),
        );
        proof {
            assert(landings_view(self.ir_landings@) =~= before.push(
                (self.wasm_landing_count, ir_vartype, landing_ctx@),
            ));
            assert forall|i: int| 0 <= i < self.ir_landings@.len() implies 1 <= (
            #[trigger] self.ir_landings@[i]).0 <= self.wasm_landing_count by {
                if i < old(self).ir_landings@.len() {
                    assert(self.ir_landings@[i] == old(self).ir_landings@[i]);
                }
            }
        }
        let ghost opened = landings_view(self.ir_landings@);
        let result = f(self);
        proof {
            assert(landings_view(self.ir_landings@) == opened);
            assert(self.ir_landings@.len() == opened.len());
        }
        self.ir_landings.pop();
        self.wasm_landing_count = self.wasm_landing_count - 1;
        proof {
            assert(landings_view(self.ir_landings@) =~= before) by {
                assert forall|i: int| 0 <= i < before.len() implies landings_view(
                    self.ir_landings@,
                )[i] == before[i] by {
                    assert(opened[i] == before[i]);
                }
            }
            assert forall|i: int| 0 <= i < self.ir_landings@.len() implies 1 <= (
            #[trigger] self.ir_landings@[i]).0 <= self.wasm_landing_count by {
                assert(landings_view(self.ir_landings@)[i] == landings_view(old(self).ir_landings@)[i]);
                assert(self.ir_landings@[i].0 == old(self).ir_landings@[i].0);
            }
        }
        result
    }

    /// Opens a branch target that the intermediate representation cannot
    /// branch to, for the time of `f`. `f` is to leave the branch targets
    /// as it found them.
    pub fn with_unused_landing<R, F: FnOnce(&mut MutContext<W>) -> R>(&mut self, f: F) -> (result: R)
        requires
            old(self).wf(),
            old(self).wasm_landing_count < usize::MAX,
            forall|c: &mut MutContext<W>|
                mut_ref_current(c).wf() && mut_ref_current(c).same_locals(old(self))
                    && mut_ref_current(c).wasm_landing_count == old(self).wasm_landing_count + 1
                    && landings_view(mut_ref_current(c).ir_landings@) == landings_view(
                    old(self).ir_landings@,
                ) ==> #[trigger] call_requires(f, (c,)),
            forall|c: &mut MutContext<W>, r: R|
                #[trigger] call_ensures(f, (c,), r) ==> mut_ref_future(c).wf() && mut_ref_future(
                    c,
                ).same_landings(&mut_ref_current(c)) && mut_ref_future(c).same_locals(&mut_ref_current(c)),
        ensures
            final(self).wf(),
            final(self).same_landings(old(self)),
            final(self).same_locals(old(self)),
            exists|c: &mut MutContext<W>|
                #[trigger] call_ensures(f, (c,), result) && mut_ref_current(c).same_locals(old(self))
                    && mut_ref_current(c).wasm_landing_count == old(self).wasm_landing_count + 1
                    && landings_view(mut_ref_current(c).ir_landings@) == landings_view(
                    old(self).ir_landings@,
                ) && final(self).same_module(&mut_ref_future(c)),
    {
        let ghost before = landings_view(self.ir_landings@);
        self.wasm_landing_count = self.wasm_landing_count + 1;
        let result = f(self);
        self.wasm_landing_count = self.wasm_landing_count - 1;
        proof {
            assert(landings_view(self.ir_landings@) == before);
            assert(self.ir_landings@.len() == before.len());
            assert(old(self).ir_landings@.len() == before.len());
            assert forall|i: int| 0 <= i < self.ir_landings@.len() implies 1 <= (
            #[trigger] self.ir_landings@[i]).0 <= self.wasm_landing_count by {
                assert(landings_view(self.ir_landings@)[i].0 == self.ir_landings@[i].0);
                assert(before[i].0 == old(self).ir_landings@[i].0);
                assert(1 <= old(self).ir_landings@[i].0 <= old(self).wasm_landing_count);
            }
        }
        result
    }

    /// Emits the code that allocates a value of the given type: what the
    /// heap manager emits when it is handed the locals of the context, its
    /// scratch locals and the builder.
    ///
    /// Net stack: `[] -> [i32(ptr)]`.
    pub fn heap_encode_fixed_allocation<H: HeapManager>(
        &mut self,
        heap: &H,
        vartype: VarType,
        expr_builder: &mut ExprBuilder,
    )
        requires
            old(self).wf(),
        ensures
            final(self).wf(),
            final(self).same_locals(old(self)),
            final(self).same_rest(old(self)),
            old(expr_builder)@.is_prefix_of(final(expr_builder)@),
            exists|
                local_types: &[VarType],
                local_map: &[usize],
                wasm_local_map: &[LocalIdx],
                s: &mut Scratch,
                b: &mut ExprBuilder,
            |
                {
                    &&& #[trigger] call_ensures(
                        H::encode_fixed_allocation,
                        (heap, vartype, local_types, local_map, wasm_local_map, s, b),
                        (),
                    )
                    &&& local_types@ == old(self).local_types@
                    &&& local_map@ == old(self).local_map@
                    &&& wasm_local_map@ == old(self).wasm_local_map@
                    &&& mut_ref_current(s) == old(self).scratch
                    &&& mut_ref_future(s) == final(self).scratch
                    &&& mut_ref_current(b) == *old(expr_builder)
                    &&& mut_ref_future(b) == *final(expr_builder)
                },
    {
        heap.encode_fixed_allocation(
            vartype,
            self.local_types.as_slice(),
            self.local_map.as_slice(),
            self.wasm_local_map.as_slice(),
            &mut self.scratch,
            expr_builder,
        );
    }

    /// Emits the code that allocates an array of values of the given type,
    /// of the length that `set_temp_array_length` noted: what the heap
    /// manager emits when it is handed the locals of the context, its
    /// scratch locals, the builder and that length. A length must have been
    /// noted.
    ///
    /// Net stack: `[i32(num_bytes)] -> [i32(ptr)]`.
    pub fn heap_encode_dynamic_allocation<H: HeapManager>(
        &mut self,
        heap: &H,
        vartype: VarType,
        expr_builder: &mut ExprBuilder,
    )
        requires
            old(self).wf(),
            old(self).temp_array_length != 0,
        ensures
            final(self).wf(),
            final(self).same_locals(old(self)),
            final(self).same_rest(old(self)),
            old(expr_builder)@.is_prefix_of(final(expr_builder)@),
            exists|
                local_types: &[VarType],
                local_map: &[usize],
                wasm_local_map: &[LocalIdx],
                s: &mut Scratch,
                b: &mut ExprBuilder,
            |
                {
                    &&& #[trigger] call_ensures(
                        H::encode_dynamic_allocation,
                        (
                            heap,
                            vartype,
                            local_types,
                            local_map,
                            wasm_local_map,
                            s,
                            b,
                            old(self).temp_array_length,
                        ),
                        (),
                    )
                    &&& local_types@ == old(self).local_types@
                    &&& local_map@ == old(self).local_map@
                    &&& wasm_local_map@ == old(self).wasm_local_map@
                    &&& mut_ref_current(s) == old(self).scratch
                    &&& mut_ref_future(s) == final(self).scratch
                    &&& mut_ref_current(b) == *old(expr_builder)
                    &&& mut_ref_future(b) == *final(expr_builder)
                },
    {
        let temp_length = self.temp_array_length();
        heap.encode_dynamic_allocation(
            vartype,
            self.local_types.as_slice(),
            self.local_map.as_slice(),
            self.wasm_local_map.as_slice(),
            &mut self.scratch,
            expr_builder,
            temp_length,
        );
    }

    /// Emits the code that shows the locals to the collector, lets `f`
    /// emit (a call, as a rule), and emits the code that takes the locals
    /// back. `f` is to leave the locals as it found them, and to append to
    /// the code only.
    pub fn heap_encode_prologue_epilogue<
        H: HeapManager,
        R,
        F: FnOnce(&mut MutContext<W>, &mut ExprBuilder) -> R,
    >(&mut self, heap: &H, expr_builder: &mut ExprBuilder, f: F) -> (result: R)
        requires
            old(self).wf(),
            forall|c: &mut MutContext<W>, b: &mut ExprBuilder|
                mut_ref_current(c).wf() && mut_ref_current(c).same_locals(old(self))
                    && mut_ref_current(c).same_rest(old(self)) && old(expr_builder)@.is_prefix_of(
                    mut_ref_current(b)@,
                ) ==> #[trigger] call_requires(f, (c, b)),
            forall|c: &mut MutContext<W>, b: &mut ExprBuilder, r: R|
                #[trigger] call_ensures(f, (c, b), r) ==> mut_ref_future(c).wf() && mut_ref_future(
                    c,
                ).same_locals(&mut_ref_current(c)) && mut_ref_current(b)@.is_prefix_of(
                    mut_ref_future(b)@,
                ),
        ensures
            final(self).wf(),
            final(self).same_locals(old(self)),
            exists|
                types_before: &[VarType],
                map_before: &[usize],
                wasm_before: &[LocalIdx],
                s_before: &mut Scratch,
                a_before: &mut ExprBuilder,
                c: &mut MutContext<W>,
                b: &mut ExprBuilder,
                types_after: &[VarType],
                map_after: &[usize],
                wasm_after: &[LocalIdx],
                s_after: &mut Scratch,
                a_after: &mut ExprBuilder,
            |
                {
                    &&& #[trigger] call_ensures(
                        H::encode_local_roots_prologue,
                        (heap, types_before, map_before, wasm_before, s_before, a_before),
                        (),
                    )
                    &&& #[trigger] call_ensures(f, (c, b), result)
                    &&& #[trigger] call_ensures(
                        H::encode_local_roots_epilogue,
                        (heap, types_after, map_after, wasm_after, s_after, a_after),
                        (),
                    )
                    &&& types_before@ == old(self).local_types@
                    &&& map_before@ == old(self).local_map@
                    &&& wasm_before@ == old(self).wasm_local_map@
                    &&& mut_ref_current(s_before) == old(self).scratch
                    &&& mut_ref_current(a_before) == *old(expr_builder)
                    &&& mut_ref_future(s_before) == mut_ref_current(c).scratch
                    &&& mut_ref_future(a_before) == mut_ref_current(b)
                    &&& mut_ref_current(c).same_locals(old(self))
                    &&& mut_ref_current(c).same_rest(old(self))
                    &&& types_after@ == mut_ref_future(c).local_types@
                    &&& map_after@ == mut_ref_future(c).local_map@
                    &&& wasm_after@ == mut_ref_future(c).wasm_local_map@
                    &&& mut_ref_current(s_after) == mut_ref_future(c).scratch
                    &&& mut_ref_current(a_after) == mut_ref_future(b)
                    &&& mut_ref_future(s_after) == final(self).scratch
                    &&& mut_ref_future(a_after) == *final(expr_builder)
                    &&& final(self).same_rest(&mut_ref_future(c))
                },
            old(expr_builder)@.is_prefix_of(final(expr_builder)@),
    {
        heap.encode_local_roots_prologue(
            self.local_types.as_slice(),
            self.local_map.as_slice(),
            self.wasm_local_map.as_slice(),
            &mut self.scratch,
            expr_builder,
        );

        // what the caller wants between the two (a call, as a rule)
        let result = f(self, expr_builder);

        heap.encode_local_roots_epilogue(
            self.local_types.as_slice(),
            self.local_map.as_slice(),
            self.wasm_local_map.as_slice(),
            &mut self.scratch,
            expr_builder,
        );
        result
    }
}

impl<W> MutContext<W> {
    /// The group of WebAssembly locals of a named local, and the pool of
    /// scratch locals.
    pub fn named_wasm_local_slice_and_scratch(&mut self, named_ir_localidx: usize) -> (r: (
        &[LocalIdx],
        &mut Scratch,
    ))
        requires
            old(self).wf(),
            named_ir_localidx < old(self).named_local_map@.len(),
        ensures
            r.0@ == old(self).wasm_local_map@.subrange(
                old(self).local_map@[old(self).named_local_map@[named_ir_localidx as int] as int] as int,
                group_end(
                    old(self).local_map@,
                    old(self).wasm_local_map@.len(),
                    old(self).named_local_map@[named_ir_localidx as int] as int,
                ),
            ),
            *r.1 == old(self).scratch,
            *final(self) == (MutContext { scratch: *final(r.1), ..*old(self) }),
    {
        let ir_localidx = self.named_local_map[named_ir_localidx];
        let count: usize = self.local_map.len();
        proof {
            let last = self.local_map@.len() - 1;
            assert(self.local_types@[ir_localidx as int] != VarType::Unassigned);
            assert(self.local_types@[last] != VarType::Unassigned);
            assert(self.local_map@[last] <= self.wasm_local_map@.len());
            if ir_localidx + 1 < count {
                assert(self.local_map@[ir_localidx + 1] <= self.local_map@[last]);
            }
        }
        let end = if ir_localidx + 1 < count {
            self.local_map[ir_localidx + 1]
        } else {
            self.wasm_local_map.len()
        };
        (
            slice_subrange(self.wasm_local_map.as_slice(), self.local_map[ir_localidx], end),
            &mut self.scratch,
        )
    }

    /// Lends scratch locals of the given types for the time of `f`. `f` is
    /// to leave the scratch locals as it found them.
    pub fn with_scratches<R, F: FnOnce(&mut MutContext<W>, &[LocalIdx]) -> R>(
        &mut self,
        valtypes: &[ValType],
        f: F,
    ) -> (result: R)
        requires
            old(self).wf(),
            forall|c: &mut MutContext<W>, idxs: &[LocalIdx]|
                mut_ref_current(c).wf() && idxs@.len() == valtypes@.len() && (forall|ty: ValType|
                    #[trigger] mut_ref_current(c).scratch.live(ty) == old(self).scratch.live(ty)
                        + of_type(idxs@, valtypes@, ty)) ==> #[trigger] call_requires(f, (c, idxs)),
            forall|c: &mut MutContext<W>, idxs: &[LocalIdx], r: R|
                #[trigger] call_ensures(f, (c, idxs), r) ==> mut_ref_future(c).wf()
                    && mut_ref_future(c).same_locals(&mut_ref_current(c)),
        ensures
            final(self).wf(),
            final(self).same_locals(old(self)),
            exists|c: &mut MutContext<W>, idxs: &[LocalIdx]|
                #[trigger] call_ensures(f, (c, idxs), result) && idxs@.len() == valtypes@.len() && (
                forall|ty: ValType|
                    #[trigger] mut_ref_current(c).scratch.live(ty) == old(self).scratch.live(ty)
                        + of_type(idxs@, valtypes@, ty)) && final(self).same_rest(&mut_ref_future(c)),
    {
        let mut idxs: Vec<LocalIdx> = Vec::new();
        let mut k: usize = 0;
        while k < valtypes.len()
            invariant
                k <= valtypes@.len(),
                idxs@.len() == k,
                self.scratch.wf(),
                self.scratch.base() == old(self).scratch.base(),
                *self == (MutContext { scratch: self.scratch, ..*old(self) }),
                forall|ty: ValType|
                    #[trigger] self.scratch.live(ty) == old(self).scratch.live(ty) + of_type(
                        idxs@,
                        valtypes@.take(k as int),
                        ty,
                    ),
            decreases valtypes@.len() - k,
        {
            let ghost before = idxs@;
            let idx = self.scratch.push(valtypes[k]);
            idxs.push(idx);
            proof {
                let types = valtypes@.take(k + 1);
                assert(types.drop_last() =~= valtypes@.take(k as int));
                assert(idxs@.drop_last() =~= before);
                assert forall|ty: ValType| #[trigger] self.scratch.live(ty) == old(
                    self,
                ).scratch.live(ty) + of_type(idxs@, types, ty) by {
                    assert(self.scratch.live(ty) =~= old(self).scratch.live(ty) + of_type(
                        idxs@,
                        types,
                        ty,
                    ));
                }
            }
            k = k + 1;
        }
        assert(valtypes@.take(k as int) =~= valtypes@);
        let result = f(self, idxs.as_slice());
        let ghost left = *self;
        let mut k: usize = valtypes.len();
        assert(idxs@.take(k as int) =~= idxs@);
        while k > 0
            invariant
                self.same_rest(&left),
                exists|c: &mut MutContext<W>, given: &[LocalIdx]|
                    #[trigger] call_ensures(f, (c, given), result) && given@.len() == valtypes@.len()
                        && (forall|ty: ValType|
                        #[trigger] mut_ref_current(c).scratch.live(ty) == old(self).scratch.live(ty)
                            + of_type(given@, valtypes@, ty)) && mut_ref_future(c) == left,
                k <= valtypes@.len(),
                idxs@.len() == valtypes@.len(),
                self.scratch.wf(),
                self.wf(),
                self.scratch.base() == old(self).scratch.base(),
                self.wasm_local_map@ == old(self).wasm_local_map@,
                self.local_map@ == old(self).local_map@,
                self.local_types@ == old(self).local_types@,
                self.named_local_map@ == old(self).named_local_map@,
                forall|ty: ValType|
                    #[trigger] self.scratch.live(ty) == old(self).scratch.live(ty) + of_type(
                        idxs@.take(k as int),
                        valtypes@.take(k as int),
                        ty,
                    ),
            decreases k,
        {
            k = k - 1;
            proof {
                let types = valtypes@.take(k + 1);
                let these = idxs@.take(k + 1);
                assert(types.drop_last() =~= valtypes@.take(k as int));
                assert(these.drop_last() =~= idxs@.take(k as int));
                assert(types.last() == valtypes@[k as int]);
                assert(self.scratch.live(valtypes@[k as int]) == old(self).scratch.live(
                    valtypes@[k as int],
                ) + of_type(these, types, valtypes@[k as int]));
            }
            let ghost before = self.scratch;
            self.scratch.pop(valtypes[k]);
            proof {
                let types = valtypes@.take(k + 1);
                let these = idxs@.take(k + 1);
                assert forall|ty: ValType| #[trigger] self.scratch.live(ty) == old(
                    self,
                ).scratch.live(ty) + of_type(idxs@.take(k as int), valtypes@.take(k as int), ty) by {
                    assert(before.live(ty) == old(self).scratch.live(ty) + of_type(these, types, ty));
                    assert(self.scratch.live(ty) =~= old(self).scratch.live(ty) + of_type(
                        idxs@.take(k as int),
                        valtypes@.take(k as int),
                        ty,
                    ));
                }
            }
        }
        proof {
            assert forall|ty: ValType| #[trigger] self.scratch.live(ty) == old(self).scratch.live(
                ty,
            ) by {
                assert(of_type(idxs@.take(0), valtypes@.take(0), ty).len() == 0);
                assert(self.scratch.live(ty) =~= old(self).scratch.live(ty));
            }
        }
        result
    }
}

impl<W> MutContext<W> {
    /// Like `with_shadow_local`, for several locals at once: `f` gets the
    /// position of the first of them.
    pub fn with_shadow_locals<
        H: HeapManager,
        R,
        F: FnOnce(&mut MutContext<W>, &mut ExprBuilder, usize) -> R,
    >(&mut self, ir_vartypes: &[VarType], heap: &H, expr_builder: &mut ExprBuilder, f: F) -> (result: R)
        requires
            old(self).wf(),
            forall|k: int| 0 <= k < ir_vartypes@.len() ==> ir_vartypes@[k] != VarType::Unassigned,
            forall|c: &mut MutContext<W>, b: &mut ExprBuilder, i: usize|
                mut_ref_current(c).wf() && mut_ref_current(c).local_types@ == old(
                    self,
                ).local_types@ + ir_vartypes@ && mut_ref_current(c).named_local_map@ == old(
                    self,
                ).named_local_map@ && i == old(self).local_types@.len() && old(expr_builder)@.is_prefix_of(mut_ref_current(b)@)
                    ==> #[trigger] call_requires(f, (c, b, i)),
            forall|c: &mut MutContext<W>, b: &mut ExprBuilder, i: usize, r: R|
                #[trigger] call_ensures(f, (c, b, i), r) ==> mut_ref_future(c).wf()
                    && mut_ref_future(c).same_locals(&mut_ref_current(c)) && mut_ref_current(b)@.is_prefix_of(mut_ref_future(b)@),
        ensures
            final(self).wf(),
            final(self).same_locals(old(self)),
            exists|
                local_types: &[VarType],
                local_map: &[usize],
                wasm_local_map: &[LocalIdx],
                s: &mut Scratch,
                a: &mut ExprBuilder,
                c: &mut MutContext<W>,
                b: &mut ExprBuilder,
                i: usize,
            |
                {
                    &&& #[trigger] call_ensures(
                        H::encode_local_roots_init,
                        (heap, local_types, local_map, wasm_local_map, s, a),
                        (),
                    )
                    &&& #[trigger] call_ensures(f, (c, b, i), result)
                    &&& i == old(self).local_types@.len()
                    &&& mut_ref_current(c).local_types@ == old(self).local_types@ + ir_vartypes@
                    &&& mut_ref_current(c).named_local_map@ == old(self).named_local_map@
                    &&& local_types@ == ir_vartypes@
                    &&& local_map@ == mut_ref_current(c).local_map@.skip(i as int)
                    &&& wasm_local_map@ == mut_ref_current(c).wasm_local_map@
                    &&& mut_ref_current(s).same_live(&mut_ref_current(c).scratch)
                    &&& mut_ref_future(s) == mut_ref_current(c).scratch
                    &&& mut_ref_current(a) == *old(expr_builder)
                    &&& mut_ref_future(a) == mut_ref_current(b)
                    &&& mut_ref_future(b) == *final(expr_builder)
                    &&& final(self).same_module(&mut_ref_future(c))
                },
            old(expr_builder)@.is_prefix_of(final(expr_builder)@),
    {
        let idx = self.local_types.len();
        let ghost mut snaps: Seq<MutContext<W>> = seq![*self];
        let mut k: usize = 0;
        while k < ir_vartypes.len()
            invariant
                k <= ir_vartypes@.len(),
                forall|j: int| 0 <= j < ir_vartypes@.len() ==> ir_vartypes@[j] != VarType::Unassigned,
                snaps.len() == k + 1,
                snaps[0] == *old(self),
                snaps[k as int] == *self,
                self.wf(),
                self.named_local_map == old(self).named_local_map,
                self.local_types@ == old(self).local_types@ + ir_vartypes@.take(k as int),
                forall|j: int|
                    0 <= j < k ==> {
                        &&& (#[trigger] snaps[j + 1]).has_local_on_top(&snaps[j], ir_vartypes@[j])
                        &&& snaps[j + 1].can_pop(ir_vartypes@[j])
                        &&& snaps[j + 1].top_is_unnamed()
                    },
                forall|j: int| 0 <= j <= k ==> (#[trigger] snaps[j]).named_local_map == old(
                    self,
                ).named_local_map,
            decreases ir_vartypes@.len() - k,
        {
            let ghost before = *self;
            self.push_local(ir_vartypes[k]);
            proof {
                snaps = snaps.push(*self);
                assert(self.local_types@ =~= old(self).local_types@ + ir_vartypes@.take(k + 1));
                assert forall|j: int| 0 <= j < k + 1 implies {
                    &&& (#[trigger] snaps[j + 1]).has_local_on_top(&snaps[j], ir_vartypes@[j])
                    &&& snaps[j + 1].can_pop(ir_vartypes@[j])
                    &&& snaps[j + 1].top_is_unnamed()
                } by {
                    if j == k {
                        assert(snaps[j] == before);
                        assert(snaps[j + 1] == *self);
                    }
                }
            }
            k = k + 1;
        }
        assert(ir_vartypes@.take(k as int) =~= ir_vartypes@);
        let ghost opened = *self;
        heap.encode_local_roots_init(
            slice_subrange(self.local_types.as_slice(), idx, self.local_types.len()),
            slice_subrange(self.local_map.as_slice(), idx, self.local_map.len()),
            self.wasm_local_map.as_slice(),
            &mut self.scratch,
            expr_builder,
        );
        let ghost ready = *self;
        proof {
            assert(ready.same_locals(&opened));
            assert(ready.local_types@.subrange(idx as int, ready.local_types@.len() as int)
                =~= ir_vartypes@);
            assert(ready.local_map@.subrange(idx as int, ready.local_map@.len() as int)
                =~= ready.local_map@.skip(idx as int));
        }
        let result = f(self, expr_builder, idx);
        let ghost left = *self;
        let mut k: usize = ir_vartypes.len();
        proof {
            assert(self.same_locals(&snaps[k as int]));
        }
        while k > 0
            invariant
                self.same_module(&left),
                exists|
                    local_types: &[VarType],
                    local_map: &[usize],
                    wasm_local_map: &[LocalIdx],
                    s: &mut Scratch,
                    a: &mut ExprBuilder,
                    c: &mut MutContext<W>,
                    b: &mut ExprBuilder,
                    i: usize,
                |
                    {
                        &&& #[trigger] call_ensures(
                            H::encode_local_roots_init,
                            (heap, local_types, local_map, wasm_local_map, s, a),
                            (),
                        )
                        &&& #[trigger] call_ensures(f, (c, b, i), result)
                        &&& i == old(self).local_types@.len()
                        &&& mut_ref_current(c).local_types@ == old(self).local_types@ + ir_vartypes@
                        &&& mut_ref_current(c).named_local_map@ == old(self).named_local_map@
                        &&& local_types@ == ir_vartypes@
                        &&& local_map@ == mut_ref_current(c).local_map@.skip(i as int)
                        &&& wasm_local_map@ == mut_ref_current(c).wasm_local_map@
                        &&& mut_ref_current(s).same_live(&mut_ref_current(c).scratch)
                        &&& mut_ref_future(s) == mut_ref_current(c).scratch
                        &&& mut_ref_current(a) == *old(expr_builder)
                        &&& mut_ref_future(a) == mut_ref_current(b)
                        &&& mut_ref_future(b) == *expr_builder
                        &&& mut_ref_future(c) == left
                    },
                k <= ir_vartypes@.len(),
                snaps.len() == ir_vartypes@.len() + 1,
                snaps[0] == *old(self),
                self.wf(),
                self.same_locals(&snaps[k as int]),
                forall|j: int|
                    0 <= j < ir_vartypes@.len() ==> {
                        &&& (#[trigger] snaps[j + 1]).has_local_on_top(&snaps[j], ir_vartypes@[j])
                        &&& snaps[j + 1].can_pop(ir_vartypes@[j])
                        &&& snaps[j + 1].top_is_unnamed()
                    },
                forall|j: int|
                    0 <= j <= ir_vartypes@.len() ==> (#[trigger] snaps[j]).named_local_map == old(
                        self,
                    ).named_local_map,
            decreases k,
        {
            k = k - 1;
            proof {
                assert(snaps[k + 1].has_local_on_top(&snaps[k as int], ir_vartypes@[k as int]));
                lemma_same_locals_on_top(self, &snaps[k + 1], &snaps[k as int], ir_vartypes@[k as int]);
                assert(snaps[k as int].named_local_map == old(self).named_local_map);
                assert(snaps[k + 1].named_local_map == old(self).named_local_map);
            }
            self.pop_local(ir_vartypes[k]);
            proof {
                assert(self.same_locals(&snaps[k as int]));
            }
        }
        result
    }

    /// Like `with_uninitialized_shadow_local`, for several locals at once:
    /// `f` gets the position of the first of them.
    pub fn with_uninitialized_shadow_locals<
        R, F: FnOnce(&mut MutContext<W>, usize) -> R
    >(&mut self, ir_vartypes: &[VarType], f: F) -> (result: R)
        requires
            old(self).wf(),
            forall|k: int| 0 <= k < ir_vartypes@.len() ==> ir_vartypes@[k] != VarType::Unassigned,
            forall|c: &mut MutContext<W>, i: usize|
                mut_ref_current(c).wf() && mut_ref_current(c).local_types@ == old(
                    self,
                ).local_types@ + ir_vartypes@ && mut_ref_current(c).named_local_map@ == old(
                    self,
                ).named_local_map@ && i == old(self).local_types@.len()
                    ==> #[trigger] call_requires(f, (c, i)),
            forall|c: &mut MutContext<W>, i: usize, r: R|
                #[trigger] call_ensures(f, (c, i), r) ==> mut_ref_future(c).wf()
                    && mut_ref_future(c).same_locals(&mut_ref_current(c)),
        ensures
            final(self).wf(),
            final(self).same_locals(old(self)),
            exists|c: &mut MutContext<W>, i: usize|
                #[trigger] call_ensures(f, (c, i), result) && mut_ref_current(c).local_types@ == old(
                    self,
                ).local_types@ + ir_vartypes@ && mut_ref_current(c).named_local_map@ == old(
                    self,
                ).named_local_map@ && i == old(self).local_types@.len() && final(self).same_module(
                    &mut_ref_future(c),
                ),
    {
        let idx = self.local_types.len();
        let ghost mut snaps: Seq<MutContext<W>> = seq![*self];
        let mut k: usize = 0;
        while k < ir_vartypes.len()
            invariant
                k <= ir_vartypes@.len(),
                forall|j: int| 0 <= j < ir_vartypes@.len() ==> ir_vartypes@[j] != VarType::Unassigned,
                snaps.len() == k + 1,
                snaps[0] == *old(self),
                snaps[k as int] == *self,
                self.wf(),
                self.named_local_map == old(self).named_local_map,
                self.local_types@ == old(self).local_types@ + ir_vartypes@.take(k as int),
                forall|j: int|
                    0 <= j < k ==> {
                        &&& (#[trigger] snaps[j + 1]).has_local_on_top(&snaps[j], ir_vartypes@[j])
                        &&& snaps[j + 1].can_pop(ir_vartypes@[j])
                        &&& snaps[j + 1].top_is_unnamed()
                    },
                forall|j: int| 0 <= j <= k ==> (#[trigger] snaps[j]).named_local_map == old(
                    self,
                ).named_local_map,
            decreases ir_vartypes@.len() - k,
        {
            let ghost before = *self;
            self.push_local(ir_vartypes[k]);
            proof {
                snaps = snaps.push(*self);
                assert(self.local_types@ =~= old(self).local_types@ + ir_vartypes@.take(k + 1));
                assert forall|j: int| 0 <= j < k + 1 implies {
                    &&& (#[trigger] snaps[j + 1]).has_local_on_top(&snaps[j], ir_vartypes@[j])
                    &&& snaps[j + 1].can_pop(ir_vartypes@[j])
                    &&& snaps[j + 1].top_is_unnamed()
                } by {
                    if j == k {
                        assert(snaps[j] == before);
                        assert(snaps[j + 1] == *self);
                    }
                }
            }
            k = k + 1;
        }
        assert(ir_vartypes@.take(k as int) =~= ir_vartypes@);
        let result = f(self, idx);
        let ghost left = *self;
        let mut k: usize = ir_vartypes.len();
        proof {
            assert(self.same_locals(&snaps[k as int]));
        }
        while k > 0
            invariant
                self.same_module(&left),
                exists|c: &mut MutContext<W>, i: usize|
                    #[trigger] call_ensures(f, (c, i), result) && mut_ref_current(c).local_types@
                        == old(self).local_types@ + ir_vartypes@ && mut_ref_current(
                        c,
                    ).named_local_map@ == old(self).named_local_map@ && i == old(
                        self,
                    ).local_types@.len() && mut_ref_future(c) == left,
                k <= ir_vartypes@.len(),
                snaps.len() == ir_vartypes@.len() + 1,
                snaps[0] == *old(self),
                self.wf(),
                self.same_locals(&snaps[k as int]),
                forall|j: int|
                    0 <= j < ir_vartypes@.len() ==> {
                        &&& (#[trigger] snaps[j + 1]).has_local_on_top(&snaps[j], ir_vartypes@[j])
                        &&& snaps[j + 1].can_pop(ir_vartypes@[j])
                        &&& snaps[j + 1].top_is_unnamed()
                    },
                forall|j: int|
                    0 <= j <= ir_vartypes@.len() ==> (#[trigger] snaps[j]).named_local_map == old(
                        self,
                    ).named_local_map,
            decreases k,
        {
            k = k - 1;
            proof {
                assert(snaps[k + 1].has_local_on_top(&snaps[k as int], ir_vartypes@[k as int]));
                lemma_same_locals_on_top(self, &snaps[k + 1], &snaps[k as int], ir_vartypes@[k as int]);
                assert(snaps[k as int].named_local_map == old(self).named_local_map);
                assert(snaps[k + 1].named_local_map == old(self).named_local_map);
            }
            self.pop_local(ir_vartypes[k]);
            proof {
                assert(self.same_locals(&snaps[k as int]));
            }
        }
        result
    }
}

} // verus!
