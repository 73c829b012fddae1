//! The pool of scratch locals of one function.
//!
//! The pool hands out locals of a requested value type and takes them back
//! in the reverse order. A local that has been taken back is kept and handed
//! out again before a new one is declared, so a function declares no more
//! locals of a type than were ever live at once.

use vstd::prelude::*;
use crate::vartype::ValType;
use crate::wasm::instr::LocalIdx;

verus! {

/// The scratch locals of one value type: those declared so far, of which the
/// first `used` are handed out.
#[derive(Debug)]
struct Lane {
    buf: Vec<LocalIdx>,
    used: usize,
}

/// The pool of scratch locals of one function, together with the types of
/// all the locals that the function has declared.
#[derive(Debug)]
pub struct Scratch {
    locals: Vec<ValType>,
    base: usize,
    lane_i32: Lane,
    lane_i64: Lane,
    lane_f32: Lane,
    lane_f64: Lane,
}

impl Lane {
    spec fn live(&self) -> Seq<LocalIdx> {
        self.buf@.take(self.used as int)
    }

    spec fn wf(&self, ty: ValType, base: usize, locals: Seq<ValType>) -> bool {
        &&& self.used <= self.buf@.len()
        &&& forall|i: int|
            0 <= i < self.buf@.len() ==> base <= (#[trigger] self.buf@[i]).idx < locals.len()
                && locals[self.buf@[i].idx as int] == ty
        &&& forall|i: int, j: int|
            0 <= i < j < self.buf@.len() ==> self.buf@[i].idx != self.buf@[j].idx
    }

    /// Hands out the next local of the lane, declaring one where none is
    /// left over.
    fn hand_out(&mut self, locals: &mut Vec<ValType>, ty: ValType, Ghost(base): Ghost<usize>) -> (idx:
        LocalIdx)
        requires
            old(self).wf(ty, base, old(locals)@),
            base <= old(locals)@.len(),
        ensures
            final(self).wf(ty, base, final(locals)@),
            final(self).live() == old(self).live().push(idx),
            !old(self).live().contains(idx),
            base <= idx.idx < final(locals)@.len(),
            final(locals)@[idx.idx as int] == ty,
            old(locals)@.len() <= final(locals)@.len(),
            final(locals)@.take(old(locals)@.len() as int) == old(locals)@,
            final(locals)@.len() > old(locals)@.len() ==> idx.idx == old(locals)@.len(),
    {
        if self.used == self.buf.len() {
            let fresh = LocalIdx { idx: locals.len() };
            locals.push(ty);
            self.buf.push(fresh);
        }
        let declared: usize = self.buf.len();
        assert(self.used < declared);
        let idx = self.buf[self.used];
        self.used = self.used + 1;
        proof {
            assert(self.live() =~= old(self).live().push(idx));
            assert(locals@.take(old(locals)@.len() as int) =~= old(locals)@);
            if old(self).live().contains(idx) {
                let k = choose|k: int| 0 <= k < old(self).live().len() && old(self).live()[k] == idx;
                assert(self.buf@[k] == idx);
            }
        }
        idx
    }
}

impl Scratch {
    /// The types of all the locals that the function has declared, by index.
    pub closed spec fn pool(&self) -> Seq<ValType> {
        self.locals@
    }

    /// The number of locals that the function had before the pool was made.
    /// The pool never hands out one of those.
    pub closed spec fn base(&self) -> nat {
        self.base as nat
    }

    /// The locals of the given type that are handed out, the oldest first.
    pub closed spec fn live(&self, ty: ValType) -> Seq<LocalIdx> {
        match ty {
            ValType::I32 => self.lane_i32.live(),
            ValType::I64 => self.lane_i64.live(),
            ValType::F32 => self.lane_f32.live(),
            ValType::F64 => self.lane_f64.live(),
        }
    }

    /// Whether the local is handed out.
    pub open spec fn is_live(&self, idx: LocalIdx) -> bool {
        exists|ty: ValType| #[trigger] self.live(ty).contains(idx)
    }

    /// The invariant of the pool: every scratch local is a declared local of
    /// its lane's type, declared after the pool was made, and no local stands
    /// twice in a lane.
    pub closed spec fn wf(&self) -> bool {
        &&& self.base <= self.locals@.len()
        &&& self.lane_i32.wf(ValType::I32, self.base, self.locals@)
        &&& self.lane_i64.wf(ValType::I64, self.base, self.locals@)
        &&& self.lane_f32.wf(ValType::F32, self.base, self.locals@)
        &&& self.lane_f64.wf(ValType::F64, self.base, self.locals@)
    }

    /// Whether the two pools have the same locals handed out, lane by lane.
    pub open spec fn same_live(&self, other: &Scratch) -> bool {
        forall|ty: ValType| #[trigger] self.live(ty) == other.live(ty)
    }

    /// Every local that is handed out is a declared local of its lane's type
    /// that was declared after the pool was made, and it is handed out once.
    pub proof fn lemma_live_facts(&self, ty: ValType)
        requires
            self.wf(),
        ensures
            forall|i: int|
                0 <= i < self.live(ty).len() ==> self.base() <= (#[trigger] self.live(ty)[i]).idx
                    < self.pool().len() && self.pool()[self.live(ty)[i].idx as int] == ty,
            forall|i: int, j: int|
                0 <= i < j < self.live(ty).len() ==> self.live(ty)[i] != self.live(ty)[j],
    {
    }

    /// A pool for a function that has declared the given locals so far.
    pub fn new(locals: Vec<ValType>) -> (s: Scratch)
        ensures
            s.wf(),
            s.pool() == locals@,
            s.base() == locals@.len(),
            forall|ty: ValType| #[trigger] s.live(ty) == Seq::<LocalIdx>::empty(),
    {
        let base = locals.len();
        let s = Scratch {
            locals,
            base,
            lane_i32: Lane { buf: Vec::new(), used: 0 },
            lane_i64: Lane { buf: Vec::new(), used: 0 },
            lane_f32: Lane { buf: Vec::new(), used: 0 },
            lane_f64: Lane { buf: Vec::new(), used: 0 },
        };
        assert forall|ty: ValType| #[trigger] s.live(ty) == Seq::<LocalIdx>::empty() by {
            assert(s.live(ty) =~= Seq::<LocalIdx>::empty());
        }
        s
    }

    /// The types of all the locals declared so far, by index: what the
    /// function has to declare when it is encoded.
    pub fn into_locals(self) -> (locals: Vec<ValType>)
        ensures
            locals@ == self.pool(),
    {
        self.locals
    }

    /// Hands out a local of the given type.
    ///
    /// The local is declared with that type, was declared after the pool was
    /// made, and is not handed out already. It goes on top of its lane; the
    /// other lanes stay as they are, and no declared local changes its type.
    pub fn push(&mut self, valtype: ValType) -> (idx: LocalIdx)
        requires
            old(self).wf(),
        ensures
            final(self).wf(),
            final(self).live(valtype) == old(self).live(valtype).push(idx),
            forall|ty: ValType| ty != valtype ==> #[trigger] final(self).live(ty) == old(self).live(ty),
            !old(self).is_live(idx),
            final(self).is_live(idx),
            forall|other: LocalIdx| old(self).is_live(other) ==> final(self).is_live(other),
            final(self).base() == old(self).base(),
            old(self).base() <= idx.idx < final(self).pool().len(),
            final(self).pool()[idx.idx as int] == valtype,
            old(self).pool().len() <= final(self).pool().len(),
            final(self).pool().take(old(self).pool().len() as int) == old(self).pool(),
    {
        let ghost before = *self;
        let ghost base = self.base;
        let idx = match valtype {
            ValType::I32 => self.lane_i32.hand_out(&mut self.locals, valtype, Ghost(base)),
            ValType::I64 => self.lane_i64.hand_out(&mut self.locals, valtype, Ghost(base)),
            ValType::F32 => self.lane_f32.hand_out(&mut self.locals, valtype, Ghost(base)),
            ValType::F64 => self.lane_f64.hand_out(&mut self.locals, valtype, Ghost(base)),
        };
        proof {
            assert forall|ty: ValType| !(#[trigger] before.live(ty).contains(idx)) by {
                if ty != valtype && before.live(ty).contains(idx) {
                    let k = choose|k: int| 0 <= k < before.live(ty).len() && before.live(ty)[k] == idx;
                    before.lemma_live_facts(ty);
                    assert(before.pool()[before.live(ty)[k].idx as int] == ty);
                    if self.pool().len() > before.pool().len() {
                        assert(idx.idx == before.pool().len());
                    } else {
                        assert(self.pool() =~= before.pool());
                    }
                }
            }
            assert(self.live(valtype).last() == idx);
            assert(self.live(valtype).contains(idx));
            assert forall|other: LocalIdx| before.is_live(other) implies self.is_live(other) by {
                let ty = choose|ty: ValType| #[trigger] before.live(ty).contains(other);
                let k = choose|k: int| 0 <= k < before.live(ty).len() && before.live(ty)[k] == other;
                if ty == valtype {
                    assert(self.live(ty)[k] == other);
                }
                assert(self.live(ty).contains(other));
            }
        }
        idx
    }

    /// Takes back the local of the given type that was handed out last.
    pub fn pop(&mut self, valtype: ValType)
        requires
            old(self).wf(),
            old(self).live(valtype).len() > 0,
        ensures
            final(self).wf(),
            final(self).live(valtype) == old(self).live(valtype).drop_last(),
            forall|ty: ValType| ty != valtype ==> #[trigger] final(self).live(ty) == old(self).live(ty),
            final(self).pool() == old(self).pool(),
            final(self).base() == old(self).base(),
    {
        let ghost before = *self;
        match valtype {
            ValType::I32 => {
                self.lane_i32.used = self.lane_i32.used - 1;
            },
            ValType::I64 => {
                self.lane_i64.used = self.lane_i64.used - 1;
            },
            ValType::F32 => {
                self.lane_f32.used = self.lane_f32.used - 1;
            },
            ValType::F64 => {
                self.lane_f64.used = self.lane_f64.used - 1;
            },
        }
        proof {
            assert(self.live(valtype) =~= before.live(valtype).drop_last());
            assert forall|ty: ValType| ty != valtype implies #[trigger] self.live(ty)
                == before.live(ty) by {
                assert(self.live(ty) =~= before.live(ty));
            }
        }
    }

    /// Hands out a local of type `i32`.
    pub fn push_i32(&mut self) -> (idx: LocalIdx)
        requires
            old(self).wf(),
        ensures
            final(self).wf(),
            final(self).live(ValType::I32) == old(self).live(ValType::I32).push(idx),
            forall|ty: ValType|
                ty != ValType::I32 ==> #[trigger] final(self).live(ty) == old(self).live(ty),
            !old(self).is_live(idx),
            final(self).is_live(idx),
            forall|other: LocalIdx| old(self).is_live(other) ==> final(self).is_live(other),
            final(self).base() == old(self).base(),
            old(self).base() <= idx.idx < final(self).pool().len(),
            final(self).pool()[idx.idx as int] == ValType::I32,
            old(self).pool().len() <= final(self).pool().len(),
            final(self).pool().take(old(self).pool().len() as int) == old(self).pool(),
    {
        self.push(ValType::I32)
    }

    /// Takes back the local of type `i32` that was handed out last.
    pub fn pop_i32(&mut self)
        requires
            old(self).wf(),
            old(self).live(ValType::I32).len() > 0,
        ensures
            final(self).wf(),
            final(self).live(ValType::I32) == old(self).live(ValType::I32).drop_last(),
            forall|ty: ValType|
                ty != ValType::I32 ==> #[trigger] final(self).live(ty) == old(self).live(ty),
            final(self).pool() == old(self).pool(),
            final(self).base() == old(self).base(),
    {
        self.pop(ValType::I32)
    }

    /// Hands out a local of type `i64`.
    pub fn push_i64(&mut self) -> (idx: LocalIdx)
        requires
            old(self).wf(),
        ensures
            final(self).wf(),
            final(self).live(ValType::I64) == old(self).live(ValType::I64).push(idx),
            forall|ty: ValType|
                ty != ValType::I64 ==> #[trigger] final(self).live(ty) == old(self).live(ty),
            !old(self).is_live(idx),
            final(self).is_live(idx),
            forall|other: LocalIdx| old(self).is_live(other) ==> final(self).is_live(other),
            final(self).base() == old(self).base(),
            old(self).base() <= idx.idx < final(self).pool().len(),
            final(self).pool()[idx.idx as int] == ValType::I64,
            old(self).pool().len() <= final(self).pool().len(),
            final(self).pool().take(old(self).pool().len() as int) == old(self).pool(),
    {
        self.push(ValType::I64)
    }

    /// Takes back the local of type `i64` that was handed out last.
    pub fn pop_i64(&mut self)
        requires
            old(self).wf(),
            old(self).live(ValType::I64).len() > 0,
        ensures
            final(self).wf(),
            final(self).live(ValType::I64) == old(self).live(ValType::I64).drop_last(),
            forall|ty: ValType|
                ty != ValType::I64 ==> #[trigger] final(self).live(ty) == old(self).live(ty),
            final(self).pool() == old(self).pool(),
            final(self).base() == old(self).base(),
    {
        self.pop(ValType::I64)
    }

    /// Hands out a local of type `f32`.
    pub fn push_f32(&mut self) -> (idx: LocalIdx)
        requires
            old(self).wf(),
        ensures
            final(self).wf(),
            final(self).live(ValType::F32) == old(self).live(ValType::F32).push(idx),
            forall|ty: ValType|
                ty != ValType::F32 ==> #[trigger] final(self).live(ty) == old(self).live(ty),
            !old(self).is_live(idx),
            final(self).is_live(idx),
            forall|other: LocalIdx| old(self).is_live(other) ==> final(self).is_live(other),
            final(self).base() == old(self).base(),
            old(self).base() <= idx.idx < final(self).pool().len(),
            final(self).pool()[idx.idx as int] == ValType::F32,
            old(self).pool().len() <= final(self).pool().len(),
            final(self).pool().take(old(self).pool().len() as int) == old(self).pool(),
    {
        self.push(ValType::F32)
    }

    /// Takes back the local of type `f32` that was handed out last.
    pub fn pop_f32(&mut self)
        requires
            old(self).wf(),
            old(self).live(ValType::F32).len() > 0,
        ensures
            final(self).wf(),
            final(self).live(ValType::F32) == old(self).live(ValType::F32).drop_last(),
            forall|ty: ValType|
                ty != ValType::F32 ==> #[trigger] final(self).live(ty) == old(self).live(ty),
            final(self).pool() == old(self).pool(),
            final(self).base() == old(self).base(),
    {
        self.pop(ValType::F32)
    }

    /// Hands out a local of type `f64`.
    pub fn push_f64(&mut self) -> (idx: LocalIdx)
        requires
            old(self).wf(),
        ensures
            final(self).wf(),
            final(self).live(ValType::F64) == old(self).live(ValType::F64).push(idx),
            forall|ty: ValType|
                ty != ValType::F64 ==> #[trigger] final(self).live(ty) == old(self).live(ty),
            !old(self).is_live(idx),
            final(self).is_live(idx),
            forall|other: LocalIdx| old(self).is_live(other) ==> final(self).is_live(other),
            final(self).base() == old(self).base(),
            old(self).base() <= idx.idx < final(self).pool().len(),
            final(self).pool()[idx.idx as int] == ValType::F64,
            old(self).pool().len() <= final(self).pool().len(),
            final(self).pool().take(old(self).pool().len() as int) == old(self).pool(),
    {
        self.push(ValType::F64)
    }

    /// Takes back the local of type `f64` that was handed out last.
    pub fn pop_f64(&mut self)
        requires
            old(self).wf(),
            old(self).live(ValType::F64).len() > 0,
        ensures
            final(self).wf(),
            final(self).live(ValType::F64) == old(self).live(ValType::F64).drop_last(),
            forall|ty: ValType|
                ty != ValType::F64 ==> #[trigger] final(self).live(ty) == old(self).live(ty),
            final(self).pool() == old(self).pool(),
            final(self).base() == old(self).base(),
    {
        self.pop(ValType::F64)
    }

    /// The number of locals of the given type that are handed out.
    pub fn live_count(&self, valtype: ValType) -> (n: usize)
        requires
            self.wf(),
        ensures
            n == self.live(valtype).len(),
    {
        match valtype {
            ValType::I32 => self.lane_i32.used,
            ValType::I64 => self.lane_i64.used,
            ValType::F32 => self.lane_f32.used,
            ValType::F64 => self.lane_f64.used,
        }
    }
}

} // verus!
