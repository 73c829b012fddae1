//! What the code of the value representation does on the abstract machine:
//! a value that is stored and loaded again, or widened and narrowed again,
//! comes back bit for bit, and the failure code of a narrowing runs exactly
//! where the tag is the wrong one.

use vstd::prelude::*;
use vstd::bytes::*;
use crate::vartype::{VarType, ValType, vartype_cells, spec_size_in_memory};
use crate::wasm::instr::{Instr, LocalIdx};
use crate::wasm::machine::{Machine, Stack, Val, byte_at, loaded_value, stored_value, exec, run, vals_typed, wrap32, load32, load64, store32, store64, store_bytes, balanced, straight_line, lemma_exec_straight, lemma_block_exit_balanced, lemma_run_concat};
use crate::var_conv::{Slot, legal_store, legal_load, legal_widening, legal_narrowing, store_slots_code, load_slots_code, store_memory_code, load_memory_code, store_memory_temps, load_memory_temps, widening_code, widening_temps, narrowing_code, narrowing_temps, narrowing_check_code, narrowing_data_code, unchecked_local_conv_code};

verus! {

/// The value that the machine holds in the cell.
pub open spec fn slot_value(m: Machine, slot: Slot) -> Val {
    match slot {
        Slot::Local(x) => m.locals[x],
        Slot::Global(x) => m.globals[x],
    }
}

/// Whether no two of the cells are the same.
pub open spec fn distinct_slots(slots: Seq<Slot>) -> bool {
    forall|i: int, j: int| 0 <= i < j < slots.len() ==> slots[i] != slots[j]
}

/// Whether no two of the locals are the same.
pub open spec fn distinct_locals(locals: Seq<LocalIdx>) -> bool {
    forall|i: int, j: int| 0 <= i < j < locals.len() ==> locals[i] != locals[j]
}

/// The low half of a number that was extended from 32 bits is that number.
pub proof fn lemma_wrap_extend(v: u32)
    ensures
        wrap32(v as u64) == v,
{
    let w = v as u64;
    assert(w & 0xffff_ffff == w) by (bit_vector)
        requires
            w <= 0xffff_ffff,
    ;
}

/// The two halves of a 64-bit number that was put together from two 32-bit
/// numbers are those numbers.
pub proof fn lemma_pack_halves(high: u32, low: u32)
    ensures
        wrap32(((high as u64) << 32) | (low as u64)) == low,
        wrap32((((high as u64) << 32) | (low as u64)) >> 32) == high,
{
    let h = high as u64;
    let l = low as u64;
    assert((((h << 32) | l) & 0xffff_ffff) == l) by (bit_vector)
        requires
            h <= 0xffff_ffff,
            l <= 0xffff_ffff,
    ;
    assert(((((h << 32) | l) >> 32) & 0xffff_ffff) == h) by (bit_vector)
        requires
            h <= 0xffff_ffff,
            l <= 0xffff_ffff,
    ;
}

/// The forward reading of `run`: the machine after the instructions from
/// position `at` on have been executed in order.
pub open spec fn run_from(code: Seq<Instr>, at: int, m: Machine) -> Machine
    decreases code.len() - at,
{
    if at < 0 || at >= code.len() {
        m
    } else {
        run_from(code, at + 1, crate::wasm::machine::step(code[at], m))
    }
}

/// Executing a code in order is the same from the front and from the back.
pub proof fn lemma_run_from(code: Seq<Instr>, at: int, m: Machine)
    requires
        0 <= at <= code.len(),
    ensures
        run_from(code, at, m) == run(code.skip(at), m),
    decreases code.len() - at,
{
    if at == code.len() {
        assert(code.skip(at).len() == 0);
    } else {
        let next = crate::wasm::machine::step(code[at], m);
        lemma_run_from(code, at + 1, next);
        assert(code.skip(at) =~= seq![code[at]] + code.skip(at + 1));
        lemma_run_concat(seq![code[at]], code.skip(at + 1), m);
        assert(run(seq![code[at]], m) == next) by {
            reveal_with_fuel(run, 2);
            assert(seq![code[at]].drop_last().len() == 0);
        }
    }
}

/// Executing a code in order is the same from the front and from the back.
pub proof fn lemma_run_forward(code: Seq<Instr>, m: Machine)
    ensures
        run(code, m) == run_from(code, 0, m),
{
    lemma_run_from(code, 0, m);
    assert(code.skip(0) =~= code);
}

proof fn lemma_slots_undefined(slots: Seq<Slot>, m: Machine, dest: VarType)
    requires
        !m.trapped,
        distinct_slots(slots),
        slots.len() == vartype_cells(dest).len(),
        dest == VarType::Undefined || dest == VarType::Any,
    ensures
        ({
            let start = m.with_stack(m.stack);
            let stored = run(store_slots_code(slots, dest, VarType::Undefined), start);
            let loaded = run(load_slots_code(slots, dest, VarType::Undefined), stored);
            &&& !stored.trapped
            &&& stored.stack == m.stack
            &&& stored.mem == m.mem
            &&& dest != VarType::Undefined ==> slot_value(stored, slots[0]) == Val::I32((VarType::Undefined).spec_tag() as u32)
            &&& !loaded.trapped
            &&& loaded.stack == start.stack
        }),
{
    let start = m.with_stack(m.stack);
    let sc = store_slots_code(slots, dest, VarType::Undefined);
    let lc = load_slots_code(slots, dest, VarType::Undefined);
    lemma_run_forward(sc, start);
    let stored = run(sc, start);
    lemma_run_forward(lc, stored);
    assert(32i64 as u64 == 32);
    assert(32u64 % 64 == 32);
    reveal_with_fuel(run_from, 4);
}

proof fn lemma_slots_number(slots: Seq<Slot>, m: Machine, dest: VarType, bits: u64)
    requires
        !m.trapped,
        distinct_slots(slots),
        slots.len() == vartype_cells(dest).len(),
        dest == VarType::Number || dest == VarType::Any,
    ensures
        ({
            let start = m.with_stack(m.stack.push(Val::F64(bits)));
            let stored = run(store_slots_code(slots, dest, VarType::Number), start);
            let loaded = run(load_slots_code(slots, dest, VarType::Number), stored);
            &&& !stored.trapped
            &&& stored.stack == m.stack
            &&& stored.mem == m.mem
            &&& dest != VarType::Number ==> slot_value(stored, slots[0]) == Val::I32((VarType::Number).spec_tag() as u32)
            &&& !loaded.trapped
            &&& loaded.stack == start.stack
        }),
{
    let start = m.with_stack(m.stack.push(Val::F64(bits)));
    let sc = store_slots_code(slots, dest, VarType::Number);
    let lc = load_slots_code(slots, dest, VarType::Number);
    lemma_run_forward(sc, start);
    let stored = run(sc, start);
    lemma_run_forward(lc, stored);
    assert(32i64 as u64 == 32);
    assert(32u64 % 64 == 32);
    if dest == VarType::Any {
        assert(slots[0] != slots[1]);
    }
    reveal_with_fuel(run_from, 6);
}

proof fn lemma_slots_word(slots: Seq<Slot>, m: Machine, dest: VarType, source: VarType, word: u32)
    requires
        !m.trapped,
        distinct_slots(slots),
        slots.len() == vartype_cells(dest).len(),
        crate::var_conv::is_word(source),
        legal_store(dest, source),
    ensures
        ({
            let start = m.with_stack(m.stack.push(Val::I32(word)));
            let stored = run(store_slots_code(slots, dest, source), start);
            let loaded = run(load_slots_code(slots, dest, source), stored);
            &&& !stored.trapped
            &&& stored.stack == m.stack
            &&& stored.mem == m.mem
            &&& dest != source ==> slot_value(stored, slots[0]) == Val::I32((source).spec_tag() as u32)
            &&& !loaded.trapped
            &&& loaded.stack == start.stack
        }),
{
    let start = m.with_stack(m.stack.push(Val::I32(word)));
    let sc = store_slots_code(slots, dest, source);
    let lc = load_slots_code(slots, dest, source);
    lemma_run_forward(sc, start);
    let stored = run(sc, start);
    lemma_run_forward(lc, stored);
    assert(32i64 as u64 == 32);
    assert(32u64 % 64 == 32);
    lemma_wrap_extend(word);
    if dest == VarType::Any {
        assert(slots[0] != slots[1]);
    }
    reveal_with_fuel(run_from, 6);
}

proof fn lemma_slots_func(slots: Seq<Slot>, m: Machine, dest: VarType, high: u32, low: u32)
    requires
        !m.trapped,
        distinct_slots(slots),
        slots.len() == vartype_cells(dest).len(),
        dest == VarType::Func || dest == VarType::Any,
    ensures
        ({
            let start = m.with_stack(m.stack.push(Val::I32(high)).push(Val::I32(low)));
            let stored = run(store_slots_code(slots, dest, VarType::Func), start);
            let loaded = run(load_slots_code(slots, dest, VarType::Func), stored);
            &&& !stored.trapped
            &&& stored.stack == m.stack
            &&& stored.mem == m.mem
            &&& dest != VarType::Func ==> slot_value(stored, slots[0]) == Val::I32((VarType::Func).spec_tag() as u32)
            &&& !loaded.trapped
            &&& loaded.stack == start.stack
        }),
{
    let start = m.with_stack(m.stack.push(Val::I32(high)).push(Val::I32(low)));
    let sc = store_slots_code(slots, dest, VarType::Func);
    let lc = load_slots_code(slots, dest, VarType::Func);
    lemma_run_forward(sc, start);
    let stored = run(sc, start);
    lemma_run_forward(lc, stored);
    assert(32i64 as u64 == 32);
    assert(32u64 % 64 == 32);
    lemma_pack_halves(high, low);
    assert(slots[0] != slots[1]);
    reveal_with_fuel(run_from, 12);
}

proof fn lemma_slots_any(slots: Seq<Slot>, m: Machine, data: u64, tag: u32)
    requires
        !m.trapped,
        distinct_slots(slots),
        slots.len() == vartype_cells(VarType::Any).len(),
    ensures
        ({
            let start = m.with_stack(m.stack.push(Val::I64(data)).push(Val::I32(tag)));
            let stored = run(store_slots_code(slots, VarType::Any, VarType::Any), start);
            let loaded = run(load_slots_code(slots, VarType::Any, VarType::Any), stored);
            &&& !stored.trapped
            &&& stored.stack == m.stack
            &&& stored.mem == m.mem
            &&& VarType::Any != VarType::Any ==> slot_value(stored, slots[0]) == Val::I32((VarType::Any).spec_tag() as u32)
            &&& !loaded.trapped
            &&& loaded.stack == start.stack
        }),
{
    let start = m.with_stack(m.stack.push(Val::I64(data)).push(Val::I32(tag)));
    let sc = store_slots_code(slots, VarType::Any, VarType::Any);
    let lc = load_slots_code(slots, VarType::Any, VarType::Any);
    lemma_run_forward(sc, start);
    let stored = run(sc, start);
    lemma_run_forward(lc, stored);
    assert(32i64 as u64 == 32);
    assert(32u64 % 64 == 32);
    assert(slots[0] != slots[1]);
    reveal_with_fuel(run_from, 4);
}

/// A value that is stored into the cells of a place and loaded from them
/// again comes back as it was, whether the place has the type of the value
/// or is an `Any`. The store takes the value from the stack and leaves
/// memory alone; into an `Any` it writes the tag of the value's type.
pub proof fn law_store_load_round_trip(
    slots: Seq<Slot>,
    dest: VarType,
    source: VarType,
    m: Machine,
    vals: Seq<Val>,
)
    requires
        legal_store(dest, source),
        slots.len() == vartype_cells(dest).len(),
        distinct_slots(slots),
        vals_typed(vals, vartype_cells(source)),
        !m.trapped,
    ensures
        ({
            let start = m.with_stack(m.stack.push_value(vals));
            let stored = run(store_slots_code(slots, dest, source), start);
            let loaded = run(load_slots_code(slots, dest, source), stored);
            &&& !stored.trapped
            &&& stored.stack == m.stack
            &&& stored.mem == m.mem
            &&& dest != source ==> slot_value(stored, slots[0]) == Val::I32(source.spec_tag() as u32)
            &&& !loaded.trapped
            &&& loaded.stack == start.stack
        }),
{
    let cells = vartype_cells(source);
    reveal_with_fuel(Stack::push_value, 3);
    if cells.len() == 0 {
        lemma_slots_undefined(slots, m, dest);
    } else if cells.len() == 1 {
        let v = vals[0];
        assert(vals.drop_first().len() == 0);
        assert(v.ty() == cells[0]);
        assert(m.stack.push_value(vals) == m.stack.push(v));
        match v {
            Val::I32(word) => {
                lemma_slots_word(slots, m, dest, source, word);
            },
            Val::F64(bits) => {
                lemma_slots_number(slots, m, dest, bits);
            },
            _ => {},
        }
    } else {
        let v0 = vals[0];
        let v1 = vals[1];
        assert(vals.drop_first()[0] == v1);
        assert(vals.drop_first().drop_first().len() == 0);
        assert(v0.ty() == cells[0]);
        assert(v1.ty() == cells[1]);
        assert(m.stack.push_value(vals) == m.stack.push(v1).push(v0));
        match (v0, v1) {
            (Val::I32(low), Val::I32(high)) => {
                lemma_slots_func(slots, m, dest, high, low);
            },
            (Val::I32(tag), Val::I64(data)) => {
                lemma_slots_any(slots, m, data, tag);
            },
            _ => {},
        }
    }
}

/// The number of bytes that a value of the type takes in memory.
pub open spec fn valtype_size(ty: ValType) -> int {
    match ty {
        ValType::I32 | ValType::F32 => 4,
        ValType::I64 | ValType::F64 => 8,
    }
}

/// A value that was written to memory is read back from the same address.
pub proof fn lemma_mem_same(mem: Map<int, u8>, addr: int, v: Val)
    ensures
        loaded_value(stored_value(mem, addr, v), addr, v.ty()) == v,
{
    reveal(loaded_value);
    reveal(stored_value);
    lemma_auto_spec_u32_to_from_le_bytes();
    lemma_auto_spec_u64_to_from_le_bytes();
    let after = stored_value(mem, addr, v);
    match v {
        Val::I32(w) | Val::F32(w) => {
            assert(Seq::new(4, |k: int| byte_at(after, addr + k)) =~= spec_u32_to_le_bytes(w));
        },
        Val::I64(w) | Val::F64(w) => {
            assert(Seq::new(8, |k: int| byte_at(after, addr + k)) =~= spec_u64_to_le_bytes(w));
        },
    }
}

/// A write to memory leaves what is read from bytes that it does not touch.
pub proof fn lemma_mem_apart(mem: Map<int, u8>, addr: int, v: Val, other: int, ty: ValType)
    requires
        addr + valtype_size(v.ty()) <= other || other + valtype_size(ty) <= addr,
    ensures
        loaded_value(stored_value(mem, addr, v), other, ty) == loaded_value(mem, other, ty),
{
    reveal(loaded_value);
    reveal(stored_value);
    lemma_auto_spec_u32_to_from_le_bytes();
    lemma_auto_spec_u64_to_from_le_bytes();
    let after = stored_value(mem, addr, v);
    match v {
        Val::I32(w) | Val::F32(w) => {
            assert(spec_u32_to_le_bytes(w).len() == 4);
        },
        Val::I64(w) | Val::F64(w) => {
            assert(spec_u64_to_le_bytes(w).len() == 8);
        },
    }
    match ty {
        ValType::I32 | ValType::F32 => {
            assert(Seq::new(4, |k: int| byte_at(after, other + k)) =~= Seq::new(4, |k: int| byte_at(mem, other + k)));
        },
        ValType::I64 | ValType::F64 => {
            assert(Seq::new(8, |k: int| byte_at(after, other + k)) =~= Seq::new(8, |k: int| byte_at(mem, other + k)));
        },
    }
}

/// Whether the two memories hold the same bytes everywhere but in the
/// `len` bytes from `from` on.
pub open spec fn same_outside(before: Map<int, u8>, after: Map<int, u8>, from: int, len: int) -> bool {
    forall|a: int| !(from <= a < from + len) ==> #[trigger] byte_at(after, a) == byte_at(before, a)
}

/// A store changes no byte but those of the value that it writes.
pub proof fn lemma_mem_outside(mem: Map<int, u8>, addr: int, v: Val, from: int, len: int)
    requires
        from <= addr,
        addr + valtype_size(v.ty()) <= from + len,
    ensures
        same_outside(mem, stored_value(mem, addr, v), from, len),
{
    reveal(stored_value);
    match v {
        Val::I32(w) | Val::F32(w) => {
            assert(spec_u32_to_le_bytes(w).len() == 4) by {
                lemma_auto_spec_u32_to_from_le_bytes();
            }
        },
        Val::I64(w) | Val::F64(w) => {
            assert(spec_u64_to_le_bytes(w).len() == 8) by {
                lemma_auto_spec_u64_to_from_le_bytes();
            }
        },
    }
}

proof fn lemma_memory_number(offset: u32, st: Seq<LocalIdx>, lt: Seq<LocalIdx>, m: Machine, ptr: u32, dest: VarType, bits: u64)
    requires
        !m.trapped,
        distinct_locals(st),
        st.len() == store_memory_temps(dest, VarType::Number).len(),
        lt.len() == load_memory_temps(dest, VarType::Number).len(),
        offset + spec_size_in_memory(dest) <= u32::MAX,
        dest == VarType::Number || dest == VarType::Any,
    ensures
        ({
            let value = m.stack.push(Val::F64(bits));
            let start = m.with_stack(m.stack.push(Val::I32(ptr)).push(Val::F64(bits)));
            let stored = run(store_memory_code(offset, dest, VarType::Number, st), start);
            let again = stored.with_stack(stored.stack.push(Val::I32(ptr)));
            let loaded = run(load_memory_code(offset, dest, VarType::Number, lt), again);
            &&& !stored.trapped
            &&& same_outside(m.mem, stored.mem, ptr + offset, spec_size_in_memory(dest))
            &&& stored.stack == m.stack
            &&& dest != VarType::Number ==> loaded_value(stored.mem, ptr + offset, ValType::I32) == Val::I32(
                (VarType::Number).spec_tag() as u32,
            )
            &&& !loaded.trapped
            &&& loaded.stack == value
        }),
{
    let start = m.with_stack(m.stack.push(Val::I32(ptr)).push(Val::F64(bits)));
    let sc = store_memory_code(offset, dest, VarType::Number, st);
    let lc = load_memory_code(offset, dest, VarType::Number, lt);
    lemma_run_forward(sc, start);
    let stored = run(sc, start);
    let again = stored.with_stack(stored.stack.push(Val::I32(ptr)));
    lemma_run_forward(lc, again);
    let at = ptr + offset;
    let tag = Val::I32(VarType::Number.spec_tag() as u32);
    if dest == VarType::Any {
        assert(st[0] != st[1]);
        let m1 = stored_value(m.mem, at, tag);
        lemma_mem_same(m.mem, at, tag);
        lemma_mem_outside(m.mem, at, tag, at as int, spec_size_in_memory(dest));
        lemma_mem_same(m1, at + 4, Val::F64(bits));
        lemma_mem_outside(m1, at + 4, Val::F64(bits), at as int, spec_size_in_memory(dest));
        lemma_mem_apart(m1, at + 4, Val::F64(bits), at, ValType::I32);
    } else {
        lemma_mem_same(m.mem, at, Val::F64(bits));
        lemma_mem_outside(m.mem, at, Val::F64(bits), at as int, spec_size_in_memory(dest));
    }
    reveal_with_fuel(run_from, 9);
}

proof fn lemma_memory_word(offset: u32, st: Seq<LocalIdx>, lt: Seq<LocalIdx>, m: Machine, ptr: u32, dest: VarType, source: VarType, word: u32)
    requires
        !m.trapped,
        distinct_locals(st),
        st.len() == store_memory_temps(dest, source).len(),
        lt.len() == load_memory_temps(dest, source).len(),
        offset + spec_size_in_memory(dest) <= u32::MAX,
        crate::var_conv::is_word(source),
        legal_store(dest, source),
    ensures
        ({
            let value = m.stack.push(Val::I32(word));
            let start = m.with_stack(m.stack.push(Val::I32(ptr)).push(Val::I32(word)));
            let stored = run(store_memory_code(offset, dest, source, st), start);
            let again = stored.with_stack(stored.stack.push(Val::I32(ptr)));
            let loaded = run(load_memory_code(offset, dest, source, lt), again);
            &&& !stored.trapped
            &&& same_outside(m.mem, stored.mem, ptr + offset, spec_size_in_memory(dest))
            &&& stored.stack == m.stack
            &&& dest != source ==> loaded_value(stored.mem, ptr + offset, ValType::I32) == Val::I32(
                (source).spec_tag() as u32,
            )
            &&& !loaded.trapped
            &&& loaded.stack == value
        }),
{
    let start = m.with_stack(m.stack.push(Val::I32(ptr)).push(Val::I32(word)));
    let sc = store_memory_code(offset, dest, source, st);
    let lc = load_memory_code(offset, dest, source, lt);
    lemma_run_forward(sc, start);
    let stored = run(sc, start);
    let again = stored.with_stack(stored.stack.push(Val::I32(ptr)));
    lemma_run_forward(lc, again);
    let at = ptr + offset;
    let tag = Val::I32(source.spec_tag() as u32);
    if dest == VarType::Any {
        assert(st[0] != st[1]);
        let m1 = stored_value(m.mem, at, tag);
        lemma_mem_same(m.mem, at, tag);
        lemma_mem_outside(m.mem, at, tag, at as int, spec_size_in_memory(dest));
        lemma_mem_same(m1, at + 4, Val::I32(word));
        lemma_mem_outside(m1, at + 4, Val::I32(word), at as int, spec_size_in_memory(dest));
        lemma_mem_apart(m1, at + 4, Val::I32(word), at, ValType::I32);
    } else {
        lemma_mem_same(m.mem, at, Val::I32(word));
        lemma_mem_outside(m.mem, at, Val::I32(word), at as int, spec_size_in_memory(dest));
    }
    reveal_with_fuel(run_from, 9);
}

proof fn lemma_memory_func(offset: u32, st: Seq<LocalIdx>, lt: Seq<LocalIdx>, m: Machine, ptr: u32, high: u32, low: u32)
    requires
        !m.trapped,
        distinct_locals(st),
        st.len() == store_memory_temps(VarType::Func, VarType::Func).len(),
        lt.len() == load_memory_temps(VarType::Func, VarType::Func).len(),
        offset + spec_size_in_memory(VarType::Func) <= u32::MAX,
    ensures
        ({
            let value = m.stack.push(Val::I32(high)).push(Val::I32(low));
            let start = m.with_stack(m.stack.push(Val::I32(ptr)).push(Val::I32(high)).push(Val::I32(low)));
            let stored = run(store_memory_code(offset, VarType::Func, VarType::Func, st), start);
            let again = stored.with_stack(stored.stack.push(Val::I32(ptr)));
            let loaded = run(load_memory_code(offset, VarType::Func, VarType::Func, lt), again);
            &&& !stored.trapped
            &&& same_outside(m.mem, stored.mem, ptr + offset, spec_size_in_memory(VarType::Func))
            &&& stored.stack == m.stack
            &&& VarType::Func != VarType::Func ==> loaded_value(stored.mem, ptr + offset, ValType::I32) == Val::I32(
                (VarType::Func).spec_tag() as u32,
            )
            &&& !loaded.trapped
            &&& loaded.stack == value
        }),
{
    let start = m.with_stack(m.stack.push(Val::I32(ptr)).push(Val::I32(high)).push(Val::I32(low)));
    let sc = store_memory_code(offset, VarType::Func, VarType::Func, st);
    let lc = load_memory_code(offset, VarType::Func, VarType::Func, lt);
    lemma_run_forward(sc, start);
    let stored = run(sc, start);
    let again = stored.with_stack(stored.stack.push(Val::I32(ptr)));
    lemma_run_forward(lc, again);
    let at = ptr + offset;
    assert(st[0] != st[1] && st[0] != st[2] && st[1] != st[2]);
    let m1 = stored_value(m.mem, at, Val::I32(high));
    lemma_mem_same(m.mem, at, Val::I32(high));
    lemma_mem_outside(m.mem, at, Val::I32(high), at as int, spec_size_in_memory(VarType::Func));
    lemma_mem_same(m1, at + 4, Val::I32(low));
    lemma_mem_outside(m1, at + 4, Val::I32(low), at as int, spec_size_in_memory(VarType::Func));
    lemma_mem_apart(m1, at + 4, Val::I32(low), at, ValType::I32);
    reveal_with_fuel(run_from, 10);
}

proof fn lemma_memory_func_widened(offset: u32, st: Seq<LocalIdx>, lt: Seq<LocalIdx>, m: Machine, ptr: u32, high: u32, low: u32)
    requires
        !m.trapped,
        distinct_locals(st),
        st.len() == store_memory_temps(VarType::Any, VarType::Func).len(),
        lt.len() == load_memory_temps(VarType::Any, VarType::Func).len(),
        offset + spec_size_in_memory(VarType::Any) <= u32::MAX,
    ensures
        ({
            let value = m.stack.push(Val::I32(high)).push(Val::I32(low));
            let start = m.with_stack(m.stack.push(Val::I32(ptr)).push(Val::I32(high)).push(Val::I32(low)));
            let stored = run(store_memory_code(offset, VarType::Any, VarType::Func, st), start);
            let again = stored.with_stack(stored.stack.push(Val::I32(ptr)));
            let loaded = run(load_memory_code(offset, VarType::Any, VarType::Func, lt), again);
            &&& !stored.trapped
            &&& same_outside(m.mem, stored.mem, ptr + offset, spec_size_in_memory(VarType::Any))
            &&& stored.stack == m.stack
            &&& VarType::Any != VarType::Func ==> loaded_value(stored.mem, ptr + offset, ValType::I32) == Val::I32(
                (VarType::Func).spec_tag() as u32,
            )
            &&& !loaded.trapped
            &&& loaded.stack == value
        }),
{
    let start = m.with_stack(m.stack.push(Val::I32(ptr)).push(Val::I32(high)).push(Val::I32(low)));
    let sc = store_memory_code(offset, VarType::Any, VarType::Func, st);
    let lc = load_memory_code(offset, VarType::Any, VarType::Func, lt);
    lemma_run_forward(sc, start);
    let stored = run(sc, start);
    let again = stored.with_stack(stored.stack.push(Val::I32(ptr)));
    lemma_run_forward(lc, again);
    let at = ptr + offset;
    assert(st[0] != st[1] && st[0] != st[2] && st[1] != st[2]);
    let tag = Val::I32(VarType::Func.spec_tag() as u32);
    let m1 = stored_value(m.mem, at, tag);
    let m2 = stored_value(m1, at + 4, Val::I32(low));
    lemma_mem_same(m.mem, at, tag);
    lemma_mem_outside(m.mem, at, tag, at as int, spec_size_in_memory(VarType::Any));
    lemma_mem_same(m1, at + 4, Val::I32(low));
    lemma_mem_outside(m1, at + 4, Val::I32(low), at as int, spec_size_in_memory(VarType::Any));
    lemma_mem_same(m2, at + 8, Val::I32(high));
    lemma_mem_outside(m2, at + 8, Val::I32(high), at as int, spec_size_in_memory(VarType::Any));
    lemma_mem_apart(m1, at + 4, Val::I32(low), at, ValType::I32);
    lemma_mem_apart(m2, at + 8, Val::I32(high), at, ValType::I32);
    lemma_mem_apart(m2, at + 8, Val::I32(high), at + 4, ValType::I32);
    reveal_with_fuel(run_from, 13);
}

proof fn lemma_memory_any(offset: u32, st: Seq<LocalIdx>, lt: Seq<LocalIdx>, m: Machine, ptr: u32, data: u64, tag: u32)
    requires
        !m.trapped,
        distinct_locals(st),
        st.len() == store_memory_temps(VarType::Any, VarType::Any).len(),
        lt.len() == load_memory_temps(VarType::Any, VarType::Any).len(),
        offset + spec_size_in_memory(VarType::Any) <= u32::MAX,
    ensures
        ({
            let value = m.stack.push(Val::I64(data)).push(Val::I32(tag));
            let start = m.with_stack(m.stack.push(Val::I32(ptr)).push(Val::I64(data)).push(Val::I32(tag)));
            let stored = run(store_memory_code(offset, VarType::Any, VarType::Any, st), start);
            let again = stored.with_stack(stored.stack.push(Val::I32(ptr)));
            let loaded = run(load_memory_code(offset, VarType::Any, VarType::Any, lt), again);
            &&& !stored.trapped
            &&& same_outside(m.mem, stored.mem, ptr + offset, spec_size_in_memory(VarType::Any))
            &&& stored.stack == m.stack
            &&& VarType::Any != VarType::Any ==> loaded_value(stored.mem, ptr + offset, ValType::I32) == Val::I32(
                (VarType::Any).spec_tag() as u32,
            )
            &&& !loaded.trapped
            &&& loaded.stack == value
        }),
{
    let start = m.with_stack(m.stack.push(Val::I32(ptr)).push(Val::I64(data)).push(Val::I32(tag)));
    let sc = store_memory_code(offset, VarType::Any, VarType::Any, st);
    let lc = load_memory_code(offset, VarType::Any, VarType::Any, lt);
    lemma_run_forward(sc, start);
    let stored = run(sc, start);
    let again = stored.with_stack(stored.stack.push(Val::I32(ptr)));
    lemma_run_forward(lc, again);
    let at = ptr + offset;
    assert(st[0] != st[1] && st[0] != st[2] && st[1] != st[2]);
    let m1 = stored_value(m.mem, at, Val::I32(tag));
    lemma_mem_same(m.mem, at, Val::I32(tag));
    lemma_mem_outside(m.mem, at, Val::I32(tag), at as int, spec_size_in_memory(VarType::Any));
    lemma_mem_same(m1, at + 4, Val::I64(data));
    lemma_mem_outside(m1, at + 4, Val::I64(data), at as int, spec_size_in_memory(VarType::Any));
    lemma_mem_apart(m1, at + 4, Val::I64(data), at, ValType::I32);
    reveal_with_fuel(run_from, 10);
}

/// A value that is stored into memory and loaded again from the same
/// address and offset comes back as it was, whether the place in memory has
/// the layout of the value's type or that of an `Any`. The store takes the
/// address and the value from the stack and changes no byte outside the
/// place; into an `Any` it writes the tag of the value's type in the first
/// four bytes. (A value of type `Undefined` has no cells; for it no code is
/// emitted.)
pub proof fn law_memory_round_trip(
    offset: u32,
    dest: VarType,
    source: VarType,
    store_temps: Seq<LocalIdx>,
    load_temps: Seq<LocalIdx>,
    m: Machine,
    ptr: u32,
    vals: Seq<Val>,
)
    requires
        legal_store(dest, source),
        source != VarType::Undefined,
        offset + spec_size_in_memory(dest) <= u32::MAX,
        distinct_locals(store_temps),
        store_temps.len() == store_memory_temps(dest, source).len(),
        load_temps.len() == load_memory_temps(dest, source).len(),
        vals_typed(vals, vartype_cells(source)),
        !m.trapped,
    ensures
        ({
            let start = m.with_stack(m.stack.push(Val::I32(ptr)).push_value(vals));
            let stored = run(store_memory_code(offset, dest, source, store_temps), start);
            let again = stored.with_stack(stored.stack.push(Val::I32(ptr)));
            let loaded = run(load_memory_code(offset, dest, source, load_temps), again);
            &&& !stored.trapped
            &&& same_outside(m.mem, stored.mem, ptr + offset, spec_size_in_memory(dest))
            &&& stored.stack == m.stack
            &&& dest != source ==> loaded_value(stored.mem, ptr + offset, ValType::I32) == Val::I32(
                source.spec_tag() as u32,
            )
            &&& !loaded.trapped
            &&& loaded.stack == m.stack.push_value(vals)
        }),
{
    let cells = vartype_cells(source);
    reveal_with_fuel(Stack::push_value, 3);
    let below = m.stack.push(Val::I32(ptr));
    if cells.len() == 1 {
        let v = vals[0];
        assert(vals.drop_first().len() == 0);
        assert(v.ty() == cells[0]);
        assert(below.push_value(vals) == below.push(v));
        assert(m.stack.push_value(vals) == m.stack.push(v));
        match v {
            Val::I32(word) => {
                lemma_memory_word(offset, store_temps, load_temps, m, ptr, dest, source, word);
            },
            Val::F64(bits) => {
                lemma_memory_number(offset, store_temps, load_temps, m, ptr, dest, bits);
            },
            _ => {},
        }
    } else {
        let v0 = vals[0];
        let v1 = vals[1];
        assert(vals.drop_first()[0] == v1);
        assert(vals.drop_first().drop_first().len() == 0);
        assert(v0.ty() == cells[0]);
        assert(v1.ty() == cells[1]);
        assert(below.push_value(vals) == below.push(v1).push(v0));
        assert(m.stack.push_value(vals) == m.stack.push(v1).push(v0));
        match (v0, v1) {
            (Val::I32(low), Val::I32(high)) => {
                if dest == source {
                    lemma_memory_func(offset, store_temps, load_temps, m, ptr, high, low);
                } else {
                    lemma_memory_func_widened(offset, store_temps, load_temps, m, ptr, high, low);
                }
            },
            (Val::I32(tag), Val::I64(data)) => {
                lemma_memory_any(offset, store_temps, load_temps, m, ptr, data, tag);
            },
            _ => {},
        }
    }
}

/// The data of the `Any` that stands for a value of the given type with the
/// given cells, first cell first: nothing for `Undefined`, the bits of a
/// number, the word of a boolean, a string or a struct extended with zeros,
/// and for a function the closure in the upper half and the table index in
/// the lower half.
pub open spec fn widened_data(source: VarType, vals: Seq<Val>) -> u64 {
    match source {
        VarType::Number => match vals[0] {
            Val::F64(bits) => bits,
            _ => 0,
        },
        VarType::Boolean | VarType::String | VarType::StructT { .. } => match vals[0] {
            Val::I32(word) => word as u64,
            _ => 0,
        },
        VarType::Func => match (vals[0], vals[1]) {
            (Val::I32(table), Val::I32(closure)) => ((closure as u64) << 32) | (table as u64),
            _ => 0,
        },
        _ => 0,
    }
}

/// A widening to `Any` takes the value from the stack and leaves the data
/// that stands for the value below the tag of the value's type.
pub proof fn law_widening_tags(source: VarType, temps: Seq<LocalIdx>, m: Machine, vals: Seq<Val>)
    requires
        legal_widening(VarType::Any, source),
        source != VarType::Any,
        temps.len() == widening_temps(VarType::Any, source).len(),
        vals_typed(vals, vartype_cells(source)),
        !m.trapped,
    ensures
        ({
            let start = m.with_stack(m.stack.push_value(vals));
            let widened = run(widening_code(VarType::Any, source, temps), start);
            &&& !widened.trapped
            &&& widened.mem == m.mem
            &&& widened.stack == m.stack.push(Val::I64(widened_data(source, vals))).push(
                Val::I32(source.spec_tag() as u32),
            )
        }),
{
    let start = m.with_stack(m.stack.push_value(vals));
    let code = widening_code(VarType::Any, source, temps);
    lemma_run_forward(code, start);
    reveal_with_fuel(Stack::push_value, 3);
    let cells = vartype_cells(source);
    if cells.len() == 0 {
        assert(start.stack == m.stack);
        reveal_with_fuel(run_from, 3);
    } else if cells.len() == 1 {
        assert(vals.drop_first().len() == 0);
        assert(vals[0].ty() == cells[0]);
        assert(start.stack == m.stack.push(vals[0]));
        match vals[0] {
            Val::F64(bits) => {
                assert(source == VarType::Number);
                reveal_with_fuel(run_from, 3);
            },
            Val::I32(word) => {
                assert(source != VarType::Number);
                reveal_with_fuel(run_from, 3);
            },
            _ => {},
        }
    } else {
        assert(vals.drop_first()[0] == vals[1]);
        assert(vals.drop_first().drop_first().len() == 0);
        assert(vals[0].ty() == cells[0]);
        assert(vals[1].ty() == cells[1]);
        assert(source == VarType::Func);
        assert(start.stack == m.stack.push(vals[1]).push(vals[0]));
        reveal_with_fuel(run_from, 10);
    }
}

/// The machine at the start of the failure code of a narrowing is reached
/// exactly where the tag of the `Any` on the stack is not the tag of the
/// target; where it is, the failure code is passed over and the machine goes
/// on behind the `end` that closes it. Either way the tag has left the stack.
pub proof fn law_narrowing_failure_iff(
    target: VarType,
    failure: Seq<Instr>,
    temps: Seq<LocalIdx>,
    m: Machine,
    data: u64,
    tag: u32,
)
    requires
        legal_narrowing(target, VarType::Any),
        target != VarType::Any,
        balanced(failure),
        !m.trapped,
    ensures
        ({
            let code = narrowing_code(target, VarType::Any, failure, temps);
            let start = m.with_stack(m.stack.push(Val::I64(data)).push(Val::I32(tag)));
            let inside = m.with_stack(m.stack.push(Val::I64(data)));
            exec(code, 0, start) == if tag != target.spec_tag() {
                exec(code, 3, inside)
            } else {
                exec(code, 4 + failure.len() as int, inside)
            }
        }),
{
    let code = narrowing_code(target, VarType::Any, failure, temps);
    let check = narrowing_check_code(target);
    let start = m.with_stack(m.stack.push(Val::I64(data)).push(Val::I32(tag)));
    let inside = m.with_stack(m.stack.push(Val::I64(data)));
    let wanted = target.spec_tag() as i32;
    assert(code[0] == Instr::I32Const(wanted));
    assert(code[1] == Instr::I32Ne);
    assert(code[2] == Instr::If(None));
    reveal_with_fuel(exec, 4);
    assert((wanted as u32) == target.spec_tag());
    let cond: u32 = if tag != wanted as u32 {
        1
    } else {
        0
    };
    let at_if = m.with_stack(m.stack.push(Val::I64(data)).push(Val::I32(cond)));
    assert(exec(code, 0, start) == exec(code, 2, at_if));
    assert(code.subrange(3, 3 + failure.len() as int) =~= failure);
    assert(code[3 + failure.len() as int] == Instr::End);
    lemma_block_exit_balanced(code, 3, failure, 0, 0);
}

/// A value that is widened to `Any` and narrowed again to its own type
/// comes back as it was: the failure code does not run, whatever it is.
pub proof fn law_widen_narrow_round_trip(
    source: VarType,
    failure: Seq<Instr>,
    widen_temps: Seq<LocalIdx>,
    narrow_temps: Seq<LocalIdx>,
    m: Machine,
    vals: Seq<Val>,
)
    requires
        legal_widening(VarType::Any, source),
        source != VarType::Any,
        balanced(failure),
        widen_temps.len() == widening_temps(VarType::Any, source).len(),
        narrow_temps.len() == narrowing_temps(source, VarType::Any).len(),
        vals_typed(vals, vartype_cells(source)),
        !m.trapped,
    ensures
        ({
            let start = m.with_stack(m.stack.push_value(vals));
            let widened = run(widening_code(VarType::Any, source, widen_temps), start);
            let narrowed = exec(
                narrowing_code(source, VarType::Any, failure, narrow_temps),
                0,
                widened,
            );
            &&& !narrowed.trapped
            &&& narrowed.stack == start.stack
            &&& narrowed.mem == m.mem
        }),
{
    let start = m.with_stack(m.stack.push_value(vals));
    let wcode = widening_code(VarType::Any, source, widen_temps);
    let ncode = narrowing_code(source, VarType::Any, failure, narrow_temps);
    let dcode = narrowing_data_code(source, narrow_temps);
    law_widening_tags(source, widen_temps, m, vals);
    let widened = run(wcode, start);
    let data = choose|data: u64|
        widened.stack == m.stack.push(Val::I64(data)).push(Val::I32(source.spec_tag() as u32));
    let tag = source.spec_tag() as u32;
    let base = Machine { stack: m.stack, ..widened };
    assert(widened == base.with_stack(base.stack.push(Val::I64(data)).push(Val::I32(tag))));
    law_narrowing_failure_iff(source, failure, narrow_temps, base, data, tag);
    let inside = base.with_stack(base.stack.push(Val::I64(data)));
    let after: int = 4 + failure.len() as int;
    assert(ncode.subrange(after, after + dcode.len() as int) =~= dcode);
    lemma_exec_straight(ncode, after, dcode, inside);
    assert(ncode.len() == after + dcode.len());
    // what the data code does to the data that the widening made
    lemma_run_forward(wcode, start);
    lemma_run_forward(dcode, inside);
    reveal_with_fuel(Stack::push_value, 3);
    let cells = vartype_cells(source);
    if cells.len() == 1 {
        assert(vals.drop_first().len() == 0);
        assert(vals[0].ty() == cells[0]);
        match vals[0] {
            Val::I32(word) => {
                lemma_wrap_extend(word);
            },
            _ => {},
        }
    } else if cells.len() == 2 {
        assert(vals.drop_first()[0] == vals[1]);
        assert(vals.drop_first().drop_first().len() == 0);
        assert(vals[0].ty() == cells[0]);
        assert(vals[1].ty() == cells[1]);
        match (vals[0], vals[1]) {
            (Val::I32(low), Val::I32(high)) => {
                lemma_pack_halves(high, low);
            },
            _ => {},
        }
    }
    assert(32i64 as u64 == 32);
    assert(32u64 % 64 == 32);
    reveal_with_fuel(run_from, 10);
}

} // verus!
