use sourceror::var_conv::{
    encode_load_global, encode_load_local, encode_load_memory, encode_narrowing_operation,
    encode_store_global, encode_store_local, encode_store_memory,
    encode_unchecked_local_conv_any_narrowing, encode_widening_operation,
};
use sourceror::vartype::{encode_vartype, size_in_memory, ValType, VarType};
use sourceror::wasm::instr::{ExprBuilder, GlobalIdx, Instr, LocalIdx, MemArg};
use sourceror::wasm::scratch::Scratch;

fn l(idx: usize) -> LocalIdx {
    LocalIdx { idx }
}

fn g(idx: u32) -> GlobalIdx {
    GlobalIdx { idx }
}

fn at(offset: u32) -> MemArg {
    MemArg { align: 2, offset }
}

fn all_types() -> Vec<VarType> {
    vec![
        VarType::Any,
        VarType::Undefined,
        VarType::Number,
        VarType::Boolean,
        VarType::String,
        VarType::Func,
        VarType::StructT { typeidx: 0 },
        VarType::StructT { typeidx: 3 },
    ]
}

#[test]
fn tags_are_stable_and_distinct() {
    assert_eq!(VarType::Unassigned.tag(), 0);
    assert_eq!(VarType::Undefined.tag(), 1);
    assert_eq!(VarType::Number.tag(), 2);
    assert_eq!(VarType::Boolean.tag(), 3);
    assert_eq!(VarType::String.tag(), 4);
    assert_eq!(VarType::Func.tag(), 5);
    assert_eq!(VarType::StructT { typeidx: 0 }.tag(), 6);
    assert_eq!(VarType::StructT { typeidx: 10 }.tag(), 16);
}

#[test]
fn cells_of_each_type() {
    assert_eq!(encode_vartype(VarType::Any), vec![ValType::I32, ValType::I64]);
    assert_eq!(encode_vartype(VarType::Undefined), vec![]);
    assert_eq!(encode_vartype(VarType::Number), vec![ValType::F64]);
    assert_eq!(encode_vartype(VarType::Boolean), vec![ValType::I32]);
    assert_eq!(encode_vartype(VarType::String), vec![ValType::I32]);
    assert_eq!(encode_vartype(VarType::Func), vec![ValType::I32, ValType::I32]);
    assert_eq!(encode_vartype(VarType::StructT { typeidx: 2 }), vec![ValType::I32]);
}

#[test]
fn sizes_in_memory() {
    assert_eq!(size_in_memory(VarType::Any), 12);
    assert_eq!(size_in_memory(VarType::Unassigned), 0);
    assert_eq!(size_in_memory(VarType::Undefined), 0);
    assert_eq!(size_in_memory(VarType::Number), 8);
    assert_eq!(size_in_memory(VarType::Boolean), 4);
    assert_eq!(size_in_memory(VarType::String), 4);
    assert_eq!(size_in_memory(VarType::Func), 8);
    assert_eq!(size_in_memory(VarType::StructT { typeidx: 1 }), 4);
}

#[test]
fn store_to_local_of_the_same_type_sets_the_cells_in_order() {
    let mut b = ExprBuilder::new();
    encode_store_local(&[l(4), l(5)], VarType::Any, VarType::Any, &mut b);
    assert_eq!(b.code, vec![Instr::LocalSet(l(4)), Instr::LocalSet(l(5))]);
    let mut b = ExprBuilder::new();
    encode_store_local(&[l(4)], VarType::Number, VarType::Number, &mut b);
    assert_eq!(b.code, vec![Instr::LocalSet(l(4))]);
    let mut b = ExprBuilder::new();
    encode_store_local(&[], VarType::Undefined, VarType::Undefined, &mut b);
    assert!(b.code.is_empty());
}

#[test]
fn store_to_any_local_writes_the_tag() {
    let mut b = ExprBuilder::new();
    encode_store_local(&[l(1), l(2)], VarType::Any, VarType::Number, &mut b);
    assert_eq!(
        b.code,
        vec![
            Instr::I32Const(2),
            Instr::LocalSet(l(1)),
            Instr::I64ReinterpretF64,
            Instr::LocalSet(l(2)),
        ]
    );
    let mut b = ExprBuilder::new();
    encode_store_local(&[l(1), l(2)], VarType::Any, VarType::StructT { typeidx: 1 }, &mut b);
    assert_eq!(
        b.code,
        vec![Instr::I32Const(7), Instr::LocalSet(l(1)), Instr::I64ExtendI32U, Instr::LocalSet(l(2))]
    );
    let mut b = ExprBuilder::new();
    encode_store_local(&[l(1), l(2)], VarType::Any, VarType::Undefined, &mut b);
    assert_eq!(b.code, vec![Instr::I32Const(1), Instr::LocalSet(l(1))]);
}

#[test]
fn store_of_a_function_to_any_packs_both_halves() {
    let mut b = ExprBuilder::new();
    encode_store_global(&[g(1), g(2)], VarType::Any, VarType::Func, &mut b);
    assert_eq!(
        b.code,
        vec![
            Instr::I32Const(5),
            Instr::GlobalSet(g(1)),
            Instr::I64ExtendI32U,
            Instr::GlobalSet(g(2)),
            Instr::I64ExtendI32U,
            Instr::I64Const(32),
            Instr::I64Shl,
            Instr::GlobalGet(g(2)),
            Instr::I64Or,
            Instr::GlobalSet(g(2)),
        ]
    );
}

#[test]
fn load_from_local_gets_the_cells_in_reverse_order() {
    let mut b = ExprBuilder::new();
    encode_load_local(&[l(4), l(5)], VarType::Func, VarType::Func, &mut b);
    assert_eq!(b.code, vec![Instr::LocalGet(l(5)), Instr::LocalGet(l(4))]);
    let mut b = ExprBuilder::new();
    encode_load_global(&[g(4)], VarType::String, VarType::String, &mut b);
    assert_eq!(b.code, vec![Instr::GlobalGet(g(4))]);
}

#[test]
fn load_from_any_local_unpacks_the_data() {
    let mut b = ExprBuilder::new();
    encode_load_local(&[l(1), l(2)], VarType::Any, VarType::Boolean, &mut b);
    assert_eq!(b.code, vec![Instr::LocalGet(l(2)), Instr::I32WrapI64]);
    let mut b = ExprBuilder::new();
    encode_load_local(&[l(1), l(2)], VarType::Any, VarType::Func, &mut b);
    assert_eq!(
        b.code,
        vec![
            Instr::LocalGet(l(2)),
            Instr::I64Const(32),
            Instr::I64ShrU,
            Instr::I32WrapI64,
            Instr::LocalGet(l(2)),
            Instr::I32WrapI64,
        ]
    );
    let mut b = ExprBuilder::new();
    encode_load_global(&[g(1), g(2)], VarType::Any, VarType::Undefined, &mut b);
    assert!(b.code.is_empty());
}

#[test]
fn store_of_any_to_memory_uses_three_scratch_locals() {
    let mut scratch = Scratch::new(vec![ValType::F64, ValType::I32]);
    let mut b = ExprBuilder::new();
    encode_store_memory(16, VarType::Any, VarType::Any, &mut scratch, &mut b);
    // the scratch locals come after the two locals that the function had
    assert_eq!(
        b.code,
        vec![
            Instr::LocalSet(l(2)),
            Instr::LocalSet(l(3)),
            Instr::LocalTee(l(4)),
            Instr::LocalGet(l(2)),
            Instr::I32Store(at(16)),
            Instr::LocalGet(l(4)),
            Instr::LocalGet(l(3)),
            Instr::I64Store(at(20)),
        ]
    );
    for ty in [ValType::I32, ValType::I64, ValType::F32, ValType::F64] {
        assert_eq!(scratch.live_count(ty), 0);
    }
    assert_eq!(
        scratch.into_locals(),
        vec![ValType::F64, ValType::I32, ValType::I32, ValType::I64, ValType::I32]
    );
}

#[test]
fn function_lies_in_memory_as_closure_then_table_index() {
    let mut scratch = Scratch::new(vec![]);
    let mut b = ExprBuilder::new();
    encode_store_memory(8, VarType::Func, VarType::Func, &mut scratch, &mut b);
    assert_eq!(
        b.code,
        vec![
            Instr::LocalSet(l(0)),
            Instr::LocalSet(l(1)),
            Instr::LocalTee(l(2)),
            Instr::LocalGet(l(1)),
            Instr::I32Store(at(8)),
            Instr::LocalGet(l(2)),
            Instr::LocalGet(l(0)),
            Instr::I32Store(at(12)),
        ]
    );
    let mut b = ExprBuilder::new();
    encode_load_memory(8, VarType::Func, VarType::Func, &mut scratch, &mut b);
    assert_eq!(
        b.code,
        vec![
            Instr::LocalTee(l(0)),
            Instr::I32Load(at(8)),
            Instr::LocalGet(l(0)),
            Instr::I32Load(at(12)),
        ]
    );
}

#[test]
fn store_of_a_number_to_any_in_memory() {
    let mut scratch = Scratch::new(vec![]);
    let mut b = ExprBuilder::new();
    encode_store_memory(0, VarType::Any, VarType::Number, &mut scratch, &mut b);
    assert_eq!(
        b.code,
        vec![
            Instr::LocalSet(l(0)),
            Instr::LocalTee(l(1)),
            Instr::I32Const(2),
            Instr::I32Store(at(0)),
            Instr::LocalGet(l(1)),
            Instr::LocalGet(l(0)),
            Instr::F64Store(at(4)),
        ]
    );
    assert_eq!(scratch.into_locals(), vec![ValType::F64, ValType::I32]);
}

#[test]
fn load_from_any_in_memory_reads_the_data_only() {
    let mut scratch = Scratch::new(vec![]);
    let mut b = ExprBuilder::new();
    encode_load_memory(4, VarType::Any, VarType::Number, &mut scratch, &mut b);
    assert_eq!(b.code, vec![Instr::F64Load(at(8))]);
    let mut b = ExprBuilder::new();
    encode_load_memory(4, VarType::Any, VarType::String, &mut scratch, &mut b);
    assert_eq!(b.code, vec![Instr::I32Load(at(8))]);
    let mut b = ExprBuilder::new();
    encode_load_memory(4, VarType::Any, VarType::Any, &mut scratch, &mut b);
    assert_eq!(
        b.code,
        vec![
            Instr::LocalTee(l(0)),
            Instr::I64Load(at(8)),
            Instr::LocalGet(l(0)),
            Instr::I32Load(at(4)),
        ]
    );
}

#[test]
fn widening_leaves_the_tag_on_top() {
    let mut scratch = Scratch::new(vec![]);
    for source in all_types() {
        if source == VarType::Any {
            continue;
        }
        let mut b = ExprBuilder::new();
        encode_widening_operation(VarType::Any, source, &mut scratch, &mut b);
        assert_eq!(b.code.last(), Some(&Instr::I32Const(source.tag())));
    }
    let mut b = ExprBuilder::new();
    encode_widening_operation(VarType::Any, VarType::Undefined, &mut scratch, &mut b);
    assert_eq!(b.code, vec![Instr::I64Const(0), Instr::I32Const(1)]);
    let mut b = ExprBuilder::new();
    encode_widening_operation(VarType::Any, VarType::Func, &mut scratch, &mut b);
    assert_eq!(
        b.code,
        vec![
            Instr::LocalSet(l(0)),
            Instr::I64ExtendI32U,
            Instr::I64Const(32),
            Instr::I64Shl,
            Instr::LocalGet(l(0)),
            Instr::I64ExtendI32U,
            Instr::I64Or,
            Instr::I32Const(5),
        ]
    );
}

#[test]
fn widening_and_narrowing_to_the_same_type_emit_nothing() {
    let mut scratch = Scratch::new(vec![]);
    for t in all_types() {
        let mut b = ExprBuilder::new();
        encode_widening_operation(t, t, &mut scratch, &mut b);
        let mut called = false;
        encode_narrowing_operation(t, t, |_: &mut ExprBuilder| called = true, &mut scratch, &mut b);
        assert!(b.code.is_empty());
        assert!(!called);
    }
}

#[test]
fn narrowing_checks_the_tag_before_it_unpacks() {
    let mut scratch = Scratch::new(vec![]);
    let mut b = ExprBuilder::new();
    encode_narrowing_operation(
        VarType::Number,
        VarType::Any,
        |b: &mut ExprBuilder| b.unreachable(),
        &mut scratch,
        &mut b,
    );
    assert_eq!(
        b.code,
        vec![
            Instr::I32Const(2),
            Instr::I32Ne,
            Instr::If(None),
            Instr::Unreachable,
            Instr::End,
            Instr::F64ReinterpretI64,
        ]
    );
    let mut b = ExprBuilder::new();
    encode_narrowing_operation(VarType::Func, VarType::Any, |_: &mut ExprBuilder| {}, &mut scratch, &mut b);
    assert_eq!(
        b.code,
        vec![
            Instr::I32Const(5),
            Instr::I32Ne,
            Instr::If(None),
            Instr::End,
            Instr::LocalTee(l(0)),
            Instr::I64Const(32),
            Instr::I64ShrU,
            Instr::I32WrapI64,
            Instr::LocalGet(l(0)),
            Instr::I32WrapI64,
        ]
    );
    let mut b = ExprBuilder::new();
    encode_narrowing_operation(VarType::Undefined, VarType::Any, |_: &mut ExprBuilder| {}, &mut scratch, &mut b);
    assert_eq!(b.code, vec![Instr::I32Const(1), Instr::I32Ne, Instr::If(None), Instr::End, Instr::Drop]);
}

#[test]
fn unchecked_conversion_of_the_data_of_an_any() {
    let mut scratch = Scratch::new(vec![]);
    let mut b = ExprBuilder::new();
    encode_unchecked_local_conv_any_narrowing(l(9), &[l(1)], VarType::Number, &mut scratch, &mut b);
    assert_eq!(b.code, vec![Instr::LocalGet(l(9)), Instr::F64ReinterpretI64, Instr::LocalSet(l(1))]);
    let mut b = ExprBuilder::new();
    encode_unchecked_local_conv_any_narrowing(l(9), &[l(1), l(2)], VarType::Func, &mut scratch, &mut b);
    assert_eq!(
        b.code,
        vec![
            Instr::LocalGet(l(9)),
            Instr::I32WrapI64,
            Instr::LocalSet(l(1)),
            Instr::LocalGet(l(9)),
            Instr::I64Const(32),
            Instr::I64ShrU,
            Instr::I32WrapI64,
            Instr::LocalSet(l(2)),
        ]
    );
    let mut b = ExprBuilder::new();
    encode_unchecked_local_conv_any_narrowing(l(9), &[], VarType::Undefined, &mut scratch, &mut b);
    assert!(b.code.is_empty());
}

#[test]
fn emitters_append_to_the_code_that_is_there() {
    let mut b = ExprBuilder::new();
    b.i32_const(1);
    b.drop();
    encode_load_local(&[l(0)], VarType::Boolean, VarType::Boolean, &mut b);
    assert_eq!(b.code, vec![Instr::I32Const(1), Instr::Drop, Instr::LocalGet(l(0))]);
    assert_eq!(b.len(), 3);
    b.append(&vec![Instr::End, Instr::End]);
    assert_eq!(b.len(), 5);
}

#[test]
fn scratch_locals_come_back_in_reverse_order() {
    let mut scratch = Scratch::new(vec![ValType::I32]);
    let a = scratch.push_i32();
    let b = scratch.push_i64();
    let c = scratch.push_i32();
    assert_eq!((a, b, c), (l(1), l(2), l(3)));
    assert_eq!(scratch.live_count(ValType::I32), 2);
    scratch.pop_i32();
    // a local that was taken back is handed out again
    assert_eq!(scratch.push_i32(), l(3));
    scratch.pop_i32();
    scratch.pop_i64();
    scratch.pop_i32();
    assert_eq!(scratch.push(ValType::F32), l(4));
    assert_eq!(scratch.push_f64(), l(5));
    scratch.pop_f64();
    scratch.pop(ValType::F32);
    assert_eq!(
        scratch.into_locals(),
        vec![ValType::I32, ValType::I32, ValType::I64, ValType::I32, ValType::F32, ValType::F64]
    );
}

#[test]
fn unchecked_conversion_to_a_value_without_cells_emits_nothing() {
    let mut scratch = Scratch::new(vec![ValType::I64, ValType::I32]);
    let mut b = ExprBuilder::new();
    encode_unchecked_local_conv_any_narrowing(l(0), &[], VarType::Undefined, &mut scratch, &mut b);
    // the locals of the destination are not looked at
    encode_unchecked_local_conv_any_narrowing(l(0), &[l(1)], VarType::Undefined, &mut scratch, &mut b);
    assert!(b.code.is_empty());
}
