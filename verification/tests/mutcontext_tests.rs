use sourceror::mutcontext::{HeapManager, MutContext};
use sourceror::vartype::{ValType, VarType};
use sourceror::wasm::instr::{ExprBuilder, Instr, LocalIdx};
use sourceror::wasm::scratch::Scratch;

fn l(idx: usize) -> LocalIdx {
    LocalIdx { idx }
}

/// A heap manager that marks what it was asked for with constants.
struct Marker;

impl HeapManager for Marker {
    fn encode_local_roots_init(
        &self,
        local_types: &[VarType],
        local_map: &[usize],
        _wasm_local_map: &[LocalIdx],
        _scratch: &mut Scratch,
        expr_builder: &mut ExprBuilder,
    ) {
        expr_builder.i32_const(100 + local_types.len() as i32);
        expr_builder.i32_const(local_map[0] as i32);
    }

    fn encode_local_roots_prologue(
        &self,
        local_types: &[VarType],
        _local_map: &[usize],
        _wasm_local_map: &[LocalIdx],
        _scratch: &mut Scratch,
        expr_builder: &mut ExprBuilder,
    ) {
        expr_builder.i32_const(200 + local_types.len() as i32);
    }

    fn encode_local_roots_epilogue(
        &self,
        local_types: &[VarType],
        _local_map: &[usize],
        _wasm_local_map: &[LocalIdx],
        _scratch: &mut Scratch,
        expr_builder: &mut ExprBuilder,
    ) {
        expr_builder.i32_const(300 + local_types.len() as i32);
    }

    fn encode_fixed_allocation(
        &self,
        vartype: VarType,
        _local_types: &[VarType],
        _local_map: &[usize],
        _wasm_local_map: &[LocalIdx],
        scratch: &mut Scratch,
        expr_builder: &mut ExprBuilder,
    ) {
        let tmp = scratch.push_i32();
        expr_builder.i32_const(vartype.tag());
        expr_builder.local_set(tmp);
        scratch.pop_i32();
    }

    fn encode_dynamic_allocation(
        &self,
        _vartype: VarType,
        _local_types: &[VarType],
        _local_map: &[usize],
        _wasm_local_map: &[LocalIdx],
        _scratch: &mut Scratch,
        expr_builder: &mut ExprBuilder,
        temp_array_length: usize,
    ) {
        expr_builder.i32_const(temp_array_length as i32);
    }
}

/// The context of a function with a number (local 0) and an any (locals 1
/// and 2).
fn context() -> MutContext<&'static str> {
    let scratch = Scratch::new(vec![ValType::F64, ValType::I32, ValType::I64]);
    MutContext::new(scratch, &[l(0), l(1), l(2)], &[0, 1], &[VarType::Number, VarType::Any], "module")
}

fn shape(ctx: &MutContext<&'static str>) -> (usize, usize, usize, usize, [usize; 4]) {
    (
        ctx.local_map.len(),
        ctx.local_types.len(),
        ctx.wasm_local_map.len(),
        ctx.named_local_map.len(),
        [
            ctx.scratch.live_count(ValType::I32),
            ctx.scratch.live_count(ValType::I64),
            ctx.scratch.live_count(ValType::F32),
            ctx.scratch.live_count(ValType::F64),
        ],
    )
}

#[test]
fn new_context_names_all_its_locals() {
    let mut ctx = context();
    assert_eq!(ctx.named_local_map, vec![0, 1]);
    assert_eq!(ctx.named_local_types_elem(1), VarType::Any);
    assert_eq!(ctx.wasm_local_slice(0), &[l(0)]);
    assert_eq!(ctx.wasm_local_slice(1), &[l(1), l(2)]);
    assert_eq!(ctx.named_wasm_local_slice(1), &[l(1), l(2)]);
    assert_eq!(ctx.temp_array_length(), 0);
    assert_eq!(*ctx.module_wrapper(), "module");
    let (group, scratch) = ctx.named_wasm_local_slice_and_scratch(0);
    assert_eq!(group, &[l(0)]);
    assert_eq!(scratch.live_count(ValType::I32), 0);
}

#[test]
fn shadow_local_lives_for_the_time_of_the_callback() {
    let mut ctx = context();
    let before = shape(&ctx);
    let seen = ctx.with_uninitialized_shadow_local(VarType::Func, |ctx: &mut MutContext<&'static str>, idx: usize| {
        assert_eq!(idx, 2);
        assert_eq!(ctx.local_types[2], VarType::Func);
        assert_eq!(ctx.local_map[2], 3);
        // a shadow local has no name
        assert_eq!(ctx.named_local_map.len(), 2);
        ctx.wasm_local_slice(idx).to_vec()
    });
    assert_eq!(seen, vec![l(3), l(4)]);
    assert_eq!(shape(&ctx), before);
}

#[test]
fn named_local_gets_the_next_name() {
    let mut ctx = context();
    let before = shape(&ctx);
    ctx.with_uninitialized_named_local(VarType::Boolean, |ctx: &mut MutContext<&'static str>, named: usize| {
        assert_eq!(named, 2);
        assert_eq!(ctx.named_local_map, vec![0, 1, 2]);
        assert_eq!(ctx.named_local_types_elem(named), VarType::Boolean);
        assert_eq!(ctx.named_wasm_local_slice(named), &[l(3)]);
    });
    assert_eq!(shape(&ctx), before);
}

#[test]
fn nested_locals_are_taken_off_in_reverse_order() {
    let mut ctx = context();
    let before = shape(&ctx);
    ctx.with_uninitialized_shadow_local(VarType::Any, |ctx: &mut MutContext<&'static str>, outer: usize| {
        let inside = shape(ctx);
        ctx.with_uninitialized_named_local(VarType::String, |ctx: &mut MutContext<&'static str>, named: usize| {
            assert_eq!(ctx.named_local_map[named], outer + 1);
            assert_eq!(ctx.wasm_local_slice(outer), &[l(3), l(4)]);
            assert_eq!(ctx.wasm_local_slice(outer + 1), &[l(5)]);
        });
        assert_eq!(shape(ctx), inside);
    });
    assert_eq!(shape(&ctx), before);
}

#[test]
fn initialised_local_has_its_roots_set_up_first() {
    let mut ctx = context();
    let before = shape(&ctx);
    let mut b = ExprBuilder::new();
    ctx.with_shadow_local(
        VarType::String,
        &Marker,
        &mut b,
        |_ctx: &mut MutContext<&'static str>, b: &mut ExprBuilder, idx: usize| {
            b.i32_const(idx as i32);
        },
    );
    // the heap manager saw one local, whose group starts at 3
    assert_eq!(b.code, vec![Instr::I32Const(101), Instr::I32Const(3), Instr::I32Const(2)]);
    assert_eq!(shape(&ctx), before);
    let mut b = ExprBuilder::new();
    ctx.with_named_local(
        VarType::String,
        &Marker,
        &mut b,
        |_ctx: &mut MutContext<&'static str>, b: &mut ExprBuilder, named: usize| {
            b.i32_const(named as i32);
        },
    );
    assert_eq!(b.code, vec![Instr::I32Const(101), Instr::I32Const(3), Instr::I32Const(2)]);
    assert_eq!(shape(&ctx), before);
}

#[test]
fn several_locals_at_once() {
    let mut ctx = context();
    let before = shape(&ctx);
    let types = [VarType::Number, VarType::Undefined, VarType::Func];
    ctx.with_uninitialized_shadow_locals(&types, |ctx: &mut MutContext<&'static str>, first: usize| {
        assert_eq!(first, 2);
        assert_eq!(ctx.local_types.len(), 5);
        assert_eq!(ctx.wasm_local_slice(2), &[l(3)]);
        assert_eq!(ctx.wasm_local_slice(3), &[]);
        assert_eq!(ctx.wasm_local_slice(4), &[l(4), l(5)]);
    });
    assert_eq!(shape(&ctx), before);
    let mut b = ExprBuilder::new();
    ctx.with_shadow_locals(
        &types,
        &Marker,
        &mut b,
        |_ctx: &mut MutContext<&'static str>, _b: &mut ExprBuilder, _first: usize| {},
    );
    assert_eq!(b.code, vec![Instr::I32Const(103), Instr::I32Const(3)]);
    assert_eq!(shape(&ctx), before);
}

#[test]
fn raw_pair_adds_and_removes_a_local() {
    let mut ctx = context();
    let before = shape(&ctx);
    let idx = ctx.add_uninitialized_shadow_local(VarType::Any);
    assert_eq!(idx, 2);
    assert_eq!(ctx.wasm_local_slice(idx), &[l(3), l(4)]);
    ctx.remove_shadow_local(VarType::Any);
    assert_eq!(shape(&ctx), before);
}

#[test]
fn scratch_locals_are_lent_for_the_time_of_the_callback() {
    let mut ctx = context();
    let before = shape(&ctx);
    let a = ctx.with_scratch_i32(|ctx: &mut MutContext<&'static str>, a: LocalIdx| {
        let b = ctx.with_scratch_i32(|_: &mut MutContext<&'static str>, b: LocalIdx| b);
        assert!(a != b);
        let c = ctx.with_scratch_i64(|_: &mut MutContext<&'static str>, c: LocalIdx| c);
        let d = ctx.with_scratch_f32(|_: &mut MutContext<&'static str>, d: LocalIdx| d);
        let e = ctx.with_scratch_f64(|_: &mut MutContext<&'static str>, e: LocalIdx| e);
        assert_eq!((b, c, d, e), (l(4), l(5), l(6), l(7)));
        a
    });
    assert_eq!(a, l(3));
    assert_eq!(shape(&ctx), before);
    let lent = ctx.with_scratches(
        &[ValType::I32, ValType::F64, ValType::I32],
        |_: &mut MutContext<&'static str>, idxs: &[LocalIdx]| idxs.to_vec(),
    );
    assert_eq!(lent, vec![l(3), l(7), l(4)]);
    assert_eq!(shape(&ctx), before);
    assert_eq!(ctx.with_scratch(ValType::I64, |_: &mut MutContext<&'static str>, x: LocalIdx| x), l(5));
    assert_eq!(ctx.scratch_mut().live_count(ValType::I64), 0);
}

#[test]
fn landings_are_counted_from_the_innermost() {
    let mut ctx = context();
    ctx.with_landing(VarType::Number, &[l(0)], |ctx: &mut MutContext<&'static str>| {
        assert_eq!(ctx.get_wasm_landing(0), (0, VarType::Number, vec![l(0)]));
        ctx.with_unused_landing(|ctx: &mut MutContext<&'static str>| {
            // a target that cannot be branched to lies in between
            assert_eq!(ctx.get_wasm_landing(0), (1, VarType::Number, vec![l(0)]));
            ctx.with_landing(VarType::Any, &[], |ctx: &mut MutContext<&'static str>| {
                assert_eq!(ctx.get_wasm_landing(0), (0, VarType::Any, vec![]));
                assert_eq!(ctx.get_wasm_landing(1), (2, VarType::Number, vec![l(0)]));
                assert_eq!(ctx.wasm_landing_count, 3);
                assert_eq!(ctx.ir_landings.len(), 2);
            });
            assert_eq!(ctx.wasm_landing_count, 2);
            assert_eq!(ctx.ir_landings.len(), 1);
        });
    });
    assert_eq!(ctx.wasm_landing_count, 0);
    assert!(ctx.ir_landings.is_empty());
}

#[test]
fn allocation_passes_the_layout_to_the_heap_manager() {
    let mut ctx = context();
    let before = shape(&ctx);
    let mut b = ExprBuilder::new();
    ctx.heap_encode_fixed_allocation(&Marker, VarType::String, &mut b);
    assert_eq!(b.code, vec![Instr::I32Const(4), Instr::LocalSet(l(3))]);
    ctx.set_temp_array_length(12);
    assert_eq!(ctx.temp_array_length(), 12);
    let mut b = ExprBuilder::new();
    ctx.heap_encode_dynamic_allocation(&Marker, VarType::Any, &mut b);
    assert_eq!(b.code, vec![Instr::I32Const(12)]);
    ctx.reset_temp_array_length();
    assert_eq!(ctx.temp_array_length(), 0);
    let mut b = ExprBuilder::new();
    ctx.heap_encode_prologue_epilogue(&Marker, &mut b, |_: &mut MutContext<&'static str>, b: &mut ExprBuilder| {
        b.drop();
    });
    assert_eq!(b.code, vec![Instr::I32Const(202), Instr::Drop, Instr::I32Const(302)]);
    assert_eq!(shape(&ctx), before);
}
