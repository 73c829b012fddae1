//! How a value of each static type lies in WebAssembly cells, and the code
//! that moves it between the operand stack and locals, globals or memory.
//!
//! On the operand stack a value lies with its first cell on top: an `Any` is
//! its data (`i64`) below its tag (`i32`), a function is its closure pointer
//! below its table index. In locals and globals the first cell holds the tag
//! or the table index. In memory an `Any` is its tag followed by its data; a
//! function is its closure pointer followed by its table index.
//!
//! Each emitter appends to the builder exactly the code that the matching
//! `*_code` function gives; the laws at the end of the file say what that
//! code does on the abstract machine.

use vstd::prelude::*;
use crate::vartype::{VarType, ValType};
use crate::wasm::instr::{ExprBuilder, GlobalIdx, Instr, LocalIdx, MemArg};
use crate::wasm::scratch::Scratch;

verus! {

/// A cell outside the operand stack and memory: a local or a global.
pub enum Slot {
    Local(LocalIdx),
    Global(GlobalIdx),
}

impl Slot {
    /// The instruction that moves the top of the stack into the cell.
    pub open spec fn set(self) -> Instr {
        match self {
            Slot::Local(x) => Instr::LocalSet(x),
            Slot::Global(x) => Instr::GlobalSet(x),
        }
    }

    /// The instruction that copies the cell onto the stack.
    pub open spec fn get(self) -> Instr {
        match self {
            Slot::Local(x) => Instr::LocalGet(x),
            Slot::Global(x) => Instr::GlobalGet(x),
        }
    }
}

/// The locals as cells.
pub open spec fn local_slots(idx: Seq<LocalIdx>) -> Seq<Slot> {
    Seq::new(idx.len(), |i: int| Slot::Local(idx[i]))
}

/// The globals as cells.
pub open spec fn global_slots(idx: Seq<GlobalIdx>) -> Seq<Slot> {
    Seq::new(idx.len(), |i: int| Slot::Global(idx[i]))
}

/// Whether a value of type `source` may be stored in a place of type `dest`:
/// the types are the same, or the place is an `Any` and the value has a tag.
/// Nothing is ever stored from or into `Unassigned`.
pub open spec fn legal_store(dest: VarType, source: VarType) -> bool {
    &&& source != VarType::Unassigned
    &&& dest == source || (dest == VarType::Any && source.has_tag())
}

/// Whether a place of type `held` may be loaded as a value of type
/// `outgoing`: the types are the same, or the place is an `Any`.
/// Nothing is ever loaded from or as `Unassigned`.
pub open spec fn legal_load(held: VarType, outgoing: VarType) -> bool {
    &&& outgoing != VarType::Unassigned
    &&& held == outgoing || held == VarType::Any
}

/// Whether a value of the type lies in a single `i32` cell.
pub open spec fn is_word(t: VarType) -> bool {
    t is Boolean || t is String || t is StructT
}

/// The code that stores a value of type `source` from the stack into the
/// cells of a place of type `dest`.
pub open spec fn store_slots_code(slots: Seq<Slot>, dest: VarType, source: VarType) -> Seq<Instr> {
    if dest == source {
        match dest {
            VarType::Any | VarType::Func => seq![slots[0].set(), slots[1].set()],
            VarType::Undefined | VarType::Unassigned => seq![],
            _ => seq![slots[0].set()],
        }
    } else {
        let tag = Instr::I32Const(source.spec_tag() as i32);
        match source {
            VarType::Undefined => seq![tag, slots[0].set()],
            VarType::Number => seq![tag, slots[0].set(), Instr::I64ReinterpretF64, slots[1].set()],
            VarType::Func => seq![
                tag,
                slots[0].set(),
                Instr::I64ExtendI32U,
                slots[1].set(),
                Instr::I64ExtendI32U,
                Instr::I64Const(32),
                Instr::I64Shl,
                slots[1].get(),
                Instr::I64Or,
                slots[1].set(),
            ],
            _ => seq![tag, slots[0].set(), Instr::I64ExtendI32U, slots[1].set()],
        }
    }
}

/// The code that loads a value of type `outgoing` onto the stack from the
/// cells of a place of type `held`. Nothing checks the tag of an `Any`.
pub open spec fn load_slots_code(slots: Seq<Slot>, held: VarType, outgoing: VarType) -> Seq<Instr> {
    if held == outgoing {
        match held {
            VarType::Any | VarType::Func => seq![slots[1].get(), slots[0].get()],
            VarType::Undefined | VarType::Unassigned => seq![],
            _ => seq![slots[0].get()],
        }
    } else {
        match outgoing {
            VarType::Undefined => seq![],
            VarType::Number => seq![slots[1].get(), Instr::F64ReinterpretI64],
            VarType::Func => seq![
                slots[1].get(),
                Instr::I64Const(32),
                Instr::I64ShrU,
                Instr::I32WrapI64,
                slots[1].get(),
                Instr::I32WrapI64,
            ],
            _ => seq![slots[1].get(), Instr::I32WrapI64],
        }
    }
}

/// Stores a value from the stack into the locals of a variable.
///
/// Net stack: `[<ir_source_vartype>] -> []`.
pub fn encode_store_local(
    wasm_localidx: &[LocalIdx],
    ir_dest_vartype: VarType,
    ir_source_vartype: VarType,
    expr_builder: &mut ExprBuilder,
)
    requires
        legal_store(ir_dest_vartype, ir_source_vartype),
        wasm_localidx@.len() == crate::vartype::vartype_cells(ir_dest_vartype).len(),
    ensures
        final(expr_builder)@ == old(expr_builder)@ + store_slots_code(
            local_slots(wasm_localidx@),
            ir_dest_vartype,
            ir_source_vartype,
        ),
{
    if ir_dest_vartype == ir_source_vartype {
        match ir_dest_vartype {
            VarType::Any | VarType::Func => {
                expr_builder.local_set(wasm_localidx[0]);
                expr_builder.local_set(wasm_localidx[1]);
            },
            VarType::Number | VarType::Boolean | VarType::String => {
                expr_builder.local_set(wasm_localidx[0]);
            },
            VarType::StructT { typeidx: _ } => {
                expr_builder.local_set(wasm_localidx[0]);
            },
            VarType::Undefined => {},
            VarType::Unassigned => {},
        }
    } else {
        // a value of a specific type goes into an `Any`
        match ir_source_vartype {
            VarType::Any => {},
            VarType::Undefined => {
                expr_builder.i32_const(ir_source_vartype.tag());
                expr_builder.local_set(wasm_localidx[0]);
            },
            VarType::Unassigned => {},
            VarType::Number => {
                expr_builder.i32_const(ir_source_vartype.tag());
                expr_builder.local_set(wasm_localidx[0]);
                expr_builder.i64_reinterpret_f64();
                expr_builder.local_set(wasm_localidx[1]);
            },
            VarType::Boolean | VarType::String => {
                expr_builder.i32_const(ir_source_vartype.tag());
                expr_builder.local_set(wasm_localidx[0]);
                expr_builder.i64_extend_i32_u();
                expr_builder.local_set(wasm_localidx[1]);
            },
            VarType::StructT { typeidx: _ } => {
                expr_builder.i32_const(ir_source_vartype.tag());
                expr_builder.local_set(wasm_localidx[0]);
                expr_builder.i64_extend_i32_u();
                expr_builder.local_set(wasm_localidx[1]);
            },
            VarType::Func => {
                expr_builder.i32_const(ir_source_vartype.tag());
                expr_builder.local_set(wasm_localidx[0]);
                // the two i32s of the stack become the halves of the i64 local
                expr_builder.i64_extend_i32_u();
                expr_builder.local_set(wasm_localidx[1]);
                expr_builder.i64_extend_i32_u();
                expr_builder.i64_const(32);
                expr_builder.i64_shl();
                expr_builder.local_get(wasm_localidx[1]);
                expr_builder.i64_or();
                expr_builder.local_set(wasm_localidx[1]);
            },
        }
    }
    assert(expr_builder@ =~= old(expr_builder)@ + store_slots_code(
        local_slots(wasm_localidx@),
        ir_dest_vartype,
        ir_source_vartype,
    ));
}

/// Stores a value from the stack into the globals of a variable.
///
/// Net stack: `[<ir_source_vartype>] -> []`.
pub fn encode_store_global(
    wasm_globalidx: &[GlobalIdx],
    ir_dest_vartype: VarType,
    ir_source_vartype: VarType,
    expr_builder: &mut ExprBuilder,
)
    requires
        legal_store(ir_dest_vartype, ir_source_vartype),
        wasm_globalidx@.len() == crate::vartype::vartype_cells(ir_dest_vartype).len(),
    ensures
        final(expr_builder)@ == old(expr_builder)@ + store_slots_code(
            global_slots(wasm_globalidx@),
            ir_dest_vartype,
            ir_source_vartype,
        ),
{
    if ir_dest_vartype == ir_source_vartype {
        match ir_dest_vartype {
            VarType::Any | VarType::Func => {
                expr_builder.global_set(wasm_globalidx[0]);
                expr_builder.global_set(wasm_globalidx[1]);
            },
            VarType::Number | VarType::Boolean | VarType::String => {
                expr_builder.global_set(wasm_globalidx[0]);
            },
            VarType::StructT { typeidx: _ } => {
                expr_builder.global_set(wasm_globalidx[0]);
            },
            VarType::Undefined => {},
            VarType::Unassigned => {},
        }
    } else {
        // a value of a specific type goes into an `Any`
        match ir_source_vartype {
            VarType::Any => {},
            VarType::Undefined => {
                expr_builder.i32_const(ir_source_vartype.tag());
                expr_builder.global_set(wasm_globalidx[0]);
            },
            VarType::Unassigned => {},
            VarType::Number => {
                expr_builder.i32_const(ir_source_vartype.tag());
                expr_builder.global_set(wasm_globalidx[0]);
                expr_builder.i64_reinterpret_f64();
                expr_builder.global_set(wasm_globalidx[1]);
            },
            VarType::Boolean | VarType::String => {
                expr_builder.i32_const(ir_source_vartype.tag());
                expr_builder.global_set(wasm_globalidx[0]);
                expr_builder.i64_extend_i32_u();
                expr_builder.global_set(wasm_globalidx[1]);
            },
            VarType::StructT { typeidx: _ } => {
                expr_builder.i32_const(ir_source_vartype.tag());
                expr_builder.global_set(wasm_globalidx[0]);
                expr_builder.i64_extend_i32_u();
                expr_builder.global_set(wasm_globalidx[1]);
            },
            VarType::Func => {
                expr_builder.i32_const(ir_source_vartype.tag());
                expr_builder.global_set(wasm_globalidx[0]);
                // the two i32s of the stack become the halves of the i64 global
                expr_builder.i64_extend_i32_u();
                expr_builder.global_set(wasm_globalidx[1]);
                expr_builder.i64_extend_i32_u();
                expr_builder.i64_const(32);
                expr_builder.i64_shl();
                expr_builder.global_get(wasm_globalidx[1]);
                expr_builder.i64_or();
                expr_builder.global_set(wasm_globalidx[1]);
            },
        }
    }
    assert(expr_builder@ =~= old(expr_builder)@ + store_slots_code(
        global_slots(wasm_globalidx@),
        ir_dest_vartype,
        ir_source_vartype,
    ));
}

/// Loads a value onto the stack from the locals of a variable.
///
/// Net stack: `[] -> [<ir_outgoing_vartype>]`.
pub fn encode_load_local(
    wasm_localidx: &[LocalIdx],
    ir_local_vartype: VarType,
    ir_outgoing_vartype: VarType,
    expr_builder: &mut ExprBuilder,
)
    requires
        legal_load(ir_local_vartype, ir_outgoing_vartype),
        wasm_localidx@.len() == crate::vartype::vartype_cells(ir_local_vartype).len(),
    ensures
        final(expr_builder)@ == old(expr_builder)@ + load_slots_code(
            local_slots(wasm_localidx@),
            ir_local_vartype,
            ir_outgoing_vartype,
        ),
{
    if ir_local_vartype == ir_outgoing_vartype {
        match ir_local_vartype {
            VarType::Any | VarType::Func => {
                expr_builder.local_get(wasm_localidx[1]);
                expr_builder.local_get(wasm_localidx[0]);
            },
            VarType::Number | VarType::Boolean | VarType::String => {
                expr_builder.local_get(wasm_localidx[0]);
            },
            VarType::StructT { typeidx: _ } => {
                expr_builder.local_get(wasm_localidx[0]);
            },
            VarType::Undefined => {},
            VarType::Unassigned => {},
        }
    } else {
        // an `Any` is read as a value of a specific type
        match ir_outgoing_vartype {
            VarType::Any => {},
            VarType::Undefined => {},
            VarType::Unassigned => {},
            VarType::Number => {
                expr_builder.local_get(wasm_localidx[1]);
                expr_builder.f64_reinterpret_i64();
            },
            VarType::Boolean | VarType::String => {
                expr_builder.local_get(wasm_localidx[1]);
                expr_builder.i32_wrap_i64();
            },
            VarType::StructT { typeidx: _ } => {
                expr_builder.local_get(wasm_localidx[1]);
                expr_builder.i32_wrap_i64();
            },
            VarType::Func => {
                // the high bits
                expr_builder.local_get(wasm_localidx[1]);
                expr_builder.i64_const(32);
                expr_builder.i64_shr_u();
                expr_builder.i32_wrap_i64();
                // the low bits
                expr_builder.local_get(wasm_localidx[1]);
                expr_builder.i32_wrap_i64();
            },
        }
    }
    assert(expr_builder@ =~= old(expr_builder)@ + load_slots_code(
        local_slots(wasm_localidx@),
        ir_local_vartype,
        ir_outgoing_vartype,
    ));
}

/// Loads a value onto the stack from the globals of a variable.
///
/// Net stack: `[] -> [<ir_outgoing_vartype>]`.
pub fn encode_load_global(
    wasm_globalidx: &[GlobalIdx],
    ir_global_vartype: VarType,
    ir_outgoing_vartype: VarType,
    expr_builder: &mut ExprBuilder,
)
    requires
        legal_load(ir_global_vartype, ir_outgoing_vartype),
        wasm_globalidx@.len() == crate::vartype::vartype_cells(ir_global_vartype).len(),
    ensures
        final(expr_builder)@ == old(expr_builder)@ + load_slots_code(
            global_slots(wasm_globalidx@),
            ir_global_vartype,
            ir_outgoing_vartype,
        ),
{
    if ir_global_vartype == ir_outgoing_vartype {
        match ir_global_vartype {
            VarType::Any | VarType::Func => {
                expr_builder.global_get(wasm_globalidx[1]);
                expr_builder.global_get(wasm_globalidx[0]);
            },
            VarType::Number | VarType::Boolean | VarType::String => {
                expr_builder.global_get(wasm_globalidx[0]);
            },
            VarType::StructT { typeidx: _ } => {
                expr_builder.global_get(wasm_globalidx[0]);
            },
            VarType::Undefined => {},
            VarType::Unassigned => {},
        }
    } else {
        // an `Any` is read as a value of a specific type
        match ir_outgoing_vartype {
            VarType::Any => {},
            VarType::Undefined => {},
            VarType::Unassigned => {},
            VarType::Number => {
                expr_builder.global_get(wasm_globalidx[1]);
                expr_builder.f64_reinterpret_i64();
            },
            VarType::Boolean | VarType::String => {
                expr_builder.global_get(wasm_globalidx[1]);
                expr_builder.i32_wrap_i64();
            },
            VarType::StructT { typeidx: _ } => {
                expr_builder.global_get(wasm_globalidx[1]);
                expr_builder.i32_wrap_i64();
            },
            VarType::Func => {
                // the high bits
                expr_builder.global_get(wasm_globalidx[1]);
                expr_builder.i64_const(32);
                expr_builder.i64_shr_u();
                expr_builder.i32_wrap_i64();
                // the low bits
                expr_builder.global_get(wasm_globalidx[1]);
                expr_builder.i32_wrap_i64();
            },
        }
    }
    assert(expr_builder@ =~= old(expr_builder)@ + load_slots_code(
        global_slots(wasm_globalidx@),
        ir_global_vartype,
        ir_outgoing_vartype,
    ));
}

/// Whether `temps` can be the locals that the pool handed out, in this
/// order and with these types, between the states `before` and `after`: each
/// is a declared local of its type, none was handed out before, and no two
/// are the same.
pub open spec fn fresh_temps(
    before: &Scratch,
    after: &Scratch,
    temps: Seq<LocalIdx>,
    types: Seq<ValType>,
) -> bool {
    &&& temps.len() == types.len()
    &&& forall|i: int|
        0 <= i < temps.len() ==> {
            &&& !before.is_live(#[trigger] temps[i])
            &&& before.base() <= temps[i].idx < after.pool().len()
            &&& after.pool()[temps[i].idx as int] == types[i]
        }
    &&& forall|i: int, j: int| 0 <= i < j < temps.len() ==> temps[i] != temps[j]
}

/// What an emitter leaves of the pool that it borrowed locals from: the same
/// locals are handed out as before, and the locals declared before are
/// declared still.
pub open spec fn scratch_restored(before: &Scratch, after: &Scratch) -> bool {
    &&& after.wf()
    &&& after.same_live(before)
    &&& after.base() == before.base()
    &&& before.pool().len() <= after.pool().len()
    &&& after.pool().take(before.pool().len() as int) == before.pool()
}

/// The types of the scratch locals that a store to memory borrows, in the
/// order in which it takes them.
pub open spec fn store_memory_temps(dest: VarType, source: VarType) -> Seq<ValType> {
    if dest == source {
        match dest {
            VarType::Any => seq![ValType::I32, ValType::I64, ValType::I32],
            VarType::Func => seq![ValType::I32, ValType::I32, ValType::I32],
            _ => seq![],
        }
    } else {
        match source {
            VarType::Undefined => seq![],
            VarType::Number => seq![ValType::F64, ValType::I32],
            VarType::Func => seq![ValType::I32, ValType::I32, ValType::I32],
            _ => seq![ValType::I32, ValType::I32],
        }
    }
}

/// The code that stores a value of type `source` from the stack into memory,
/// at the given offset from the address that lies below the value, in the
/// layout of type `dest`. `temps` are the scratch locals that it uses.
pub open spec fn store_memory_code(
    offset: u32,
    dest: VarType,
    source: VarType,
    temps: Seq<LocalIdx>,
) -> Seq<Instr> {
    let at0 = MemArg { align: 2, offset };
    let at4 = MemArg { align: 2, offset: (offset + 4) as u32 };
    let at8 = MemArg { align: 2, offset: (offset + 8) as u32 };
    if dest == source {
        match dest {
            VarType::Any => seq![
                Instr::LocalSet(temps[0]),
                Instr::LocalSet(temps[1]),
                Instr::LocalTee(temps[2]),
                Instr::LocalGet(temps[0]),
                Instr::I32Store(at0),
                Instr::LocalGet(temps[2]),
                Instr::LocalGet(temps[1]),
                Instr::I64Store(at4),
            ],
            VarType::Func => seq![
                Instr::LocalSet(temps[0]),
                Instr::LocalSet(temps[1]),
                Instr::LocalTee(temps[2]),
                Instr::LocalGet(temps[1]),
                Instr::I32Store(at0),
                Instr::LocalGet(temps[2]),
                Instr::LocalGet(temps[0]),
                Instr::I32Store(at4),
            ],
            VarType::Undefined | VarType::Unassigned => seq![],
            VarType::Number => seq![Instr::F64Store(at0)],
            _ => seq![Instr::I32Store(at0)],
        }
    } else {
        let tag = Instr::I32Const(source.spec_tag() as i32);
        match source {
            VarType::Undefined => seq![tag, Instr::I32Store(at0)],
            VarType::Number => seq![
                Instr::LocalSet(temps[0]),
                Instr::LocalTee(temps[1]),
                tag,
                Instr::I32Store(at0),
                Instr::LocalGet(temps[1]),
                Instr::LocalGet(temps[0]),
                Instr::F64Store(at4),
            ],
            VarType::Func => seq![
                Instr::LocalSet(temps[0]),
                Instr::LocalSet(temps[1]),
                Instr::LocalTee(temps[2]),
                tag,
                Instr::I32Store(at0),
                Instr::LocalGet(temps[2]),
                Instr::LocalGet(temps[0]),
                Instr::I32Store(at4),
                Instr::LocalGet(temps[2]),
                Instr::LocalGet(temps[1]),
                Instr::I32Store(at8),
            ],
            _ => seq![
                Instr::LocalSet(temps[0]),
                Instr::LocalTee(temps[1]),
                tag,
                Instr::I32Store(at0),
                Instr::LocalGet(temps[1]),
                Instr::LocalGet(temps[0]),
                Instr::I32Store(at4),
            ],
        }
    }
}

/// The types of the scratch locals that a load from memory borrows.
pub open spec fn load_memory_temps(held: VarType, outgoing: VarType) -> Seq<ValType> {
    if outgoing is Func || (held == outgoing && held is Any) {
        seq![ValType::I32]
    } else {
        seq![]
    }
}

/// The code that loads a value of type `outgoing` onto the stack from
/// memory, at the given offset from the address on top of the stack, where a
/// value lies in the layout of type `held`. Nothing checks the tag of an
/// `Any`. `temps` are the scratch locals that it uses.
pub open spec fn load_memory_code(
    offset: u32,
    held: VarType,
    outgoing: VarType,
    temps: Seq<LocalIdx>,
) -> Seq<Instr> {
    let at0 = MemArg { align: 2, offset };
    let at4 = MemArg { align: 2, offset: (offset + 4) as u32 };
    let at8 = MemArg { align: 2, offset: (offset + 8) as u32 };
    if held == outgoing {
        match held {
            VarType::Any => seq![
                Instr::LocalTee(temps[0]),
                Instr::I64Load(at4),
                Instr::LocalGet(temps[0]),
                Instr::I32Load(at0),
            ],
            VarType::Func => seq![
                Instr::LocalTee(temps[0]),
                Instr::I32Load(at0),
                Instr::LocalGet(temps[0]),
                Instr::I32Load(at4),
            ],
            VarType::Undefined | VarType::Unassigned => seq![],
            VarType::Number => seq![Instr::F64Load(at0)],
            _ => seq![Instr::I32Load(at0)],
        }
    } else {
        match outgoing {
            VarType::Undefined => seq![],
            VarType::Number => seq![Instr::F64Load(at4)],
            VarType::Func => seq![
                Instr::LocalTee(temps[0]),
                Instr::I32Load(at8),
                Instr::LocalGet(temps[0]),
                Instr::I32Load(at4),
            ],
            _ => seq![Instr::I32Load(at4)],
        }
    }
}

/// Stores a value from the stack into memory, at an offset from the address
/// that lies below it on the stack.
///
/// Net stack: `[struct_ptr, <ir_source_vartype>] -> []`; for `Undefined`
/// stored as `Undefined` no code is emitted and the address stays.
#[verifier::rlimit(60)]
pub fn encode_store_memory(
    wasm_struct_offset: u32,
    ir_dest_vartype: VarType,
    ir_source_vartype: VarType,
    scratch: &mut Scratch,
    expr_builder: &mut ExprBuilder,
)
    requires
        legal_store(ir_dest_vartype, ir_source_vartype),
        wasm_struct_offset + crate::vartype::spec_size_in_memory(ir_dest_vartype) <= u32::MAX,
        old(scratch).wf(),
    ensures
        scratch_restored(old(scratch), final(scratch)),
        exists|temps: Seq<LocalIdx>|
            {
                &&& fresh_temps(
                    old(scratch),
                    final(scratch),
                    temps,
                    store_memory_temps(ir_dest_vartype, ir_source_vartype),
                )
                &&& final(expr_builder)@ == old(expr_builder)@ + #[trigger] store_memory_code(
                    wasm_struct_offset,
                    ir_dest_vartype,
                    ir_source_vartype,
                    temps,
                )
            },
{
    let ghost mut temps: Seq<LocalIdx> = seq![];
    if ir_dest_vartype == ir_source_vartype {
        match ir_dest_vartype {
            VarType::Any => {
                let localidx_tag: LocalIdx = scratch.push_i32();
                let localidx_data: LocalIdx = scratch.push_i64();
                let localidx_ptr: LocalIdx = scratch.push_i32();
                expr_builder.local_set(localidx_tag);
                expr_builder.local_set(localidx_data);
                expr_builder.local_tee(localidx_ptr);
                expr_builder.local_get(localidx_tag);
                expr_builder.i32_store(MemArg::new4(wasm_struct_offset));
                expr_builder.local_get(localidx_ptr);
                expr_builder.local_get(localidx_data);
                expr_builder.i64_store(MemArg::new4(wasm_struct_offset + 4));
                scratch.pop_i32();
                scratch.pop_i64();
                scratch.pop_i32();
                proof {
                    temps = seq![localidx_tag, localidx_data, localidx_ptr];
                }
            },
            VarType::Unassigned => {},
            VarType::Undefined => {},
            VarType::Number => {
                expr_builder.f64_store(MemArg::new4(wasm_struct_offset));
            },
            VarType::Boolean => {
                expr_builder.i32_store(MemArg::new4(wasm_struct_offset));
            },
            VarType::String => {
                expr_builder.i32_store(MemArg::new4(wasm_struct_offset));
            },
            VarType::Func => {
                let localidx_tableidx: LocalIdx = scratch.push_i32();
                let localidx_closure: LocalIdx = scratch.push_i32();
                let localidx_ptr: LocalIdx = scratch.push_i32();
                expr_builder.local_set(localidx_tableidx);
                expr_builder.local_set(localidx_closure);
                expr_builder.local_tee(localidx_ptr);
                expr_builder.local_get(localidx_closure);
                expr_builder.i32_store(MemArg::new4(wasm_struct_offset));
                expr_builder.local_get(localidx_ptr);
                expr_builder.local_get(localidx_tableidx);
                expr_builder.i32_store(MemArg::new4(wasm_struct_offset + 4));
                scratch.pop_i32();
                scratch.pop_i32();
                scratch.pop_i32();
                proof {
                    temps = seq![localidx_tableidx, localidx_closure, localidx_ptr];
                }
            },
            VarType::StructT { typeidx: _ } => {
                expr_builder.i32_store(MemArg::new4(wasm_struct_offset));
            },
        }
    } else {
        // a value of a specific type goes into an `Any`
        match ir_source_vartype {
            VarType::Any => {},
            VarType::Unassigned => {},
            VarType::Undefined => {
                expr_builder.i32_const(ir_source_vartype.tag());
                expr_builder.i32_store(MemArg::new4(wasm_struct_offset));
            },
            VarType::Number => {
                let localidx_val: LocalIdx = scratch.push_f64();
                let localidx_ptr: LocalIdx = scratch.push_i32();
                expr_builder.local_set(localidx_val);
                expr_builder.local_tee(localidx_ptr);
                expr_builder.i32_const(ir_source_vartype.tag());
                expr_builder.i32_store(MemArg::new4(wasm_struct_offset));
                expr_builder.local_get(localidx_ptr);
                expr_builder.local_get(localidx_val);
                expr_builder.f64_store(MemArg::new4(wasm_struct_offset + 4));
                scratch.pop_i32();
                scratch.pop_f64();
                proof {
                    temps = seq![localidx_val, localidx_ptr];
                }
            },
            VarType::Boolean | VarType::String => {
                let localidx_val: LocalIdx = scratch.push_i32();
                let localidx_ptr: LocalIdx = scratch.push_i32();
                expr_builder.local_set(localidx_val);
                expr_builder.local_tee(localidx_ptr);
                expr_builder.i32_const(ir_source_vartype.tag());
                expr_builder.i32_store(MemArg::new4(wasm_struct_offset));
                expr_builder.local_get(localidx_ptr);
                expr_builder.local_get(localidx_val);
                // the high bytes of the data stay as they are
                expr_builder.i32_store(MemArg::new4(wasm_struct_offset + 4));
                scratch.pop_i32();
                scratch.pop_i32();
                proof {
                    temps = seq![localidx_val, localidx_ptr];
                }
            },
            VarType::StructT { typeidx: _ } => {
                let localidx_val: LocalIdx = scratch.push_i32();
                let localidx_ptr: LocalIdx = scratch.push_i32();
                expr_builder.local_set(localidx_val);
                expr_builder.local_tee(localidx_ptr);
                expr_builder.i32_const(ir_source_vartype.tag());
                expr_builder.i32_store(MemArg::new4(wasm_struct_offset));
                expr_builder.local_get(localidx_ptr);
                expr_builder.local_get(localidx_val);
                // the high bytes of the data stay as they are
                expr_builder.i32_store(MemArg::new4(wasm_struct_offset + 4));
                scratch.pop_i32();
                scratch.pop_i32();
                proof {
                    temps = seq![localidx_val, localidx_ptr];
                }
            },
            VarType::Func => {
                let localidx_tableidx: LocalIdx = scratch.push_i32();
                let localidx_closure: LocalIdx = scratch.push_i32();
                let localidx_ptr: LocalIdx = scratch.push_i32();
                expr_builder.local_set(localidx_tableidx);
                expr_builder.local_set(localidx_closure);
                expr_builder.local_tee(localidx_ptr);
                expr_builder.i32_const(ir_source_vartype.tag());
                expr_builder.i32_store(MemArg::new4(wasm_struct_offset));
                expr_builder.local_get(localidx_ptr);
                expr_builder.local_get(localidx_tableidx);
                expr_builder.i32_store(MemArg::new4(wasm_struct_offset + 4));
                expr_builder.local_get(localidx_ptr);
                expr_builder.local_get(localidx_closure);
                expr_builder.i32_store(MemArg::new4(wasm_struct_offset + 8));
                scratch.pop_i32();
                scratch.pop_i32();
                scratch.pop_i32();
                proof {
                    temps = seq![localidx_tableidx, localidx_closure, localidx_ptr];
                }
            },
        }
    }
    proof {
        assert forall|ty: ValType| #[trigger] scratch.live(ty) == old(scratch).live(ty) by {
            assert(scratch.live(ty) =~= old(scratch).live(ty));
        }
        assert(scratch.pool().take(old(scratch).pool().len() as int) =~= old(scratch).pool());
        assert(expr_builder@ =~= old(expr_builder)@ + store_memory_code(
            wasm_struct_offset,
            ir_dest_vartype,
            ir_source_vartype,
            temps,
        ));
        assert(fresh_temps(
            old(scratch),
            scratch,
            temps,
            store_memory_temps(ir_dest_vartype, ir_source_vartype),
        ));
    }
}

/// Loads a value onto the stack from memory, at an offset from the address
/// on top of the stack.
///
/// Net stack: `[struct_ptr] -> [<ir_outgoing_vartype>]`; for `Undefined` no
/// code is emitted and the address stays.
pub fn encode_load_memory(
    wasm_struct_offset: u32,
    ir_local_vartype: VarType,
    ir_outgoing_vartype: VarType,
    scratch: &mut Scratch,
    expr_builder: &mut ExprBuilder,
)
    requires
        legal_load(ir_local_vartype, ir_outgoing_vartype),
        wasm_struct_offset + crate::vartype::spec_size_in_memory(ir_local_vartype) <= u32::MAX,
        old(scratch).wf(),
    ensures
        scratch_restored(old(scratch), final(scratch)),
        exists|temps: Seq<LocalIdx>|
            {
                &&& fresh_temps(
                    old(scratch),
                    final(scratch),
                    temps,
                    load_memory_temps(ir_local_vartype, ir_outgoing_vartype),
                )
                &&& final(expr_builder)@ == old(expr_builder)@ + #[trigger] load_memory_code(
                    wasm_struct_offset,
                    ir_local_vartype,
                    ir_outgoing_vartype,
                    temps,
                )
            },
{
    let ghost mut temps: Seq<LocalIdx> = seq![];
    if ir_local_vartype == ir_outgoing_vartype {
        match ir_local_vartype {
            VarType::Any => {
                let localidx_ptr: LocalIdx = scratch.push_i32();
                expr_builder.local_tee(localidx_ptr);
                expr_builder.i64_load(MemArg::new4(wasm_struct_offset + 4));
                expr_builder.local_get(localidx_ptr);
                expr_builder.i32_load(MemArg::new4(wasm_struct_offset));
                scratch.pop_i32();
                proof {
                    temps = seq![localidx_ptr];
                }
            },
            VarType::Undefined => {},
            VarType::Unassigned => {},
            VarType::Number => {
                expr_builder.f64_load(MemArg::new4(wasm_struct_offset));
            },
            VarType::Boolean => {
                expr_builder.i32_load(MemArg::new4(wasm_struct_offset));
            },
            VarType::String => {
                expr_builder.i32_load(MemArg::new4(wasm_struct_offset));
            },
            VarType::Func => {
                let localidx_ptr: LocalIdx = scratch.push_i32();
                expr_builder.local_tee(localidx_ptr);
                expr_builder.i32_load(MemArg::new4(wasm_struct_offset));
                expr_builder.local_get(localidx_ptr);
                expr_builder.i32_load(MemArg::new4(wasm_struct_offset + 4));
                scratch.pop_i32();
                proof {
                    temps = seq![localidx_ptr];
                }
            },
            VarType::StructT { typeidx: _ } => {
                expr_builder.i32_load(MemArg::new4(wasm_struct_offset));
            },
        }
    } else {
        // an `Any` is read as a value of a specific type
        match ir_outgoing_vartype {
            VarType::Any => {},
            VarType::Unassigned => {},
            VarType::Undefined => {},
            VarType::Number => {
                expr_builder.f64_load(MemArg::new4(wasm_struct_offset + 4));
            },
            VarType::Boolean | VarType::String => {
                // the high bytes of the data are not read
                expr_builder.i32_load(MemArg::new4(wasm_struct_offset + 4));
            },
            VarType::StructT { typeidx: _ } => {
                // the high bytes of the data are not read
                expr_builder.i32_load(MemArg::new4(wasm_struct_offset + 4));
            },
            VarType::Func => {
                let localidx_ptr: LocalIdx = scratch.push_i32();
                expr_builder.local_tee(localidx_ptr);
                expr_builder.i32_load(MemArg::new4(wasm_struct_offset + 8));
                expr_builder.local_get(localidx_ptr);
                expr_builder.i32_load(MemArg::new4(wasm_struct_offset + 4));
                scratch.pop_i32();
                proof {
                    temps = seq![localidx_ptr];
                }
            },
        }
    }
    proof {
        assert forall|ty: ValType| #[trigger] scratch.live(ty) == old(scratch).live(ty) by {
            assert(scratch.live(ty) =~= old(scratch).live(ty));
        }
        assert(scratch.pool().take(old(scratch).pool().len() as int) =~= old(scratch).pool());
        assert(expr_builder@ =~= old(expr_builder)@ + load_memory_code(
            wasm_struct_offset,
            ir_local_vartype,
            ir_outgoing_vartype,
            temps,
        ));
        assert(fresh_temps(
            old(scratch),
            scratch,
            temps,
            load_memory_temps(ir_local_vartype, ir_outgoing_vartype),
        ));
    }
}

/// Whether a value of type `source` can be widened to type `target`: the
/// types are the same, or the target is `Any` and the source has a tag.
pub open spec fn legal_widening(target: VarType, source: VarType) -> bool {
    target == source || (target == VarType::Any && source.has_tag() && source
        != VarType::Unassigned)
}

/// Whether a value of type `source` can be narrowed to type `target`: the
/// types are the same, or the source is `Any` and the target has a tag.
pub open spec fn legal_narrowing(target: VarType, source: VarType) -> bool {
    target == source || (source == VarType::Any && target.has_tag() && target
        != VarType::Unassigned)
}

/// The types of the scratch locals that a widening borrows.
pub open spec fn widening_temps(target: VarType, source: VarType) -> Seq<ValType> {
    if target != source && source is Func {
        seq![ValType::I32]
    } else {
        seq![]
    }
}

/// The code that turns the value of type `source` on the stack into the same
/// value as type `target`. `temps` are the scratch locals that it uses.
pub open spec fn widening_code(target: VarType, source: VarType, temps: Seq<LocalIdx>) -> Seq<
    Instr,
> {
    if target == source {
        seq![]
    } else {
        let tag = Instr::I32Const(source.spec_tag() as i32);
        match source {
            VarType::Undefined => seq![Instr::I64Const(0), tag],
            VarType::Number => seq![Instr::I64ReinterpretF64, tag],
            VarType::Func => seq![
                Instr::LocalSet(temps[0]),
                Instr::I64ExtendI32U,
                Instr::I64Const(32),
                Instr::I64Shl,
                Instr::LocalGet(temps[0]),
                Instr::I64ExtendI32U,
                Instr::I64Or,
                tag,
            ],
            _ => seq![Instr::I64ExtendI32U, tag],
        }
    }
}

/// The types of the scratch locals that a narrowing borrows.
pub open spec fn narrowing_temps(target: VarType, source: VarType) -> Seq<ValType> {
    if target != source && target is Func {
        seq![ValType::I64]
    } else {
        seq![]
    }
}

/// The code that compares the tag on top of the stack with the tag of
/// `target` and opens the block that is entered where they differ.
pub open spec fn narrowing_check_code(target: VarType) -> Seq<Instr> {
    seq![Instr::I32Const(target.spec_tag() as i32), Instr::I32Ne, Instr::If(None)]
}

/// The code that turns the data of an `Any`, on top of the stack, into a
/// value of type `target`. `temps` are the scratch locals that it uses.
pub open spec fn narrowing_data_code(target: VarType, temps: Seq<LocalIdx>) -> Seq<Instr> {
    match target {
        VarType::Undefined => seq![Instr::Drop],
        VarType::Number => seq![Instr::F64ReinterpretI64],
        VarType::Func => seq![
            Instr::LocalTee(temps[0]),
            Instr::I64Const(32),
            Instr::I64ShrU,
            Instr::I32WrapI64,
            Instr::LocalGet(temps[0]),
            Instr::I32WrapI64,
        ],
        _ => seq![Instr::I32WrapI64],
    }
}

/// The code that turns the value of type `source` on the stack into a value
/// of type `target`, with `failure` as the code that runs where an `Any`
/// holds a value of another type.
pub open spec fn narrowing_code(
    target: VarType,
    source: VarType,
    failure: Seq<Instr>,
    temps: Seq<LocalIdx>,
) -> Seq<Instr> {
    if target == source {
        seq![]
    } else {
        narrowing_check_code(target) + failure + seq![Instr::End] + narrowing_data_code(
            target,
            temps,
        )
    }
}

/// The code that turns the data of an `Any`, held in the local `source`,
/// into a value of type `dest` in the locals `dest_locals`, without a look
/// at the tag.
pub open spec fn unchecked_local_conv_code(
    source: LocalIdx,
    dest_locals: Seq<LocalIdx>,
    dest: VarType,
) -> Seq<Instr> {
    match dest {
        VarType::Any | VarType::Unassigned | VarType::Undefined => seq![],
        VarType::Number => seq![
            Instr::LocalGet(source),
            Instr::F64ReinterpretI64,
            Instr::LocalSet(dest_locals[0]),
        ],
        VarType::Func => seq![
            Instr::LocalGet(source),
            Instr::I32WrapI64,
            Instr::LocalSet(dest_locals[0]),
            Instr::LocalGet(source),
            Instr::I64Const(32),
            Instr::I64ShrU,
            Instr::I32WrapI64,
            Instr::LocalSet(dest_locals[1]),
        ],
        _ => seq![Instr::LocalGet(source), Instr::I32WrapI64, Instr::LocalSet(dest_locals[0])],
    }
}

/// Turns the value on the stack into the same value of a wider type.
///
/// Net stack: `[<source_type>] -> [<target_type>]`.
pub fn encode_widening_operation(
    target_type: VarType,
    source_type: VarType,
    scratch: &mut Scratch,
    expr_builder: &mut ExprBuilder,
)
    requires
        legal_widening(target_type, source_type),
        old(scratch).wf(),
    ensures
        scratch_restored(old(scratch), final(scratch)),
        exists|temps: Seq<LocalIdx>|
            {
                &&& fresh_temps(
                    old(scratch),
                    final(scratch),
                    temps,
                    widening_temps(target_type, source_type),
                )
                &&& final(expr_builder)@ == old(expr_builder)@ + #[trigger] widening_code(
                    target_type,
                    source_type,
                    temps,
                )
            },
{
    let ghost mut temps: Seq<LocalIdx> = seq![];
    if target_type == source_type {
        // nothing to do: the value has the target type already
    } else {
        // a value of a specific type becomes an `Any`
        match source_type {
            VarType::Any => {},
            VarType::Undefined => {
                expr_builder.i64_const(0);  // the data is not used
                expr_builder.i32_const(source_type.tag());
            },
            VarType::Unassigned => {},
            VarType::Number => {
                expr_builder.i64_reinterpret_f64();
                expr_builder.i32_const(source_type.tag());
            },
            VarType::Boolean | VarType::String => {
                expr_builder.i64_extend_i32_u();
                expr_builder.i32_const(source_type.tag());
            },
            VarType::StructT { typeidx: _ } => {
                expr_builder.i64_extend_i32_u();
                expr_builder.i32_const(source_type.tag());
            },
            VarType::Func => {
                let localidx_tableidx: LocalIdx = scratch.push_i32();
                expr_builder.local_set(localidx_tableidx);
                expr_builder.i64_extend_i32_u();  // the closure pointer
                expr_builder.i64_const(32);
                expr_builder.i64_shl();
                expr_builder.local_get(localidx_tableidx);
                expr_builder.i64_extend_i32_u();  // the table index
                expr_builder.i64_or();
                expr_builder.i32_const(source_type.tag());
                scratch.pop_i32();
                proof {
                    temps = seq![localidx_tableidx];
                }
            },
        }
    }
    proof {
        assert forall|ty: ValType| #[trigger] scratch.live(ty) == old(scratch).live(ty) by {
            assert(scratch.live(ty) =~= old(scratch).live(ty));
        }
        assert(scratch.pool().take(old(scratch).pool().len() as int) =~= old(scratch).pool());
        assert(expr_builder@ =~= old(expr_builder)@ + widening_code(
            target_type,
            source_type,
            temps,
        ));
        assert(fresh_temps(old(scratch), scratch, temps, widening_temps(target_type, source_type)));
    }
}

/// Turns the value on the stack into the same value of a narrower type.
///
/// Where an `Any` is narrowed, the code first compares its tag with the tag
/// of the target; `failure_encoder` is called once, to emit the code that
/// runs where they differ. Where the two types are the same nothing is
/// emitted and `failure_encoder` is not called.
///
/// Net stack: `[<source_type>] -> [<target_type>]`.
pub fn encode_narrowing_operation<F: FnOnce(&mut ExprBuilder)>(
    target_type: VarType,
    source_type: VarType,
    failure_encoder: F,
    scratch: &mut Scratch,
    expr_builder: &mut ExprBuilder,
)
    requires
        legal_narrowing(target_type, source_type),
        old(scratch).wf(),
        target_type != source_type ==> forall|b: &mut ExprBuilder|
            mut_ref_current(b)@ == old(expr_builder)@ + narrowing_check_code(target_type)
                ==> #[trigger] call_requires(failure_encoder, (b,)),
        forall|b: &mut ExprBuilder|
            #[trigger] call_ensures(failure_encoder, (b,), ()) ==> mut_ref_current(b)@.is_prefix_of(
                mut_ref_future(b)@,
            ),
    ensures
        scratch_restored(old(scratch), final(scratch)),
        exists|failure: Seq<Instr>, temps: Seq<LocalIdx>|
            {
                &&& fresh_temps(
                    old(scratch),
                    final(scratch),
                    temps,
                    narrowing_temps(target_type, source_type),
                )
                &&& final(expr_builder)@ == old(expr_builder)@ + #[trigger] narrowing_code(
                    target_type,
                    source_type,
                    failure,
                    temps,
                )
                &&& target_type == source_type ==> failure.len() == 0
                &&& target_type != source_type ==> exists|b: &mut ExprBuilder|
                    {
                        &&& #[trigger] call_ensures(failure_encoder, (b,), ())
                        &&& mut_ref_current(b)@ == old(expr_builder)@ + narrowing_check_code(
                            target_type,
                        )
                        &&& mut_ref_future(b)@ == mut_ref_current(b)@ + failure
                    }
            },
{
    let ghost mut temps: Seq<LocalIdx> = seq![];
    let ghost mut failure: Seq<Instr> = seq![];
    if target_type == source_type {
        // nothing to do: the value has the target type already
    } else {
        // an `Any` becomes a value of a specific type; first the check
        // net stack: [i64(data), i32(tag)] -> [i64(data)]
        expr_builder.i32_const(target_type.tag());
        expr_builder.i32_ne();
        expr_builder.if_(None);
        let ghost checked = expr_builder@;
        assert(checked =~= old(expr_builder)@ + narrowing_check_code(target_type));
        failure_encoder(expr_builder);
        proof {
            failure = expr_builder@.skip(checked.len() as int);
            assert(expr_builder@ =~= checked + failure);
        }
        expr_builder.end();

        // now the data is known to hold a value of the target type
        // net stack: [i64(data)] -> [<target_type>]
        match target_type {
            VarType::Any => {},
            VarType::Undefined => {
                expr_builder.drop();  // the data is not used
            },
            VarType::Unassigned => {},
            VarType::Number => {
                expr_builder.f64_reinterpret_i64();
            },
            VarType::Boolean | VarType::String | VarType::StructT { typeidx: _ } => {
                expr_builder.i32_wrap_i64();
            },
            VarType::Func => {
                let localidx_data: LocalIdx = scratch.push_i64();
                expr_builder.local_tee(localidx_data);
                expr_builder.i64_const(32);
                expr_builder.i64_shr_u();
                expr_builder.i32_wrap_i64();
                expr_builder.local_get(localidx_data);
                expr_builder.i32_wrap_i64();
                scratch.pop_i64();
                proof {
                    temps = seq![localidx_data];
                }
            },
        }
    }
    proof {
        assert forall|ty: ValType| #[trigger] scratch.live(ty) == old(scratch).live(ty) by {
            assert(scratch.live(ty) =~= old(scratch).live(ty));
        }
        assert(scratch.pool().take(old(scratch).pool().len() as int) =~= old(scratch).pool());
        assert(expr_builder@ =~= old(expr_builder)@ + narrowing_code(
            target_type,
            source_type,
            failure,
            temps,
        ));
        assert(fresh_temps(
            old(scratch),
            scratch,
            temps,
            narrowing_temps(target_type, source_type),
        ));
    }
}

/// Turns the data of an `Any`, held in an `i64` local, into a value of a
/// specific type in the locals of a variable, without a look at the tag.
///
/// Net stack: `[] -> []`.
pub fn encode_unchecked_local_conv_any_narrowing(
    wasm_source_localidx: LocalIdx,
    wasm_dest_localidx: &[LocalIdx],
    ir_dest_vartype: VarType,
    _scratch: &mut Scratch,
    expr_builder: &mut ExprBuilder,
)
    requires
        ir_dest_vartype != VarType::Any,
        ir_dest_vartype != VarType::Unassigned,
        ir_dest_vartype != VarType::Undefined ==> wasm_dest_localidx@.len()
            == crate::vartype::vartype_cells(ir_dest_vartype).len(),
    ensures
        *final(_scratch) == *old(_scratch),
        final(expr_builder)@ == old(expr_builder)@ + unchecked_local_conv_code(
            wasm_source_localidx,
            wasm_dest_localidx@,
            ir_dest_vartype,
        ),
{
    match ir_dest_vartype {
        VarType::Any => {},
        VarType::Undefined => {},
        VarType::Unassigned => {},
        VarType::Number => {
            expr_builder.local_get(wasm_source_localidx);
            expr_builder.f64_reinterpret_i64();
            expr_builder.local_set(wasm_dest_localidx[0]);
        },
        VarType::Boolean | VarType::String | VarType::StructT { typeidx: _ } => {
            expr_builder.local_get(wasm_source_localidx);
            expr_builder.i32_wrap_i64();
            expr_builder.local_set(wasm_dest_localidx[0]);
        },
        VarType::Func => {
            expr_builder.local_get(wasm_source_localidx);
            expr_builder.i32_wrap_i64();
            expr_builder.local_set(wasm_dest_localidx[0]);  // the table index
            expr_builder.local_get(wasm_source_localidx);
            expr_builder.i64_const(32);
            expr_builder.i64_shr_u();
            expr_builder.i32_wrap_i64();
            expr_builder.local_set(wasm_dest_localidx[1]);  // the closure pointer
        },
    }
    assert(expr_builder@ =~= old(expr_builder)@ + unchecked_local_conv_code(
        wasm_source_localidx,
        wasm_dest_localidx@,
        ir_dest_vartype,
    ));
}

} // verus!
