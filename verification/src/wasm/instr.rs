//! Instructions and the builder that collects them in emission order.

use vstd::prelude::*;
use crate::vartype::ValType;

verus! {

/// The index of a local of the function under construction.
#[derive(Clone, Copy, Debug, PartialEq, Eq, Structural)]
pub struct LocalIdx {
    pub idx: usize,
}

/// The index of a global of the module under construction.
#[derive(Clone, Copy, Debug, PartialEq, Eq, Structural)]
pub struct GlobalIdx {
    pub idx: u32,
}

/// The immediate of a memory access: the alignment hint, as a power of two,
/// and the constant added to the address operand.
#[derive(Clone, Copy, Debug, PartialEq, Eq, Structural)]
pub struct MemArg {
    pub align: u32,
    pub offset: u32,
}

impl MemArg {
    /// A memory immediate for an access aligned to four bytes.
    pub fn new4(offset: u32) -> (m: MemArg)
        ensures
            m == (MemArg { align: 2, offset }),
    {
        MemArg { align: 2, offset }
    }
}

/// One instruction. Floating-point constants are held as their bit patterns.
#[derive(Clone, Copy, Debug, PartialEq, Eq, Structural)]
pub enum Instr {
    LocalGet(LocalIdx),
    LocalSet(LocalIdx),
    LocalTee(LocalIdx),
    GlobalGet(GlobalIdx),
    GlobalSet(GlobalIdx),
    I32Load(MemArg),
    I64Load(MemArg),
    F32Load(MemArg),
    F64Load(MemArg),
    I32Store(MemArg),
    I64Store(MemArg),
    F32Store(MemArg),
    F64Store(MemArg),
    I32Const(i32),
    I64Const(i64),
    F32Const(u32),
    F64Const(u64),
    I64ExtendI32U,
    I32WrapI64,
    F64ReinterpretI64,
    I64ReinterpretF64,
    I64Shl,
    I64ShrU,
    I64Or,
    I32Ne,
    If(Option<ValType>),
    End,
    Drop,
    Unreachable,
}

/// Collects the instructions of one expression in the order of emission.
#[derive(Debug)]
pub struct ExprBuilder {
    pub code: Vec<Instr>,
}

impl View for ExprBuilder {
    type V = Seq<Instr>;

    open spec fn view(&self) -> Seq<Instr> {
        self.code@
    }
}

impl ExprBuilder {
    /// A builder that holds no instruction.
    pub fn new() -> (b: ExprBuilder)
        ensures
            b@ == Seq::<Instr>::empty(),
    {
        ExprBuilder { code: Vec::new() }
    }

    /// Appends one instruction.
    pub fn emit(&mut self, instr: Instr)
        ensures
            final(self)@ == old(self)@.push(instr),
    {
        self.code.push(instr);
    }

    /// The number of instructions collected so far.
    pub fn len(&self) -> (n: usize)
        ensures
            n == self@.len(),
    {
        self.code.len()
    }

    pub fn local_get(&mut self, idx: LocalIdx)
        ensures
            final(self)@ == old(self)@.push(Instr::LocalGet(idx)),
    {
        self.emit(Instr::LocalGet(idx));
    }

    pub fn local_set(&mut self, idx: LocalIdx)
        ensures
            final(self)@ == old(self)@.push(Instr::LocalSet(idx)),
    {
        self.emit(Instr::LocalSet(idx));
    }

    pub fn local_tee(&mut self, idx: LocalIdx)
        ensures
            final(self)@ == old(self)@.push(Instr::LocalTee(idx)),
    {
        self.emit(Instr::LocalTee(idx));
    }

    pub fn global_get(&mut self, idx: GlobalIdx)
        ensures
            final(self)@ == old(self)@.push(Instr::GlobalGet(idx)),
    {
        self.emit(Instr::GlobalGet(idx));
    }

    pub fn global_set(&mut self, idx: GlobalIdx)
        ensures
            final(self)@ == old(self)@.push(Instr::GlobalSet(idx)),
    {
        self.emit(Instr::GlobalSet(idx));
    }

    pub fn i32_load(&mut self, m: MemArg)
        ensures
            final(self)@ == old(self)@.push(Instr::I32Load(m)),
    {
        self.emit(Instr::I32Load(m));
    }

    pub fn i64_load(&mut self, m: MemArg)
        ensures
            final(self)@ == old(self)@.push(Instr::I64Load(m)),
    {
        self.emit(Instr::I64Load(m));
    }

    pub fn f32_load(&mut self, m: MemArg)
        ensures
            final(self)@ == old(self)@.push(Instr::F32Load(m)),
    {
        self.emit(Instr::F32Load(m));
    }

    pub fn f64_load(&mut self, m: MemArg)
        ensures
            final(self)@ == old(self)@.push(Instr::F64Load(m)),
    {
        self.emit(Instr::F64Load(m));
    }

    pub fn i32_store(&mut self, m: MemArg)
        ensures
            final(self)@ == old(self)@.push(Instr::I32Store(m)),
    {
        self.emit(Instr::I32Store(m));
    }

    pub fn i64_store(&mut self, m: MemArg)
        ensures
            final(self)@ == old(self)@.push(Instr::I64Store(m)),
    {
        self.emit(Instr::I64Store(m));
    }

    pub fn f32_store(&mut self, m: MemArg)
        ensures
            final(self)@ == old(self)@.push(Instr::F32Store(m)),
    {
        self.emit(Instr::F32Store(m));
    }

    pub fn f64_store(&mut self, m: MemArg)
        ensures
            final(self)@ == old(self)@.push(Instr::F64Store(m)),
    {
        self.emit(Instr::F64Store(m));
    }

    pub fn i32_const(&mut self, value: i32)
        ensures
            final(self)@ == old(self)@.push(Instr::I32Const(value)),
    {
        self.emit(Instr::I32Const(value));
    }

    pub fn i64_const(&mut self, value: i64)
        ensures
            final(self)@ == old(self)@.push(Instr::I64Const(value)),
    {
        self.emit(Instr::I64Const(value));
    }

    /// Appends an `f32.const` whose operand has the given bit pattern.
    pub fn f32_const_bits(&mut self, bits: u32)
        ensures
            final(self)@ == old(self)@.push(Instr::F32Const(bits)),
    {
        self.emit(Instr::F32Const(bits));
    }

    /// Appends an `f64.const` whose operand has the given bit pattern.
    pub fn f64_const_bits(&mut self, bits: u64)
        ensures
            final(self)@ == old(self)@.push(Instr::F64Const(bits)),
    {
        self.emit(Instr::F64Const(bits));
    }

    pub fn i64_extend_i32_u(&mut self)
        ensures
            final(self)@ == old(self)@.push(Instr::I64ExtendI32U),
    {
        self.emit(Instr::I64ExtendI32U);
    }

    pub fn i32_wrap_i64(&mut self)
        ensures
            final(self)@ == old(self)@.push(Instr::I32WrapI64),
    {
        self.emit(Instr::I32WrapI64);
    }

    pub fn f64_reinterpret_i64(&mut self)
        ensures
            final(self)@ == old(self)@.push(Instr::F64ReinterpretI64),
    {
        self.emit(Instr::F64ReinterpretI64);
    }

    pub fn i64_reinterpret_f64(&mut self)
        ensures
            final(self)@ == old(self)@.push(Instr::I64ReinterpretF64),
    {
        self.emit(Instr::I64ReinterpretF64);
    }

    pub fn i64_shl(&mut self)
        ensures
            final(self)@ == old(self)@.push(Instr::I64Shl),
    {
        self.emit(Instr::I64Shl);
    }

    pub fn i64_shr_u(&mut self)
        ensures
            final(self)@ == old(self)@.push(Instr::I64ShrU),
    {
        self.emit(Instr::I64ShrU);
    }

    pub fn i64_or(&mut self)
        ensures
            final(self)@ == old(self)@.push(Instr::I64Or),
    {
        self.emit(Instr::I64Or);
    }

    pub fn i32_ne(&mut self)
        ensures
            final(self)@ == old(self)@.push(Instr::I32Ne),
    {
        self.emit(Instr::I32Ne);
    }

    /// Opens a conditional block with the given result type.
    pub fn if_(&mut self, result: Option<ValType>)
        ensures
            final(self)@ == old(self)@.push(Instr::If(result)),
    {
        self.emit(Instr::If(result));
    }

    /// Closes the innermost open block.
    pub fn end(&mut self)
        ensures
            final(self)@ == old(self)@.push(Instr::End),
    {
        self.emit(Instr::End);
    }

    pub fn drop(&mut self)
        ensures
            final(self)@ == old(self)@.push(Instr::Drop),
    {
        self.emit(Instr::Drop);
    }

    pub fn unreachable(&mut self)
        ensures
            final(self)@ == old(self)@.push(Instr::Unreachable),
    {
        self.emit(Instr::Unreachable);
    }

    /// Appends a sequence of instructions in order.
    pub fn append(&mut self, instrs: &Vec<Instr>)
        ensures
            final(self)@ == old(self)@ + instrs@,
    {
        let mut i: usize = 0;
        while i < instrs.len()
            invariant
                i <= instrs.len(),
                self@ == old(self)@ + instrs@.subrange(0, i as int),
            decreases instrs.len() - i,
        {
            self.emit(instrs[i]);
            assert(instrs@.subrange(0, i + 1) =~= instrs@.subrange(0, i as int).push(instrs@[i as int]));
            assert(self@ =~= old(self)@ + instrs@.subrange(0, i + 1));
            i = i + 1;
        }
        assert(instrs@.subrange(0, i as int) =~= instrs@);
    }
}

} // verus!
