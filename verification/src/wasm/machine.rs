//! An abstract machine for the instructions that the lowering emits.
//!
//! The machine is a mathematical model: an operand stack, untyped local and
//! global cells, and a byte-addressed little-endian memory without bounds,
//! which reads zero where nothing was written.
//! Floating-point values are held as their bit patterns, so a
//! reinterpretation changes the kind of a value and none of its bits.
//! A machine that meets an instruction it cannot execute (a missing or
//! ill-typed operand, or `unreachable`) traps, and a trapped machine stays
//! as it is.

use vstd::prelude::*;
use vstd::bytes::*;
use crate::vartype::ValType;
use crate::wasm::instr::{GlobalIdx, Instr, LocalIdx, MemArg};

verus! {

/// A value on the operand stack or in a cell.
pub enum Val {
    I32(u32),
    I64(u64),
    F32(u32),
    F64(u64),
}

impl Val {
    /// The value type of the value.
    pub open spec fn ty(self) -> ValType {
        match self {
            Val::I32(_) => ValType::I32,
            Val::I64(_) => ValType::I64,
            Val::F32(_) => ValType::F32,
            Val::F64(_) => ValType::F64,
        }
    }
}

/// Whether the values have, one by one, the given types.
pub open spec fn vals_typed(vals: Seq<Val>, types: Seq<ValType>) -> bool {
    &&& vals.len() == types.len()
    &&& forall|i: int| 0 <= i < vals.len() ==> (#[trigger] vals[i]).ty() == types[i]
}

/// The operand stack: empty, or a stack with one more value on top.
pub enum Stack {
    Empty,
    Push(Box<Stack>, Val),
}

impl Stack {
    /// The stack with the cells of one value on top of it. A value lies on
    /// the stack with its first cell on top.
    pub open spec fn push_value(self, cells: Seq<Val>) -> Stack
        decreases cells.len(),
    {
        if cells.len() == 0 {
            self
        } else {
            Stack::Push(Box::new(self.push_value(cells.drop_first())), cells[0])
        }
    }

    /// The stack with one more value on top.
    pub open spec fn push(self, v: Val) -> Stack {
        Stack::Push(Box::new(self), v)
    }
}

/// The state of the machine.
pub struct Machine {
    pub stack: Stack,
    pub locals: Map<LocalIdx, Val>,
    pub globals: Map<GlobalIdx, Val>,
    pub mem: Map<int, u8>,
    pub trapped: bool,
}

/// The byte at `addr`: zero where nothing was written.
pub open spec fn byte_at(mem: Map<int, u8>, addr: int) -> u8 {
    if mem.dom().contains(addr) {
        mem[addr]
    } else {
        0
    }
}

/// The four bytes at `addr`, read as a little-endian number.
pub open spec fn load32(mem: Map<int, u8>, addr: int) -> u32 {
    spec_u32_from_le_bytes(Seq::new(4, |k: int| byte_at(mem, addr + k)))
}

/// The eight bytes at `addr`, read as a little-endian number.
pub open spec fn load64(mem: Map<int, u8>, addr: int) -> u64 {
    spec_u64_from_le_bytes(Seq::new(8, |k: int| byte_at(mem, addr + k)))
}

/// The memory after the bytes have been written from `addr` on.
pub open spec fn store_bytes(mem: Map<int, u8>, addr: int, bytes: Seq<u8>) -> Map<int, u8> {
    Map::new(
        |a: int| mem.dom().contains(a) || addr <= a < addr + bytes.len(),
        |a: int|
            if addr <= a < addr + bytes.len() {
                bytes[a - addr]
            } else {
                mem[a]
            },
    )
}

/// The memory after a little-endian 32-bit number has been written at `addr`.
pub open spec fn store32(mem: Map<int, u8>, addr: int, v: u32) -> Map<int, u8> {
    store_bytes(mem, addr, spec_u32_to_le_bytes(v))
}

/// The memory after a little-endian 64-bit number has been written at `addr`.
pub open spec fn store64(mem: Map<int, u8>, addr: int, v: u64) -> Map<int, u8> {
    store_bytes(mem, addr, spec_u64_to_le_bytes(v))
}

/// The low 32 bits of a 64-bit number.
pub open spec fn wrap32(v: u64) -> u32 {
    (v & 0xffff_ffff) as u32
}

impl Machine {
    /// The machine with one more value on the stack.
    pub open spec fn push(self, v: Val) -> Machine {
        Machine { stack: self.stack.push(v), ..self }
    }

    /// The machine after a trap.
    pub open spec fn trap(self) -> Machine {
        Machine { trapped: true, ..self }
    }

    /// The machine with the given stack.
    pub open spec fn with_stack(self, stack: Stack) -> Machine {
        Machine { stack, ..self }
    }
}

/// The value that a load of the given kind reads at the address.
#[verifier::opaque]
pub open spec fn loaded_value(mem: Map<int, u8>, addr: int, ty: ValType) -> Val {
    match ty {
        ValType::I32 => Val::I32(load32(mem, addr)),
        ValType::I64 => Val::I64(load64(mem, addr)),
        ValType::F32 => Val::F32(load32(mem, addr)),
        ValType::F64 => Val::F64(load64(mem, addr)),
    }
}

/// The machine after a load of the given kind.
pub open spec fn step_load(m: Machine, arg: MemArg, ty: ValType) -> Machine {
    match m.stack {
        Stack::Push(rest, Val::I32(a)) => m.with_stack(
            rest.push(loaded_value(m.mem, a + arg.offset, ty)),
        ),
        _ => m.trap(),
    }
}

/// The memory after the value has been written at the address.
#[verifier::opaque]
pub open spec fn stored_value(mem: Map<int, u8>, addr: int, v: Val) -> Map<int, u8> {
    match v {
        Val::I32(w) => store32(mem, addr, w),
        Val::F32(w) => store32(mem, addr, w),
        Val::I64(w) => store64(mem, addr, w),
        Val::F64(w) => store64(mem, addr, w),
    }
}

/// The machine after a store of the given kind.
pub open spec fn step_store(m: Machine, arg: MemArg, ty: ValType) -> Machine {
    match m.stack {
        Stack::Push(below, v) => match *below {
            Stack::Push(rest, Val::I32(a)) => if v.ty() == ty {
                Machine { stack: *rest, mem: stored_value(m.mem, a + arg.offset, v), ..m }
            } else {
                m.trap()
            },
            _ => m.trap(),
        },
        _ => m.trap(),
    }
}

/// The machine after an instruction that takes one operand and gives one
/// result.
pub open spec fn step_unary(m: Machine, i: Instr) -> Machine {
    match m.stack {
        Stack::Push(rest, v) => match (i, v) {
            (Instr::I64ExtendI32U, Val::I32(w)) => m.with_stack(rest.push(Val::I64(w as u64))),
            (Instr::I32WrapI64, Val::I64(w)) => m.with_stack(rest.push(Val::I32(wrap32(w)))),
            (Instr::F64ReinterpretI64, Val::I64(w)) => m.with_stack(rest.push(Val::F64(w))),
            (Instr::I64ReinterpretF64, Val::F64(w)) => m.with_stack(rest.push(Val::I64(w))),
            _ => m.trap(),
        },
        _ => m.trap(),
    }
}

/// The result of an instruction that takes two operands, the second of them
/// from the top of the stack.
pub open spec fn binary_result(i: Instr, first: Val, second: Val) -> Option<Val> {
    match (i, first, second) {
        (Instr::I64Shl, Val::I64(a), Val::I64(b)) => Some(Val::I64(a << (b % 64))),
        (Instr::I64ShrU, Val::I64(a), Val::I64(b)) => Some(Val::I64(a >> (b % 64))),
        (Instr::I64Or, Val::I64(a), Val::I64(b)) => Some(Val::I64(a | b)),
        (Instr::I32Ne, Val::I32(a), Val::I32(b)) => Some(
            Val::I32(
                if a != b {
                    1
                } else {
                    0
                },
            ),
        ),
        _ => None,
    }
}

/// The machine after an instruction that takes two operands and gives one
/// result.
pub open spec fn step_binary(m: Machine, i: Instr) -> Machine {
    match m.stack {
        Stack::Push(below, second) => match *below {
            Stack::Push(rest, first) => match binary_result(i, first, second) {
                Some(v) => m.with_stack(rest.push(v)),
                None => m.trap(),
            },
            _ => m.trap(),
        },
        _ => m.trap(),
    }
}

/// The machine after one instruction that is not `if` or `end`. On those two
/// the machine stays as it is: what they do depends on where they stand, and
/// `exec` says it.
pub open spec fn step(i: Instr, m: Machine) -> Machine {
    if m.trapped {
        m
    } else {
        match i {
            Instr::LocalGet(x) => m.push(m.locals[x]),
            Instr::LocalSet(x) => match m.stack {
                Stack::Push(rest, v) => Machine { stack: *rest, locals: m.locals.insert(x, v), ..m },
                _ => m.trap(),
            },
            Instr::LocalTee(x) => match m.stack {
                Stack::Push(rest, v) => Machine { locals: m.locals.insert(x, v), ..m },
                _ => m.trap(),
            },
            Instr::GlobalGet(x) => m.push(m.globals[x]),
            Instr::GlobalSet(x) => match m.stack {
                Stack::Push(rest, v) => Machine {
                    stack: *rest,
                    globals: m.globals.insert(x, v),
                    ..m
                },
                _ => m.trap(),
            },
            Instr::I32Load(a) => step_load(m, a, ValType::I32),
            Instr::I64Load(a) => step_load(m, a, ValType::I64),
            Instr::F32Load(a) => step_load(m, a, ValType::F32),
            Instr::F64Load(a) => step_load(m, a, ValType::F64),
            Instr::I32Store(a) => step_store(m, a, ValType::I32),
            Instr::I64Store(a) => step_store(m, a, ValType::I64),
            Instr::F32Store(a) => step_store(m, a, ValType::F32),
            Instr::F64Store(a) => step_store(m, a, ValType::F64),
            Instr::I32Const(c) => m.push(Val::I32(c as u32)),
            Instr::I64Const(c) => m.push(Val::I64(c as u64)),
            Instr::F32Const(c) => m.push(Val::F32(c)),
            Instr::F64Const(c) => m.push(Val::F64(c)),
            Instr::I64ExtendI32U
            | Instr::I32WrapI64
            | Instr::F64ReinterpretI64
            | Instr::I64ReinterpretF64 => step_unary(m, i),
            Instr::I64Shl | Instr::I64ShrU | Instr::I64Or | Instr::I32Ne => step_binary(m, i),
            Instr::Drop => match m.stack {
                Stack::Push(rest, v) => m.with_stack(*rest),
                _ => m.trap(),
            },
            Instr::Unreachable => m.trap(),
            Instr::If(_) => m,
            Instr::End => m,
        }
    }
}

/// Whether the instruction is `if` or `end`.
pub open spec fn is_control(i: Instr) -> bool {
    i is If || i is End
}

/// Whether no instruction of the code is `if` or `end`.
pub open spec fn straight_line(code: Seq<Instr>) -> bool {
    forall|k: int| 0 <= k < code.len() ==> !is_control(#[trigger] code[k])
}

/// The machine after the instructions of a straight-line code have been
/// executed in order.
pub open spec fn run(code: Seq<Instr>, m: Machine) -> Machine
    decreases code.len(),
{
    if code.len() == 0 {
        m
    } else {
        step(code.last(), run(code.drop_last(), m))
    }
}

/// The position just behind the `end` that closes the block which is open at
/// `pc` with `depth` further blocks open inside it; the length of the code
/// where there is no such `end`.
pub open spec fn block_exit(code: Seq<Instr>, pc: int, depth: nat) -> int
    decreases code.len() - pc,
{
    if pc < 0 || pc >= code.len() {
        code.len() as int
    } else if code[pc] is If {
        block_exit(code, pc + 1, depth + 1)
    } else if code[pc] is End {
        if depth == 0 {
            pc + 1
        } else {
            block_exit(code, pc + 1, (depth - 1) as nat)
        }
    } else {
        block_exit(code, pc + 1, depth)
    }
}

/// The machine after the code has been executed from position `pc` to its
/// end. An `if` takes an `i32` from the stack and, where it is zero, goes on
/// behind the `end` that closes its block; an `end` does nothing.
pub open spec fn exec(code: Seq<Instr>, pc: int, m: Machine) -> Machine
    decreases code.len() - pc,
{
    if pc < 0 || pc >= code.len() {
        m
    } else if m.trapped {
        m
    } else if code[pc] is If {
        match m.stack {
            Stack::Push(rest, Val::I32(cond)) => {
                if cond != 0 {
                    exec(code, pc + 1, m.with_stack(*rest))
                } else {
                    let exit = block_exit(code, pc + 1, 0);
                    if pc < exit <= code.len() {
                        exec(code, exit, m.with_stack(*rest))
                    } else {
                        m.trap()
                    }
                }
            },
            _ => m.trap(),
        }
    } else {
        exec(code, pc + 1, step(code[pc], m))
    }
}

/// Running two codes one after the other is running their concatenation.
pub proof fn lemma_run_concat(a: Seq<Instr>, b: Seq<Instr>, m: Machine)
    ensures
        run(a + b, m) == run(b, run(a, m)),
    decreases b.len(),
{
    if b.len() == 0 {
        assert(a + b =~= a);
    } else {
        lemma_run_concat(a, b.drop_last(), m);
        assert((a + b).drop_last() =~= a + b.drop_last());
    }
}

/// A trapped machine stays as it is.
pub proof fn lemma_run_trapped(code: Seq<Instr>, m: Machine)
    requires
        m.trapped,
    ensures
        run(code, m) == m,
    decreases code.len(),
{
    if code.len() > 0 {
        lemma_run_trapped(code.drop_last(), m);
    }
}

/// Executing a code whose instructions from `pc` on start with a
/// straight-line segment is running that segment and executing what follows.
pub proof fn lemma_exec_straight(code: Seq<Instr>, pc: int, seg: Seq<Instr>, m: Machine)
    requires
        0 <= pc,
        pc + seg.len() <= code.len(),
        straight_line(seg),
        code.subrange(pc, pc + seg.len()) == seg,
    ensures
        exec(code, pc, m) == exec(code, pc + seg.len(), run(seg, m)),
    decreases seg.len(),
{
    if seg.len() == 0 {
    } else {
        let front = seg.drop_last();
        assert(code.subrange(pc, pc + front.len()) =~= front);
        assert forall|k: int| 0 <= k < front.len() implies !is_control(#[trigger] front[k]) by {
            assert(front[k] == seg[k]);
        }
        lemma_exec_straight(code, pc, front, m);
        let mid = run(front, m);
        let at = pc + front.len();
        assert(code[at] == seg.last()) by {
            assert(code.subrange(pc, pc + seg.len())[seg.len() - 1] == code[at]);
        }
        assert(!is_control(seg[seg.len() - 1]));
        if mid.trapped {
            lemma_exec_trapped(code, at, mid);
            lemma_exec_trapped(code, at + 1, mid);
        }
    }
}

/// A trapped machine stays as it is.
pub proof fn lemma_exec_trapped(code: Seq<Instr>, pc: int, m: Machine)
    requires
        m.trapped,
    ensures
        exec(code, pc, m) == m,
{
}

/// Whether every `end` of the code closes an `if` of the code, and every
/// `if` of the code is closed in it: the shape of a code that can stand
/// inside a block.
pub open spec fn balanced_from(code: Seq<Instr>, pc: int, depth: nat) -> bool
    decreases code.len() - pc,
{
    if pc < 0 || pc >= code.len() {
        depth == 0
    } else if code[pc] is If {
        balanced_from(code, pc + 1, depth + 1)
    } else if code[pc] is End {
        depth > 0 && balanced_from(code, pc + 1, (depth - 1) as nat)
    } else {
        balanced_from(code, pc + 1, depth)
    }
}

/// Whether the code can stand inside a block: its `if`s and `end`s match.
pub open spec fn balanced(code: Seq<Instr>) -> bool {
    balanced_from(code, 0, 0)
}

/// Behind a balanced body and the `end` that follows it lies the exit of the
/// block that the body stands in.
pub proof fn lemma_block_exit_balanced(
    code: Seq<Instr>,
    start: int,
    body: Seq<Instr>,
    k: int,
    depth: nat,
)
    requires
        0 <= start,
        0 <= k <= body.len(),
        start + body.len() < code.len(),
        code.subrange(start, start + body.len()) == body,
        code[start + body.len()] is End,
        balanced_from(body, k, depth),
    ensures
        block_exit(code, start + k, depth) == start + body.len() + 1,
    decreases body.len() - k,
{
    if k < body.len() {
        assert(code[start + k] == body[k]) by {
            assert(code.subrange(start, start + body.len())[k] == code[start + k]);
        }
        if body[k] is If {
            lemma_block_exit_balanced(code, start, body, k + 1, depth + 1);
        } else if body[k] is End {
            lemma_block_exit_balanced(code, start, body, k + 1, (depth - 1) as nat);
        } else {
            lemma_block_exit_balanced(code, start, body, k + 1, depth);
        }
    }
}

} // verus!
