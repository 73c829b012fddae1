use sourceror::var_conv::{
    encode_load_global, encode_load_local, encode_load_memory, encode_narrowing_operation,
    encode_store_global, encode_store_local, encode_store_memory,
    encode_unchecked_local_conv_any_narrowing, encode_widening_operation,
};
use sourceror::vartype::{encode_vartype, ValType, VarType};
use sourceror::wasm::instr::{ExprBuilder, GlobalIdx, Instr, LocalIdx};
use sourceror::wasm::scratch::Scratch;

/// A value of the machine: its type and its bits.
#[derive(Clone, Copy, Debug, PartialEq, Eq)]
enum Cell {
    I32(u32),
    I64(u64),
    F32(u32),
    F64(u64),
}

fn type_of(cell: Cell) -> ValType {
    match cell {
        Cell::I32(_) => ValType::I32,
        Cell::I64(_) => ValType::I64,
        Cell::F32(_) => ValType::F32,
        Cell::F64(_) => ValType::F64,
    }
}

fn zero(ty: ValType) -> Cell {
    match ty {
        ValType::I32 => Cell::I32(0),
        ValType::I64 => Cell::I64(0),
        ValType::F32 => Cell::F32(0),
        ValType::F64 => Cell::F64(0),
    }
}

/// A small machine that runs the instructions which the emitters use.
struct Machine {
    stack: Vec<Cell>,
    locals: Vec<Cell>,
    globals: Vec<Cell>,
    memory: Vec<u8>,
    trapped: bool,
}

impl Machine {
    fn new(locals: &[ValType], globals: &[ValType]) -> Machine {
        Machine {
            stack: Vec::new(),
            locals: locals.iter().map(|ty| zero(*ty)).collect(),
            globals: globals.iter().map(|ty| zero(*ty)).collect(),
            memory: vec![0xaa; 256],
            trapped: false,
        }
    }

    fn pop(&mut self) -> Cell {
        self.stack.pop().expect("a value on the stack")
    }

    fn pop_i32(&mut self) -> u32 {
        match self.pop() {
            Cell::I32(v) => v,
            other => panic!("i32 expected, found {:?}", other),
        }
    }

    fn pop_i64(&mut self) -> u64 {
        match self.pop() {
            Cell::I64(v) => v,
            other => panic!("i64 expected, found {:?}", other),
        }
    }

    fn address(&mut self, offset: u32) -> usize {
        (self.pop_i32() as usize) + (offset as usize)
    }

    fn read(&self, at: usize, count: usize) -> u64 {
        let mut bytes = [0u8; 8];
        bytes[..count].copy_from_slice(&self.memory[at..at + count]);
        u64::from_le_bytes(bytes)
    }

    fn write(&mut self, at: usize, count: usize, bits: u64) {
        self.memory[at..at + count].copy_from_slice(&bits.to_le_bytes()[..count]);
    }

    /// The position behind the `End` that closes the block which starts at
    /// `from`.
    fn block_end(code: &[Instr], from: usize) -> usize {
        let mut depth = 0;
        let mut at = from;
        loop {
            match code[at] {
                Instr::If(_) => depth += 1,
                Instr::End => {
                    if depth == 0 {
                        return at + 1;
                    }
                    depth -= 1;
                }
                _ => {}
            }
            at += 1;
        }
    }

    fn run(&mut self, code: &[Instr]) {
        let mut pc = 0;
        while pc < code.len() && !self.trapped {
            let instr = code[pc];
            pc += 1;
            match instr {
                Instr::LocalGet(l) => self.stack.push(self.locals[l.idx]),
                Instr::LocalSet(l) => {
                    let v = self.pop();
                    assert_eq!(type_of(v), type_of(self.locals[l.idx]), "type of local {}", l.idx);
                    self.locals[l.idx] = v;
                }
                Instr::LocalTee(l) => {
                    let v = *self.stack.last().expect("a value on the stack");
                    assert_eq!(type_of(v), type_of(self.locals[l.idx]), "type of local {}", l.idx);
                    self.locals[l.idx] = v;
                }
                Instr::GlobalGet(g) => self.stack.push(self.globals[g.idx as usize]),
                Instr::GlobalSet(g) => {
                    let v = self.pop();
                    assert_eq!(type_of(v), type_of(self.globals[g.idx as usize]));
                    self.globals[g.idx as usize] = v;
                }
                Instr::I32Load(m) => {
                    let at = self.address(m.offset);
                    let bits = self.read(at, 4);
                    self.stack.push(Cell::I32(bits as u32));
                }
                Instr::I64Load(m) => {
                    let at = self.address(m.offset);
                    let bits = self.read(at, 8);
                    self.stack.push(Cell::I64(bits));
                }
                Instr::F32Load(m) => {
                    let at = self.address(m.offset);
                    let bits = self.read(at, 4);
                    self.stack.push(Cell::F32(bits as u32));
                }
                Instr::F64Load(m) => {
                    let at = self.address(m.offset);
                    let bits = self.read(at, 8);
                    self.stack.push(Cell::F64(bits));
                }
                Instr::I32Store(m) => {
                    let v = self.pop_i32();
                    let at = self.address(m.offset);
                    self.write(at, 4, v as u64);
                }
                Instr::I64Store(m) => {
                    let v = self.pop_i64();
                    let at = self.address(m.offset);
                    self.write(at, 8, v);
                }
                Instr::F32Store(m) => match self.pop() {
                    Cell::F32(v) => {
                        let at = self.address(m.offset);
                        self.write(at, 4, v as u64);
                    }
                    other => panic!("f32 expected, found {:?}", other),
                },
                Instr::F64Store(m) => match self.pop() {
                    Cell::F64(v) => {
                        let at = self.address(m.offset);
                        self.write(at, 8, v);
                    }
                    other => panic!("f64 expected, found {:?}", other),
                },
                Instr::I32Const(v) => self.stack.push(Cell::I32(v as u32)),
                Instr::I64Const(v) => self.stack.push(Cell::I64(v as u64)),
                Instr::F32Const(bits) => self.stack.push(Cell::F32(bits)),
                Instr::F64Const(bits) => self.stack.push(Cell::F64(bits)),
                Instr::I64ExtendI32U => {
                    let v = self.pop_i32();
                    self.stack.push(Cell::I64(v as u64));
                }
                Instr::I32WrapI64 => {
                    let v = self.pop_i64();
                    self.stack.push(Cell::I32(v as u32));
                }
                Instr::F64ReinterpretI64 => {
                    let v = self.pop_i64();
                    self.stack.push(Cell::F64(v));
                }
                Instr::I64ReinterpretF64 => match self.pop() {
                    Cell::F64(v) => self.stack.push(Cell::I64(v)),
                    other => panic!("f64 expected, found {:?}", other),
                },
                Instr::I64Shl => {
                    let by = self.pop_i64();
                    let v = self.pop_i64();
                    self.stack.push(Cell::I64(v << (by % 64)));
                }
                Instr::I64ShrU => {
                    let by = self.pop_i64();
                    let v = self.pop_i64();
                    self.stack.push(Cell::I64(v >> (by % 64)));
                }
                Instr::I64Or => {
                    let b = self.pop_i64();
                    let a = self.pop_i64();
                    self.stack.push(Cell::I64(a | b));
                }
                Instr::I32Ne => {
                    let b = self.pop_i32();
                    let a = self.pop_i32();
                    self.stack.push(Cell::I32(if a != b { 1 } else { 0 }));
                }
                Instr::If(_) => {
                    if self.pop_i32() == 0 {
                        pc = Machine::block_end(code, pc);
                    }
                }
                Instr::End => {}
                Instr::Drop => {
                    self.pop();
                }
                Instr::Unreachable => self.trapped = true,
            }
        }
    }
}

fn l(idx: usize) -> LocalIdx {
    LocalIdx { idx }
}

fn storable_types() -> Vec<VarType> {
    vec![
        VarType::Any,
        VarType::Undefined,
        VarType::Number,
        VarType::Boolean,
        VarType::String,
        VarType::Func,
        VarType::StructT { typeidx: 0 },
        VarType::StructT { typeidx: 7 },
    ]
}

/// A value of the type as it lies on the stack, the last cell of the type
/// first. An `Any` holds a number.
fn sample(ty: VarType) -> Vec<Cell> {
    let patterns: [u64; 2] = [0xfedc_ba98_7654_3210, 0x8123_4567_89ab_cdef];
    if ty == VarType::Any {
        return vec![Cell::I64(patterns[0]), Cell::I32(VarType::Number.tag() as u32)];
    }
    let cells = encode_vartype(ty);
    let mut values = Vec::new();
    for (i, cell) in cells.iter().rev().enumerate() {
        values.push(match cell {
            ValType::I32 => Cell::I32(patterns[i] as u32),
            ValType::I64 => Cell::I64(patterns[i]),
            ValType::F32 => Cell::F32(patterns[i] as u32),
            ValType::F64 => Cell::F64(patterns[i]),
        });
    }
    values
}

/// The locals of a function whose first locals hold a value of the type,
/// and the positions of those locals.
fn locals_for(ty: VarType) -> (Vec<ValType>, Vec<LocalIdx>) {
    let cells = encode_vartype(ty);
    let idxs = (0..cells.len()).map(l).collect();
    (cells, idxs)
}

#[test]
fn value_stored_in_locals_is_loaded_as_it_was() {
    for ty in storable_types() {
        let (cells, idxs) = locals_for(ty);
        let mut code = ExprBuilder::new();
        encode_store_local(&idxs, ty, ty, &mut code);
        let stored = code.len();
        encode_load_local(&idxs, ty, ty, &mut code);
        let mut m = Machine::new(&cells, &[]);
        m.stack = sample(ty);
        m.run(&code.code[..stored]);
        assert!(m.stack.is_empty(), "{:?}", ty);
        m.run(&code.code[stored..]);
        assert_eq!(m.stack, sample(ty), "{:?}", ty);
        assert!(!m.trapped);
    }
}

#[test]
fn value_stored_in_globals_is_loaded_as_it_was() {
    for ty in storable_types() {
        let cells = encode_vartype(ty);
        // the globals of the value come after three other globals
        let idxs: Vec<GlobalIdx> = (0..cells.len()).map(|i| GlobalIdx { idx: 3 + i as u32 }).collect();
        let mut globals = vec![ValType::F64, ValType::I64, ValType::F32];
        globals.extend(cells.iter().copied());
        let mut code = ExprBuilder::new();
        encode_store_global(&idxs, ty, ty, &mut code);
        encode_load_global(&idxs, ty, ty, &mut code);
        let mut m = Machine::new(&[], &globals);
        m.stack = sample(ty);
        m.run(&code.code);
        assert_eq!(m.stack, sample(ty), "{:?}", ty);
        assert_eq!(&m.globals[..3], &[Cell::F64(0), Cell::I64(0), Cell::F32(0)]);
    }
}

#[test]
fn value_stored_in_memory_is_loaded_as_it_was() {
    for ty in storable_types() {
        if ty == VarType::Undefined {
            // a value without cells takes no room: nothing is emitted for it
            continue;
        }
        for offset in [0u32, 4, 24] {
            let mut scratch = Scratch::new(vec![ValType::I64]);
            let mut store = ExprBuilder::new();
            encode_store_memory(offset, ty, ty, &mut scratch, &mut store);
            let mut load = ExprBuilder::new();
            encode_load_memory(offset, ty, ty, &mut scratch, &mut load);
            let locals = scratch.into_locals();
            let mut m = Machine::new(&locals, &[]);
            // net stack of a store: [i32(ptr), <value>] -> []
            m.stack = vec![Cell::I32(40)];
            m.stack.extend(sample(ty));
            m.run(&store.code);
            assert!(m.stack.is_empty(), "{:?}", ty);
            // net stack of a load: [i32(ptr)] -> [<value>]
            m.stack = vec![Cell::I32(40)];
            m.run(&load.code);
            assert_eq!(m.stack, sample(ty), "{:?} at {}", ty, offset);
            // the local that the function had is not touched
            assert_eq!(m.locals[0], Cell::I64(0));
        }
    }
}

#[test]
fn nothing_is_emitted_for_a_value_without_cells_in_memory() {
    let mut scratch = Scratch::new(vec![]);
    let mut code = ExprBuilder::new();
    encode_store_memory(8, VarType::Undefined, VarType::Undefined, &mut scratch, &mut code);
    encode_load_memory(8, VarType::Undefined, VarType::Undefined, &mut scratch, &mut code);
    encode_load_memory(8, VarType::Any, VarType::Undefined, &mut scratch, &mut code);
    assert!(code.code.is_empty());
    // in the place of an `Any` the tag is written
    encode_store_memory(8, VarType::Any, VarType::Undefined, &mut scratch, &mut code);
    let mut m = Machine::new(&scratch.into_locals(), &[]);
    m.stack = vec![Cell::I32(16)];
    m.run(&code.code);
    assert!(m.stack.is_empty());
    assert_eq!(&m.memory[24..28], &[1, 0, 0, 0]);
}

#[test]
fn store_in_memory_writes_the_bytes_of_the_value_only() {
    let mut scratch = Scratch::new(vec![]);
    let mut store = ExprBuilder::new();
    encode_store_memory(8, VarType::Any, VarType::Boolean, &mut scratch, &mut store);
    let mut m = Machine::new(&scratch.into_locals(), &[]);
    m.stack = vec![Cell::I32(16), Cell::I32(1)];
    m.run(&store.code);
    // the tag in four bytes, then the four bytes of the value, in
    // little-endian order
    assert_eq!(&m.memory[24..28], &[3, 0, 0, 0]);
    assert_eq!(&m.memory[28..32], &[1, 0, 0, 0]);
    assert!(m.memory[..24].iter().all(|b| *b == 0xaa));
    assert!(m.memory[32..].iter().all(|b| *b == 0xaa));

    let mut scratch = Scratch::new(vec![]);
    let mut store = ExprBuilder::new();
    encode_store_memory(8, VarType::Any, VarType::Number, &mut scratch, &mut store);
    let mut m = Machine::new(&scratch.into_locals(), &[]);
    m.stack = vec![Cell::I32(16), Cell::F64(0x4009_21fb_5444_2d18)];
    m.run(&store.code);
    assert_eq!(&m.memory[24..28], &[2, 0, 0, 0]);
    assert_eq!(&m.memory[28..36], &[0x18, 0x2d, 0x44, 0x54, 0xfb, 0x21, 0x09, 0x40]);
    assert!(m.memory[36..].iter().all(|b| *b == 0xaa));

    let mut scratch = Scratch::new(vec![]);
    let mut store = ExprBuilder::new();
    encode_store_memory(0, VarType::Func, VarType::Func, &mut scratch, &mut store);
    let mut m = Machine::new(&scratch.into_locals(), &[]);
    // the closure below the table index
    m.stack = vec![Cell::I32(100), Cell::I32(0x0a0b_0c0d), Cell::I32(0x0102_0304)];
    m.run(&store.code);
    assert_eq!(&m.memory[100..104], &[0x0d, 0x0c, 0x0b, 0x0a]);
    assert_eq!(&m.memory[104..108], &[0x04, 0x03, 0x02, 0x01]);
}

fn widen_then_narrow(ty: VarType, value: Vec<Cell>) -> (Vec<Cell>, Vec<Cell>, bool) {
    let mut scratch = Scratch::new(vec![]);
    let mut widen = ExprBuilder::new();
    encode_widening_operation(VarType::Any, ty, &mut scratch, &mut widen);
    let mut narrow = ExprBuilder::new();
    encode_narrowing_operation(
        ty,
        VarType::Any,
        |b: &mut ExprBuilder| b.unreachable(),
        &mut scratch,
        &mut narrow,
    );
    let mut m = Machine::new(&scratch.into_locals(), &[]);
    m.stack = value;
    m.run(&widen.code);
    let widened = m.stack.clone();
    m.run(&narrow.code);
    (widened, m.stack, m.trapped)
}

#[test]
fn widened_value_carries_its_tag_and_narrows_to_itself() {
    for ty in storable_types() {
        if ty == VarType::Any {
            continue;
        }
        let (widened, narrowed, trapped) = widen_then_narrow(ty, sample(ty));
        assert_eq!(widened.len(), 2, "{:?}", ty);
        assert_eq!(type_of(widened[0]), ValType::I64);
        assert_eq!(widened[1], Cell::I32(ty.tag() as u32), "{:?}", ty);
        assert!(!trapped, "{:?}", ty);
        assert_eq!(narrowed, sample(ty), "{:?}", ty);
    }
}

#[test]
fn data_of_a_widened_value() {
    let (widened, _, _) = widen_then_narrow(VarType::Number, vec![Cell::F64(0x4009_21fb_5444_2d18)]);
    assert_eq!(widened, vec![Cell::I64(0x4009_21fb_5444_2d18), Cell::I32(2)]);
    let (widened, _, _) = widen_then_narrow(VarType::Boolean, vec![Cell::I32(1)]);
    assert_eq!(widened, vec![Cell::I64(1), Cell::I32(3)]);
    let (widened, _, _) = widen_then_narrow(VarType::String, vec![Cell::I32(0xffff_fff0)]);
    assert_eq!(widened, vec![Cell::I64(0xffff_fff0), Cell::I32(4)]);
    // a function: the closure in the upper half, the table index in the lower
    let (widened, narrowed, _) =
        widen_then_narrow(VarType::Func, vec![Cell::I32(0x1122_3344), Cell::I32(0x8899_aabb)]);
    assert_eq!(widened, vec![Cell::I64(0x1122_3344_8899_aabb), Cell::I32(5)]);
    assert_eq!(narrowed, vec![Cell::I32(0x1122_3344), Cell::I32(0x8899_aabb)]);
    let (widened, _, _) = widen_then_narrow(VarType::Undefined, vec![]);
    assert_eq!(widened, vec![Cell::I64(0), Cell::I32(1)]);
    let (widened, _, _) = widen_then_narrow(VarType::StructT { typeidx: 2 }, vec![Cell::I32(64)]);
    assert_eq!(widened, vec![Cell::I64(64), Cell::I32(8)]);
}

#[test]
fn narrowing_fails_exactly_where_the_tag_is_another() {
    for target in storable_types() {
        if target == VarType::Any {
            continue;
        }
        for held in storable_types() {
            if held == VarType::Any {
                continue;
            }
            let mut scratch = Scratch::new(vec![]);
            let mut narrow = ExprBuilder::new();
            encode_narrowing_operation(
                target,
                VarType::Any,
                |b: &mut ExprBuilder| b.unreachable(),
                &mut scratch,
                &mut narrow,
            );
            let mut m = Machine::new(&scratch.into_locals(), &[]);
            m.stack = vec![Cell::I64(0x0000_0001_0000_0002), Cell::I32(held.tag() as u32)];
            m.run(&narrow.code);
            assert_eq!(m.trapped, held != target, "{:?} held, {:?} asked for", held, target);
            if held == target {
                let types: Vec<ValType> = m.stack.iter().map(|c| type_of(*c)).rev().collect();
                assert_eq!(types, encode_vartype(target));
            }
        }
    }
}

#[test]
fn failure_code_stands_between_the_check_and_the_end() {
    let mut scratch = Scratch::new(vec![]);
    let mut b = ExprBuilder::new();
    encode_narrowing_operation(
        VarType::Boolean,
        VarType::Any,
        |b: &mut ExprBuilder| {
            b.i32_const(77);
            b.drop();
            b.unreachable();
        },
        &mut scratch,
        &mut b,
    );
    assert_eq!(
        b.code,
        vec![
            Instr::I32Const(3),
            Instr::I32Ne,
            Instr::If(None),
            Instr::I32Const(77),
            Instr::Drop,
            Instr::Unreachable,
            Instr::End,
            Instr::I32WrapI64,
        ]
    );
}

#[test]
fn data_of_an_any_goes_to_the_locals_of_a_variable() {
    for ty in storable_types() {
        if ty == VarType::Any {
            continue;
        }
        // the data as widening makes it
        let (widened, _, _) = widen_then_narrow(ty, sample(ty));
        let cells = encode_vartype(ty);
        let mut locals = vec![ValType::I64];
        locals.extend(cells.iter().copied());
        let dest: Vec<LocalIdx> = (0..cells.len()).map(|i| l(1 + i)).collect();
        let mut scratch = Scratch::new(locals);
        let mut code = ExprBuilder::new();
        encode_unchecked_local_conv_any_narrowing(l(0), &dest, ty, &mut scratch, &mut code);
        encode_load_local(&dest, ty, ty, &mut code);
        let mut m = Machine::new(&scratch.into_locals(), &[]);
        m.locals[0] = widened[0];
        m.run(&code.code);
        assert_eq!(m.stack, sample(ty), "{:?}", ty);
        assert_eq!(m.locals[0], widened[0]);
    }
}

#[test]
fn specific_value_stored_as_any_is_loaded_with_its_tag() {
    for ty in storable_types() {
        if ty == VarType::Any {
            continue;
        }
        let (cells, idxs) = locals_for(VarType::Any);
        let mut scratch = Scratch::new(cells);
        let mut code = ExprBuilder::new();
        encode_store_local(&idxs, VarType::Any, ty, &mut code);
        encode_load_local(&idxs, VarType::Any, VarType::Any, &mut code);
        encode_narrowing_operation(
            ty,
            VarType::Any,
            |b: &mut ExprBuilder| b.unreachable(),
            &mut scratch,
            &mut code,
        );
        let mut m = Machine::new(&scratch.into_locals(), &[]);
        m.stack = sample(ty);
        m.run(&code.code);
        assert!(!m.trapped, "{:?}", ty);
        assert_eq!(m.stack, sample(ty), "{:?}", ty);
        assert_eq!(m.locals[0], Cell::I32(ty.tag() as u32));
    }
}
