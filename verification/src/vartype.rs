//! Static types of the intermediate representation and their footprint in
//! WebAssembly cells and in linear memory.

use vstd::prelude::*;

verus! {

/// The static type of a value of the intermediate representation.
///
/// `Any` is the top of the widening order: every other type widens to it, and
/// no two other types are comparable.
#[derive(Clone, Copy, Debug, PartialEq, Eq, Structural)]
pub enum VarType {
    Any,
    Unassigned,
    Undefined,
    Number,
    Boolean,
    String,
    Func,
    StructT { typeidx: usize },
}

/// The four WebAssembly value types.
#[derive(Clone, Copy, Debug, PartialEq, Eq, Structural)]
pub enum ValType {
    I32,
    I64,
    F32,
    F64,
}

/// The number of tags that precede the tags of the struct types.
pub const NUM_PRIMITIVE_TAG_TYPES: i32 = 6;

/// The largest struct type index whose tag fits in an `i32`.
pub const MAX_TAGGED_TYPEIDX: usize = 0x7fff_fff9;

impl VarType {
    /// The tag that marks a value of this type inside an `Any`.
    ///
    /// `Any` itself carries the tag of the value it holds, so it has none of
    /// its own; the model gives it -1, which is the tag of no type.
    pub open spec fn spec_tag(self) -> int {
        match self {
            VarType::Any => -1,
            VarType::Unassigned => 0,
            VarType::Undefined => 1,
            VarType::Number => 2,
            VarType::Boolean => 3,
            VarType::String => 4,
            VarType::Func => 5,
            VarType::StructT { typeidx } => 6 + typeidx,
        }
    }

    /// Whether the type has a tag that fits in an `i32`.
    pub open spec fn has_tag(self) -> bool {
        match self {
            VarType::Any => false,
            VarType::StructT { typeidx } => typeidx <= MAX_TAGGED_TYPEIDX,
            _ => true,
        }
    }

    /// The tag that marks a value of this type inside an `Any`.
    pub fn tag(self) -> (t: i32)
        requires
            self.has_tag(),
        ensures
            t == self.spec_tag(),
            0 <= t,
    {
        match self {
            VarType::Any => 0,
            VarType::Unassigned => 0,
            VarType::Undefined => 1,
            VarType::Number => 2,
            VarType::Boolean => 3,
            VarType::String => 4,
            VarType::Func => 5,
            VarType::StructT { typeidx } => NUM_PRIMITIVE_TAG_TYPES + (typeidx as i32),
        }
    }
}

/// The cells that hold a value of the given type, first cell first.
pub open spec fn vartype_cells(t: VarType) -> Seq<ValType> {
    match t {
        VarType::Any => seq![ValType::I32, ValType::I64],
        VarType::Unassigned => seq![],
        VarType::Undefined => seq![],
        VarType::Number => seq![ValType::F64],
        VarType::Boolean => seq![ValType::I32],
        VarType::String => seq![ValType::I32],
        VarType::Func => seq![ValType::I32, ValType::I32],
        VarType::StructT { typeidx } => seq![ValType::I32],
    }
}

/// The number of bytes that a value of the given type takes in linear memory.
pub open spec fn spec_size_in_memory(t: VarType) -> int {
    match t {
        VarType::Any => 12,
        VarType::Unassigned => 0,
        VarType::Undefined => 0,
        VarType::Number => 8,
        VarType::Boolean => 4,
        VarType::String => 4,
        VarType::Func => 8,
        VarType::StructT { typeidx } => 4,
    }
}

/// Two types that can be tagged have the same tag only if they are the same
/// type.
pub proof fn law_tags_are_distinct(a: VarType, b: VarType)
    requires
        a.has_tag(),
        b.has_tag(),
        a.spec_tag() == b.spec_tag(),
    ensures
        a == b,
{
}

/// The WebAssembly cells that hold a value of the given type.
pub fn encode_vartype(ir_vartype: VarType) -> (cells: Vec<ValType>)
    requires
        ir_vartype != VarType::Unassigned,
    ensures
        cells@ == vartype_cells(ir_vartype),
{
    let mut cells: Vec<ValType> = Vec::new();
    match ir_vartype {
        VarType::Any => {
            cells.push(ValType::I32);
            cells.push(ValType::I64);
        },
        VarType::Unassigned => {},
        VarType::Undefined => {},
        VarType::Number => {
            cells.push(ValType::F64);
        },
        VarType::Boolean => {
            cells.push(ValType::I32);
        },
        VarType::String => {
            cells.push(ValType::I32);
        },
        VarType::Func => {
            cells.push(ValType::I32);
            cells.push(ValType::I32);
        },
        VarType::StructT { typeidx: _ } => {
            cells.push(ValType::I32);
        },
    }
    assert(cells@ =~= vartype_cells(ir_vartype));
    cells
}

/// The number of bytes that a value of the given type takes in linear memory.
pub fn size_in_memory(ir_vartype: VarType) -> (size: u32)
    ensures
        size == spec_size_in_memory(ir_vartype),
{
    match ir_vartype {
        VarType::Any => 4 + 8,
        VarType::Unassigned => 0,
        VarType::Undefined => 0,
        VarType::Number => 8,
        VarType::Boolean => 4,
        VarType::String => 4,
        VarType::Func => 4 + 4,
        VarType::StructT { typeidx: _ } => 4,
    }
}

} // verus!
