//! The syntax tree of a program, in the shape that parsers of JavaScript
//! give it, with room for what the analysis finds out: what each name is
//! resolved to, and which variables of each scope live in the heap.

use vstd::prelude::*;
use crate::frontendvar::{PreVar, VarLocId};
use crate::log::Span;
use crate::vartype::VarType;

verus! {

/// A node of the syntax tree.
#[derive(Debug)]
pub struct Node {
    pub loc: Option<Span>,
    pub kind: NodeKind,
}

/// What a node is.
#[derive(Debug)]
pub enum NodeKind {
    Identifier(Identifier),
    Literal(Literal),
    Program(Program),
    ExpressionStatement(ExpressionStatement),
    BlockStatement(BlockStatement),
    EmptyStatement,
    DebuggerStatement,
    WithStatement,
    ReturnStatement(ReturnStatement),
    LabeledStatement,
    BreakStatement,
    ContinueStatement,
    IfStatement(IfStatement),
    WhileStatement,
    ForStatement,
    FunctionDeclaration(FunctionDeclaration),
    VariableDeclaration(VariableDeclaration),
    VariableDeclarator(VariableDeclarator),
    FunctionExpression,
    ArrowFunctionExpression(ArrowFunctionExpression),
    UnaryExpression(UnaryExpression),
    UpdateExpression,
    BinaryExpression(BinaryExpression),
    AssignmentExpression(AssignmentExpression),
    LogicalExpression(LogicalExpression),
    ConditionalExpression(ConditionalExpression),
    CallExpression(CallExpression),
    ArrayExpression(ArrayExpression),
    ImportDeclaration(ImportDeclaration),
    ImportSpecifier(ImportSpecifier),
    ExportNamedDeclaration(ExportNamedDeclaration),
    ExportSpecifier(ExportSpecifier),
}

/// A name, and what the analysis resolved it to.
#[derive(Debug)]
pub struct Identifier {
    pub name: String,
    pub prevar: Option<PreVar>,
}

/// The value of a literal. A number is held as the bits of its `f64`.
#[derive(Debug)]
pub enum LiteralValue {
    String(String),
    Boolean(bool),
    Null,
    Number(u64),
    RegExp,
}

#[derive(Debug)]
pub struct Literal {
    pub value: LiteralValue,
}

/// The direct functions that a scope declares: the name and the types of
/// the parameters of each.
pub type DirectFuncs = Vec<(String, Vec<VarType>)>;

/// A module.
#[derive(Debug)]
pub struct Program {
    pub body: Vec<Node>,
    pub direct_funcs: DirectFuncs,
}

#[derive(Debug)]
pub struct ExpressionStatement {
    pub expression: Box<Node>,
}

/// A block, with the indices of those of its variables that live in the
/// heap.
#[derive(Debug)]
pub struct BlockStatement {
    pub body: Vec<Node>,
    pub address_taken_vars: Vec<usize>,
    pub direct_funcs: DirectFuncs,
}

#[derive(Debug)]
pub struct ReturnStatement {
    pub argument: Option<Box<Node>>,
}

#[derive(Debug)]
pub struct IfStatement {
    pub test: Box<Node>,
    pub consequent: Box<Node>,
    pub alternate: Option<Box<Node>>,
}

/// What a function declaration and an arrow function have in common: the
/// parameters and the body, with the indices of those of the function's
/// variables that live in the heap, and the variables of the scopes around
/// that the function uses.
#[derive(Debug)]
pub struct Function {
    pub params: Vec<Node>,
    pub body: Box<Node>,
    pub address_taken_vars: Vec<usize>,
    pub captured_vars: Vec<VarLocId>,
    pub direct_funcs: DirectFuncs,
}

#[derive(Debug)]
pub struct FunctionDeclaration {
    pub id: Box<Node>,
    pub function: Function,
}

#[derive(Debug)]
pub struct ArrowFunctionExpression {
    pub function: Function,
    pub expression: bool,
}

#[derive(Debug)]
pub struct VariableDeclaration {
    pub declarations: Vec<Node>,
    pub kind: String,
}

#[derive(Debug)]
pub struct VariableDeclarator {
    pub id: Box<Node>,
    pub init: Option<Box<Node>>,
}

#[derive(Debug)]
pub struct UnaryExpression {
    pub operator: String,
    pub prefix: bool,
    pub argument: Box<Node>,
}

#[derive(Debug)]
pub struct BinaryExpression {
    pub operator: String,
    pub left: Box<Node>,
    pub right: Box<Node>,
}

#[derive(Debug)]
pub struct AssignmentExpression {
    pub operator: String,
    pub left: Box<Node>,
    pub right: Box<Node>,
}

#[derive(Debug)]
pub struct LogicalExpression {
    pub operator: String,
    pub left: Box<Node>,
    pub right: Box<Node>,
}

#[derive(Debug)]
pub struct ConditionalExpression {
    pub test: Box<Node>,
    pub alternate: Box<Node>,
    pub consequent: Box<Node>,
}

#[derive(Debug)]
pub struct CallExpression {
    pub callee: Box<Node>,
    pub arguments: Vec<Node>,
}

#[derive(Debug)]
pub struct ArrayExpression {
    pub elements: Vec<Node>,
}

#[derive(Debug)]
pub struct ImportDeclaration {
    pub specifiers: Vec<Node>,
    pub source: Box<Node>,
}

#[derive(Debug)]
pub struct ImportSpecifier {
    pub local: Box<Node>,
    pub imported: Box<Node>,
}

#[derive(Debug)]
pub struct ExportNamedDeclaration {
    pub declaration: Option<Box<Node>>,
    pub specifiers: Vec<Node>,
    pub source: Option<Box<Node>>,
}

#[derive(Debug)]
pub struct ExportSpecifier {
    pub local: Box<Node>,
    pub exported: Box<Node>,
}

/// The mathematical value of a list of direct functions.
pub open spec fn direct_funcs_view(funcs: Seq<(String, Vec<VarType>)>) -> Seq<(Seq<char>, Seq<VarType>)> {
    Seq::new(funcs.len(), |i: int| (funcs[i].0@, funcs[i].1@))
}

} // verus!
