//! What the analysis finds: for every stretch of a program, the usages of
//! the variables of the scopes around it, or the first error in it.
//!
//! The functions of this file are the mathematical definition of the
//! analysis. They read a syntax tree as the analysis finds it, under the
//! names in scope, at a depth of nesting (the statements at the top of a
//! module have depth 0, and every block and every function lies one deeper
//! than what it stands in).

use vstd::prelude::*;
use crate::attributes::{spec_next_attributed, AttributedStep, AttributesView};
use crate::error::{program_error, ParseProgramErrorView, ProgramErrorView};
use crate::estree::{
    BlockStatement, ExpressionStatement, Function, FunctionDeclaration, IfStatement,
    LiteralValue, Node, NodeKind, ReturnStatement, VariableDeclaration,
};
use crate::frontendvar::{resolve, NameCtxView, PreVar, VarLocId};
use crate::func::decls::{
    spec_direct_type, spec_validate_and_extract_decls, spec_validate_and_extract_params, Outcome,
    MSG_DIRECT_ONLY_ON_FUNCTION, MSG_ID_HERE,
};
use crate::log::Span;
use crate::varusage::{merge, outer_part, wrapped, Usage, UsageView};

verus! {

pub const MSG_TOO_DEEP: &'static str = "Scopes are nested too deep";

pub const MSG_NULL: &'static str = "Null literal not allowed";

pub const MSG_REGEXP: &'static str = "Regular expression not allowed";

pub const MSG_FUNCTION_EXPRESSION: &'static str =
    "Function expression not allowed, use arrow function syntax instead";

pub const MSG_UPDATE: &'static str = "Increment and decrement operators not allowed";

pub const MSG_NESTED_ASSIGNMENT: &'static str = "Assignment cannot be nested in an expression";

pub const MSG_ARRAY: &'static str = "Array expression is only allowed as a variable initializer";

pub const MSG_EXPRESSION_EXPECTED: &'static str = "Expression node expected";

pub const MSG_ASSIGN_DIRECT: &'static str = "A direct function cannot be assigned to";

pub const MSG_COMPOUND_ASSIGNMENT: &'static str = "Compound assignment operator not allowed";

pub const MSG_LHS_IDENTIFIER: &'static str =
    "Expected ESTree Identifier at LHS of AssignmentExpression";

pub const MSG_RETURN_VALUE: &'static str = "Return statement must have a value";

pub const MSG_IF_CONSEQUENT: &'static str = "Consequent of if statement must be a block";

pub const MSG_IF_NO_ALTERNATE: &'static str = "Alternative of if statement must be present";

pub const MSG_IF_ALTERNATE: &'static str = "Alternative of if statement must be a block";

pub const MSG_DECLARATOR_CHILD: &'static str =
    "Children of VariableDeclaration must only be VariableDeclarator";

pub const MSG_INITIALIZER: &'static str = "Variable initializer must be present for Source";

pub const MSG_EMPTY_ARRAY: &'static str = "Unable to parse multiple BTRee Maps";

pub const MSG_DIRECT_VALUE: &'static str =
    "The 'direct' attribute on this statement cannot have a value";

pub const MSG_CONSTRAINT_VALUE: &'static str =
    "The 'constraint' attribute on this statement must have a value";

pub const MSG_CONSTRAINT_WITHOUT_DIRECT: &'static str =
    "The 'constraint' attribute on this statement cannot appear without the 'direct' attribute";

pub const MSG_STATEMENT_NOT_ALLOWED: &'static str = "This statement type is not allowed";

pub const MSG_TOP_LEVEL: &'static str = "Statement, Import or Export node expected at top-level";

pub const MSG_IN_BLOCK: &'static str = "Statement node expected in a BlockStatement";

pub const MSG_IMPORT_SPECIFIER_ONLY: &'static str =
    "Expected ImportSpecifier inside ImportDeclaration only";

pub const MSG_IMPORT_LOCAL: &'static str = "ImportSpecifier local must be Identifier";

pub const MSG_EXPORT_SPECIFIER_ONLY: &'static str =
    "Expected ExportSpecifier inside ExportNamedDeclaration only";

pub const MSG_EXPORT_LOCAL: &'static str = "ExportSpecifier local must be Identifier";

pub const MSG_GLOBAL_USAGE: &'static str = "A statement at the top of a module uses a variable that is no global";

/// The depth of the scope that stands in a scope of the given depth.
pub open spec fn inner_depth(depth: usize) -> usize {
    if depth < usize::MAX {
        (depth + 1) as usize
    } else {
        depth
    }
}

/// The error that the program does not have the expected shape.
pub open spec fn shape_error(loc: Option<Span>, filename: Option<Seq<char>>, message: &'static str) -> ProgramErrorView {
    program_error(loc, filename, ParseProgramErrorView::ESTreeError(message@))
}

/// The error that the program leaves the accepted subset.
pub open spec fn restriction_error(
    loc: Option<Span>,
    filename: Option<Seq<char>>,
    message: &'static str,
) -> ProgramErrorView {
    program_error(loc, filename, ParseProgramErrorView::SourceRestrictionError(message@))
}

/// The error that an attribute is not allowed, or its value is not.
pub open spec fn content_error(loc: Option<Span>, filename: Option<Seq<char>>, message: &'static str) -> ProgramErrorView {
    program_error(loc, filename, ParseProgramErrorView::AttributeContentError(message@))
}

/// The usages that a use of a name contributes: a variable that is no
/// global is used; a global or a direct function contributes nothing.
pub open spec fn use_of(prevar: PreVar) -> UsageView {
    match prevar {
        PreVar::Target(v) => if v.depth == 0 {
            UsageView::empty()
        } else {
            seq![(v, Usage::Used)]
        },
        PreVar::Direct => UsageView::empty(),
    }
}

/// The usages of a statement that evaluates something with the usages `rhs`
/// and then gives it to the variable of the given name: the variable is
/// modified after the evaluation, unless it is a global. The name must be
/// that of a variable.
pub open spec fn assigned_usage(
    rhs: UsageView,
    ctx: NameCtxView,
    name: Seq<char>,
    loc: Option<Span>,
    filename: Option<Seq<char>>,
) -> Outcome<UsageView> {
    match resolve(ctx, name) {
        None => Err(program_error(loc, filename, ParseProgramErrorView::UndeclaredNameError(name))),
        Some(PreVar::Direct) => Err(restriction_error(loc, filename, MSG_ASSIGN_DIRECT)),
        Some(PreVar::Target(v)) => if v.depth == 0 {
            Ok(rhs)
        } else {
            Ok(merge(rhs, seq![(v, Usage::UsedAndModified)]))
        },
    }
}

/// The usages with which the body of a function starts: each of the
/// parameters is used and modified.
pub open spec fn params_usage(count: nat, depth: usize) -> UsageView {
    Seq::new(count, |i: int| (VarLocId { depth, index: i as usize }, Usage::UsedAndModified))
}

/// The parameters as declarations of the scope of the function.
pub open spec fn param_decls(params: Seq<(Seq<char>, VarLocId)>) -> NameCtxView {
    Seq::new(params.len(), |i: int| (params[i].0, PreVar::Target(params[i].1)))
}

/// What the attributes of a statement say: whether the statement is direct,
/// and the constraint on its parameters.
pub struct StatementAttributes {
    pub is_direct: bool,
    pub constraint: Option<Seq<char>>,
}

/// What the attributes from position `at` on say, on top of what the
/// attributes before them said. A statement can have the attribute `direct`,
/// without a value, and the attribute `constraint`, with one.
pub open spec fn read_statement_attributes(
    attrs: AttributesView,
    at: int,
    so_far: StatementAttributes,
    loc: Option<Span>,
    filename: Option<Seq<char>>,
) -> Outcome<StatementAttributes>
    decreases attrs.len() - at,
{
    if at < 0 || at >= attrs.len() {
        Ok(so_far)
    } else if attrs[at].0 == "direct"@ {
        if attrs[at].1 is Some {
            Err(content_error(loc, filename, MSG_DIRECT_VALUE))
        } else {
            read_statement_attributes(
                attrs,
                at + 1,
                StatementAttributes { is_direct: true, ..so_far },
                loc,
                filename,
            )
        }
    } else if attrs[at].0 == "constraint"@ {
        if attrs[at].1 is None {
            Err(content_error(loc, filename, MSG_CONSTRAINT_VALUE))
        } else {
            read_statement_attributes(
                attrs,
                at + 1,
                StatementAttributes { constraint: attrs[at].1, ..so_far },
                loc,
                filename,
            )
        }
    } else {
        Err(
            program_error(
                loc,
                filename,
                ParseProgramErrorView::AttributeUnrecognizedError(attrs[at].0),
            ),
        )
    }
}

/// What the attributes of a statement say. A constraint needs the attribute
/// `direct`.
#[verifier::opaque]
pub open spec fn statement_attributes(
    attrs: AttributesView,
    loc: Option<Span>,
    filename: Option<Seq<char>>,
) -> Outcome<StatementAttributes> {
    match read_statement_attributes(
        attrs,
        0,
        StatementAttributes { is_direct: false, constraint: None },
        loc,
        filename,
    ) {
        Err(e) => Err(e),
        Ok(sa) => if !sa.is_direct && sa.constraint is Some {
            Err(content_error(loc, filename, MSG_CONSTRAINT_WITHOUT_DIRECT))
        } else {
            Ok(sa)
        },
    }
}

/// The constraint of a direct function as a value of the attribute
/// `constraint`.
pub open spec fn constraint_attr(constraint: Option<Seq<char>>) -> Option<Option<Seq<char>>> {
    match constraint {
        Some(text) => Some(Some(text)),
        None => None,
    }
}

/// The usages of an expression: those of the names in it, joined.
#[verifier::opaque]
pub open spec fn expr_usage(e: Node, ctx: NameCtxView, depth: usize, filename: Option<Seq<char>>) -> Outcome<
    UsageView,
>
    decreases e, 0int,
{
    match e.kind {
        NodeKind::Identifier(id) => match resolve(ctx, id.name@) {
            Some(prevar) => Ok(use_of(prevar)),
            None => Err(
                program_error(e.loc, filename, ParseProgramErrorView::UndeclaredNameError(id.name@)),
            ),
        },
        NodeKind::Literal(lit) => match lit.value {
            LiteralValue::Null => Err(restriction_error(e.loc, filename, MSG_NULL)),
            LiteralValue::RegExp => Err(restriction_error(e.loc, filename, MSG_REGEXP)),
            _ => Ok(UsageView::empty()),
        },
        NodeKind::FunctionExpression => Err(
            restriction_error(e.loc, filename, MSG_FUNCTION_EXPRESSION),
        ),
        NodeKind::ArrowFunctionExpression(arrow) => function_usage(
            arrow.function,
            e.loc,
            ctx,
            depth,
            filename,
        ),
        NodeKind::UnaryExpression(unary) => expr_usage(*unary.argument, ctx, depth, filename),
        NodeKind::UpdateExpression => Err(restriction_error(e.loc, filename, MSG_UPDATE)),
        NodeKind::BinaryExpression(binary) => match expr_usage(*binary.left, ctx, depth, filename) {
            Err(err) => Err(err),
            Ok(lhs) => match expr_usage(*binary.right, ctx, depth, filename) {
                Err(err) => Err(err),
                Ok(rhs) => Ok(merge(lhs, rhs)),
            },
        },
        NodeKind::LogicalExpression(logical) => match expr_usage(
            *logical.left,
            ctx,
            depth,
            filename,
        ) {
            Err(err) => Err(err),
            Ok(lhs) => match expr_usage(*logical.right, ctx, depth, filename) {
                Err(err) => Err(err),
                Ok(rhs) => Ok(merge(lhs, rhs)),
            },
        },
        NodeKind::AssignmentExpression(_) => Err(
            restriction_error(e.loc, filename, MSG_NESTED_ASSIGNMENT),
        ),
        NodeKind::ConditionalExpression(cond) => match expr_usage(*cond.test, ctx, depth, filename) {
            Err(err) => Err(err),
            Ok(test) => match expr_usage(*cond.consequent, ctx, depth, filename) {
                Err(err) => Err(err),
                Ok(then_usage) => match expr_usage(*cond.alternate, ctx, depth, filename) {
                    Err(err) => Err(err),
                    Ok(else_usage) => Ok(merge(test, merge(then_usage, else_usage))),
                },
            },
        },
        NodeKind::CallExpression(call) => match expr_usage(*call.callee, ctx, depth, filename) {
            Err(err) => Err(err),
            Ok(callee) => exprs_usage(call.arguments@, 0, callee, ctx, depth, filename),
        },
        NodeKind::ArrayExpression(_) => Err(restriction_error(e.loc, filename, MSG_ARRAY)),
        _ => Err(shape_error(e.loc, filename, MSG_EXPRESSION_EXPECTED)),
    }
}

/// The usages of the expressions from position `at` on, evaluated in order
/// after something with the usages `so_far`.
#[verifier::opaque]
pub open spec fn exprs_usage(
    exprs: Seq<Node>,
    at: int,
    so_far: UsageView,
    ctx: NameCtxView,
    depth: usize,
    filename: Option<Seq<char>>,
) -> Outcome<UsageView>
    decreases exprs, exprs.len() - at,
{
    if at < 0 || at >= exprs.len() {
        Ok(so_far)
    } else {
        match expr_usage(exprs[at], ctx, depth, filename) {
            Err(err) => Err(err),
            Ok(usage) => exprs_usage(exprs, at + 1, merge(so_far, usage), ctx, depth, filename),
        }
    }
}

/// The usages of the elements of an array from position `at` on, each
/// followed by the assignment of the array to the variable of the given
/// name, after elements with the usages `so_far` (none before the first
/// element).
#[verifier::opaque]
pub open spec fn elements_usage(
    elements: Seq<Node>,
    at: int,
    so_far: Option<UsageView>,
    name: Seq<char>,
    loc: Option<Span>,
    ctx: NameCtxView,
    depth: usize,
    filename: Option<Seq<char>>,
) -> Outcome<Option<UsageView>>
    decreases elements, elements.len() - at,
{
    if at < 0 || at >= elements.len() {
        Ok(so_far)
    } else {
        match expr_usage(elements[at], ctx, depth, filename) {
            Err(err) => Err(err),
            Ok(usage) => match assigned_usage(usage, ctx, name, loc, filename) {
                Err(err) => Err(err),
                Ok(assigned) => elements_usage(
                    elements,
                    at + 1,
                    match so_far {
                        Some(prev) => Some(merge(prev, assigned)),
                        None => Some(assigned),
                    },
                    name,
                    loc,
                    ctx,
                    depth,
                    filename,
                ),
            },
        }
    }
}

/// The usages of the statements of a scope before the variables of the
/// scope are taken out: those of the statements from position `at` on, each
/// read with the attributes that the attribute statement before it gives,
/// after statements with the usages `so_far`. At the top of a module a
/// statement must use no variable but globals.
#[verifier::opaque]
pub open spec fn stmts_usage(
    body: Seq<Node>,
    at: int,
    so_far: UsageView,
    ctx: NameCtxView,
    depth: usize,
    filename: Option<Seq<char>>,
) -> Outcome<UsageView>
    decreases body, body.len() - at,
{
    match spec_next_attributed(body, at, filename) {
        Err(err) => Err(err),
        Ok(AttributedStep::End) => Ok(so_far),
        Ok(AttributedStep::Item { index, attrs, next }) => if at < next <= body.len() && 0 <= index
            < body.len() {
            match stmt_usage(body[index], attrs, ctx, depth, filename) {
                Err(err) => Err(err),
                Ok(usage) => stmts_usage(body, next, merge(so_far, usage), ctx, depth, filename),
            }
        } else {
            Ok(so_far)
        },
    }
}

/// The usages that a function hands to the scope around it: the variables
/// of the scopes around that its parameters and its body use, each with its
/// address taken. The parameters and the variables of the body make one
/// scope, one deeper than the function stands.
#[verifier::opaque]
pub open spec fn function_usage(
    f: Function,
    loc: Option<Span>,
    ctx: NameCtxView,
    depth: usize,
    filename: Option<Seq<char>>,
) -> Outcome<UsageView>
    decreases f, 1int,
{
    match function_body_usage(f, loc, ctx, depth, filename) {
        Err(err) => Err(err),
        Ok(usage) => Ok(wrapped(outer_part(usage, inner_depth(depth)))),
    }
}

/// The usages of the parameters and the body of a function, before the
/// variables of the function are taken out.
#[verifier::opaque]
pub open spec fn function_body_usage(
    f: Function,
    loc: Option<Span>,
    ctx: NameCtxView,
    depth: usize,
    filename: Option<Seq<char>>,
) -> Outcome<UsageView>
    decreases f, 0int,
{
    if depth == usize::MAX {
        Err(shape_error(loc, filename, MSG_TOO_DEEP))
    } else {
        let inner = inner_depth(depth);
        match spec_validate_and_extract_params(f.params@, inner, filename) {
            Err(err) => Err(err),
            Ok(params) => {
                let initial = params_usage(params.len(), inner);
                match f.body.kind {
                    NodeKind::BlockStatement(block) => match spec_validate_and_extract_decls(
                        block.body@,
                        inner,
                        params.len() as usize,
                        filename,
                    ) {
                        Err(err) => Err(err),
                        Ok((decls, _)) => stmts_usage(
                            block.body@,
                            0,
                            initial,
                            ctx + param_decls(params) + decls,
                            inner,
                            filename,
                        ),
                    },
                    _ => match expr_usage(*f.body, ctx + param_decls(params), inner, filename) {
                        Err(err) => Err(err),
                        Ok(usage) => Ok(merge(initial, usage)),
                    },
                }
            },
        }
    }
}

/// The usages of the statements of a block, before the variables of the
/// block are taken out. The variables of the block make a scope one deeper
/// than the block stands.
#[verifier::opaque]
pub open spec fn block_body_usage(
    block: BlockStatement,
    loc: Option<Span>,
    ctx: NameCtxView,
    depth: usize,
    filename: Option<Seq<char>>,
) -> Outcome<UsageView>
    decreases block, 0int,
{
    if depth == usize::MAX {
        Err(shape_error(loc, filename, MSG_TOO_DEEP))
    } else {
        let inner = inner_depth(depth);
        match spec_validate_and_extract_decls(block.body@, inner, 0, filename) {
            Err(err) => Err(err),
            Ok((decls, _)) => stmts_usage(
                block.body@,
                0,
                UsageView::empty(),
                ctx + decls,
                inner,
                filename,
            ),
        }
    }
}

/// The usages of a block: the variables of the scopes around that its
/// statements use.
#[verifier::opaque]
pub open spec fn block_usage(
    block: BlockStatement,
    loc: Option<Span>,
    ctx: NameCtxView,
    depth: usize,
    filename: Option<Seq<char>>,
) -> Outcome<UsageView>
    decreases block, 1int,
{
    match block_body_usage(block, loc, ctx, depth, filename) {
        Err(err) => Err(err),
        Ok(usage) => Ok(outer_part(usage, inner_depth(depth))),
    }
}

/// The usages of an expression statement. An assignment is allowed here and
/// nowhere else; it evaluates its right-hand side and then modifies the
/// variable on its left.
#[verifier::opaque]
pub open spec fn expr_statement_usage(
    stmt: ExpressionStatement,
    ctx: NameCtxView,
    depth: usize,
    filename: Option<Seq<char>>,
) -> Outcome<UsageView>
    decreases stmt, 0int,
{
    match stmt.expression.kind {
        NodeKind::AssignmentExpression(assign) => if assign.operator@ != "="@ {
            Err(restriction_error(stmt.expression.loc, filename, MSG_COMPOUND_ASSIGNMENT))
        } else {
            match assign.left.kind {
                NodeKind::Identifier(id) => match expr_usage(*assign.right, ctx, depth, filename) {
                    Err(err) => Err(err),
                    Ok(rhs) => assigned_usage(rhs, ctx, id.name@, assign.left.loc, filename),
                },
                _ => Err(shape_error(assign.left.loc, filename, MSG_LHS_IDENTIFIER)),
            }
        },
        _ => expr_usage(*stmt.expression, ctx, depth, filename),
    }
}

/// The usages of a return statement, which must return something.
#[verifier::opaque]
pub open spec fn return_usage(
    stmt: ReturnStatement,
    loc: Option<Span>,
    ctx: NameCtxView,
    depth: usize,
    filename: Option<Seq<char>>,
) -> Outcome<UsageView>
    decreases stmt, 0int,
{
    match stmt.argument {
        Some(argument) => expr_usage(*argument, ctx, depth, filename),
        None => Err(restriction_error(loc, filename, MSG_RETURN_VALUE)),
    }
}

/// The usages of an if statement, which must have two branches, both of
/// them blocks: those of the test, and after it those of either branch.
#[verifier::opaque]
pub open spec fn if_usage(
    stmt: IfStatement,
    loc: Option<Span>,
    ctx: NameCtxView,
    depth: usize,
    filename: Option<Seq<char>>,
) -> Outcome<UsageView>
    decreases stmt, 0int,
{
    match stmt.consequent.kind {
        NodeKind::BlockStatement(then_block) => match stmt.alternate {
            Some(alternate) => match alternate.kind {
                NodeKind::BlockStatement(else_block) => match expr_usage(
                    *stmt.test,
                    ctx,
                    depth,
                    filename,
                ) {
                    Err(err) => Err(err),
                    Ok(test) => match block_usage(
                        then_block,
                        stmt.consequent.loc,
                        ctx,
                        depth,
                        filename,
                    ) {
                        Err(err) => Err(err),
                        Ok(then_usage) => match block_usage(
                            else_block,
                            alternate.loc,
                            ctx,
                            depth,
                            filename,
                        ) {
                            Err(err) => Err(err),
                            Ok(else_usage) => Ok(merge(test, merge(then_usage, else_usage))),
                        },
                    },
                },
                _ => Err(restriction_error(loc, filename, MSG_IF_ALTERNATE)),
            },
            None => Err(restriction_error(loc, filename, MSG_IF_NO_ALTERNATE)),
        },
        _ => Err(restriction_error(loc, filename, MSG_IF_CONSEQUENT)),
    }
}

/// The usages of the declaration of a function that is not direct: what the
/// function hands to the scope around it, and after it the assignment to
/// the variable that the declaration declares.
#[verifier::opaque]
pub open spec fn func_decl_usage(
    decl: FunctionDeclaration,
    loc: Option<Span>,
    ctx: NameCtxView,
    depth: usize,
    filename: Option<Seq<char>>,
) -> Outcome<UsageView>
    decreases decl, 0int,
{
    match function_usage(decl.function, loc, ctx, depth, filename) {
        Err(err) => Err(err),
        Ok(rhs) => match decl.id.kind {
            NodeKind::Identifier(id) => assigned_usage(rhs, ctx, id.name@, decl.id.loc, filename),
            _ => Err(shape_error(decl.id.loc, filename, MSG_ID_HERE)),
        },
    }
}

/// The usages of the declaration of a direct function: none. It is an error
/// where the function uses a variable of a scope around it that is no
/// global.
#[verifier::opaque]
pub open spec fn direct_func_decl_usage(
    decl: FunctionDeclaration,
    constraint: Option<Seq<char>>,
    loc: Option<Span>,
    ctx: NameCtxView,
    depth: usize,
    filename: Option<Seq<char>>,
) -> Outcome<UsageView>
    decreases decl, 0int,
{
    match function_usage(decl.function, loc, ctx, depth, filename) {
        Err(err) => Err(err),
        Ok(rhs) => match decl.id.kind {
            NodeKind::Identifier(id) => match spec_direct_type(
                decl.function.params@,
                loc,
                constraint_attr(constraint),
                filename,
            ) {
                Err(err) => Err(err),
                Ok(_) => if rhs.len() != 0 {
                    Err(
                        program_error(
                            loc,
                            filename,
                            ParseProgramErrorView::DirectFunctionCaptureError,
                        ),
                    )
                } else {
                    Ok(rhs)
                },
            },
            _ => Err(shape_error(decl.id.loc, filename, MSG_ID_HERE)),
        },
    }
}

/// The usages of the declarators from position `at` on, after declarators
/// with the usages `so_far`. Each declarator evaluates its initializer,
/// which it must have, and then modifies its variable; the elements of an
/// array are each followed by that modification.
#[verifier::opaque]
pub open spec fn declarators_usage(
    declarations: Seq<Node>,
    at: int,
    so_far: UsageView,
    ctx: NameCtxView,
    depth: usize,
    filename: Option<Seq<char>>,
) -> Outcome<UsageView>
    decreases declarations, declarations.len() - at,
{
    if at < 0 || at >= declarations.len() {
        Ok(so_far)
    } else {
        match declarator_usage(declarations[at], ctx, depth, filename) {
            Err(err) => Err(err),
            Ok(usage) => declarators_usage(
                declarations,
                at + 1,
                merge(so_far, usage),
                ctx,
                depth,
                filename,
            ),
        }
    }
}

/// The usages of one declarator.
#[verifier::opaque]
pub open spec fn declarator_usage(
    decl: Node,
    ctx: NameCtxView,
    depth: usize,
    filename: Option<Seq<char>>,
) -> Outcome<UsageView>
    decreases decl, 0int,
{
    match decl.kind {
        NodeKind::VariableDeclarator(d) => match d.id.kind {
            NodeKind::Identifier(id) => match d.init {
                Some(init) => match init.kind {
                    NodeKind::ArrayExpression(array) => match elements_usage(
                        array.elements@,
                        0,
                        None,
                        id.name@,
                        d.id.loc,
                        ctx,
                        depth,
                        filename,
                    ) {
                        Err(err) => Err(err),
                        Ok(Some(usage)) => Ok(usage),
                        Ok(None) => Err(restriction_error(decl.loc, filename, MSG_EMPTY_ARRAY)),
                    },
                    _ => match expr_usage(*init, ctx, depth, filename) {
                        Err(err) => Err(err),
                        Ok(rhs) => assigned_usage(rhs, ctx, id.name@, d.id.loc, filename),
                    },
                },
                None => Err(restriction_error(decl.loc, filename, MSG_INITIALIZER)),
            },
            _ => Err(shape_error(d.id.loc, filename, MSG_ID_HERE)),
        },
        _ => Err(shape_error(decl.loc, filename, MSG_DECLARATOR_CHILD)),
    }
}

/// What the specifiers of an import or of an export from position `at` on
/// need: each must be a specifier (of an export where `export` holds, else
/// of an import) whose local name is an identifier that is in scope.
#[verifier::opaque]
pub open spec fn specifiers_resolved(
    specifiers: Seq<Node>,
    at: int,
    export: bool,
    ctx: NameCtxView,
    filename: Option<Seq<char>>,
) -> Outcome<()>
    decreases specifiers.len() - at,
{
    if at < 0 || at >= specifiers.len() {
        Ok(())
    } else {
        let local = match specifiers[at].kind {
            NodeKind::ImportSpecifier(spec) => if export {
                None
            } else {
                Some(*spec.local)
            },
            NodeKind::ExportSpecifier(spec) => if export {
                Some(*spec.local)
            } else {
                None
            },
            _ => None,
        };
        match local {
            None => Err(
                shape_error(
                    specifiers[at].loc,
                    filename,
                    if export {
                        MSG_EXPORT_SPECIFIER_ONLY
                    } else {
                        MSG_IMPORT_SPECIFIER_ONLY
                    },
                ),
            ),
            Some(node) => match node.kind {
                NodeKind::Identifier(id) => match resolve(ctx, id.name@) {
                    Some(_) => specifiers_resolved(specifiers, at + 1, export, ctx, filename),
                    None => Err(
                        program_error(
                            node.loc,
                            filename,
                            ParseProgramErrorView::UndeclaredNameError(id.name@),
                        ),
                    ),
                },
                _ => Err(
                    shape_error(
                        node.loc,
                        filename,
                        if export {
                            MSG_EXPORT_LOCAL
                        } else {
                            MSG_IMPORT_LOCAL
                        },
                    ),
                ),
            },
        }
    }
}

/// The usages of a statement with the given attributes.
///
/// The attribute `direct` is allowed on function declarations and nowhere
/// else. Imports and exports are allowed at the top of a module and nowhere
/// else; they use nothing.
#[verifier::opaque]
pub open spec fn stmt_usage(
    node: Node,
    attrs: AttributesView,
    ctx: NameCtxView,
    depth: usize,
    filename: Option<Seq<char>>,
) -> Outcome<UsageView>
    decreases node, 0int,
{
    match statement_attributes(attrs, node.loc, filename) {
        Err(err) => Err(err),
        Ok(sa) => if sa.is_direct {
            match node.kind {
                NodeKind::FunctionDeclaration(decl) => direct_func_decl_usage(
                    decl,
                    sa.constraint,
                    node.loc,
                    ctx,
                    depth,
                    filename,
                ),
                _ => Err(content_error(node.loc, filename, MSG_DIRECT_ONLY_ON_FUNCTION)),
            }
        } else {
            match node.kind {
                NodeKind::ExpressionStatement(stmt) => expr_statement_usage(
                    stmt,
                    ctx,
                    depth,
                    filename,
                ),
                NodeKind::BlockStatement(block) => block_usage(
                    block,
                    node.loc,
                    ctx,
                    depth,
                    filename,
                ),
                NodeKind::ReturnStatement(stmt) => return_usage(
                    stmt,
                    node.loc,
                    ctx,
                    depth,
                    filename,
                ),
                NodeKind::IfStatement(stmt) => if_usage(stmt, node.loc, ctx, depth, filename),
                NodeKind::FunctionDeclaration(decl) => func_decl_usage(
                    decl,
                    node.loc,
                    ctx,
                    depth,
                    filename,
                ),
                NodeKind::VariableDeclaration(decl) => declarators_usage(
                    decl.declarations@,
                    0,
                    UsageView::empty(),
                    ctx,
                    depth,
                    filename,
                ),
                NodeKind::EmptyStatement
                | NodeKind::DebuggerStatement
                | NodeKind::WithStatement
                | NodeKind::LabeledStatement
                | NodeKind::BreakStatement
                | NodeKind::ContinueStatement => Err(
                    shape_error(node.loc, filename, MSG_STATEMENT_NOT_ALLOWED),
                ),
                NodeKind::ImportDeclaration(decl) => if depth == 0 {
                    match specifiers_resolved(decl.specifiers@, 0, false, ctx, filename) {
                        Err(err) => Err(err),
                        Ok(_) => Ok(UsageView::empty()),
                    }
                } else {
                    Err(shape_error(node.loc, filename, MSG_IN_BLOCK))
                },
                NodeKind::ExportNamedDeclaration(decl) => if depth == 0 {
                    match specifiers_resolved(decl.specifiers@, 0, true, ctx, filename) {
                        Err(err) => Err(err),
                        Ok(_) => Ok(UsageView::empty()),
                    }
                } else {
                    Err(shape_error(node.loc, filename, MSG_IN_BLOCK))
                },
                _ => if depth == 0 {
                    Err(shape_error(node.loc, filename, MSG_TOP_LEVEL))
                } else {
                    Err(shape_error(node.loc, filename, MSG_IN_BLOCK))
                },
            }
        },
    }
}

/// What the statements at the top of a module from position `at` on need:
/// each must be a statement that uses no variable but globals.
pub open spec fn program_statements(
    body: Seq<Node>,
    at: int,
    ctx: NameCtxView,
    filename: Option<Seq<char>>,
) -> Outcome<()>
    decreases body.len() - at,
{
    match spec_next_attributed(body, at, filename) {
        Err(err) => Err(err),
        Ok(AttributedStep::End) => Ok(()),
        Ok(AttributedStep::Item { index, attrs, next }) => if at < next <= body.len() && 0 <= index
            < body.len() {
            match stmt_usage(body[index], attrs, ctx, 0, filename) {
                Err(err) => Err(err),
                Ok(usage) => if usage.len() != 0 {
                    Err(shape_error(body[index].loc, filename, MSG_GLOBAL_USAGE))
                } else {
                    program_statements(body, next, ctx, filename)
                },
            }
        } else {
            Ok(())
        },
    }
}

/// What the analysis of a module gives: the names that the module exports,
/// each with what it stands for, and the next free index for a global after
/// those of the module. The names that the module declares and imports are
/// in scope in all of it, on top of the names in `ctx`.
pub open spec fn program_exports(
    body: Seq<Node>,
    ctx: NameCtxView,
    import_ctx: Seq<crate::frontendvar::VarCtxView>,
    start_idx: usize,
    filename: Option<Seq<char>>,
) -> Outcome<(crate::frontendvar::VarCtxView, usize)> {
    match crate::func::decls::spec_validate_and_extract_imports_and_decls(
        body,
        import_ctx,
        start_idx,
        filename,
    ) {
        Err(err) => Err(err),
        Ok(top) => match program_statements(body, 0, ctx + top.decls, filename) {
            Err(err) => Err(err),
            Ok(_) => Ok((top.exports, top.next_idx)),
        },
    }
}

/// What a function holds after its analysis: the indices of those of its
/// variables that have their address taken, and the variables of the scopes
/// around that it uses, both in the order of locations. The parameters are
/// as they were.
pub open spec fn function_annotated(
    before: Function,
    after: Function,
    loc: Option<Span>,
    ctx: NameCtxView,
    depth: usize,
    filename: Option<Seq<char>>,
) -> bool {
    match function_body_usage(before, loc, ctx, depth, filename) {
        Ok(usage) => {
            &&& after.params == before.params
            &&& after.address_taken_vars@ == crate::varusage::taken_indices(
                usage,
                inner_depth(depth),
            )
            &&& after.captured_vars@ == crate::varusage::keys_of(
                outer_part(usage, inner_depth(depth)),
            )
        },
        Err(_) => false,
    }
}

/// What a block holds after its analysis: the indices of those of its
/// variables that have their address taken, in the order of locations.
pub open spec fn block_annotated(
    before: BlockStatement,
    after: BlockStatement,
    loc: Option<Span>,
    ctx: NameCtxView,
    depth: usize,
    filename: Option<Seq<char>>,
) -> bool {
    match block_body_usage(before, loc, ctx, depth, filename) {
        Ok(usage) => {
            &&& after.body@.len() == before.body@.len()
            &&& after.address_taken_vars@ == crate::varusage::taken_indices(
                usage,
                inner_depth(depth),
            )
        },
        Err(_) => false,
    }
}

/// The variables that a function uses of the scopes around it are the
/// variables that it hands to the scope around it, each with its address
/// taken.
pub proof fn law_captured_address_taken(
    before: Function,
    after: Function,
    loc: Option<Span>,
    ctx: NameCtxView,
    depth: usize,
    filename: Option<Seq<char>>,
)
    requires
        function_annotated(before, after, loc, ctx, depth, filename),
    ensures
        function_usage(before, loc, ctx, depth, filename) is Ok,
        ({
            let handed = function_usage(before, loc, ctx, depth, filename)->Ok_0;
            &&& handed.len() == after.captured_vars@.len()
            &&& forall|i: int|
                0 <= i < handed.len() ==> (#[trigger] handed[i]).0 == after.captured_vars@[i]
                    && handed[i].1 == Usage::AddressTaken
        }),
{
    reveal(function_usage);
    reveal(function_body_usage);
}

/// A function declaration with the attribute `direct` has an environment
/// of its own only: where the function uses a variable of a scope around
/// it (a global does not count), the statement is refused with the capture
/// error at its place; where it uses none, the statement uses nothing.
pub proof fn law_direct_function_captures_nothing(
    node: Node,
    attrs: AttributesView,
    ctx: NameCtxView,
    depth: usize,
    filename: Option<Seq<char>>,
)
    requires
        node.kind is FunctionDeclaration,
        node.kind->FunctionDeclaration_0.id.kind is Identifier,
        statement_attributes(attrs, node.loc, filename) matches Ok(sa) && sa.is_direct
            && crate::func::decls::spec_direct_type(
            node.kind->FunctionDeclaration_0.function.params@,
            node.loc,
            constraint_attr(sa.constraint),
            filename,
        ) is Ok,
        function_usage(node.kind->FunctionDeclaration_0.function, node.loc, ctx, depth, filename) is Ok,
    ensures
        ({
            let handed = function_usage(
                node.kind->FunctionDeclaration_0.function,
                node.loc,
                ctx,
                depth,
                filename,
            )->Ok_0;
            stmt_usage(node, attrs, ctx, depth, filename) == if handed.len() != 0 {
                Err::<UsageView, ProgramErrorView>(
                    program_error(
                        node.loc,
                        filename,
                        ParseProgramErrorView::DirectFunctionCaptureError,
                    ),
                )
            } else {
                Ok::<UsageView, ProgramErrorView>(UsageView::empty())
            }
        }),
{
    reveal(stmt_usage);
    reveal(direct_func_decl_usage);
    reveal(function_usage);
    reveal(crate::func::decls::spec_direct_type);
    let handed = function_usage(
        node.kind->FunctionDeclaration_0.function,
        node.loc,
        ctx,
        depth,
        filename,
    )->Ok_0;
    let decl = node.kind->FunctionDeclaration_0;
    let sa = statement_attributes(attrs, node.loc, filename)->Ok_0;
    assert(node.kind == NodeKind::FunctionDeclaration(decl));
    assert(stmt_usage(node, attrs, ctx, depth, filename) == direct_func_decl_usage(
        decl,
        sa.constraint,
        node.loc,
        ctx,
        depth,
        filename,
    ));
    if handed.len() == 0 {
        assert(handed =~= UsageView::empty());
    }
}

} // verus!
