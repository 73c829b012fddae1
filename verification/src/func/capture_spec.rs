//! Which functions use a variable: the mathematical definition of what it
//! is for a function in a stretch of a program to use a variable.

use vstd::prelude::*;
use crate::attributes::{spec_next_attributed, AttributedStep, AttributesView};
use crate::estree::{BlockStatement, Function, Node, NodeKind};
use crate::frontendvar::{NameCtxView, VarLocId};
use crate::func::decls::{spec_validate_and_extract_decls, spec_validate_and_extract_params};
use crate::func::usage_spec::{
    assigned_usage, block_annotated, block_body_usage, block_usage, declarator_usage,
    declarators_usage, direct_func_decl_usage, elements_usage, expr_statement_usage, expr_usage,
    exprs_usage, func_decl_usage, function_annotated, function_body_usage, function_usage,
    if_usage, inner_depth, param_decls, params_usage, return_usage, statement_attributes,
    stmt_usage, stmts_usage, use_of,
};
use crate::log::Span;
use crate::varusage::{
    keys_of, lemma_merge_taken, lemma_outer_part_mentions, lemma_wrapped_taken,
    law_split_off_partitions, mentions, merge, outer_part, reports, taken, taken_indices, wrapped,
    Usage, UsageView,
};

verus! {

/// Whether a function in the expression uses the variable.
#[verifier::opaque]
pub open spec fn expr_captures(
    e: Node,
    ctx: NameCtxView,
    depth: usize,
    filename: Option<Seq<char>>,
    v: VarLocId,
) -> bool
    decreases e, 0int,
{
    match e.kind {
        NodeKind::ArrowFunctionExpression(arrow) => function_captures(
            arrow.function,
            e.loc,
            ctx,
            depth,
            filename,
            v,
        ),
        NodeKind::UnaryExpression(unary) => expr_captures(*unary.argument, ctx, depth, filename, v),
        NodeKind::BinaryExpression(binary) => expr_captures(*binary.left, ctx, depth, filename, v)
            || expr_captures(*binary.right, ctx, depth, filename, v),
        NodeKind::LogicalExpression(logical) => expr_captures(
            *logical.left,
            ctx,
            depth,
            filename,
            v,
        ) || expr_captures(*logical.right, ctx, depth, filename, v),
        NodeKind::ConditionalExpression(cond) => expr_captures(*cond.test, ctx, depth, filename, v)
            || expr_captures(*cond.consequent, ctx, depth, filename, v) || expr_captures(
            *cond.alternate,
            ctx,
            depth,
            filename,
            v,
        ),
        NodeKind::CallExpression(call) => expr_captures(*call.callee, ctx, depth, filename, v)
            || exprs_capture(call.arguments@, 0, ctx, depth, filename, v),
        _ => false,
    }
}

/// Whether a function in one of the expressions from position `at` on uses
/// the variable.
#[verifier::opaque]
pub open spec fn exprs_capture(
    exprs: Seq<Node>,
    at: int,
    ctx: NameCtxView,
    depth: usize,
    filename: Option<Seq<char>>,
    v: VarLocId,
) -> bool
    decreases exprs, exprs.len() - at,
{
    if at < 0 || at >= exprs.len() {
        false
    } else {
        expr_captures(exprs[at], ctx, depth, filename, v) || exprs_capture(
            exprs,
            at + 1,
            ctx,
            depth,
            filename,
            v,
        )
    }
}

/// Whether the function, or a function in it, uses the variable, which is
/// a variable of a scope around the function that uses it.
#[verifier::opaque]
pub open spec fn function_captures(
    f: Function,
    loc: Option<Span>,
    ctx: NameCtxView,
    depth: usize,
    filename: Option<Seq<char>>,
    v: VarLocId,
) -> bool
    decreases f, 1int,
{
    let inner = inner_depth(depth);
    ||| match function_body_usage(f, loc, ctx, depth, filename) {
        Ok(usage) => mentions(outer_part(usage, inner), v),
        Err(_) => false,
    }
    ||| function_body_captures(f, ctx, depth, filename, v)
}

/// Whether a function in the body of the function uses the variable.
#[verifier::opaque]
pub open spec fn function_body_captures(
    f: Function,
    ctx: NameCtxView,
    depth: usize,
    filename: Option<Seq<char>>,
    v: VarLocId,
) -> bool
    decreases f, 0int,
{
    let inner = inner_depth(depth);
    match spec_validate_and_extract_params(f.params@, inner, filename) {
        Ok(params) => match f.body.kind {
            NodeKind::BlockStatement(block) => match spec_validate_and_extract_decls(
                block.body@,
                inner,
                params.len() as usize,
                filename,
            ) {
                Ok((decls, _)) => stmts_capture(
                    block.body@,
                    0,
                    ctx + param_decls(params) + decls,
                    inner,
                    filename,
                    v,
                ),
                Err(_) => false,
            },
            _ => expr_captures(*f.body, ctx + param_decls(params), inner, filename, v),
        },
        Err(_) => false,
    }
}

/// Whether a function in the block uses the variable.
#[verifier::opaque]
pub open spec fn block_captures(
    block: BlockStatement,
    ctx: NameCtxView,
    depth: usize,
    filename: Option<Seq<char>>,
    v: VarLocId,
) -> bool
    decreases block, 0int,
{
    let inner = inner_depth(depth);
    match spec_validate_and_extract_decls(block.body@, inner, 0, filename) {
        Ok((decls, _)) => stmts_capture(block.body@, 0, ctx + decls, inner, filename, v),
        Err(_) => false,
    }
}

/// Whether a function in one of the statements from position `at` on uses
/// the variable.
#[verifier::opaque]
pub open spec fn stmts_capture(
    body: Seq<Node>,
    at: int,
    ctx: NameCtxView,
    depth: usize,
    filename: Option<Seq<char>>,
    v: VarLocId,
) -> bool
    decreases body, body.len() - at,
{
    match spec_next_attributed(body, at, filename) {
        Ok(AttributedStep::Item { index, attrs, next }) => if at < next <= body.len() && 0 <= index
            < body.len() {
            stmt_captures(body[index], attrs, ctx, depth, filename, v) || stmts_capture(
                body,
                next,
                ctx,
                depth,
                filename,
                v,
            )
        } else {
            false
        },
        _ => false,
    }
}

/// Whether a function in the initializer of the declarator uses the
/// variable.
#[verifier::opaque]
pub open spec fn declarator_captures(
    decl: Node,
    ctx: NameCtxView,
    depth: usize,
    filename: Option<Seq<char>>,
    v: VarLocId,
) -> bool
    decreases decl, 0int,
{
    match decl.kind {
        NodeKind::VariableDeclarator(d) => match d.init {
            Some(init) => match init.kind {
                NodeKind::ArrayExpression(array) => exprs_capture(
                    array.elements@,
                    0,
                    ctx,
                    depth,
                    filename,
                    v,
                ),
                _ => expr_captures(*init, ctx, depth, filename, v),
            },
            None => false,
        },
        _ => false,
    }
}

/// Whether a function in one of the declarators from position `at` on uses
/// the variable.
#[verifier::opaque]
pub open spec fn declarators_capture(
    declarations: Seq<Node>,
    at: int,
    ctx: NameCtxView,
    depth: usize,
    filename: Option<Seq<char>>,
    v: VarLocId,
) -> bool
    decreases declarations, declarations.len() - at,
{
    if at < 0 || at >= declarations.len() {
        false
    } else {
        declarator_captures(declarations[at], ctx, depth, filename, v) || declarators_capture(
            declarations,
            at + 1,
            ctx,
            depth,
            filename,
            v,
        )
    }
}

/// Whether a function in the statement, which has the given attributes,
/// uses the variable.
#[verifier::opaque]
pub open spec fn stmt_captures(
    node: Node,
    attrs: AttributesView,
    ctx: NameCtxView,
    depth: usize,
    filename: Option<Seq<char>>,
    v: VarLocId,
) -> bool
    decreases node, 0int,
{
    match statement_attributes(attrs, node.loc, filename) {
        Err(_) => false,
        Ok(sa) => match node.kind {
            NodeKind::FunctionDeclaration(decl) => function_captures(
                decl.function,
                node.loc,
                ctx,
                depth,
                filename,
                v,
            ),
            NodeKind::ExpressionStatement(stmt) => !sa.is_direct && match stmt.expression.kind {
                NodeKind::AssignmentExpression(assign) => expr_captures(
                    *assign.right,
                    ctx,
                    depth,
                    filename,
                    v,
                ),
                _ => expr_captures(*stmt.expression, ctx, depth, filename, v),
            },
            NodeKind::BlockStatement(block) => !sa.is_direct && block_captures(
                block,
                ctx,
                depth,
                filename,
                v,
            ),
            NodeKind::ReturnStatement(stmt) => !sa.is_direct && match stmt.argument {
                Some(argument) => expr_captures(*argument, ctx, depth, filename, v),
                None => false,
            },
            NodeKind::IfStatement(stmt) => !sa.is_direct && (expr_captures(
                *stmt.test,
                ctx,
                depth,
                filename,
                v,
            ) || (match stmt.consequent.kind {
                NodeKind::BlockStatement(block) => block_captures(block, ctx, depth, filename, v),
                _ => false,
            }) || (match stmt.alternate {
                Some(alternate) => match alternate.kind {
                    NodeKind::BlockStatement(block) => block_captures(
                        block,
                        ctx,
                        depth,
                        filename,
                        v,
                    ),
                    _ => false,
                },
                None => false,
            })),
            NodeKind::VariableDeclaration(decl) => !sa.is_direct && declarators_capture(
                decl.declarations@,
                0,
                ctx,
                depth,
                filename,
                v,
            ),
            _ => false,
        },
    }
}

/// Whether the usages say that the address of the variable is taken
/// exactly where `captured` holds, for a variable that is in scope at the
/// given depth; and only where `captured` holds, for any variable.
pub open spec fn taken_iff(usage: UsageView, captured: bool, depth: usize, v: VarLocId) -> bool {
    &&& taken(usage, v) ==> captured
    &&& captured && v.depth <= depth ==> taken(usage, v)
}

} // verus!
