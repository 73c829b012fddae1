//! Captures in expressions.

use vstd::prelude::*;
use crate::attributes::{spec_next_attributed, AttributedStep, AttributesView};
use crate::estree::{BlockStatement, Function, Node, NodeKind};
use crate::frontendvar::{NameCtxView, VarLocId};
use crate::func::decls::{spec_validate_and_extract_decls, spec_validate_and_extract_params};
use crate::func::usage_spec::{
    assigned_usage, block_annotated, block_body_usage, block_usage, declarator_usage,
    declarators_usage, direct_func_decl_usage, elements_usage, expr_statement_usage, expr_usage,
    exprs_usage, func_decl_usage, function_annotated, function_body_usage, function_usage,
    if_usage, inner_depth, param_decls, params_usage, return_usage, statement_attributes,
    stmt_usage, stmts_usage, use_of,
};
use crate::log::Span;
use crate::varusage::{
    keys_of, lemma_merge_taken, lemma_outer_part_mentions, lemma_wrapped_taken,
    law_split_off_partitions, mentions, merge, outer_part, reports, taken, taken_indices, wrapped,
    Usage, UsageView,
};

use crate::func::capture_spec::{expr_captures, exprs_capture, function_captures, function_body_captures, block_captures, stmts_capture, declarators_capture, stmt_captures, taken_iff};
use crate::func::capture_laws_function::{law_function_taken};

verus! {

/// Giving a value to a variable takes the address of nothing.
pub proof fn lemma_assigned_taken(
    rhs: UsageView,
    ctx: NameCtxView,
    name: Seq<char>,
    loc: Option<Span>,
    filename: Option<Seq<char>>,
    v: VarLocId,
)
    requires
        assigned_usage(rhs, ctx, name, loc, filename) is Ok,
    ensures
        taken(assigned_usage(rhs, ctx, name, loc, filename)->Ok_0, v) <==> taken(rhs, v),
{
    match crate::frontendvar::resolve(ctx, name) {
        Some(crate::frontendvar::PreVar::Target(t)) => {
            if t.depth != 0 {
                let one = seq![(t, Usage::UsedAndModified)];
                lemma_merge_taken(rhs, one, v);
                assert(!taken(one, v)) by {
                    if taken(one, v) {
                        let i = choose|i: int| 0 <= i < one.len() && one[i] == (v, Usage::AddressTaken);
                    }
                }
            }
        },
        _ => {},
    }
}

/// The address of a variable is taken in the usages of an expression
/// exactly where a function in the expression uses it.
pub proof fn law_expr_taken(e: Node, ctx: NameCtxView, depth: usize, filename: Option<Seq<char>>, v: VarLocId)
    requires
        expr_usage(e, ctx, depth, filename) is Ok,
    ensures
        taken_iff(
            expr_usage(e, ctx, depth, filename)->Ok_0,
            expr_captures(e, ctx, depth, filename, v),
            depth,
            v,
        ),
    decreases e, 0int,
{
    reveal(expr_usage);
    reveal(expr_captures);
    reveal(function_usage);
    reveal(function_captures);
    reveal(exprs_usage);
    reveal(exprs_capture);
    let usage = expr_usage(e, ctx, depth, filename)->Ok_0;
    match e.kind {
        NodeKind::Identifier(id) => {
            let one = use_of(crate::frontendvar::resolve(ctx, id.name@)->0);
            if taken(one, v) {
                let i = choose|i: int| 0 <= i < one.len() && one[i] == (v, Usage::AddressTaken);
            }
        },
        NodeKind::Literal(_) => {
            assert(!taken(UsageView::empty(), v));
        },
        NodeKind::ArrowFunctionExpression(arrow) => {
            law_function_taken(arrow.function, e.loc, ctx, depth, filename, v);
        },
        NodeKind::UnaryExpression(unary) => {
            law_expr_taken(*unary.argument, ctx, depth, filename, v);
        },
        NodeKind::BinaryExpression(binary) => {
            law_expr_taken(*binary.left, ctx, depth, filename, v);
            law_expr_taken(*binary.right, ctx, depth, filename, v);
            lemma_merge_taken(
                expr_usage(*binary.left, ctx, depth, filename)->Ok_0,
                expr_usage(*binary.right, ctx, depth, filename)->Ok_0,
                v,
            );
        },
        NodeKind::LogicalExpression(logical) => {
            law_expr_taken(*logical.left, ctx, depth, filename, v);
            law_expr_taken(*logical.right, ctx, depth, filename, v);
            lemma_merge_taken(
                expr_usage(*logical.left, ctx, depth, filename)->Ok_0,
                expr_usage(*logical.right, ctx, depth, filename)->Ok_0,
                v,
            );
        },
        NodeKind::ConditionalExpression(cond) => {
            law_expr_taken(*cond.test, ctx, depth, filename, v);
            law_expr_taken(*cond.consequent, ctx, depth, filename, v);
            law_expr_taken(*cond.alternate, ctx, depth, filename, v);
            let t = expr_usage(*cond.test, ctx, depth, filename)->Ok_0;
            let c = expr_usage(*cond.consequent, ctx, depth, filename)->Ok_0;
            let a = expr_usage(*cond.alternate, ctx, depth, filename)->Ok_0;
            lemma_merge_taken(c, a, v);
            lemma_merge_taken(t, merge(c, a), v);
        },
        NodeKind::CallExpression(call) => {
            law_expr_taken(*call.callee, ctx, depth, filename, v);
            let callee = expr_usage(*call.callee, ctx, depth, filename)->Ok_0;
            law_exprs_taken(call.arguments@, 0, callee, ctx, depth, filename, v);
        },
        _ => {},
    }
}

/// The address of a variable is taken in the usages of a list of
/// expressions exactly where it was taken before, or a function in one of
/// the expressions uses it.
pub proof fn law_exprs_taken(
    exprs: Seq<Node>,
    at: int,
    so_far: UsageView,
    ctx: NameCtxView,
    depth: usize,
    filename: Option<Seq<char>>,
    v: VarLocId,
)
    requires
        exprs_usage(exprs, at, so_far, ctx, depth, filename) is Ok,
    ensures
        ({
            let usage = exprs_usage(exprs, at, so_far, ctx, depth, filename)->Ok_0;
            let captured = exprs_capture(exprs, at, ctx, depth, filename, v);
            &&& taken(usage, v) ==> taken(so_far, v) || captured
            &&& taken(so_far, v) ==> taken(usage, v)
            &&& captured && v.depth <= depth ==> taken(usage, v)
        }),
    decreases exprs, exprs.len() - at,
{
    reveal(exprs_usage);
    reveal(exprs_capture);
    reveal(expr_usage);
    reveal(expr_captures);
    if at < 0 || at >= exprs.len() {
    } else {
        law_expr_taken(exprs[at], ctx, depth, filename, v);
        let here = expr_usage(exprs[at], ctx, depth, filename)->Ok_0;
        lemma_merge_taken(so_far, here, v);
        law_exprs_taken(exprs, at + 1, merge(so_far, here), ctx, depth, filename, v);
    }
}

} // verus!
