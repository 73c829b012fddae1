//! Captures in blocks and lists of statements.

use vstd::prelude::*;
use crate::attributes::{spec_next_attributed, AttributedStep, AttributesView};
use crate::estree::{BlockStatement, Function, Node, NodeKind};
use crate::frontendvar::{NameCtxView, VarLocId};
use crate::func::decls::{spec_validate_and_extract_decls, spec_validate_and_extract_params};
use crate::func::usage_spec::{
    assigned_usage, block_annotated, block_body_usage, block_usage, declarator_usage,
    declarators_usage, direct_func_decl_usage, elements_usage, expr_statement_usage, expr_usage,
    exprs_usage, func_decl_usage, function_annotated, function_body_usage, function_usage,
    if_usage, inner_depth, param_decls, params_usage, return_usage, statement_attributes,
    stmt_usage, stmts_usage, use_of,
};
use crate::log::Span;
use crate::varusage::{
    keys_of, lemma_merge_taken, lemma_outer_part_mentions, lemma_wrapped_taken,
    law_split_off_partitions, mentions, merge, outer_part, reports, taken, taken_indices, wrapped,
    Usage, UsageView,
};

use crate::func::capture_spec::{expr_captures, exprs_capture, function_captures, function_body_captures, block_captures, stmts_capture, declarators_capture, stmt_captures, taken_iff};
use crate::func::capture_laws::{law_stmt_taken};

verus! {

/// The address of a variable is taken in the usages of a list of
/// statements exactly where it was taken before, or a function in one of
/// the statements uses it.
pub proof fn law_stmts_taken(
    body: Seq<Node>,
    at: int,
    so_far: UsageView,
    ctx: NameCtxView,
    depth: usize,
    filename: Option<Seq<char>>,
    v: VarLocId,
)
    requires
        stmts_usage(body, at, so_far, ctx, depth, filename) is Ok,
    ensures
        ({
            let usage = stmts_usage(body, at, so_far, ctx, depth, filename)->Ok_0;
            let captured = stmts_capture(body, at, ctx, depth, filename, v);
            &&& taken(usage, v) ==> taken(so_far, v) || captured
            &&& taken(so_far, v) ==> taken(usage, v)
            &&& captured && v.depth <= depth ==> taken(usage, v)
        }),
    decreases body, body.len() - at,
{
    reveal(stmts_usage);
    reveal(stmts_capture);
    reveal(stmt_usage);
    reveal(stmt_captures);
    match spec_next_attributed(body, at, filename) {
        Ok(AttributedStep::Item { index, attrs, next }) => {
            if at < next <= body.len() && 0 <= index < body.len() {
                law_stmt_taken(body[index], attrs, ctx, depth, filename, v);
                let here = stmt_usage(body[index], attrs, ctx, depth, filename)->Ok_0;
                lemma_merge_taken(so_far, here, v);
                law_stmts_taken(body, next, merge(so_far, here), ctx, depth, filename, v);
            }
        },
        _ => {},
    }
}

/// The address of a variable is taken in the usages of a block exactly
/// where a function in the block uses it.
pub proof fn law_block_taken(
    block: BlockStatement,
    loc: Option<Span>,
    ctx: NameCtxView,
    depth: usize,
    filename: Option<Seq<char>>,
    v: VarLocId,
)
    requires
        block_usage(block, loc, ctx, depth, filename) is Ok,
    ensures
        taken_iff(
            block_usage(block, loc, ctx, depth, filename)->Ok_0,
            block_captures(block, ctx, depth, filename, v),
            depth,
            v,
        ),
    decreases block, 1int,
{
    reveal(block_usage);
    reveal(block_body_usage);
    reveal(block_captures);
    reveal(stmts_usage);
    reveal(stmts_capture);
    let inner = inner_depth(depth);
    let decls = spec_validate_and_extract_decls(block.body@, inner, 0, filename)->Ok_0.0;
    law_stmts_taken(block.body@, 0, UsageView::empty(), ctx + decls, inner, filename, v);
    let body = block_body_usage(block, loc, ctx, depth, filename)->Ok_0;
    lemma_outer_part_mentions(body, inner, v);
    assert(!taken(UsageView::empty(), v));
}

} // verus!
