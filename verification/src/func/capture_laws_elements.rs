//! Captures in the elements of arrays.

use vstd::prelude::*;
use crate::attributes::{spec_next_attributed, AttributedStep, AttributesView};
use crate::estree::{BlockStatement, Function, Node, NodeKind};
use crate::frontendvar::{NameCtxView, VarLocId};
use crate::func::decls::{spec_validate_and_extract_decls, spec_validate_and_extract_params};
use crate::func::usage_spec::{
    assigned_usage, block_annotated, block_body_usage, block_usage, declarator_usage,
    declarators_usage, direct_func_decl_usage, elements_usage, expr_statement_usage, expr_usage,
    exprs_usage, func_decl_usage, function_annotated, function_body_usage, function_usage,
    if_usage, inner_depth, param_decls, params_usage, return_usage, statement_attributes,
    stmt_usage, stmts_usage, use_of,
};
use crate::log::Span;
use crate::varusage::{
    keys_of, lemma_merge_taken, lemma_outer_part_mentions, lemma_wrapped_taken,
    law_split_off_partitions, mentions, merge, outer_part, reports, taken, taken_indices, wrapped,
    Usage, UsageView,
};

use crate::func::capture_spec::{expr_captures, exprs_capture, function_captures, function_body_captures, block_captures, stmts_capture, declarators_capture, stmt_captures, taken_iff};
use crate::func::capture_laws_expr::{lemma_assigned_taken, law_expr_taken};

verus! {

/// The address of a variable is taken in the usages of the elements of an
/// array exactly where it was taken before, or a function in one of the
/// elements uses it.
pub proof fn law_elements_taken(
    elements: Seq<Node>,
    at: int,
    so_far: Option<UsageView>,
    name: Seq<char>,
    loc: Option<Span>,
    ctx: NameCtxView,
    depth: usize,
    filename: Option<Seq<char>>,
    v: VarLocId,
)
    requires
        elements_usage(elements, at, so_far, name, loc, ctx, depth, filename) is Ok,
    ensures
        ({
            let result = elements_usage(elements, at, so_far, name, loc, ctx, depth, filename)->Ok_0;
            let captured = exprs_capture(elements, at, ctx, depth, filename, v);
            let before = so_far matches Some(u) && taken(u, v);
            let after = result matches Some(u) && taken(u, v);
            &&& after ==> before || captured
            &&& before ==> after
            &&& captured && v.depth <= depth ==> after
        }),
    decreases elements, elements.len() - at,
{
    reveal(elements_usage);
    reveal(exprs_capture);
    reveal(expr_usage);
    reveal(expr_captures);
    if at < 0 || at >= elements.len() {
    } else {
        law_expr_taken(elements[at], ctx, depth, filename, v);
        let here = expr_usage(elements[at], ctx, depth, filename)->Ok_0;
        lemma_assigned_taken(here, ctx, name, loc, filename, v);
        let assigned = assigned_usage(here, ctx, name, loc, filename)->Ok_0;
        let next = match so_far {
            Some(prev) => {
                lemma_merge_taken(prev, assigned, v);
                Some(merge(prev, assigned))
            },
            None => Some(assigned),
        };
        law_elements_taken(elements, at + 1, next, name, loc, ctx, depth, filename, v);
    }
}

} // verus!
