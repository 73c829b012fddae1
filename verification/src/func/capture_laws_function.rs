//! Captures in functions.

use vstd::prelude::*;
use crate::attributes::{spec_next_attributed, AttributedStep, AttributesView};
use crate::estree::{BlockStatement, Function, Node, NodeKind};
use crate::frontendvar::{NameCtxView, VarLocId};
use crate::func::decls::{spec_validate_and_extract_decls, spec_validate_and_extract_params};
use crate::func::usage_spec::{
    assigned_usage, block_annotated, block_body_usage, block_usage, declarator_usage,
    declarators_usage, direct_func_decl_usage, elements_usage, expr_statement_usage, expr_usage,
    exprs_usage, func_decl_usage, function_annotated, function_body_usage, function_usage,
    if_usage, inner_depth, param_decls, params_usage, return_usage, statement_attributes,
    stmt_usage, stmts_usage, use_of,
};
use crate::log::Span;
use crate::varusage::{
    keys_of, lemma_merge_taken, lemma_outer_part_mentions, lemma_wrapped_taken,
    law_split_off_partitions, mentions, merge, outer_part, reports, taken, taken_indices, wrapped,
    Usage, UsageView,
};

use crate::func::capture_spec::{expr_captures, exprs_capture, function_captures, function_body_captures, block_captures, stmts_capture, declarators_capture, stmt_captures, taken_iff};
use crate::func::capture_laws_expr::{law_expr_taken};
use crate::func::capture_laws_scope::{law_stmts_taken};

verus! {

/// The address of a variable is taken in what a function hands to the
/// scope around it exactly where the function, or a function in it, uses
/// the variable.
pub proof fn law_function_taken(
    f: Function,
    loc: Option<Span>,
    ctx: NameCtxView,
    depth: usize,
    filename: Option<Seq<char>>,
    v: VarLocId,
)
    requires
        function_usage(f, loc, ctx, depth, filename) is Ok,
    ensures
        taken_iff(
            function_usage(f, loc, ctx, depth, filename)->Ok_0,
            function_captures(f, loc, ctx, depth, filename, v),
            depth,
            v,
        ),
    decreases f, 1int,
{
    reveal(function_usage);
    reveal(function_captures);
    reveal(function_body_usage);
    reveal(function_body_captures);
    law_function_body_taken(f, loc, ctx, depth, filename, v);
    let inner = inner_depth(depth);
    let body = function_body_usage(f, loc, ctx, depth, filename)->Ok_0;
    lemma_outer_part_mentions(body, inner, v);
    lemma_wrapped_taken(outer_part(body, inner), v);
    reveal(function_body_usage);
    if taken(body, v) {
        let i = choose|i: int| 0 <= i < body.len() && body[i] == (v, Usage::AddressTaken);
        assert(body[i].0 == v);
        assert(mentions(body, v));
    }
}

/// The address of a variable is taken in the usages of the body of a
/// function exactly where a function in the body uses it.
pub proof fn law_function_body_taken(
    f: Function,
    loc: Option<Span>,
    ctx: NameCtxView,
    depth: usize,
    filename: Option<Seq<char>>,
    v: VarLocId,
)
    requires
        function_body_usage(f, loc, ctx, depth, filename) is Ok,
    ensures
        taken_iff(
            function_body_usage(f, loc, ctx, depth, filename)->Ok_0,
            function_body_captures(f, ctx, depth, filename, v),
            inner_depth(depth),
            v,
        ),
    decreases f, 0int,
{
    reveal(function_body_usage);
    reveal(function_body_captures);
    reveal(stmts_usage);
    reveal(stmts_capture);
    reveal(expr_usage);
    reveal(expr_captures);
    let inner = inner_depth(depth);
    let params = spec_validate_and_extract_params(f.params@, inner, filename)->Ok_0;
    let initial = params_usage(params.len(), inner);
    assert(!taken(initial, v)) by {
        if taken(initial, v) {
            let i = choose|i: int| 0 <= i < initial.len() && initial[i] == (v, Usage::AddressTaken);
        }
    }
    match f.body.kind {
        NodeKind::BlockStatement(block) => {
            let decls = spec_validate_and_extract_decls(
                block.body@,
                inner,
                params.len() as usize,
                filename,
            )->Ok_0.0;
            law_stmts_taken(
                block.body@,
                0,
                initial,
                ctx + param_decls(params) + decls,
                inner,
                filename,
                v,
            );
        },
        _ => {
            law_expr_taken(*f.body, ctx + param_decls(params), inner, filename, v);
            lemma_merge_taken(
                initial,
                expr_usage(*f.body, ctx + param_decls(params), inner, filename)->Ok_0,
                v,
            );
        },
    }
}

} // verus!
