//! Captures in variable declarations.

use vstd::prelude::*;
use crate::attributes::{spec_next_attributed, AttributedStep, AttributesView};
use crate::estree::{BlockStatement, Function, Node, NodeKind};
use crate::frontendvar::{NameCtxView, VarLocId};
use crate::func::decls::{spec_validate_and_extract_decls, spec_validate_and_extract_params};
use crate::func::usage_spec::{
    assigned_usage, block_annotated, block_body_usage, block_usage, declarator_usage,
    declarators_usage, direct_func_decl_usage, elements_usage, expr_statement_usage, expr_usage,
    exprs_usage, func_decl_usage, function_annotated, function_body_usage, function_usage,
    if_usage, inner_depth, param_decls, params_usage, return_usage, statement_attributes,
    stmt_usage, stmts_usage, use_of,
};
use crate::log::Span;
use crate::varusage::{
    keys_of, lemma_merge_taken, lemma_outer_part_mentions, lemma_wrapped_taken,
    law_split_off_partitions, mentions, merge, outer_part, reports, taken, taken_indices, wrapped,
    Usage, UsageView,
};

use crate::func::capture_spec::{declarator_captures, expr_captures, exprs_capture, function_captures, function_body_captures, block_captures, stmts_capture, declarators_capture, stmt_captures, taken_iff};
use crate::func::capture_laws_expr::{lemma_assigned_taken, law_expr_taken};

use crate::func::capture_laws_elements::law_elements_taken;

verus! {

/// The address of a variable is taken in the usages of a declarator
/// exactly where a function in its initializer uses it.
pub proof fn law_declarator_taken(
    decl: Node,
    ctx: NameCtxView,
    depth: usize,
    filename: Option<Seq<char>>,
    v: VarLocId,
)
    requires
        declarator_usage(decl, ctx, depth, filename) is Ok,
    ensures
        taken_iff(
            declarator_usage(decl, ctx, depth, filename)->Ok_0,
            declarator_captures(decl, ctx, depth, filename, v),
            depth,
            v,
        ),
    decreases decl, 2int,
{
    reveal(declarator_usage);
    reveal(declarator_captures);
    reveal(elements_usage);
    reveal(exprs_capture);
    match decl.kind {
        NodeKind::VariableDeclarator(d) => match (d.id.kind, d.init) {
            (NodeKind::Identifier(id), Some(init)) => match init.kind {
                NodeKind::ArrayExpression(array) => {
                    law_elements_taken(
                        array.elements@,
                        0,
                        None,
                        id.name@,
                        d.id.loc,
                        ctx,
                        depth,
                        filename,
                        v,
                    );
                },
                _ => {
                    law_init_taken(*init, id.name@, d.id.loc, ctx, depth, filename, v);
                },
            },
            _ => {},
        },
        _ => {},
    }
}

/// The address of a variable is taken in the usages of an initializer and
/// the assignment after it exactly where a function in the initializer
/// uses it.
pub proof fn law_init_taken(
    init: Node,
    name: Seq<char>,
    loc: Option<Span>,
    ctx: NameCtxView,
    depth: usize,
    filename: Option<Seq<char>>,
    v: VarLocId,
)
    requires
        expr_usage(init, ctx, depth, filename) is Ok,
        assigned_usage(expr_usage(init, ctx, depth, filename)->Ok_0, ctx, name, loc, filename) is Ok,
    ensures
        taken_iff(
            assigned_usage(
                expr_usage(init, ctx, depth, filename)->Ok_0,
                ctx,
                name,
                loc,
                filename,
            )->Ok_0,
            expr_captures(init, ctx, depth, filename, v),
            depth,
            v,
        ),
    decreases init, 1int,
{
    law_expr_taken(init, ctx, depth, filename, v);
    lemma_assigned_taken(expr_usage(init, ctx, depth, filename)->Ok_0, ctx, name, loc, filename, v);
}

/// The address of a variable is taken in the usages of a list of
/// declarators exactly where it was taken before, or a function in one of
/// the initializers uses it.
pub proof fn law_declarators_taken(
    declarations: Seq<Node>,
    at: int,
    so_far: UsageView,
    ctx: NameCtxView,
    depth: usize,
    filename: Option<Seq<char>>,
    v: VarLocId,
)
    requires
        declarators_usage(declarations, at, so_far, ctx, depth, filename) is Ok,
    ensures
        ({
            let usage = declarators_usage(declarations, at, so_far, ctx, depth, filename)->Ok_0;
            let captured = declarators_capture(declarations, at, ctx, depth, filename, v);
            &&& taken(usage, v) ==> taken(so_far, v) || captured
            &&& taken(so_far, v) ==> taken(usage, v)
            &&& captured && v.depth <= depth ==> taken(usage, v)
        }),
    decreases declarations, declarations.len() - at,
{
    reveal(declarators_usage);
    reveal(declarators_capture);
    reveal(declarator_usage);
    reveal(declarator_captures);
    if at < 0 || at >= declarations.len() {
    } else {
        law_declarator_taken(declarations[at], ctx, depth, filename, v);
        let here = declarator_usage(declarations[at], ctx, depth, filename)->Ok_0;
        lemma_merge_taken(so_far, here, v);
        law_declarators_taken(declarations, at + 1, merge(so_far, here), ctx, depth, filename, v);
    }
}

} // verus!
