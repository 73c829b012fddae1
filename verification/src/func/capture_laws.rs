//! Why a variable lives in the heap: its address is taken in the usages of
//! a stretch of a program exactly where a function in that stretch uses it.

use vstd::prelude::*;
use crate::attributes::{spec_next_attributed, AttributedStep, AttributesView};
use crate::estree::{BlockStatement, Function, Node, NodeKind};
use crate::frontendvar::{NameCtxView, VarLocId};
use crate::func::decls::{spec_validate_and_extract_decls, spec_validate_and_extract_params};
use crate::func::usage_spec::{
    assigned_usage, block_annotated, block_body_usage, block_usage, declarator_usage,
    declarators_usage, direct_func_decl_usage, elements_usage, expr_statement_usage, expr_usage,
    exprs_usage, func_decl_usage, function_annotated, function_body_usage, function_usage,
    if_usage, inner_depth, param_decls, params_usage, return_usage, statement_attributes,
    stmt_usage, stmts_usage, use_of,
};
use crate::log::Span;
use crate::varusage::{
    keys_of, lemma_merge_taken, lemma_outer_part_mentions, lemma_wrapped_taken,
    law_split_off_partitions, mentions, merge, outer_part, reports, taken, taken_indices, wrapped,
    Usage, UsageView,
};

use crate::func::capture_laws_function::law_function_body_taken;
use crate::func::capture_laws_scope::{law_block_taken, law_stmts_taken};
use crate::func::capture_spec::{expr_captures, exprs_capture, function_captures, function_body_captures, block_captures, stmts_capture, declarators_capture, stmt_captures, taken_iff};
use crate::func::capture_laws_expr::{lemma_assigned_taken, law_expr_taken};
use crate::func::capture_laws_function::{law_function_taken};
use crate::func::capture_laws_decl::{law_declarators_taken};

verus! {

/// The address of a variable is taken in the usages of a statement exactly
/// where a function in the statement uses it.
pub proof fn law_stmt_taken(
    node: Node,
    attrs: AttributesView,
    ctx: NameCtxView,
    depth: usize,
    filename: Option<Seq<char>>,
    v: VarLocId,
)
    requires
        stmt_usage(node, attrs, ctx, depth, filename) is Ok,
    ensures
        taken_iff(
            stmt_usage(node, attrs, ctx, depth, filename)->Ok_0,
            stmt_captures(node, attrs, ctx, depth, filename, v),
            depth,
            v,
        ),
    decreases node, 0int,
{
    reveal(stmt_usage);
    reveal(stmt_captures);
    reveal(expr_statement_usage);
    reveal(return_usage);
    reveal(if_usage);
    reveal(func_decl_usage);
    reveal(direct_func_decl_usage);
    reveal(block_usage);
    reveal(block_captures);
    reveal(function_usage);
    reveal(function_captures);
    reveal(expr_usage);
    reveal(expr_captures);
    reveal(declarators_usage);
    reveal(declarators_capture);
    let sa = statement_attributes(attrs, node.loc, filename)->Ok_0;
    assert(!taken(UsageView::empty(), v));
    if sa.is_direct {
        match node.kind {
            NodeKind::FunctionDeclaration(decl) => {
                law_function_taken(decl.function, node.loc, ctx, depth, filename, v);
            },
            _ => {},
        }
    } else {
        match node.kind {
            NodeKind::ExpressionStatement(stmt) => match stmt.expression.kind {
                NodeKind::AssignmentExpression(assign) => match assign.left.kind {
                    NodeKind::Identifier(id) => {
                        law_expr_taken(*assign.right, ctx, depth, filename, v);
                        lemma_assigned_taken(
                            expr_usage(*assign.right, ctx, depth, filename)->Ok_0,
                            ctx,
                            id.name@,
                            assign.left.loc,
                            filename,
                            v,
                        );
                    },
                    _ => {},
                },
                _ => {
                    law_expr_taken(*stmt.expression, ctx, depth, filename, v);
                },
            },
            NodeKind::BlockStatement(block) => {
                law_block_taken(block, node.loc, ctx, depth, filename, v);
            },
            NodeKind::ReturnStatement(stmt) => match stmt.argument {
                Some(argument) => {
                    law_expr_taken(*argument, ctx, depth, filename, v);
                },
                None => {},
            },
            NodeKind::IfStatement(stmt) => match (stmt.consequent.kind, stmt.alternate) {
                (NodeKind::BlockStatement(then_block), Some(alternate)) => match alternate.kind {
                    NodeKind::BlockStatement(else_block) => {
                        law_expr_taken(*stmt.test, ctx, depth, filename, v);
                        law_block_taken(then_block, stmt.consequent.loc, ctx, depth, filename, v);
                        law_block_taken(else_block, alternate.loc, ctx, depth, filename, v);
                        let t = expr_usage(*stmt.test, ctx, depth, filename)->Ok_0;
                        let c = block_usage(then_block, stmt.consequent.loc, ctx, depth, filename)->Ok_0;
                        let a = block_usage(else_block, alternate.loc, ctx, depth, filename)->Ok_0;
                        lemma_merge_taken(c, a, v);
                        lemma_merge_taken(t, merge(c, a), v);
                    },
                    _ => {},
                },
                _ => {},
            },
            NodeKind::FunctionDeclaration(decl) => match decl.id.kind {
                NodeKind::Identifier(id) => {
                    law_function_taken(decl.function, node.loc, ctx, depth, filename, v);
                    lemma_assigned_taken(
                        function_usage(decl.function, node.loc, ctx, depth, filename)->Ok_0,
                        ctx,
                        id.name@,
                        decl.id.loc,
                        filename,
                        v,
                    );
                },
                _ => {},
            },
            NodeKind::VariableDeclaration(decl) => {
                law_declarators_taken(
                    decl.declarations@,
                    0,
                    UsageView::empty(),
                    ctx,
                    depth,
                    filename,
                    v,
                );
            },
            _ => {},
        }
    }
}

/// The variables of a function that live in the heap are those that a
/// function in its body uses: every index that the analysis notes in the
/// function is that of such a variable, and every such variable has its
/// index noted.
pub proof fn law_function_heap_variables(
    before: Function,
    after: Function,
    loc: Option<Span>,
    ctx: NameCtxView,
    depth: usize,
    filename: Option<Seq<char>>,
)
    requires
        function_annotated(before, after, loc, ctx, depth, filename),
    ensures
        forall|index: usize|
            #[trigger] after.address_taken_vars@.contains(index) ==> exists|v: VarLocId|
                v.index == index && v.depth >= inner_depth(depth) && #[trigger] function_body_captures(
                    before,
                    ctx,
                    depth,
                    filename,
                    v,
                ),
        forall|v: VarLocId|
            v.depth == inner_depth(depth) && #[trigger] function_body_captures(
                before,
                ctx,
                depth,
                filename,
                v,
            ) ==> after.address_taken_vars@.contains(v.index),
{
    let inner = inner_depth(depth);
    let usage = function_body_usage(before, loc, ctx, depth, filename)->Ok_0;
    law_split_off_partitions(usage, inner);
    assert forall|index: usize| #[trigger]
        after.address_taken_vars@.contains(index) implies exists|v: VarLocId|
        v.index == index && v.depth >= inner && #[trigger] function_body_captures(
            before,
            ctx,
            depth,
            filename,
            v,
        ) by {
        assert(taken_indices(usage, inner).contains(index));
        assert(reports(usage, inner, index));
        let k = choose|k: int|
            0 <= k < usage.len() && (#[trigger] usage[k]).0.depth >= inner && usage[k].1
                == Usage::AddressTaken && usage[k].0.index == index;
        let v = usage[k].0;
        assert(usage[k] == (v, Usage::AddressTaken));
        assert(taken(usage, v));
        law_function_body_taken(before, loc, ctx, depth, filename, v);
    }
    assert forall|v: VarLocId|
        v.depth == inner && #[trigger] function_body_captures(
            before,
            ctx,
            depth,
            filename,
            v,
        ) implies after.address_taken_vars@.contains(v.index) by {
        law_function_body_taken(before, loc, ctx, depth, filename, v);
        assert(taken(usage, v));
        let k = choose|k: int| 0 <= k < usage.len() && usage[k] == (v, Usage::AddressTaken);
        assert(usage[k].0.depth >= inner);
        assert(reports(usage, inner, v.index));
        assert(taken_indices(usage, inner).contains(v.index));
    }
}

/// The variables of a block that live in the heap are those that a
/// function in the block uses: every index that the analysis notes in the
/// block is that of such a variable, and every such variable has its index
/// noted.
pub proof fn law_block_heap_variables(
    before: BlockStatement,
    after: BlockStatement,
    loc: Option<Span>,
    ctx: NameCtxView,
    depth: usize,
    filename: Option<Seq<char>>,
)
    requires
        block_annotated(before, after, loc, ctx, depth, filename),
    ensures
        forall|index: usize|
            #[trigger] after.address_taken_vars@.contains(index) ==> exists|v: VarLocId|
                v.index == index && v.depth >= inner_depth(depth) && #[trigger] block_captures(
                    before,
                    ctx,
                    depth,
                    filename,
                    v,
                ),
        forall|v: VarLocId|
            v.depth == inner_depth(depth) && #[trigger] block_captures(
                before,
                ctx,
                depth,
                filename,
                v,
            ) ==> after.address_taken_vars@.contains(v.index),
{
    reveal(block_body_usage);
    reveal(block_captures);
    reveal(stmts_usage);
    reveal(stmts_capture);
    let inner = inner_depth(depth);
    let usage = block_body_usage(before, loc, ctx, depth, filename)->Ok_0;
    let decls = spec_validate_and_extract_decls(before.body@, inner, 0, filename)->Ok_0.0;
    law_split_off_partitions(usage, inner);
    assert(!taken(UsageView::empty(), VarLocId { depth: 0, index: 0 }));
    assert forall|index: usize| #[trigger]
        after.address_taken_vars@.contains(index) implies exists|v: VarLocId|
        v.index == index && v.depth >= inner && #[trigger] block_captures(
            before,
            ctx,
            depth,
            filename,
            v,
        ) by {
        assert(taken_indices(usage, inner).contains(index));
        assert(reports(usage, inner, index));
        let k = choose|k: int|
            0 <= k < usage.len() && (#[trigger] usage[k]).0.depth >= inner && usage[k].1
                == Usage::AddressTaken && usage[k].0.index == index;
        let v = usage[k].0;
        assert(usage[k] == (v, Usage::AddressTaken));
        assert(taken(usage, v));
        assert(!taken(UsageView::empty(), v));
        law_stmts_taken(before.body@, 0, UsageView::empty(), ctx + decls, inner, filename, v);
        assert(usage == stmts_usage(
            before.body@,
            0,
            UsageView::empty(),
            ctx + decls,
            inner,
            filename,
        )->Ok_0);
        assert(stmts_capture(before.body@, 0, ctx + decls, inner, filename, v));
        assert(block_captures(before, ctx, depth, filename, v));
    }
    assert forall|v: VarLocId|
        v.depth == inner && #[trigger] block_captures(
            before,
            ctx,
            depth,
            filename,
            v,
        ) implies after.address_taken_vars@.contains(v.index) by {
        law_stmts_taken(before.body@, 0, UsageView::empty(), ctx + decls, inner, filename, v);
        assert(taken(usage, v));
        let k = choose|k: int| 0 <= k < usage.len() && usage[k] == (v, Usage::AddressTaken);
        assert(usage[k].0.depth >= inner);
        assert(reports(usage, inner, v.index));
        assert(taken_indices(usage, inner).contains(v.index));
    }
}

} // verus!
