//! What the analysis notes in the syntax tree.
//!
//! The functions of this file say, for a stretch of a program before and
//! after its analysis, whether the second is the first with what the
//! analysis finds noted in it: what each name is resolved to, which
//! variables of each block and each function have their address taken, which
//! variables each function uses of the scopes around it, and which direct
//! functions each scope declares. Nothing else is changed.

use vstd::prelude::*;
use crate::attributes::{spec_next_attributed, AttributedStep, AttributesView};
use crate::estree::{
    direct_funcs_view, ArrowFunctionExpression, BlockStatement, ExportNamedDeclaration,
    ExpressionStatement, Function, FunctionDeclaration, IfStatement, ImportDeclaration, Node,
    NodeKind, ReturnStatement, VariableDeclaration,
};
use crate::frontendvar::{resolve, NameCtxView, PreVar};
use crate::func::decls::{
    spec_direct_type, spec_validate_and_extract_decls, spec_validate_and_extract_params,
};
use crate::func::usage_spec::{
    block_annotated, constraint_attr, function_annotated, inner_depth, param_decls,
    statement_attributes,
};
use crate::log::Span;
use crate::vartype::VarType;

verus! {

/// Whether `after` is the identifier `before` with the given resolution
/// noted in it.
pub open spec fn name_noted(before: Node, after: Node, prevar: Option<PreVar>) -> bool {
    &&& after.loc == before.loc
    &&& match (before.kind, after.kind) {
        (NodeKind::Identifier(a), NodeKind::Identifier(b)) => b.name == a.name && b.prevar == prevar,
        _ => false,
    }
}

/// Whether `after` is the identifier `before` with what the name is
/// resolved to under `ctx` noted in it.
pub open spec fn name_resolved(before: Node, after: Node, ctx: NameCtxView) -> bool {
    match before.kind {
        NodeKind::Identifier(a) => name_noted(before, after, resolve(ctx, a.name@)),
        _ => false,
    }
}

/// The direct function that a statement with the given attributes
/// declares, if it declares one: its name and the types of its parameters.
pub open spec fn direct_func_of(node: Node, attrs: AttributesView, filename: Option<Seq<char>>) -> Option<
    (Seq<char>, Seq<VarType>),
> {
    match statement_attributes(attrs, node.loc, filename) {
        Ok(sa) => if sa.is_direct {
            match node.kind {
                NodeKind::FunctionDeclaration(decl) => match (
                    decl.id.kind,
                    spec_direct_type(
                        decl.function.params@,
                        node.loc,
                        constraint_attr(sa.constraint),
                        filename,
                    ),
                ) {
                    (NodeKind::Identifier(id), Ok(signature)) => Some((id.name@, signature)),
                    _ => None,
                },
                _ => None,
            }
        } else {
            None
        },
        Err(_) => None,
    }
}

/// The direct functions that the statements from position `at` on declare,
/// after those in `so_far`.
pub open spec fn direct_funcs_of(
    body: Seq<Node>,
    at: int,
    so_far: Seq<(Seq<char>, Seq<VarType>)>,
    filename: Option<Seq<char>>,
) -> Seq<(Seq<char>, Seq<VarType>)>
    decreases body.len() - at,
{
    match spec_next_attributed(body, at, filename) {
        Ok(AttributedStep::Item { index, attrs, next }) => if at < next <= body.len() && 0 <= index
            < body.len() {
            direct_funcs_of(
                body,
                next,
                match direct_func_of(body[index], attrs, filename) {
                    Some(entry) => so_far.push(entry),
                    None => so_far,
                },
                filename,
            )
        } else {
            so_far
        },
        _ => so_far,
    }
}

/// Whether `after` is the expression `before` with the resolutions of its
/// names noted in it, and in its arrow functions what is noted in a
/// function.
#[verifier::opaque]
pub open spec fn expr_noted(
    before: Node,
    after: Node,
    ctx: NameCtxView,
    depth: usize,
    filename: Option<Seq<char>>,
) -> bool
    decreases before, 0int,
{
    &&& after.loc == before.loc
    &&& match (before.kind, after.kind) {
        (NodeKind::Identifier(a), NodeKind::Identifier(b)) => b.name == a.name && b.prevar
            == resolve(ctx, a.name@),
        (NodeKind::Literal(a), NodeKind::Literal(b)) => b == a,
        (NodeKind::ArrowFunctionExpression(a), NodeKind::ArrowFunctionExpression(b)) => {
            &&& b.expression == a.expression
            &&& function_noted(a.function, b.function, before.loc, ctx, depth, filename)
        },
        (NodeKind::UnaryExpression(a), NodeKind::UnaryExpression(b)) => {
            &&& b.operator == a.operator
            &&& b.prefix == a.prefix
            &&& expr_noted(*a.argument, *b.argument, ctx, depth, filename)
        },
        (NodeKind::BinaryExpression(a), NodeKind::BinaryExpression(b)) => {
            &&& b.operator == a.operator
            &&& expr_noted(*a.left, *b.left, ctx, depth, filename)
            &&& expr_noted(*a.right, *b.right, ctx, depth, filename)
        },
        (NodeKind::LogicalExpression(a), NodeKind::LogicalExpression(b)) => {
            &&& b.operator == a.operator
            &&& expr_noted(*a.left, *b.left, ctx, depth, filename)
            &&& expr_noted(*a.right, *b.right, ctx, depth, filename)
        },
        (NodeKind::ConditionalExpression(a), NodeKind::ConditionalExpression(b)) => {
            &&& expr_noted(*a.test, *b.test, ctx, depth, filename)
            &&& expr_noted(*a.consequent, *b.consequent, ctx, depth, filename)
            &&& expr_noted(*a.alternate, *b.alternate, ctx, depth, filename)
        },
        (NodeKind::CallExpression(a), NodeKind::CallExpression(b)) => {
            &&& expr_noted(*a.callee, *b.callee, ctx, depth, filename)
            &&& exprs_noted(a.arguments@, b.arguments@, ctx, depth, filename)
        },
        _ => false,
    }
}

/// Whether `after` are the expressions `before`, each with the resolutions
/// of its names noted in it.
pub open spec fn exprs_noted(
    before: Seq<Node>,
    after: Seq<Node>,
    ctx: NameCtxView,
    depth: usize,
    filename: Option<Seq<char>>,
) -> bool
    decreases before, 1int,
{
    &&& after.len() == before.len()
    &&& forall|i: int|
        0 <= i < before.len() ==> expr_noted(#[trigger] before[i], after[i], ctx, depth, filename)
}

/// Whether `after` is the function `before` with what the analysis finds
/// noted in it: in the function itself, which of its variables have their
/// address taken, which variables of the scopes around it uses, and which
/// direct functions its body declares; and in its body what is noted in
/// statements, or in an expression.
#[verifier::opaque]
pub open spec fn function_noted(
    before: Function,
    after: Function,
    loc: Option<Span>,
    ctx: NameCtxView,
    depth: usize,
    filename: Option<Seq<char>>,
) -> bool
    decreases before, 0int,
{
    let inner = inner_depth(depth);
    &&& function_annotated(before, after, loc, ctx, depth, filename)
    &&& after.body.loc == before.body.loc
    &&& match spec_validate_and_extract_params(before.params@, inner, filename) {
        Ok(params) => match (before.body.kind, after.body.kind) {
            (NodeKind::BlockStatement(a), NodeKind::BlockStatement(b)) => match spec_validate_and_extract_decls(
                a.body@,
                inner,
                params.len() as usize,
                filename,
            ) {
                Ok((decls, _)) => {
                    &&& b.address_taken_vars == a.address_taken_vars
                    &&& b.direct_funcs == a.direct_funcs
                    &&& direct_funcs_view(after.direct_funcs@) == direct_funcs_of(
                        a.body@,
                        0,
                        Seq::<(Seq<char>, Seq<VarType>)>::empty(),
                        filename,
                    )
                    &&& stmts_noted(
                        a.body@,
                        b.body@,
                        0,
                        a.body@.len() as int,
                        ctx + param_decls(params) + decls,
                        inner,
                        filename,
                    )
                },
                Err(_) => false,
            },
            (NodeKind::BlockStatement(_), _) => false,
            _ => after.direct_funcs == before.direct_funcs && expr_noted(
                *before.body,
                *after.body,
                ctx + param_decls(params),
                inner,
                filename,
            ),
        },
        Err(_) => false,
    }
}

/// Whether `after` is the block `before` with what the analysis finds
/// noted in it: in the block itself, which of its variables have their
/// address taken and which direct functions it declares; and in its
/// statements what is noted in statements.
#[verifier::opaque]
pub open spec fn block_noted(
    before: BlockStatement,
    after: BlockStatement,
    loc: Option<Span>,
    ctx: NameCtxView,
    depth: usize,
    filename: Option<Seq<char>>,
) -> bool
    decreases before, 0int,
{
    let inner = inner_depth(depth);
    &&& block_annotated(before, after, loc, ctx, depth, filename)
    &&& match spec_validate_and_extract_decls(before.body@, inner, 0, filename) {
        Ok((decls, _)) => {
            &&& direct_funcs_view(after.direct_funcs@) == direct_funcs_of(
                before.body@,
                0,
                Seq::<(Seq<char>, Seq<VarType>)>::empty(),
                filename,
            )
            &&& stmts_noted(
                before.body@,
                after.body@,
                0,
                before.body@.len() as int,
                ctx + decls,
                inner,
                filename,
            )
        },
        Err(_) => false,
    }
}

/// Whether `after` are the statements `before` with, in those among the
/// statements from position `at` to position `upto` that are no attribute
/// statements, what is noted in a statement, and with no change to the
/// others.
#[verifier::opaque]
pub open spec fn stmts_noted(
    before: Seq<Node>,
    after: Seq<Node>,
    at: int,
    upto: int,
    ctx: NameCtxView,
    depth: usize,
    filename: Option<Seq<char>>,
) -> bool
    decreases before, before.len() - at,
{
    &&& after.len() == before.len()
    &&& if at >= upto {
        forall|k: int| at <= k < before.len() ==> #[trigger] after[k] == before[k]
    } else {
        match spec_next_attributed(before, at, filename) {
            Ok(AttributedStep::Item { index, attrs, next }) => if at < next <= before.len() && at
                <= index < next && 0 <= index {
                &&& index > at ==> after[at] == before[at]
                &&& stmt_noted(before[index], after[index], attrs, ctx, depth, filename)
                &&& stmts_noted(before, after, next, upto, ctx, depth, filename)
            } else {
                false
            },
            Ok(AttributedStep::End) => true,
            Err(_) => false,
        }
    }
}

/// Whether `after` is the declarator `before` with the resolution of its
/// name noted in it, and in its initializer what is noted in an expression
/// (in each of its elements, where it is an array).
#[verifier::opaque]
pub open spec fn declarator_noted(
    before: Node,
    after: Node,
    ctx: NameCtxView,
    depth: usize,
    filename: Option<Seq<char>>,
) -> bool
    decreases before, 0int,
{
    &&& after.loc == before.loc
    &&& match (before.kind, after.kind) {
        (NodeKind::VariableDeclarator(a), NodeKind::VariableDeclarator(b)) => {
            &&& name_resolved(*a.id, *b.id, ctx)
            &&& match (a.init, b.init) {
                (Some(x), Some(y)) => match (x.kind, y.kind) {
                    (NodeKind::ArrayExpression(ax), NodeKind::ArrayExpression(ay)) => y.loc == x.loc
                        && exprs_noted(ax.elements@, ay.elements@, ctx, depth, filename),
                    (NodeKind::ArrayExpression(_), _) => false,
                    _ => expr_noted(*x, *y, ctx, depth, filename),
                },
                _ => false,
            }
        },
        _ => false,
    }
}

/// Whether `after` is the specifier `before` of an import (of an export
/// where `export` holds) with the resolution of its local name noted in it.
pub open spec fn specifier_noted(before: Node, after: Node, export: bool, ctx: NameCtxView) -> bool {
    &&& after.loc == before.loc
    &&& match (before.kind, after.kind) {
        (NodeKind::ImportSpecifier(a), NodeKind::ImportSpecifier(b)) => !export && b.imported
            == a.imported && name_resolved(*a.local, *b.local, ctx),
        (NodeKind::ExportSpecifier(a), NodeKind::ExportSpecifier(b)) => export && b.exported
            == a.exported && name_resolved(*a.local, *b.local, ctx),
        _ => false,
    }
}

/// Whether `after` are the specifiers `before` of an import (of an export
/// where `export` holds), each with the resolution of its local name noted
/// in it.
pub open spec fn specifiers_noted(before: Seq<Node>, after: Seq<Node>, export: bool, ctx: NameCtxView) -> bool {
    &&& after.len() == before.len()
    &&& forall|i: int|
        0 <= i < before.len() ==> specifier_noted(#[trigger] before[i], after[i], export, ctx)
}

/// Whether `after` is the expression statement `before` with what the
/// analysis finds noted in it.
#[verifier::opaque]
pub open spec fn expr_statement_noted(
    before: ExpressionStatement,
    after: ExpressionStatement,
    ctx: NameCtxView,
    depth: usize,
    filename: Option<Seq<char>>,
) -> bool
    decreases before, 0int,
{
    match (before.expression.kind, after.expression.kind) {
        (NodeKind::AssignmentExpression(x), NodeKind::AssignmentExpression(y)) => {
            &&& after.expression.loc == before.expression.loc
            &&& y.operator == x.operator
            &&& name_resolved(*x.left, *y.left, ctx)
            &&& expr_noted(*x.right, *y.right, ctx, depth, filename)
        },
        (NodeKind::AssignmentExpression(_), _) => false,
        _ => expr_noted(*before.expression, *after.expression, ctx, depth, filename),
    }
}

/// Whether `after` is the return statement `before` with what the analysis
/// finds noted in it.
#[verifier::opaque]
pub open spec fn return_noted(
    before: ReturnStatement,
    after: ReturnStatement,
    ctx: NameCtxView,
    depth: usize,
    filename: Option<Seq<char>>,
) -> bool
    decreases before, 0int,
{
    match (before.argument, after.argument) {
        (Some(x), Some(y)) => expr_noted(*x, *y, ctx, depth, filename),
        _ => false,
    }
}

/// Whether `after` is the node `before`, a block, with what the analysis
/// finds noted in it.
#[verifier::opaque]
pub open spec fn block_node_noted(
    before: Node,
    after: Node,
    ctx: NameCtxView,
    depth: usize,
    filename: Option<Seq<char>>,
) -> bool
    decreases before, 1int,
{
    &&& after.loc == before.loc
    &&& match (before.kind, after.kind) {
        (NodeKind::BlockStatement(x), NodeKind::BlockStatement(y)) => block_noted(
            x,
            y,
            before.loc,
            ctx,
            depth,
            filename,
        ),
        _ => false,
    }
}

/// Whether `after` is the if statement `before` with what the analysis
/// finds noted in it.
#[verifier::opaque]
pub open spec fn if_noted(
    before: IfStatement,
    after: IfStatement,
    ctx: NameCtxView,
    depth: usize,
    filename: Option<Seq<char>>,
) -> bool
    decreases before, 0int,
{
    &&& expr_noted(*before.test, *after.test, ctx, depth, filename)
    &&& block_node_noted(*before.consequent, *after.consequent, ctx, depth, filename)
    &&& match (before.alternate, after.alternate) {
        (Some(p), Some(q)) => block_node_noted(*p, *q, ctx, depth, filename),
        _ => false,
    }
}

/// Whether `after` is the function declaration `before` with what the
/// analysis finds noted in it; the name is resolved to a direct function
/// where `direct` holds.
#[verifier::opaque]
pub open spec fn func_decl_noted(
    before: FunctionDeclaration,
    after: FunctionDeclaration,
    direct: bool,
    loc: Option<Span>,
    ctx: NameCtxView,
    depth: usize,
    filename: Option<Seq<char>>,
) -> bool
    decreases before, 0int,
{
    &&& if direct {
        name_noted(*before.id, *after.id, Some(PreVar::Direct))
    } else {
        name_resolved(*before.id, *after.id, ctx)
    }
    &&& function_noted(before.function, after.function, loc, ctx, depth, filename)
}

/// Whether `after` is the variable declaration `before` with what the
/// analysis finds noted in it.
#[verifier::opaque]
pub open spec fn var_decl_noted(
    before: VariableDeclaration,
    after: VariableDeclaration,
    ctx: NameCtxView,
    depth: usize,
    filename: Option<Seq<char>>,
) -> bool
    decreases before, 0int,
{
    &&& after.kind == before.kind
    &&& after.declarations@.len() == before.declarations@.len()
    &&& forall|i: int|
        0 <= i < before.declarations@.len() ==> declarator_noted(
            #[trigger] before.declarations@[i],
            after.declarations@[i],
            ctx,
            depth,
            filename,
        )
}

/// Whether `after` is the statement `before`, which has the given
/// attributes, with what the analysis finds noted in it.
#[verifier::opaque]
pub open spec fn stmt_noted(
    before: Node,
    after: Node,
    attrs: AttributesView,
    ctx: NameCtxView,
    depth: usize,
    filename: Option<Seq<char>>,
) -> bool
    decreases before, 2int,
{
    &&& after.loc == before.loc
    &&& match statement_attributes(attrs, before.loc, filename) {
        Err(_) => false,
        Ok(sa) => if sa.is_direct {
            match (before.kind, after.kind) {
                (NodeKind::FunctionDeclaration(a), NodeKind::FunctionDeclaration(b)) => func_decl_noted(
                    a,
                    b,
                    true,
                    before.loc,
                    ctx,
                    depth,
                    filename,
                ),
                _ => false,
            }
        } else {
            match (before.kind, after.kind) {
                (NodeKind::ExpressionStatement(a), NodeKind::ExpressionStatement(b)) => expr_statement_noted(
                    a,
                    b,
                    ctx,
                    depth,
                    filename,
                ),
                (NodeKind::BlockStatement(a), NodeKind::BlockStatement(b)) => block_noted(
                    a,
                    b,
                    before.loc,
                    ctx,
                    depth,
                    filename,
                ),
                (NodeKind::ReturnStatement(a), NodeKind::ReturnStatement(b)) => return_noted(
                    a,
                    b,
                    ctx,
                    depth,
                    filename,
                ),
                (NodeKind::IfStatement(a), NodeKind::IfStatement(b)) => if_noted(
                    a,
                    b,
                    ctx,
                    depth,
                    filename,
                ),
                (NodeKind::FunctionDeclaration(a), NodeKind::FunctionDeclaration(b)) => func_decl_noted(
                    a,
                    b,
                    false,
                    before.loc,
                    ctx,
                    depth,
                    filename,
                ),
                (NodeKind::VariableDeclaration(a), NodeKind::VariableDeclaration(b)) => var_decl_noted(
                    a,
                    b,
                    ctx,
                    depth,
                    filename,
                ),
                (NodeKind::ImportDeclaration(a), NodeKind::ImportDeclaration(b)) => {
                    &&& b.source == a.source
                    &&& specifiers_noted(a.specifiers@, b.specifiers@, false, ctx)
                },
                (NodeKind::ExportNamedDeclaration(a), NodeKind::ExportNamedDeclaration(b)) => {
                    &&& b.declaration == a.declaration
                    &&& b.source == a.source
                    &&& specifiers_noted(a.specifiers@, b.specifiers@, true, ctx)
                },
                _ => false,
            }
        },
    }
}

/// Whether the position `to` is reached from the position `from` by
/// reading the statements with their attributes.
pub open spec fn reaches(body: Seq<Node>, from: int, to: int, filename: Option<Seq<char>>) -> bool
    decreases body.len() - from,
{
    from == to || (from < to && match spec_next_attributed(body, from, filename) {
        Ok(AttributedStep::Item { index, attrs, next }) => from < next <= body.len() && reaches(
            body,
            next,
            to,
            filename,
        ),
        _ => false,
    })
}

/// What is reached from a position is reached from it by way of the next
/// position.
pub proof fn lemma_reaches_next(body: Seq<Node>, from: int, to: int, next_to: int, filename: Option<Seq<char>>)
    requires
        reaches(body, from, to, filename),
        spec_next_attributed(body, to, filename) matches Ok(AttributedStep::Item { index, attrs, next })
            && next == next_to && to < next <= body.len(),
    ensures
        reaches(body, from, next_to, filename),
    decreases body.len() - from,
{
    if from == to {
        assert(reaches(body, next_to, next_to, filename));
    } else {
        match spec_next_attributed(body, from, filename) {
            Ok(AttributedStep::Item { index, attrs, next }) => {
                lemma_reaches_next(body, next, to, next_to, filename);
            },
            _ => {},
        }
    }
}

/// Where the statements up to a position have what the analysis finds
/// noted in them, and the next statement gets it noted, the statements up
/// to the position behind it have.
pub proof fn lemma_stmts_noted_step(
    before: Seq<Node>,
    mid: Seq<Node>,
    after: Seq<Node>,
    from: int,
    upto: int,
    index: int,
    next: int,
    attrs: AttributesView,
    ctx: NameCtxView,
    depth: usize,
    filename: Option<Seq<char>>,
)
    requires
        0 <= from <= upto,
        reaches(before, from, upto, filename),
        stmts_noted(before, mid, from, upto, ctx, depth, filename),
        spec_next_attributed(before, upto, filename) == Ok::<
            AttributedStep,
            crate::error::ProgramErrorView,
        >(AttributedStep::Item { index, attrs, next }),
        upto <= index < next <= before.len(),
        after.len() == mid.len(),
        forall|k: int| 0 <= k < mid.len() && k != index ==> after[k] == mid[k],
        stmt_noted(before[index], after[index], attrs, ctx, depth, filename),
    ensures
        stmts_noted(before, after, from, next, ctx, depth, filename),
    decreases before.len() - from,
{
    reveal_with_fuel(stmts_noted, 2);
    reveal(stmt_noted);
    if from == upto {
        assert(stmts_noted(before, after, next, next, ctx, depth, filename));
        assert(after[from] == mid[from] || from == index);
    } else {
        match spec_next_attributed(before, from, filename) {
            Ok(AttributedStep::Item { index: i2, attrs: a2, next: n2 }) => {
                lemma_reaches_bound(before, n2, upto, filename);
                lemma_stmts_noted_step(
                    before,
                    mid,
                    after,
                    n2,
                    upto,
                    index,
                    next,
                    attrs,
                    ctx,
                    depth,
                    filename,
                );
            },
            _ => {},
        }
    }
}

/// A position that is reached from another is not before it.
pub proof fn lemma_reaches_bound(body: Seq<Node>, from: int, to: int, filename: Option<Seq<char>>)
    requires
        reaches(body, from, to, filename),
    ensures
        from <= to,
    decreases body.len() - from,
{
}

/// The direct functions of a scope after a statement with the given
/// attributes has been analysed.
pub open spec fn direct_funcs_after(
    so_far: Seq<(Seq<char>, Seq<VarType>)>,
    node: Node,
    attrs: AttributesView,
    filename: Option<Seq<char>>,
) -> Seq<(Seq<char>, Seq<VarType>)> {
    match direct_func_of(node, attrs, filename) {
        Some(entry) => so_far.push(entry),
        None => so_far,
    }
}

/// Whether `after` is the module `before` with what the analysis finds
/// noted in it: in the module itself, which direct functions it declares;
/// and in its statements what is noted in statements.
pub open spec fn program_noted(
    before: crate::estree::Program,
    after: crate::estree::Program,
    ctx: NameCtxView,
    import_ctx: Seq<crate::frontendvar::VarCtxView>,
    start_idx: usize,
    filename: Option<Seq<char>>,
) -> bool {
    match crate::func::decls::spec_validate_and_extract_imports_and_decls(
        before.body@,
        import_ctx,
        start_idx,
        filename,
    ) {
        Ok(top) => {
            &&& direct_funcs_view(after.direct_funcs@) == direct_funcs_of(
                before.body@,
                0,
                Seq::<(Seq<char>, Seq<VarType>)>::empty(),
                filename,
            )
            &&& stmts_noted(
                before.body@,
                after.body@,
                0,
                before.body@.len() as int,
                ctx + top.decls,
                0,
                filename,
            )
        },
        Err(_) => false,
    }
}

} // verus!
