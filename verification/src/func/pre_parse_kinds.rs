//! The analysis of the kinds of statement that hold expressions, blocks or
//! functions.

use crate::attributes::{next_attributed, spec_next_attributed, AttributedStep, Attributes};
use crate::error::{
    new_program_error, ParseProgramError, ProgramError, ProgramErrorView,
};
use crate::estree::{direct_funcs_view, 
    BlockStatement, DirectFuncs, ExportNamedDeclaration, ExpressionStatement, Function,
    FunctionDeclaration, Identifier, IfStatement, ImportDeclaration, LiteralValue, Node, NodeKind,
    ReturnStatement, VariableDeclaration,
};
use crate::frontendvar::{decls_view, resolve, NameCtx, NameCtxView, PreVar, VarLocId};
use crate::func::decls::{
    direct_type, params_view, validate_and_extract_decls, validate_and_extract_params, Outcome,
    MSG_DIRECT_ONLY_ON_FUNCTION, MSG_ID_HERE,
};
use crate::func::pre_parse_expr::{usage_agrees, assign_usage, pre_parse_expr};
use crate::func::pre_parse_scope::{pre_parse_function, pre_parse_block_statement};
use crate::func::annotation_spec::{block_node_noted, block_noted, direct_funcs_after, expr_noted, expr_statement_noted, func_decl_noted, function_noted, if_noted, name_noted, name_resolved, return_noted};
use crate::func::usage_spec::{
    MSG_ARRAY, MSG_ASSIGN_DIRECT, MSG_COMPOUND_ASSIGNMENT, MSG_CONSTRAINT_VALUE, MSG_CONSTRAINT_WITHOUT_DIRECT, MSG_DECLARATOR_CHILD, MSG_DIRECT_VALUE, MSG_EMPTY_ARRAY, MSG_EXPORT_LOCAL, MSG_EXPORT_SPECIFIER_ONLY, MSG_EXPRESSION_EXPECTED, MSG_FUNCTION_EXPRESSION, MSG_IF_ALTERNATE, MSG_IF_CONSEQUENT, MSG_IF_NO_ALTERNATE, MSG_IMPORT_LOCAL, MSG_IMPORT_SPECIFIER_ONLY, MSG_INITIALIZER, MSG_IN_BLOCK, MSG_LHS_IDENTIFIER, MSG_NESTED_ASSIGNMENT, MSG_NULL, MSG_REGEXP, MSG_RETURN_VALUE, MSG_STATEMENT_NOT_ALLOWED, MSG_TOO_DEEP, MSG_TOP_LEVEL, MSG_UPDATE, StatementAttributes, assigned_usage, block_usage, declarator_usage, declarators_usage, direct_func_decl_usage, elements_usage, expr_statement_usage, expr_usage, exprs_usage, func_decl_usage, function_usage, if_usage, param_decls, params_usage, read_statement_attributes, return_usage, specifiers_resolved, statement_attributes, stmt_usage, stmts_usage, use_of,
};
use crate::log::{opt_str_view, Span};
use crate::text::str_eq;
use crate::varusage::{
    clone_varusages, from_modified, from_used, lemma_ord, merge, merge_parallel, merge_series, ord,
    sorted, split_off_address_taken_vars, wrap_closure, Usage, UsageMap, UsageView,
};
use vstd::prelude::*;

verus! {

/// The usages of an expression statement. An assignment is allowed here and
/// nowhere else.
pub fn pre_parse_expr_statement(
    es_expr_stmt: &mut ExpressionStatement,
    _loc: &Option<Span>,
    name_ctx: &mut NameCtx,
    depth: usize,
    filename: Option<&str>,
) -> (result: Result<UsageMap, ProgramError>)
    ensures
        final(name_ctx)@ == old(name_ctx)@,
        usage_agrees(
            result,
            expr_statement_usage(*old(es_expr_stmt), old(name_ctx)@, depth, opt_str_view(filename)),
        ),
        result is Ok ==> expr_statement_noted(
            *old(es_expr_stmt),
            *final(es_expr_stmt),
            old(name_ctx)@,
            depth,
            opt_str_view(filename),
        ),
    decreases *old(es_expr_stmt), 0int,
{
    reveal(expr_statement_noted);
    reveal(expr_noted);
    reveal(expr_statement_usage);
    let expr_loc = es_expr_stmt.expression.loc;
    let is_assignment = match &es_expr_stmt.expression.kind {
        NodeKind::AssignmentExpression(_) => true,
        _ => false,
    };
    if is_assignment {
        match &mut es_expr_stmt.expression.kind {
            NodeKind::AssignmentExpression(assign) => {
                if !str_eq(assign.operator.as_str(), "=") {
                    return Err(
                        new_program_error(
                            &expr_loc,
                            filename,
                            ParseProgramError::SourceRestrictionError(MSG_COMPOUND_ASSIGNMENT),
                        ),
                    );
                }
                let left_loc = assign.left.loc;
                match &mut assign.left.kind {
                    NodeKind::Identifier(id) => {
                        let rhs_expr = pre_parse_expr(&mut *assign.right, name_ctx, depth, filename)?;
                        let (resvar, usages) = assign_usage(
                            rhs_expr,
                            name_ctx,
                            id.name.as_str(),
                            &left_loc,
                            filename,
                        )?;
                        id.prevar = Some(resvar);
                        Ok(usages)
                    },
                    _ => Err(
                        new_program_error(
                            &left_loc,
                            filename,
                            ParseProgramError::ESTreeError(MSG_LHS_IDENTIFIER),
                        ),
                    ),
                }
            },
            _ => {
                assert(false);
                Ok(UsageMap::new())
            },
        }
    } else {
        pre_parse_expr(&mut *es_expr_stmt.expression, name_ctx, depth, filename)
    }
}

/// The usages of a return statement, which must return something.
pub fn pre_parse_return_statement(
    es_return: &mut ReturnStatement,
    loc: &Option<Span>,
    name_ctx: &mut NameCtx,
    depth: usize,
    filename: Option<&str>,
) -> (result: Result<UsageMap, ProgramError>)
    ensures
        final(name_ctx)@ == old(name_ctx)@,
        usage_agrees(
            result,
            return_usage(*old(es_return), *loc, old(name_ctx)@, depth, opt_str_view(filename)),
        ),
        result is Ok ==> return_noted(
            *old(es_return),
            *final(es_return),
            old(name_ctx)@,
            depth,
            opt_str_view(filename),
        ),
    decreases *old(es_return), 0int,
{
    reveal(return_noted);
    reveal(expr_noted);
    reveal(return_usage);
    let argument = es_return.argument.take();
    match argument {
        Some(mut box_node) => {
            let result = pre_parse_expr(&mut *box_node, name_ctx, depth, filename);
            es_return.argument = Some(box_node);
            result
        },
        None => Err(
            new_program_error(
                loc,
                filename,
                ParseProgramError::SourceRestrictionError(MSG_RETURN_VALUE),
            ),
        ),
    }
}

/// The usages of a node that is a block.
pub fn pre_parse_block_node(
    node: &mut Node,
    name_ctx: &mut NameCtx,
    depth: usize,
    filename: Option<&str>,
) -> (result: Result<UsageMap, ProgramError>)
    requires
        old(node).kind is BlockStatement,
    ensures
        final(name_ctx)@ == old(name_ctx)@,
        usage_agrees(
            result,
            block_usage(
                old(node).kind->BlockStatement_0,
                old(node).loc,
                old(name_ctx)@,
                depth,
                opt_str_view(filename),
            ),
        ),
        result is Ok ==> block_node_noted(
            *old(node),
            *final(node),
            old(name_ctx)@,
            depth,
            opt_str_view(filename),
        ),
    decreases *old(node), 0int,
{
    reveal(block_node_noted);
    reveal(block_noted);
    let loc = node.loc;
    match &mut node.kind {
        NodeKind::BlockStatement(block) => pre_parse_block_statement(
            block,
            &loc,
            name_ctx,
            depth,
            filename,
        ),
        _ => Ok(UsageMap::new()),
    }
}

/// Whether the node is a block.
fn is_block(node: &Node) -> (r: bool)
    ensures
        r == (node.kind is BlockStatement),
{
    match &node.kind {
        NodeKind::BlockStatement(_) => true,
        _ => false,
    }
}

/// The usages of an if statement, which must have two branches, both of
/// them blocks.
pub fn pre_parse_if_statement(
    es_if: &mut IfStatement,
    loc: &Option<Span>,
    name_ctx: &mut NameCtx,
    depth: usize,
    filename: Option<&str>,
) -> (result: Result<UsageMap, ProgramError>)
    ensures
        final(name_ctx)@ == old(name_ctx)@,
        usage_agrees(
            result,
            if_usage(*old(es_if), *loc, old(name_ctx)@, depth, opt_str_view(filename)),
        ),
        result is Ok ==> if_noted(
            *old(es_if),
            *final(es_if),
            old(name_ctx)@,
            depth,
            opt_str_view(filename),
        ),
    decreases *old(es_if), 0int,
{
    reveal(if_noted);
    reveal(block_node_noted);
    reveal(expr_noted);
    reveal(if_usage);
    if !is_block(&es_if.consequent) {
        return Err(
            new_program_error(
                loc,
                filename,
                ParseProgramError::SourceRestrictionError(MSG_IF_CONSEQUENT),
            ),
        );
    }
    match &es_if.alternate {
        Some(es_false_node) => {
            if !is_block(es_false_node) {
                return Err(
                    new_program_error(
                        loc,
                        filename,
                        ParseProgramError::SourceRestrictionError(MSG_IF_ALTERNATE),
                    ),
                );
            }
        },
        None => {
            return Err(
                new_program_error(
                    loc,
                    filename,
                    ParseProgramError::SourceRestrictionError(MSG_IF_NO_ALTERNATE),
                ),
            );
        },
    }
    let first = pre_parse_expr(&mut *es_if.test, name_ctx, depth, filename)?;
    let true_ret = pre_parse_block_node(&mut *es_if.consequent, name_ctx, depth, filename)?;
    let alternate = es_if.alternate.take();
    match alternate {
        Some(mut es_false_node) => {
            let false_ret = pre_parse_block_node(&mut *es_false_node, name_ctx, depth, filename);
            es_if.alternate = Some(es_false_node);
            Ok(merge_series(first, merge_parallel(true_ret, false_ret?)))
        },
        None => Ok(first),
    }
}

/// The usages of the declaration of a function that is not direct: the
/// declaration is the assignment of the function to a variable.
pub fn pre_parse_func_decl(
    es_func_decl: &mut FunctionDeclaration,
    loc: &Option<Span>,
    name_ctx: &mut NameCtx,
    depth: usize,
    filename: Option<&str>,
) -> (result: Result<UsageMap, ProgramError>)
    ensures
        final(name_ctx)@ == old(name_ctx)@,
        usage_agrees(
            result,
            func_decl_usage(*old(es_func_decl), *loc, old(name_ctx)@, depth, opt_str_view(filename)),
        ),
        result is Ok ==> func_decl_noted(
            *old(es_func_decl),
            *final(es_func_decl),
            false,
            *loc,
            old(name_ctx)@,
            depth,
            opt_str_view(filename),
        ),
    decreases *old(es_func_decl), 0int,
{
    reveal(func_decl_noted);
    reveal(function_noted);
    reveal(func_decl_usage);
    reveal(function_usage);
    let rhs_expr = pre_parse_function(&mut es_func_decl.function, loc, name_ctx, depth, filename)?;
    let id_loc = es_func_decl.id.loc;
    match &mut es_func_decl.id.kind {
        NodeKind::Identifier(id) => {
            let (resvar, usages) = assign_usage(
                rhs_expr,
                name_ctx,
                id.name.as_str(),
                &id_loc,
                filename,
            )?;
            id.prevar = Some(resvar);
            Ok(usages)
        },
        _ => Err(new_program_error(&id_loc, filename, ParseProgramError::ESTreeError(MSG_ID_HERE))),
    }
}

/// The usages of the declaration of a direct function: none, for the
/// function must use no variable of a scope around it. Adds the function
/// with the types of its parameters to `direct_funcs`.
pub fn pre_parse_direct_func_decl(
    es_func_decl: &mut FunctionDeclaration,
    constraint_str: Option<String>,
    loc: &Option<Span>,
    name_ctx: &mut NameCtx,
    direct_funcs: &mut DirectFuncs,
    depth: usize,
    filename: Option<&str>,
) -> (result: Result<UsageMap, ProgramError>)
    ensures
        final(name_ctx)@ == old(name_ctx)@,
        usage_agrees(
            result,
            direct_func_decl_usage(
                *old(es_func_decl),
                crate::log::opt_string_view(constraint_str),
                *loc,
                old(name_ctx)@,
                depth,
                opt_str_view(filename),
            ),
        ),
        result is Ok ==> func_decl_noted(
            *old(es_func_decl),
            *final(es_func_decl),
            true,
            *loc,
            old(name_ctx)@,
            depth,
            opt_str_view(filename),
        ),
        result is Ok ==> (old(es_func_decl).id.kind matches NodeKind::Identifier(id)
            && crate::func::decls::spec_direct_type(
            old(es_func_decl).function.params@,
            *loc,
            crate::func::usage_spec::constraint_attr(crate::log::opt_string_view(constraint_str)),
            opt_str_view(filename),
        ) matches Ok(signature) && direct_funcs_view(final(direct_funcs)@) == direct_funcs_view(
            old(direct_funcs)@,
        ).push((id.name@, signature))),
        result is Err ==> *final(direct_funcs) == *old(direct_funcs),
    decreases *old(es_func_decl), 0int,
{
    reveal(func_decl_noted);
    reveal(function_noted);
    reveal(direct_func_decl_usage);
    reveal(function_usage);
    let rhs_expr = pre_parse_function(&mut es_func_decl.function, loc, name_ctx, depth, filename)?;
    let id_loc = es_func_decl.id.loc;
    match &mut es_func_decl.id.kind {
        NodeKind::Identifier(id) => {
            id.prevar = Some(PreVar::Direct);
            let signature = match &constraint_str {
                Some(_) => direct_type(
                    &es_func_decl.function.params,
                    loc,
                    Some(&constraint_str),
                    filename,
                )?,
                None => direct_type(&es_func_decl.function.params, loc, None, filename)?,
            };
            // the function must use no variable of a scope around it
            // (globals do not count as used)
            if !rhs_expr.is_empty() {
                return Err(
                    new_program_error(loc, filename, ParseProgramError::DirectFunctionCaptureError),
                );
            }
            let ghost before_funcs = direct_funcs_view(direct_funcs@);
            direct_funcs.push((id.name.clone(), signature));
            assert(direct_funcs_view(direct_funcs@) =~= before_funcs.push((id.name@, signature@)));
            Ok(rhs_expr)
        },
        _ => Err(new_program_error(&id_loc, filename, ParseProgramError::ESTreeError(MSG_ID_HERE))),
    }
}

} // verus!
