//! The analysis of expressions.

use vstd::prelude::*;
use crate::attributes::{next_attributed, spec_next_attributed, AttributedStep, Attributes};
use crate::error::{
    new_program_error, ParseProgramError, ProgramError, ProgramErrorView,
};
use crate::estree::{
    BlockStatement, DirectFuncs, ExportNamedDeclaration, ExpressionStatement, Function,
    FunctionDeclaration, Identifier, IfStatement, ImportDeclaration, LiteralValue, Node, NodeKind,
    ReturnStatement, VariableDeclaration,
};
use crate::frontendvar::{decls_view, resolve, NameCtx, NameCtxView, PreVar, VarLocId};
use crate::func::decls::{
    direct_type, params_view, validate_and_extract_decls, validate_and_extract_params, Outcome,
    MSG_DIRECT_ONLY_ON_FUNCTION, MSG_ID_HERE,
};
use crate::func::annotation_spec::{expr_noted, exprs_noted, function_noted};
use crate::func::usage_spec::{
    MSG_ARRAY, MSG_ASSIGN_DIRECT, MSG_COMPOUND_ASSIGNMENT, MSG_CONSTRAINT_VALUE, MSG_CONSTRAINT_WITHOUT_DIRECT, MSG_DECLARATOR_CHILD, MSG_DIRECT_VALUE, MSG_EMPTY_ARRAY, MSG_EXPORT_LOCAL, MSG_EXPORT_SPECIFIER_ONLY, MSG_EXPRESSION_EXPECTED, MSG_FUNCTION_EXPRESSION, MSG_IF_ALTERNATE, MSG_IF_CONSEQUENT, MSG_IF_NO_ALTERNATE, MSG_IMPORT_LOCAL, MSG_IMPORT_SPECIFIER_ONLY, MSG_INITIALIZER, MSG_IN_BLOCK, MSG_LHS_IDENTIFIER, MSG_NESTED_ASSIGNMENT, MSG_NULL, MSG_REGEXP, MSG_RETURN_VALUE, MSG_STATEMENT_NOT_ALLOWED, MSG_TOO_DEEP, MSG_TOP_LEVEL, MSG_UPDATE, StatementAttributes, assigned_usage, block_usage, declarator_usage, declarators_usage, direct_func_decl_usage, elements_usage, expr_statement_usage, expr_usage, exprs_usage, func_decl_usage, function_usage, if_usage, param_decls, params_usage, read_statement_attributes, return_usage, specifiers_resolved, statement_attributes, stmt_usage, stmts_usage, use_of,
};
use crate::log::{opt_str_view, Span};
use crate::text::str_eq;
use crate::varusage::{
    clone_varusages, from_modified, from_used, lemma_ord, merge, merge_parallel, merge_series, ord,
    sorted, split_off_address_taken_vars, wrap_closure, Usage, UsageMap, UsageView,
};

use crate::func::pre_parse_scope::{pre_parse_function};

verus! {

/// Whether the result of an executable function stands for the outcome: the
/// function gave the usages of the outcome, in order, or failed with its
/// error.
pub open spec fn usage_agrees(result: Result<UsageMap, ProgramError>, outcome: Outcome<UsageView>) -> bool {
    match result {
        Ok(usages) => outcome == Ok::<UsageView, ProgramErrorView>(usages@) && usages.wf(),
        Err(e) => outcome == Err::<UsageView, ProgramErrorView>(e@),
    }
}

/// Notes what a use of a name is resolved to, and gives what the use
/// contributes.
pub fn pre_parse_identifier_use(
    es_id: &mut Identifier,
    loc: &Option<Span>,
    name_ctx: &NameCtx,
    _depth: usize,
    filename: Option<&str>,
) -> (result: Result<UsageMap, ProgramError>)
    ensures
        final(es_id).name == old(es_id).name,
        match resolve(name_ctx@, old(es_id).name@) {
            Some(prevar) => result matches Ok(usages) && usages@ == use_of(prevar) && usages.wf()
                && final(es_id).prevar == Some(prevar),
            None => result matches Err(e) && e@ == crate::error::program_error(
                *loc,
                opt_str_view(filename),
                crate::error::ParseProgramErrorView::UndeclaredNameError(old(es_id).name@),
            ),
        },
{
    match name_ctx.get(es_id.name.as_str()) {
        Some(prevar) => {
            es_id.prevar = Some(prevar);
            match prevar {
                PreVar::Target(varlocid) => {
                    if varlocid.depth == 0 {
                        // a global: no usage
                        Ok(UsageMap::new())
                    } else {
                        Ok(from_used(varlocid))
                    }
                },
                PreVar::Direct => Ok(UsageMap::new()),
            }
        },
        None => Err(
            new_program_error(
                loc,
                filename,
                ParseProgramError::UndeclaredNameError(es_id.name.clone()),
            ),
        ),
    }
}

/// Resolves the name of a variable that is given a value, and gives what
/// the name is resolved to and the usages of the whole: those of the value,
/// and after them the modification of the variable.
pub fn assign_usage(
    rhs: UsageMap,
    name_ctx: &NameCtx,
    name: &str,
    loc: &Option<Span>,
    filename: Option<&str>,
) -> (result: Result<(PreVar, UsageMap), ProgramError>)
    requires
        rhs.wf(),
    ensures
        match result {
            Ok((prevar, usages)) => assigned_usage(
                rhs@,
                name_ctx@,
                name@,
                *loc,
                opt_str_view(filename),
            ) == Ok::<UsageView, ProgramErrorView>(usages@) && usages.wf() && resolve(
                name_ctx@,
                name@,
            ) == Some(prevar),
            Err(e) => assigned_usage(rhs@, name_ctx@, name@, *loc, opt_str_view(filename)) == Err::<
                UsageView,
                ProgramErrorView,
            >(e@),
        },
{
    match name_ctx.get(name) {
        None => Err(
            new_program_error(
                loc,
                filename,
                ParseProgramError::UndeclaredNameError(name.to_owned()),
            ),
        ),
        Some(PreVar::Direct) => Err(
            new_program_error(
                loc,
                filename,
                ParseProgramError::SourceRestrictionError(MSG_ASSIGN_DIRECT),
            ),
        ),
        Some(PreVar::Target(varlocid)) => {
            if varlocid.depth == 0 {
                // a global: no usage
                Ok((PreVar::Target(varlocid), rhs))
            } else {
                // the value is evaluated before the variable is modified
                Ok((PreVar::Target(varlocid), merge_series(rhs, from_modified(varlocid))))
            }
        },
    }
}

/// The usages of an expression; notes in the expression what each name is
/// resolved to.
pub fn pre_parse_expr(
    es_expr: &mut Node,
    name_ctx: &mut NameCtx,
    depth: usize,
    filename: Option<&str>,
) -> (result: Result<UsageMap, ProgramError>)
    ensures
        final(name_ctx)@ == old(name_ctx)@,
        usage_agrees(
            result,
            expr_usage(*old(es_expr), old(name_ctx)@, depth, opt_str_view(filename)),
        ),
        result is Ok ==> expr_noted(
            *old(es_expr),
            *final(es_expr),
            old(name_ctx)@,
            depth,
            opt_str_view(filename),
        ),
    decreases *old(es_expr), 0int,
{
    reveal_with_fuel(expr_noted, 2);
    reveal(function_noted);
    reveal(expr_usage);
    reveal(exprs_usage);
    reveal(function_usage);
    let loc = es_expr.loc;
    match &mut es_expr.kind {
        NodeKind::Identifier(identifier) => pre_parse_identifier_use(
            identifier,
            &loc,
            name_ctx,
            depth,
            filename,
        ),
        NodeKind::Literal(literal) => match &literal.value {
            LiteralValue::String(_) | LiteralValue::Boolean(_) | LiteralValue::Number(_) => Ok(
                UsageMap::new(),
            ),
            LiteralValue::Null => Err(
                new_program_error(
                    &loc,
                    filename,
                    ParseProgramError::SourceRestrictionError(MSG_NULL),
                ),
            ),
            LiteralValue::RegExp => Err(
                new_program_error(
                    &loc,
                    filename,
                    ParseProgramError::SourceRestrictionError(MSG_REGEXP),
                ),
            ),
        },
        NodeKind::FunctionExpression => Err(
            new_program_error(
                &loc,
                filename,
                ParseProgramError::SourceRestrictionError(MSG_FUNCTION_EXPRESSION),
            ),
        ),
        NodeKind::ArrowFunctionExpression(function) => pre_parse_function(
            &mut function.function,
            &loc,
            name_ctx,
            depth,
            filename,
        ),
        NodeKind::UnaryExpression(unary_expr) => pre_parse_expr(
            &mut *unary_expr.argument,
            name_ctx,
            depth,
            filename,
        ),
        NodeKind::UpdateExpression => Err(
            new_program_error(
                &loc,
                filename,
                ParseProgramError::SourceRestrictionError(MSG_UPDATE),
            ),
        ),
        NodeKind::BinaryExpression(binary_expr) => {
            // both sides are evaluated, the left one first
            let lhs = pre_parse_expr(&mut *binary_expr.left, name_ctx, depth, filename)?;
            let rhs = pre_parse_expr(&mut *binary_expr.right, name_ctx, depth, filename)?;
            Ok(merge_series(lhs, rhs))
        },
        NodeKind::AssignmentExpression(_) => Err(
            new_program_error(
                &loc,
                filename,
                ParseProgramError::SourceRestrictionError(MSG_NESTED_ASSIGNMENT),
            ),
        ),
        NodeKind::LogicalExpression(logical_expr) => {
            // the right side may not be evaluated, which changes nothing:
            // a + (b | nothing) is a + b
            let lhs = pre_parse_expr(&mut *logical_expr.left, name_ctx, depth, filename)?;
            let rhs = pre_parse_expr(&mut *logical_expr.right, name_ctx, depth, filename)?;
            Ok(merge_series(lhs, rhs))
        },
        NodeKind::ConditionalExpression(cond_expr) => {
            // like an if statement: a + (b | c)
            let test = pre_parse_expr(&mut *cond_expr.test, name_ctx, depth, filename)?;
            let true_ret = pre_parse_expr(&mut *cond_expr.consequent, name_ctx, depth, filename)?;
            let false_ret = pre_parse_expr(&mut *cond_expr.alternate, name_ctx, depth, filename)?;
            Ok(merge_series(test, merge_parallel(true_ret, false_ret)))
        },
        NodeKind::CallExpression(call_expr) => {
            // the callee is evaluated first, then the arguments in order
            let ghost ctx = name_ctx@;
            let ghost fname = opt_str_view(filename);
            let ghost old_args = call_expr.arguments@;
            let ghost old_callee = *call_expr.callee;
            let f_ret = pre_parse_expr(&mut *call_expr.callee, name_ctx, depth, filename)?;
            let ghost callee = f_ret@;
            let mut acc = f_ret;
            let mut i: usize = 0;
            while i < call_expr.arguments.len()
                invariant
                    i <= old_args.len(),
                    call_expr.arguments@.len() == old_args.len(),
                    forall|j: int| i <= j < old_args.len() ==> call_expr.arguments@[j] == old_args[j],
                    forall|j: int|
                        0 <= j < i ==> expr_noted(
                            #[trigger] old_args[j],
                            call_expr.arguments@[j],
                            ctx,
                            depth,
                            fname,
                        ),
                    expr_noted(old_callee, *call_expr.callee, ctx, depth, fname),
                    old(es_expr).kind matches NodeKind::CallExpression(c) && c.arguments@ == old_args,
                    name_ctx@ == ctx,
                    ctx == old(name_ctx)@,
                    fname == opt_str_view(filename),
                    acc.wf(),
                    expr_usage(*old(es_expr), ctx, depth, fname) == exprs_usage(
                        old_args,
                        0,
                        callee,
                        ctx,
                        depth,
                        fname,
                    ),
                    exprs_usage(old_args, 0, callee, ctx, depth, fname) == exprs_usage(
                        old_args,
                        i as int,
                        acc@,
                        ctx,
                        depth,
                        fname,
                    ),
                decreases old_args.len() - i,
            {
                proof {
                    reveal(expr_usage);
                    reveal(exprs_usage);
                    reveal(function_usage);
                }
                let next = pre_parse_expr(&mut call_expr.arguments[i], name_ctx, depth, filename)?;
                acc = merge_series(acc, next);
                i = i + 1;
            }
            Ok(acc)
        },
        NodeKind::ArrayExpression(_) => Err(
            new_program_error(
                &loc,
                filename,
                ParseProgramError::SourceRestrictionError(MSG_ARRAY),
            ),
        ),
        _ => Err(
            new_program_error(
                &loc,
                filename,
                ParseProgramError::ESTreeError(MSG_EXPRESSION_EXPECTED),
            ),
        ),
    }
}

} // verus!
