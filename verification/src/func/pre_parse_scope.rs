//! The analysis of scopes: functions, blocks, and lists of statements.

use vstd::prelude::*;
use crate::attributes::{next_attributed, spec_next_attributed, AttributedStep, Attributes};
use crate::error::{
    new_program_error, ParseProgramError, ProgramError, ProgramErrorView,
};
use crate::estree::{
    BlockStatement, DirectFuncs, ExportNamedDeclaration, ExpressionStatement, Function,
    FunctionDeclaration, Identifier, IfStatement, ImportDeclaration, LiteralValue, Node, NodeKind,
    ReturnStatement, VariableDeclaration,
};
use crate::frontendvar::{decls_view, resolve, NameCtx, NameCtxView, PreVar, VarLocId};
use crate::func::decls::{
    spec_validate_and_extract_decls, spec_validate_and_extract_params,
    direct_type, params_view, validate_and_extract_decls, validate_and_extract_params, Outcome,
    MSG_DIRECT_ONLY_ON_FUNCTION, MSG_ID_HERE,
};
use crate::func::annotation_spec::{
    block_noted, direct_funcs_of, expr_noted, function_noted, lemma_reaches_next,
    lemma_stmts_noted_step, reaches, stmt_noted, stmts_noted,
};
use crate::estree::direct_funcs_view;
use crate::vartype::VarType;
use crate::func::usage_spec::{
    block_annotated, function_annotated,
    block_body_usage, function_body_usage, inner_depth,
    MSG_ARRAY, MSG_ASSIGN_DIRECT, MSG_COMPOUND_ASSIGNMENT, MSG_CONSTRAINT_VALUE, MSG_CONSTRAINT_WITHOUT_DIRECT, MSG_DECLARATOR_CHILD, MSG_DIRECT_VALUE, MSG_EMPTY_ARRAY, MSG_EXPORT_LOCAL, MSG_EXPORT_SPECIFIER_ONLY, MSG_EXPRESSION_EXPECTED, MSG_FUNCTION_EXPRESSION, MSG_IF_ALTERNATE, MSG_IF_CONSEQUENT, MSG_IF_NO_ALTERNATE, MSG_IMPORT_LOCAL, MSG_IMPORT_SPECIFIER_ONLY, MSG_INITIALIZER, MSG_IN_BLOCK, MSG_LHS_IDENTIFIER, MSG_NESTED_ASSIGNMENT, MSG_NULL, MSG_REGEXP, MSG_RETURN_VALUE, MSG_STATEMENT_NOT_ALLOWED, MSG_TOO_DEEP, MSG_TOP_LEVEL, MSG_UPDATE, StatementAttributes, assigned_usage, block_usage, declarator_usage, declarators_usage, direct_func_decl_usage, elements_usage, expr_statement_usage, expr_usage, exprs_usage, func_decl_usage, function_usage, if_usage, param_decls, params_usage, read_statement_attributes, return_usage, specifiers_resolved, statement_attributes, stmt_usage, stmts_usage, use_of,
};
use crate::log::{opt_str_view, Span};
use crate::text::str_eq;
use crate::varusage::{keys_of, outer_part, taken_indices, 
    clone_varusages, from_modified, from_used, lemma_ord, merge, merge_parallel, merge_series, ord,
    sorted, split_off_address_taken_vars, wrap_closure, Usage, UsageMap, UsageView,
};

use crate::func::pre_parse_expr::{usage_agrees, pre_parse_expr};
use crate::func::pre_parse::pre_parse_statement;

verus! {

/// The parameters as declarations, and the usages with which the body of
/// the function starts.
pub fn param_scope(curr_params: Vec<(String, VarLocId)>, Ghost(depth): Ghost<usize>) -> (r: (
    Vec<(String, PreVar)>,
    UsageMap,
))
    requires
        forall|i: int|
            0 <= i < curr_params@.len() ==> (#[trigger] curr_params@[i]).1 == (VarLocId {
                depth,
                index: i as usize,
            }),
    ensures
        decls_view(r.0@) == param_decls(params_view(curr_params@)),
        r.1@ == params_usage(curr_params@.len(), depth),
        r.1.wf(),
{
    let mut decls: Vec<(String, PreVar)> = Vec::new();
    let mut entries: Vec<(VarLocId, Usage)> = Vec::new();
    let ghost want_decls = param_decls(params_view(curr_params@));
    let ghost want_usage = params_usage(curr_params@.len(), depth);
    let mut i: usize = 0;
    while i < curr_params.len()
        invariant
            i <= curr_params@.len(),
            want_decls == param_decls(params_view(curr_params@)),
            want_usage == params_usage(curr_params@.len(), depth),
            forall|k: int|
                0 <= k < curr_params@.len() ==> (#[trigger] curr_params@[k]).1 == (VarLocId {
                    depth,
                    index: k as usize,
                }),
            decls_view(decls@) == want_decls.take(i as int),
            entries@ == want_usage.take(i as int),
        decreases curr_params@.len() - i,
    {
        let ghost before = decls_view(decls@);
        let varlocid = curr_params[i].1;
        decls.push((curr_params[i].0.clone(), PreVar::Target(varlocid)));
        entries.push((varlocid, Usage::UsedAndModified));
        proof {
            assert(decls_view(decls@) =~= before.push(want_decls[i as int]));
            assert(want_decls.take(i + 1) =~= want_decls.take(i as int).push(want_decls[i as int]));
            assert(want_usage.take(i + 1) =~= want_usage.take(i as int).push(want_usage[i as int]));
        }
        i = i + 1;
    }
    proof {
        assert(want_decls.take(i as int) =~= want_decls);
        assert(want_usage.take(i as int) =~= want_usage);
        assert forall|a: int, b: int| 0 <= a < b < want_usage.len() implies ord(
            #[trigger] want_usage[a].0,
        ) < ord(#[trigger] want_usage[b].0) by {
            lemma_ord(want_usage[a].0, want_usage[b].0);
        }
    }
    (decls, UsageMap { entries })
}

/// The usages that a function hands to the scope around it; notes in the
/// function which of its variables live in the heap and which variables of
/// the scopes around it uses.
pub fn pre_parse_function(
    es_func: &mut Function,
    loc: &Option<Span>,
    name_ctx: &mut NameCtx,
    depth: usize,
    filename: Option<&str>,
) -> (result: Result<UsageMap, ProgramError>)
    ensures
        final(name_ctx)@ == old(name_ctx)@,
        final(es_func).params == old(es_func).params,
        usage_agrees(
            result,
            function_usage(*old(es_func), *loc, old(name_ctx)@, depth, opt_str_view(filename)),
        ),
        result is Ok ==> function_noted(
            *old(es_func),
            *final(es_func),
            *loc,
            old(name_ctx)@,
            depth,
            opt_str_view(filename),
        ),
    decreases *old(es_func), 0int,
{
    reveal(function_usage);
    reveal(function_body_usage);
    reveal(stmts_usage);
    reveal(expr_usage);
    reveal(function_noted);
    reveal(stmts_noted);
    reveal(expr_noted);
    if depth == usize::MAX {
        return Err(new_program_error(loc, filename, ParseProgramError::ESTreeError(MSG_TOO_DEEP)));
    }
    let new_depth = depth + 1;
    let ghost ctx = name_ctx@;
    let curr_params = validate_and_extract_params(&es_func.params, new_depth, filename)?;
    let param_count = curr_params.len();
    let ghost params = params_view(curr_params@);
    proof {
        reveal(spec_validate_and_extract_params);
        assert forall|i: int| 0 <= i < curr_params@.len() implies (#[trigger] curr_params@[i]).1 == (
        VarLocId { depth: new_depth, index: i as usize }) by {
            assert(params[i].1 == curr_params@[i].1);
        }
    }
    let (mut curr_decls, ret_usages) = param_scope(curr_params, Ghost(new_depth));
    let is_block = match &es_func.body.kind {
        NodeKind::BlockStatement(_) => true,
        _ => false,
    };
    let mut direct_funcs: DirectFuncs = Vec::new();
    assert(direct_funcs_view(direct_funcs@) =~= Seq::<(Seq<char>, Seq<VarType>)>::empty());
    let mut ret_usages = if is_block {
        match &mut es_func.body.kind {
            NodeKind::BlockStatement(es_block) => {
                // the parameters and the variables of the body make one scope
                let mut next_idx = param_count;
                let mut body_decls = validate_and_extract_decls(
                    &es_block.body,
                    new_depth,
                    &mut next_idx,
                    filename,
                )?;
                let ghost body_view = decls_view(body_decls@);
                let ghost params_decls = decls_view(curr_decls@);
                curr_decls.append(&mut body_decls);
                assert(decls_view(curr_decls@) =~= params_decls + body_view);
                let undo = name_ctx.add_scope(curr_decls);
                assert(name_ctx@ =~= ctx + param_decls(params) + body_view);
                let usages = pre_parse_statements(
                    &mut es_block.body,
                    ret_usages,
                    name_ctx,
                    &mut direct_funcs,
                    new_depth,
                    filename,
                );
                name_ctx.remove_scope(undo);
                assert(name_ctx@ =~= ctx);
                usages?
            },
            _ => {
                assert(false);
                ret_usages
            },
        }
    } else {
        // the function is its expression: 'return <expr>;'
        let undo = name_ctx.add_scope(curr_decls);
        let usages = pre_parse_expr(&mut *es_func.body, name_ctx, new_depth, filename);
        name_ctx.remove_scope(undo);
        assert(name_ctx@ =~= ctx);
        merge_series(ret_usages, usages?)
    };
    if is_block {
        es_func.direct_funcs = direct_funcs;
    }
    es_func.address_taken_vars = split_off_address_taken_vars(&mut ret_usages, new_depth);
    es_func.captured_vars = clone_varusages(&ret_usages);
    Ok(wrap_closure(ret_usages))
}

/// The usages of the statements of a scope, before the variables of the
/// scope are taken out, after something with the usages `initial`; notes
/// in the statements what the analysis finds, and adds the direct functions
/// that they declare to `direct_funcs`.
pub fn pre_parse_statements(
    body: &mut Vec<Node>,
    initial: UsageMap,
    name_ctx: &mut NameCtx,
    direct_funcs: &mut DirectFuncs,
    depth: usize,
    filename: Option<&str>,
) -> (result: Result<UsageMap, ProgramError>)
    requires
        initial.wf(),
    ensures
        final(name_ctx)@ == old(name_ctx)@,
        final(body)@.len() == old(body)@.len(),
        usage_agrees(
            result,
            stmts_usage(old(body)@, 0, initial@, old(name_ctx)@, depth, opt_str_view(filename)),
        ),
        result is Ok ==> stmts_noted(
            old(body)@,
            final(body)@,
            0,
            old(body)@.len() as int,
            old(name_ctx)@,
            depth,
            opt_str_view(filename),
        ),
        result is Ok ==> direct_funcs_view(final(direct_funcs)@) == direct_funcs_of(
            old(body)@,
            0,
            direct_funcs_view(old(direct_funcs)@),
            opt_str_view(filename),
        ),
    decreases old(body)@, 0int,
{
    reveal(stmts_noted);
    reveal(stmts_usage);
    reveal(stmt_usage);
    let ghost ctx = name_ctx@;
    let ghost fname = opt_str_view(filename);
    let ghost old_body = body@;
    let mut ret_usages = initial;
    let mut at: usize = 0;
    loop
        invariant
            at <= old_body.len(),
            body@.len() == old_body.len(),
            old_body == old(body)@,
            forall|j: int| at <= j < old_body.len() ==> body@[j] == old_body[j],
            name_ctx@ == ctx,
            ctx == old(name_ctx)@,
            fname == opt_str_view(filename),
            ret_usages.wf(),
            reaches(old_body, 0, at as int, fname),
            stmts_noted(old_body, body@, 0, at as int, ctx, depth, fname),
            direct_funcs_of(old_body, 0, direct_funcs_view(old(direct_funcs)@), fname)
                == direct_funcs_of(old_body, at as int, direct_funcs_view(direct_funcs@), fname),
            stmts_usage(old_body, 0, initial@, ctx, depth, fname) == stmts_usage(
                old_body,
                at as int,
                ret_usages@,
                ctx,
                depth,
                fname,
            ),
        decreases old_body.len() - at,
    {
        proof {
            reveal(stmts_usage);
            reveal(stmt_usage);
        }
        proof {
            reveal(spec_next_attributed);
            assert(spec_next_attributed(body@, at as int, fname) == spec_next_attributed(
                old_body,
                at as int,
                fname,
            ));
        }
        match next_attributed(body, at, filename)? {
            None => {
                proof {
                    reveal(spec_next_attributed);
                    assert(at == old_body.len());
                }
                return Ok(ret_usages);
            },
            Some((index, attr, next)) => {
                let ghost mid = body@;
                let ghost attrs = attr@;
                let usages = pre_parse_statement(
                    &mut body[index],
                    attr,
                    name_ctx,
                    direct_funcs,
                    depth,
                    filename,
                )?;
                proof {
                    assert(mid[index as int] == old_body[index as int]);
                    lemma_stmts_noted_step(
                        old_body,
                        mid,
                        body@,
                        0,
                        at as int,
                        index as int,
                        next as int,
                        attrs,
                        ctx,
                        depth,
                        fname,
                    );
                    lemma_reaches_next(old_body, 0, at as int, next as int, fname);
                }
                ret_usages = merge_series(ret_usages, usages);
                at = next;
            },
        }
    }
}

/// The usages of a block; notes in the block which of its variables live
/// in the heap.
pub fn pre_parse_block_statement(
    es_block: &mut BlockStatement,
    loc: &Option<Span>,
    name_ctx: &mut NameCtx,
    depth: usize,
    filename: Option<&str>,
) -> (result: Result<UsageMap, ProgramError>)
    ensures
        final(name_ctx)@ == old(name_ctx)@,
        usage_agrees(
            result,
            block_usage(*old(es_block), *loc, old(name_ctx)@, depth, opt_str_view(filename)),
        ),
        result is Ok ==> block_noted(
            *old(es_block),
            *final(es_block),
            *loc,
            old(name_ctx)@,
            depth,
            opt_str_view(filename),
        ),
    decreases *old(es_block), 0int,
{
    reveal(block_usage);
    reveal(block_body_usage);
    reveal(stmts_usage);
    reveal(block_noted);
    reveal(stmts_noted);
    if depth == usize::MAX {
        return Err(new_program_error(loc, filename, ParseProgramError::ESTreeError(MSG_TOO_DEEP)));
    }
    let new_depth = depth + 1;
    let ghost ctx = name_ctx@;
    let mut next_idx: usize = 0;
    let curr_decls = validate_and_extract_decls(&es_block.body, new_depth, &mut next_idx, filename)?;
    let undo = name_ctx.add_scope(curr_decls);
    let mut direct_funcs: DirectFuncs = Vec::new();
    assert(direct_funcs_view(direct_funcs@) =~= Seq::<(Seq<char>, Seq<VarType>)>::empty());
    let usages = pre_parse_statements(
        &mut es_block.body,
        UsageMap::new(),
        name_ctx,
        &mut direct_funcs,
        new_depth,
        filename,
    );
    name_ctx.remove_scope(undo);
    assert(name_ctx@ =~= ctx);
    let mut ret_usages = usages?;
    es_block.direct_funcs = direct_funcs;
    es_block.address_taken_vars = split_off_address_taken_vars(&mut ret_usages, new_depth);
    Ok(ret_usages)
}

} // verus!
