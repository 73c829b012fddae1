//! The analysis itself: one walk over the syntax tree of a module that
//! resolves every name, finds out how every variable is used, and notes in
//! the tree which variables of each scope live in the heap.
//!
//! Each function gives the usages that `usage_spec` defines for its part of
//! the tree, or the error that it defines, and leaves the names in scope as
//! it found them.

use crate::attributes::{next_attributed, spec_next_attributed, AttributedStep, Attributes};
use crate::error::{
    new_program_error, ParseProgramError, ProgramError, ProgramErrorView,
};
use crate::estree::{direct_funcs_view, Program, 
    BlockStatement, DirectFuncs, ExportNamedDeclaration, ExpressionStatement, Function,
    FunctionDeclaration, Identifier, IfStatement, ImportDeclaration, LiteralValue, Node, NodeKind,
    ReturnStatement, VariableDeclaration,
};
use crate::frontendvar::{ProgramPreExports, decls_view, resolve, NameCtx, NameCtxView, PreVar, VarLocId};
use crate::func::decls::{
    import_ctx_view, validate_and_extract_imports_and_decls,
    direct_type, params_view, validate_and_extract_decls, validate_and_extract_params, Outcome,
    MSG_DIRECT_ONLY_ON_FUNCTION, MSG_ID_HERE,
};
use crate::func::pre_parse_expr::{usage_agrees};
use crate::func::pre_parse_scope::{pre_parse_block_statement};
use crate::func::annotation_spec::{direct_funcs_after, direct_funcs_of, expr_statement_noted, block_noted, return_noted, if_noted, func_decl_noted, var_decl_noted, stmt_noted, stmts_noted, program_noted, reaches, lemma_reaches_next, lemma_stmts_noted_step, specifiers_noted};
use crate::func::usage_spec::{
    program_exports, program_statements, MSG_GLOBAL_USAGE,
    MSG_ARRAY, MSG_ASSIGN_DIRECT, MSG_COMPOUND_ASSIGNMENT, MSG_CONSTRAINT_VALUE, MSG_CONSTRAINT_WITHOUT_DIRECT, MSG_DECLARATOR_CHILD, MSG_DIRECT_VALUE, MSG_EMPTY_ARRAY, MSG_EXPORT_LOCAL, MSG_EXPORT_SPECIFIER_ONLY, MSG_EXPRESSION_EXPECTED, MSG_FUNCTION_EXPRESSION, MSG_IF_ALTERNATE, MSG_IF_CONSEQUENT, MSG_IF_NO_ALTERNATE, MSG_IMPORT_LOCAL, MSG_IMPORT_SPECIFIER_ONLY, MSG_INITIALIZER, MSG_IN_BLOCK, MSG_LHS_IDENTIFIER, MSG_NESTED_ASSIGNMENT, MSG_NULL, MSG_REGEXP, MSG_RETURN_VALUE, MSG_STATEMENT_NOT_ALLOWED, MSG_TOO_DEEP, MSG_TOP_LEVEL, MSG_UPDATE, StatementAttributes, assigned_usage, block_usage, declarator_usage, declarators_usage, direct_func_decl_usage, elements_usage, expr_statement_usage, expr_usage, exprs_usage, func_decl_usage, function_usage, if_usage, param_decls, params_usage, read_statement_attributes, return_usage, specifiers_resolved, statement_attributes, stmt_usage, stmts_usage, use_of,
};
use crate::log::{opt_str_view, Span};
use crate::text::str_eq;
use crate::varusage::{
    clone_varusages, from_modified, from_used, lemma_ord, merge, merge_parallel, merge_series, ord,
    sorted, split_off_address_taken_vars, wrap_closure, Usage, UsageMap, UsageView,
};
use vstd::prelude::*;
use crate::func::pre_parse_kinds::{pre_parse_direct_func_decl, pre_parse_expr_statement, pre_parse_func_decl, pre_parse_if_statement, pre_parse_return_statement};
use crate::func::pre_parse_decl::{pre_parse_export_decl, pre_parse_import_decl, pre_parse_var_decl};

verus! {

/// What the attributes of a statement say.
pub fn read_attributes_of_statement(attr: Attributes, loc: &Option<Span>, filename: Option<&str>) -> (result:
    Result<(bool, Option<String>), ProgramError>)
    ensures
        crate::func::decls::agrees(
            result,
            |r: (bool, Option<String>)|
                StatementAttributes { is_direct: r.0, constraint: crate::log::opt_string_view(r.1) },
            statement_attributes(attr@, *loc, opt_str_view(filename)),
        ),
{
    reveal(statement_attributes);
    let mut is_direct = false;
    let mut constraint_str: Option<String> = None;
    let ghost fname = opt_str_view(filename);
    let ghost start = StatementAttributes { is_direct: false, constraint: None };
    let mut i: usize = 0;
    while i < attr.entries.len()
        invariant
            i <= attr@.len(),
            fname == opt_str_view(filename),
            start == (StatementAttributes { is_direct: false, constraint: None }),
            read_statement_attributes(attr@, 0, start, *loc, fname) == read_statement_attributes(
                attr@,
                i as int,
                StatementAttributes {
                    is_direct,
                    constraint: crate::log::opt_string_view(constraint_str),
                },
                *loc,
                fname,
            ),
        decreases attr@.len() - i,
    {
        let key = &attr.entries[i].0;
        let opt_val = &attr.entries[i].1;
        proof {
            reveal(statement_attributes);
        }
        if str_eq(key.as_str(), "direct") {
            if opt_val.is_some() {
                return Err(
                    new_program_error(
                        loc,
                        filename,
                        ParseProgramError::AttributeContentError(MSG_DIRECT_VALUE),
                    ),
                );
            }
            is_direct = true;
        } else if str_eq(key.as_str(), "constraint") {
            match opt_val {
                None => {
                    return Err(
                        new_program_error(
                            loc,
                            filename,
                            ParseProgramError::AttributeContentError(MSG_CONSTRAINT_VALUE),
                        ),
                    );
                },
                Some(text) => {
                    constraint_str = Some(text.clone());
                },
            }
        } else {
            return Err(
                new_program_error(
                    loc,
                    filename,
                    ParseProgramError::AttributeUnrecognizedError(key.clone()),
                ),
            );
        }
        i = i + 1;
    }
    // a constraint needs the attribute 'direct'
    if !is_direct && constraint_str.is_some() {
        return Err(
            new_program_error(
                loc,
                filename,
                ParseProgramError::AttributeContentError(MSG_CONSTRAINT_WITHOUT_DIRECT),
            ),
        );
    }
    Ok((is_direct, constraint_str))
}

/// The usages of a statement with the given attributes; notes in the
/// statement what the analysis finds, and adds the direct function that it
/// declares, if it declares one, to `direct_funcs`.
pub fn pre_parse_statement(
    es_node: &mut Node,
    attr: Attributes,
    name_ctx: &mut NameCtx,
    direct_funcs: &mut DirectFuncs,
    depth: usize,
    filename: Option<&str>,
) -> (result: Result<UsageMap, ProgramError>)
    ensures
        final(name_ctx)@ == old(name_ctx)@,
        usage_agrees(
            result,
            stmt_usage(*old(es_node), attr@, old(name_ctx)@, depth, opt_str_view(filename)),
        ),
        result is Ok ==> stmt_noted(
            *old(es_node),
            *final(es_node),
            attr@,
            old(name_ctx)@,
            depth,
            opt_str_view(filename),
        ),
        result is Ok ==> direct_funcs_view(final(direct_funcs)@) == direct_funcs_after(
            direct_funcs_view(old(direct_funcs)@),
            *old(es_node),
            attr@,
            opt_str_view(filename),
        ),
        result is Err ==> *final(direct_funcs) == *old(direct_funcs),
    decreases *old(es_node), 0int,
{
    reveal(stmt_noted);
    reveal(expr_statement_noted);
    reveal(block_noted);
    reveal(return_noted);
    reveal(if_noted);
    reveal(func_decl_noted);
    reveal(var_decl_noted);
    reveal(stmt_usage);
    reveal(expr_statement_usage);
    reveal(block_usage);
    reveal(return_usage);
    reveal(if_usage);
    reveal(func_decl_usage);
    reveal(declarators_usage);
    reveal(direct_func_decl_usage);
    reveal(specifiers_resolved);
    let loc = es_node.loc;
    let (is_direct, constraint_str) = read_attributes_of_statement(attr, &loc, filename)?;

    // the attribute 'direct' is for function declarations
    if is_direct {
        return match &mut es_node.kind {
            NodeKind::FunctionDeclaration(func_decl) => pre_parse_direct_func_decl(
                func_decl,
                constraint_str,
                &loc,
                name_ctx,
                direct_funcs,
                depth,
                filename,
            ),
            _ => Err(
                new_program_error(
                    &loc,
                    filename,
                    ParseProgramError::AttributeContentError(MSG_DIRECT_ONLY_ON_FUNCTION),
                ),
            ),
        };
    }
    match &mut es_node.kind {
        NodeKind::ExpressionStatement(stmt) => pre_parse_expr_statement(
            stmt,
            &loc,
            name_ctx,
            depth,
            filename,
        ),
        NodeKind::BlockStatement(block) => pre_parse_block_statement(
            block,
            &loc,
            name_ctx,
            depth,
            filename,
        ),
        NodeKind::ReturnStatement(stmt) => pre_parse_return_statement(
            stmt,
            &loc,
            name_ctx,
            depth,
            filename,
        ),
        NodeKind::IfStatement(stmt) => pre_parse_if_statement(stmt, &loc, name_ctx, depth, filename),
        NodeKind::FunctionDeclaration(func_decl) => pre_parse_func_decl(
            func_decl,
            &loc,
            name_ctx,
            depth,
            filename,
        ),
        NodeKind::VariableDeclaration(var_decl) => pre_parse_var_decl(
            var_decl,
            &loc,
            name_ctx,
            depth,
            filename,
        ),
        NodeKind::EmptyStatement
        | NodeKind::DebuggerStatement
        | NodeKind::WithStatement
        | NodeKind::LabeledStatement
        | NodeKind::BreakStatement
        | NodeKind::ContinueStatement => Err(
            new_program_error(
                &loc,
                filename,
                ParseProgramError::ESTreeError(MSG_STATEMENT_NOT_ALLOWED),
            ),
        ),
        NodeKind::ImportDeclaration(import_decl) => {
            // at the top of a module imports are accepted; their names
            // were declared when the declarations were read
            if depth == 0 {
                pre_parse_import_decl(import_decl, &loc, name_ctx, filename)?;
                Ok(UsageMap::new())
            } else {
                Err(new_program_error(&loc, filename, ParseProgramError::ESTreeError(MSG_IN_BLOCK)))
            }
        },
        NodeKind::ExportNamedDeclaration(export_decl) => {
            if depth == 0 {
                pre_parse_export_decl(export_decl, &loc, name_ctx, filename)?;
                Ok(UsageMap::new())
            } else {
                Err(new_program_error(&loc, filename, ParseProgramError::ESTreeError(MSG_IN_BLOCK)))
            }
        },
        _ => {
            if depth == 0 {
                Err(new_program_error(&loc, filename, ParseProgramError::ESTreeError(MSG_TOP_LEVEL)))
            } else {
                Err(new_program_error(&loc, filename, ParseProgramError::ESTreeError(MSG_IN_BLOCK)))
            }
        },
    }
}

/// Analyses a module: resolves every name in it, notes in the tree which
/// variables of each scope live in the heap, and gives the names that the
/// module exports.
///
/// `name_ctx` holds the names that are in scope in every module; a
/// declaration of the module may hide one of them. `import_ctx` holds, for
/// each import declaration of the module in order, the exports of the
/// module that it names. `start_idx` is the number of globals declared so
/// far: the globals of this module get the indices from there on, and
/// `start_idx` is raised past them.
pub fn pre_parse_program(
    es_program: &mut Program,
    _loc: &Option<Span>,
    name_ctx: &mut NameCtx,
    import_ctx: &[&ProgramPreExports],
    start_idx: &mut usize,
    filename: Option<&str>,
) -> (result: Result<ProgramPreExports, ProgramError>)
    ensures
        final(name_ctx)@ == old(name_ctx)@,
        crate::func::decls::agrees(
            result,
            |exports: ProgramPreExports| (exports@, *final(start_idx)),
            program_exports(
                old(es_program).body@,
                old(name_ctx)@,
                import_ctx_view(import_ctx@),
                *old(start_idx),
                opt_str_view(filename),
            ),
        ),
        result is Ok ==> program_noted(
            *old(es_program),
            *final(es_program),
            old(name_ctx)@,
            import_ctx_view(import_ctx@),
            *old(start_idx),
            opt_str_view(filename),
        ),
{
    let ghost ctx = name_ctx@;
    let (curr_decls, exports) = validate_and_extract_imports_and_decls(
        &es_program.body,
        import_ctx,
        start_idx,
        filename,
    )?;
    let undo_ctx = name_ctx.add_scope(curr_decls);
    let mut direct_funcs: DirectFuncs = Vec::new();
    assert(direct_funcs_view(direct_funcs@) =~= Seq::<
        (Seq<char>, Seq<crate::vartype::VarType>),
    >::empty());
    let checked = pre_parse_program_statements(
        &mut es_program.body,
        name_ctx,
        &mut direct_funcs,
        filename,
    );
    name_ctx.remove_scope(undo_ctx);
    assert(name_ctx@ =~= ctx);
    checked?;
    es_program.direct_funcs = direct_funcs;
    Ok(exports)
}

/// Analyses the statements at the top of a module, none of which may use a
/// variable that is no global.
pub fn pre_parse_program_statements(
    body: &mut Vec<Node>,
    name_ctx: &mut NameCtx,
    direct_funcs: &mut DirectFuncs,
    filename: Option<&str>,
) -> (result: Result<(), ProgramError>)
    ensures
        final(name_ctx)@ == old(name_ctx)@,
        final(body)@.len() == old(body)@.len(),
        crate::func::decls::agrees(
            result,
            |u: ()| (),
            program_statements(old(body)@, 0, old(name_ctx)@, opt_str_view(filename)),
        ),
        result is Ok ==> stmts_noted(
            old(body)@,
            final(body)@,
            0,
            old(body)@.len() as int,
            old(name_ctx)@,
            0,
            opt_str_view(filename),
        ),
        result is Ok ==> direct_funcs_view(final(direct_funcs)@) == direct_funcs_of(
            old(body)@,
            0,
            direct_funcs_view(old(direct_funcs)@),
            opt_str_view(filename),
        ),
{
    reveal(stmts_noted);
    let ghost ctx = name_ctx@;
    let ghost fname = opt_str_view(filename);
    let ghost old_body = body@;
    let mut at: usize = 0;
    loop
        invariant
            at <= old_body.len(),
            body@.len() == old_body.len(),
            old_body == old(body)@,
            forall|j: int| at <= j < old_body.len() ==> body@[j] == old_body[j],
            name_ctx@ == ctx,
            ctx == old(name_ctx)@,
            fname == opt_str_view(filename),
            reaches(old_body, 0, at as int, fname),
            stmts_noted(old_body, body@, 0, at as int, ctx, 0, fname),
            direct_funcs_of(old_body, 0, direct_funcs_view(old(direct_funcs)@), fname)
                == direct_funcs_of(old_body, at as int, direct_funcs_view(direct_funcs@), fname),
            program_statements(old_body, 0, ctx, fname) == program_statements(
                old_body,
                at as int,
                ctx,
                fname,
            ),
        decreases old_body.len() - at,
    {
        proof {
            reveal(spec_next_attributed);
            assert(spec_next_attributed(body@, at as int, fname) == spec_next_attributed(
                old_body,
                at as int,
                fname,
            ));
        }
        match next_attributed(body, at, filename)? {
            None => {
                proof {
                    reveal(spec_next_attributed);
                    assert(at == old_body.len());
                }
                return Ok(());
            },
            Some((index, attr, next)) => {
                let loc = body[index].loc;
                let ghost mid = body@;
                let ghost attrs = attr@;
                let usages = pre_parse_statement(
                    &mut body[index],
                    attr,
                    name_ctx,
                    direct_funcs,
                    0,
                    filename,
                )?;
                proof {
                    assert(mid[index as int] == old_body[index as int]);
                    lemma_stmts_noted_step(
                        old_body,
                        mid,
                        body@,
                        0,
                        at as int,
                        index as int,
                        next as int,
                        attrs,
                        ctx,
                        0,
                        fname,
                    );
                    lemma_reaches_next(old_body, 0, at as int, next as int, fname);
                }
                // the variables at the top of a module are globals, which
                // do not count as used
                if !usages.is_empty() {
                    return Err(
                        new_program_error(
                            &loc,
                            filename,
                            ParseProgramError::ESTreeError(MSG_GLOBAL_USAGE),
                        ),
                    );
                }
                at = next;
            },
        }
    }
}

} // verus!
