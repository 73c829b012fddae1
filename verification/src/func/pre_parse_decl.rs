//! The analysis of variable declarations, imports and exports.

use crate::attributes::{next_attributed, spec_next_attributed, AttributedStep, Attributes};
use crate::error::{
    new_program_error, ParseProgramError, ProgramError, ProgramErrorView,
};
use crate::estree::{
    BlockStatement, DirectFuncs, ExportNamedDeclaration, ExpressionStatement, Function,
    FunctionDeclaration, Identifier, IfStatement, ImportDeclaration, LiteralValue, Node, NodeKind,
    ReturnStatement, VariableDeclaration,
};
use crate::frontendvar::{decls_view, resolve, NameCtx, NameCtxView, PreVar, VarLocId};
use crate::func::decls::{
    direct_type, params_view, validate_and_extract_decls, validate_and_extract_params, Outcome,
    MSG_DIRECT_ONLY_ON_FUNCTION, MSG_ID_HERE,
};
use crate::func::pre_parse_expr::{usage_agrees, assign_usage, pre_parse_expr};
use crate::func::annotation_spec::{specifier_noted, declarator_noted, expr_noted, exprs_noted, name_noted, name_resolved, specifiers_noted, var_decl_noted};
use crate::func::usage_spec::{
    MSG_ARRAY, MSG_ASSIGN_DIRECT, MSG_COMPOUND_ASSIGNMENT, MSG_CONSTRAINT_VALUE, MSG_CONSTRAINT_WITHOUT_DIRECT, MSG_DECLARATOR_CHILD, MSG_DIRECT_VALUE, MSG_EMPTY_ARRAY, MSG_EXPORT_LOCAL, MSG_EXPORT_SPECIFIER_ONLY, MSG_EXPRESSION_EXPECTED, MSG_FUNCTION_EXPRESSION, MSG_IF_ALTERNATE, MSG_IF_CONSEQUENT, MSG_IF_NO_ALTERNATE, MSG_IMPORT_LOCAL, MSG_IMPORT_SPECIFIER_ONLY, MSG_INITIALIZER, MSG_IN_BLOCK, MSG_LHS_IDENTIFIER, MSG_NESTED_ASSIGNMENT, MSG_NULL, MSG_REGEXP, MSG_RETURN_VALUE, MSG_STATEMENT_NOT_ALLOWED, MSG_TOO_DEEP, MSG_TOP_LEVEL, MSG_UPDATE, StatementAttributes, assigned_usage, block_usage, declarator_usage, declarators_usage, direct_func_decl_usage, elements_usage, expr_statement_usage, expr_usage, exprs_usage, func_decl_usage, function_usage, if_usage, param_decls, params_usage, read_statement_attributes, return_usage, specifiers_resolved, statement_attributes, stmt_usage, stmts_usage, use_of,
};
use crate::log::{opt_str_view, Span};
use crate::text::str_eq;
use crate::varusage::{
    clone_varusages, from_modified, from_used, lemma_ord, merge, merge_parallel, merge_series, ord,
    sorted, split_off_address_taken_vars, wrap_closure, Usage, UsageMap, UsageView,
};
use vstd::prelude::*;

verus! {

/// The usages of the elements of an array that initializes the variable of
/// the given name.
pub fn pre_parse_array_elements(
    elements: &mut Vec<Node>,
    name: &str,
    id_loc: &Option<Span>,
    name_ctx: &mut NameCtx,
    depth: usize,
    filename: Option<&str>,
) -> (result: Result<(Option<PreVar>, Option<UsageMap>), ProgramError>)
    ensures
        final(name_ctx)@ == old(name_ctx)@,
        result is Ok ==> exprs_noted(
            old(elements)@,
            final(elements)@,
            old(name_ctx)@,
            depth,
            opt_str_view(filename),
        ),
        match result {
            Ok((prevar, usages)) => {
                &&& elements_usage(
                    old(elements)@,
                    0,
                    None,
                    name@,
                    *id_loc,
                    old(name_ctx)@,
                    depth,
                    opt_str_view(filename),
                ) == Ok::<Option<UsageView>, ProgramErrorView>(
                    match usages {
                        Some(u) => Some(u@),
                        None => None,
                    },
                )
                &&& usages matches Some(u) ==> u.wf()
                &&& prevar == if usages is Some {
                    resolve(old(name_ctx)@, name@)
                } else {
                    None
                }
            },
            Err(e) => elements_usage(
                old(elements)@,
                0,
                None,
                name@,
                *id_loc,
                old(name_ctx)@,
                depth,
                opt_str_view(filename),
            ) == Err::<Option<UsageView>, ProgramErrorView>(e@),
        },
    decreases old(elements)@, 0int,
{
    reveal(elements_usage);
    reveal(expr_noted);
    let ghost ctx = name_ctx@;
    let ghost fname = opt_str_view(filename);
    let ghost old_elements = elements@;
    let mut acc: Option<UsageMap> = None;
    let mut found: Option<PreVar> = None;
    let mut i: usize = 0;
    while i < elements.len()
        invariant
            i <= old_elements.len(),
            elements@.len() == old_elements.len(),
            old_elements == old(elements)@,
            forall|j: int| i <= j < old_elements.len() ==> elements@[j] == old_elements[j],
            forall|j: int|
                0 <= j < i ==> expr_noted(#[trigger] old_elements[j], elements@[j], ctx, depth, fname),
            name_ctx@ == ctx,
            ctx == old(name_ctx)@,
            fname == opt_str_view(filename),
            acc matches Some(u) ==> u.wf(),
            acc is None ==> i == 0,
            found == if acc is Some {
                resolve(ctx, name@)
            } else {
                None
            },
            elements_usage(old_elements, 0, None, name@, *id_loc, ctx, depth, fname)
                == elements_usage(
                old_elements,
                i as int,
                match acc {
                    Some(u) => Some(u@),
                    None => None,
                },
                name@,
                *id_loc,
                ctx,
                depth,
                fname,
            ),
        decreases old_elements.len() - i,
    {
        proof {
            reveal(elements_usage);
        }
        let usage = pre_parse_expr(&mut elements[i], name_ctx, depth, filename)?;
        let (resvar, assigned) = assign_usage(usage, name_ctx, name, id_loc, filename)?;
        found = Some(resvar);
        acc = match acc {
            Some(prev) => Some(merge_series(prev, assigned)),
            None => Some(assigned),
        };
        i = i + 1;
    }
    Ok((found, acc))
}

/// The usages of one declarator.
pub fn pre_parse_declarator(
    decl: &mut Node,
    name_ctx: &mut NameCtx,
    depth: usize,
    filename: Option<&str>,
) -> (result: Result<UsageMap, ProgramError>)
    ensures
        final(name_ctx)@ == old(name_ctx)@,
        usage_agrees(
            result,
            declarator_usage(*old(decl), old(name_ctx)@, depth, opt_str_view(filename)),
        ),
        result is Ok ==> declarator_noted(
            *old(decl),
            *final(decl),
            old(name_ctx)@,
            depth,
            opt_str_view(filename),
        ),
    decreases *old(decl), 0int,
{
    reveal(declarator_noted);
    reveal(expr_noted);
    reveal(declarator_usage);
    reveal(elements_usage);
    let decl_loc = decl.loc;
    match &mut decl.kind {
        NodeKind::VariableDeclarator(declarator) => {
            let id_loc = declarator.id.loc;
            match &mut declarator.id.kind {
                NodeKind::Identifier(id) => {
                    match &mut declarator.init {
                        Some(expr) => {
                            let is_array = match &expr.kind {
                                NodeKind::ArrayExpression(_) => true,
                                _ => false,
                            };
                            if is_array {
                                match &mut expr.kind {
                                    NodeKind::ArrayExpression(array) => {
                                        let (resvar, usages) = pre_parse_array_elements(
                                            &mut array.elements,
                                            id.name.as_str(),
                                            &id_loc,
                                            name_ctx,
                                            depth,
                                            filename,
                                        )?;
                                        match usages {
                                            Some(ret) => {
                                                id.prevar = resvar;
                                                Ok(ret)
                                            },
                                            None => Err(
                                                new_program_error(
                                                    &decl_loc,
                                                    filename,
                                                    ParseProgramError::SourceRestrictionError(
                                                        MSG_EMPTY_ARRAY,
                                                    ),
                                                ),
                                            ),
                                        }
                                    },
                                    _ => {
                                        assert(false);
                                        Ok(UsageMap::new())
                                    },
                                }
                            } else {
                                let rhs_expr = pre_parse_expr(&mut **expr, name_ctx, depth, filename)?;
                                let (resvar, usages) = assign_usage(
                                    rhs_expr,
                                    name_ctx,
                                    id.name.as_str(),
                                    &id_loc,
                                    filename,
                                )?;
                                id.prevar = Some(resvar);
                                Ok(usages)
                            }
                        },
                        None => Err(
                            new_program_error(
                                &decl_loc,
                                filename,
                                ParseProgramError::SourceRestrictionError(MSG_INITIALIZER),
                            ),
                        ),
                    }
                },
                _ => Err(
                    new_program_error(&id_loc, filename, ParseProgramError::ESTreeError(MSG_ID_HERE)),
                ),
            }
        },
        _ => Err(
            new_program_error(
                &decl_loc,
                filename,
                ParseProgramError::ESTreeError(MSG_DECLARATOR_CHILD),
            ),
        ),
    }
}

/// The usages of a variable declaration: those of its declarators, in
/// order.
pub fn pre_parse_var_decl(
    es_var_decl: &mut VariableDeclaration,
    _loc: &Option<Span>,
    name_ctx: &mut NameCtx,
    depth: usize,
    filename: Option<&str>,
) -> (result: Result<UsageMap, ProgramError>)
    ensures
        final(name_ctx)@ == old(name_ctx)@,
        usage_agrees(
            result,
            declarators_usage(
                old(es_var_decl).declarations@,
                0,
                UsageView::empty(),
                old(name_ctx)@,
                depth,
                opt_str_view(filename),
            ),
        ),
        result is Ok ==> var_decl_noted(
            *old(es_var_decl),
            *final(es_var_decl),
            old(name_ctx)@,
            depth,
            opt_str_view(filename),
        ),
    decreases *old(es_var_decl), 0int,
{
    reveal(var_decl_noted);
    reveal(declarator_noted);
    reveal(declarators_usage);
    reveal(declarator_usage);
    let ghost ctx = name_ctx@;
    let ghost fname = opt_str_view(filename);
    let ghost old_decls = es_var_decl.declarations@;
    let mut acc = UsageMap::new();
    let mut i: usize = 0;
    while i < es_var_decl.declarations.len()
        invariant
            i <= old_decls.len(),
            es_var_decl.declarations@.len() == old_decls.len(),
            old_decls == old(es_var_decl).declarations@,
            forall|j: int| i <= j < old_decls.len() ==> es_var_decl.declarations@[j] == old_decls[j],
            forall|j: int|
                0 <= j < i ==> declarator_noted(
                    #[trigger] old_decls[j],
                    es_var_decl.declarations@[j],
                    ctx,
                    depth,
                    fname,
                ),
            es_var_decl.kind == old(es_var_decl).kind,
            name_ctx@ == ctx,
            ctx == old(name_ctx)@,
            fname == opt_str_view(filename),
            acc.wf(),
            declarators_usage(old_decls, 0, UsageView::empty(), ctx, depth, fname)
                == declarators_usage(old_decls, i as int, acc@, ctx, depth, fname),
        decreases old_decls.len() - i,
    {
        proof {
            reveal(declarators_usage);
            reveal(declarator_usage);
        }
        let usage = pre_parse_declarator(
            &mut es_var_decl.declarations[i],
            name_ctx,
            depth,
            filename,
        )?;
        acc = merge_series(acc, usage);
        i = i + 1;
    }
    Ok(acc)
}

/// Notes in the specifiers of an import what their local names are
/// resolved to.
pub fn pre_parse_import_decl(
    es_import_decl: &mut ImportDeclaration,
    _loc: &Option<Span>,
    name_ctx: &mut NameCtx,
    filename: Option<&str>,
) -> (result: Result<(), ProgramError>)
    ensures
        final(name_ctx)@ == old(name_ctx)@,
        crate::func::decls::agrees(
            result,
            |u: ()| (),
            specifiers_resolved(
                old(es_import_decl).specifiers@,
                0,
                false,
                old(name_ctx)@,
                opt_str_view(filename),
            ),
        ),
        result is Ok ==> specifiers_noted(
            old(es_import_decl).specifiers@,
            final(es_import_decl).specifiers@,
            false,
            old(name_ctx)@,
        ),
        final(es_import_decl).source == old(es_import_decl).source,
{
    reveal(specifiers_resolved);
    let ghost fname = opt_str_view(filename);
    let ghost old_specs = es_import_decl.specifiers@;
    let mut i: usize = 0;
    while i < es_import_decl.specifiers.len()
        invariant
            i <= old_specs.len(),
            es_import_decl.specifiers@.len() == old_specs.len(),
            old_specs == old(es_import_decl).specifiers@,
            forall|j: int| i <= j < old_specs.len() ==> es_import_decl.specifiers@[j] == old_specs[j],
            forall|j: int|
                0 <= j < i ==> specifier_noted(
                    #[trigger] old_specs[j],
                    es_import_decl.specifiers@[j],
                    false,
                    name_ctx@,
                ),
            es_import_decl.source == old(es_import_decl).source,
            name_ctx@ == old(name_ctx)@,
            fname == opt_str_view(filename),
            specifiers_resolved(old_specs, 0, false, name_ctx@, fname) == specifiers_resolved(
                old_specs,
                i as int,
                false,
                name_ctx@,
                fname,
            ),
        decreases old_specs.len() - i,
    {
        proof {
            reveal(specifiers_resolved);
        }
        let import_spec_node = &mut es_import_decl.specifiers[i];
        let node_loc = import_spec_node.loc;
        match &mut import_spec_node.kind {
            NodeKind::ImportSpecifier(import_spec) => {
                let local_loc = import_spec.local.loc;
                match &mut import_spec.local.kind {
                    NodeKind::Identifier(id) => {
                        match name_ctx.get(id.name.as_str()) {
                            Some(resvar) => {
                                id.prevar = Some(resvar);
                            },
                            None => {
                                return Err(
                                    new_program_error(
                                        &local_loc,
                                        filename,
                                        ParseProgramError::UndeclaredNameError(id.name.clone()),
                                    ),
                                );
                            },
                        }
                    },
                    _ => {
                        return Err(
                            new_program_error(
                                &local_loc,
                                filename,
                                ParseProgramError::ESTreeError(MSG_IMPORT_LOCAL),
                            ),
                        );
                    },
                }
            },
            _ => {
                return Err(
                    new_program_error(
                        &node_loc,
                        filename,
                        ParseProgramError::ESTreeError(MSG_IMPORT_SPECIFIER_ONLY),
                    ),
                );
            },
        }
        i = i + 1;
    }
    Ok(())
}

/// Notes in the specifiers of an export what their local names are
/// resolved to.
pub fn pre_parse_export_decl(
    es_export_decl: &mut ExportNamedDeclaration,
    _loc: &Option<Span>,
    name_ctx: &mut NameCtx,
    filename: Option<&str>,
) -> (result: Result<(), ProgramError>)
    ensures
        final(name_ctx)@ == old(name_ctx)@,
        crate::func::decls::agrees(
            result,
            |u: ()| (),
            specifiers_resolved(
                old(es_export_decl).specifiers@,
                0,
                true,
                old(name_ctx)@,
                opt_str_view(filename),
            ),
        ),
        result is Ok ==> specifiers_noted(
            old(es_export_decl).specifiers@,
            final(es_export_decl).specifiers@,
            true,
            old(name_ctx)@,
        ),
        final(es_export_decl).source == old(es_export_decl).source,
        final(es_export_decl).declaration == old(es_export_decl).declaration,
{
    reveal(specifiers_resolved);
    let ghost fname = opt_str_view(filename);
    let ghost old_specs = es_export_decl.specifiers@;
    let mut i: usize = 0;
    while i < es_export_decl.specifiers.len()
        invariant
            i <= old_specs.len(),
            es_export_decl.specifiers@.len() == old_specs.len(),
            old_specs == old(es_export_decl).specifiers@,
            forall|j: int| i <= j < old_specs.len() ==> es_export_decl.specifiers@[j] == old_specs[j],
            forall|j: int|
                0 <= j < i ==> specifier_noted(
                    #[trigger] old_specs[j],
                    es_export_decl.specifiers@[j],
                    true,
                    name_ctx@,
                ),
            es_export_decl.source == old(es_export_decl).source,
            es_export_decl.declaration == old(es_export_decl).declaration,
            name_ctx@ == old(name_ctx)@,
            fname == opt_str_view(filename),
            specifiers_resolved(old_specs, 0, true, name_ctx@, fname) == specifiers_resolved(
                old_specs,
                i as int,
                true,
                name_ctx@,
                fname,
            ),
        decreases old_specs.len() - i,
    {
        proof {
            reveal(specifiers_resolved);
        }
        let export_spec_node = &mut es_export_decl.specifiers[i];
        let node_loc = export_spec_node.loc;
        match &mut export_spec_node.kind {
            NodeKind::ExportSpecifier(export_spec) => {
                let local_loc = export_spec.local.loc;
                match &mut export_spec.local.kind {
                    NodeKind::Identifier(id) => {
                        match name_ctx.get(id.name.as_str()) {
                            Some(resvar) => {
                                id.prevar = Some(resvar);
                            },
                            None => {
                                return Err(
                                    new_program_error(
                                        &local_loc,
                                        filename,
                                        ParseProgramError::UndeclaredNameError(id.name.clone()),
                                    ),
                                );
                            },
                        }
                    },
                    _ => {
                        return Err(
                            new_program_error(
                                &local_loc,
                                filename,
                                ParseProgramError::ESTreeError(MSG_EXPORT_LOCAL),
                            ),
                        );
                    },
                }
            },
            _ => {
                return Err(
                    new_program_error(
                        &node_loc,
                        filename,
                        ParseProgramError::ESTreeError(MSG_EXPORT_SPECIFIER_ONLY),
                    ),
                );
            },
        }
        i = i + 1;
    }
    Ok(())
}

} // verus!
