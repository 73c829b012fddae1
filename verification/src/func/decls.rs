//! The declarations of a scope: which names the statements of a block, a
//! function or a module declare, and what each name stands for.
//!
//! A function declaration or a variable declaration declares a variable,
//! which gets the next free index of the scope; a function declaration with
//! the attribute `direct` declares a direct function, or one more signature
//! of a direct function that the scope has already. At the top of a module,
//! an import declares what the module that it names exports, and an export
//! names what the module itself declares.

use vstd::prelude::*;
use crate::attributes::{
    attr_value, attr_value_view, has_key, lemma_attr_value, next_attributed, spec_next_attributed,
    AttributedStep, Attributes, AttributesView,
};
use crate::constraint::{
    constrained_type, constrains, constraint_position, constraint_result_view, constraints_view,
    parse_constraint, spec_parse_constraint, type_of_param, ConstraintsView,
};
use crate::error::{
    new_program_error, program_error, ParseProgramError, ParseProgramErrorView, ProgramError,
    ProgramErrorView,
};
use crate::estree::{
    ExportNamedDeclaration, FunctionDeclaration, ImportDeclaration, Node, NodeKind,
    VariableDeclaration,
};
use crate::frontendvar::{
    ctx_get, decls_view, spec_try_coalesce, NameCtxView, PreVar, ProgramPreExports, VarCtx,
    VarCtxView, VarLocId, VarValue, VarValueView,
};
use crate::log::{opt_str_view, Span};
use crate::text::str_eq;
use crate::vartype::VarType;

verus! {

pub const MSG_TOO_MANY_DECLS: &'static str = "Too many declarations in one scope";

pub const MSG_ID_HERE: &'static str = "Expected ESTree Identifier here";

pub const MSG_EXPECTED_IDENTIFIER: &'static str = "Expected identifier";

pub const MSG_PARAM_ID: &'static str = "Parameter node must be an identifier";

pub const MSG_CONSTRAINT_NEEDS_VALUE: &'static str = "'constraint' attribute must have a value";

pub const MSG_CONSTRAINT_UNKNOWN_PARAM: &'static str =
    "Parameter name specified in 'constraint' attribute does not exist";

pub const MSG_DIRECT_ONLY_ON_FUNCTION: &'static str =
    "The 'direct' attribute can only appear on FunctionDeclaration";

pub const MSG_DECLARATOR_EXPECTED: &'static str =
    "Expected VariableDeclarator inside VariableDeclaration only";

pub const MSG_NO_ATTRS_ON_IMPORT: &'static str = "Attributes are not allowed on import declaration";

pub const MSG_IMPORT_SPECIFIER_EXPECTED: &'static str =
    "Expected ImportSpecifier inside ImportDeclaration only";

pub const MSG_IMPORT_SOURCE_ID: &'static str = "ImportSpecifier source must be Identifier";

pub const MSG_IMPORT_LOCAL_ID: &'static str = "ImportSpecifier local must be Identifier";

pub const MSG_IMPORT_UNRESOLVED: &'static str = "Import declaration without a resolved module";

pub const MSG_EXPORT_WITH_DECL: &'static str =
    "Combined export and variable declaration is not allowed";

pub const MSG_EXPORT_WITH_IMPORT: &'static str =
    "Combined export and import declaration is not allowed";

pub const MSG_EXPORT_SPECIFIER_EXPECTED: &'static str =
    "Expected ExportSpecifier inside ExportNamedDeclaration only";

pub const MSG_EXPORT_EXPORTED_ID: &'static str = "ExportSpecifier exported must be Identifier";

pub const MSG_EXPORT_LOCAL_ID: &'static str = "ExportSpecifier local must be Identifier";

/// What the analysis gives: a value, or an error with its place.
pub type Outcome<T> = Result<T, ProgramErrorView>;

/// Whether the result of an executable function stands for the outcome: the
/// function succeeded with the value of the outcome, or failed with its
/// error.
pub open spec fn agrees<T, U>(result: Result<T, ProgramError>, value: spec_fn(T) -> U, outcome: Outcome<U>) -> bool {
    match result {
        Ok(t) => outcome == Ok::<U, ProgramErrorView>(value(t)),
        Err(e) => outcome == Err::<U, ProgramErrorView>(e@),
    }
}

/// What is known of the declarations of a scope while its statements are
/// read: the names with their values, the names in the order of their
/// declarations with what each is resolved to, and the next free index.
pub struct DeclState {
    pub var_ctx: VarCtxView,
    pub out: NameCtxView,
    pub next_idx: usize,
}

/// The state that the three hold together.
pub open spec fn decl_state(var_ctx: VarCtx, out: Vec<(String, PreVar)>, next_idx: usize) -> DeclState {
    DeclState { var_ctx: var_ctx@, out: decls_view(out@), next_idx }
}

/// What declaring one identifier does to a scope: the names with their
/// values and the next free index afterwards, and the name that is new to
/// the scope, if one is, with what it is resolved to.
pub struct Coalesced {
    pub var_ctx: VarCtxView,
    pub next_idx: usize,
    pub declared: Option<(Seq<char>, PreVar)>,
}

impl DeclState {
    /// The state after one identifier has been declared.
    pub open spec fn after(self, c: Coalesced) -> DeclState {
        DeclState {
            var_ctx: c.var_ctx,
            out: match c.declared {
                Some(entry) => self.out.push(entry),
                None => self.out,
            },
            next_idx: c.next_idx,
        }
    }
}

/// What it does to a scope at the given depth to declare the identifier as a
/// variable: the variable gets the next free index, and it is an error
/// where the scope has the name already.
pub open spec fn spec_try_coalesce_id_target(
    var_ctx: VarCtxView,
    next_idx: usize,
    id: Node,
    depth: usize,
    filename: Option<Seq<char>>,
) -> Outcome<Coalesced> {
    match id.kind {
        NodeKind::Identifier(ident) => {
            let loc = VarLocId { depth, index: next_idx };
            if next_idx == usize::MAX {
                Err(
                    program_error(
                        id.loc,
                        filename,
                        ParseProgramErrorView::ESTreeError(MSG_TOO_MANY_DECLS@),
                    ),
                )
            } else {
                match spec_try_coalesce(var_ctx, ident.name@, VarValueView::Target(loc)) {
                    Some(ctx) => Ok(
                        Coalesced {
                            var_ctx: ctx,
                            next_idx: (next_idx + 1) as usize,
                            declared: Some((ident.name@, PreVar::Target(loc))),
                        },
                    ),
                    None => Err(
                        program_error(
                            id.loc,
                            filename,
                            ParseProgramErrorView::DuplicateDeclarationError(ident.name@),
                        ),
                    ),
                }
            }
        },
        _ => Err(program_error(id.loc, filename, ParseProgramErrorView::ESTreeError(MSG_ID_HERE@))),
    }
}

/// Declares the identifier as a variable of the scope at the given depth,
/// with the next free index. Gives the name and the location.
pub fn try_coalesce_id_target<'a>(
    var_ctx: &mut ProgramPreExports,
    es_id_node: &'a Node,
    depth: usize,
    start_idx: &mut usize,
    filename: Option<&str>,
) -> (result: Result<(&'a str, VarLocId), ProgramError>)
    ensures
        agrees(
            result,
            |r: (&'a str, VarLocId)|
                Coalesced {
                    var_ctx: final(var_ctx)@,
                    next_idx: *final(start_idx),
                    declared: Some((r.0@, PreVar::Target(r.1))),
                },
            spec_try_coalesce_id_target(
                old(var_ctx)@,
                *old(start_idx),
                *es_id_node,
                depth,
                opt_str_view(filename),
            ),
        ),
        result is Err ==> final(var_ctx)@ == old(var_ctx)@ && *final(start_idx) == *old(start_idx),
{
    match &es_id_node.kind {
        NodeKind::Identifier(es_id) => {
            let ret = VarLocId { depth, index: *start_idx };
            if *start_idx == usize::MAX {
                return Err(
                    new_program_error(
                        &es_id_node.loc,
                        filename,
                        ParseProgramError::ESTreeError(MSG_TOO_MANY_DECLS),
                    ),
                );
            }
            if var_ctx.try_coalesce(es_id.name.clone(), VarValue::Target(ret)) {
                *start_idx = *start_idx + 1;
                Ok((es_id.name.as_str(), ret))
            } else {
                Err(
                    new_program_error(
                        &es_id_node.loc,
                        filename,
                        ParseProgramError::DuplicateDeclarationError(es_id.name.clone()),
                    ),
                )
            }
        },
        _ => Err(
            new_program_error(
                &es_id_node.loc,
                filename,
                ParseProgramError::ESTreeError(MSG_ID_HERE),
            ),
        ),
    }
}

/// The names of the parameters, in order; an error where a parameter is no
/// identifier (with the given message) or has the name of an earlier one.
pub open spec fn spec_param_names(params: Seq<Node>, message: Seq<char>, filename: Option<Seq<char>>) -> Outcome<
    Seq<Seq<char>>,
>
    decreases params.len(),
{
    if params.len() == 0 {
        Ok(Seq::<Seq<char>>::empty())
    } else {
        match spec_param_names(params.drop_last(), message, filename) {
            Err(e) => Err(e),
            Ok(names) => match params.last().kind {
                NodeKind::Identifier(id) => if names.contains(id.name@) {
                    Err(
                        program_error(
                            params.last().loc,
                            filename,
                            ParseProgramErrorView::DuplicateDeclarationError(id.name@),
                        ),
                    )
                } else {
                    Ok(names.push(id.name@))
                },
                _ => Err(
                    program_error(
                        params.last().loc,
                        filename,
                        ParseProgramErrorView::ESTreeError(message),
                    ),
                ),
            },
        }
    }
}

/// The characters of each of the strings.
pub open spec fn names_view(names: Seq<String>) -> Seq<Seq<char>> {
    Seq::new(names.len(), |i: int| names[i]@)
}

/// Whether one of the names is the given one.
fn has_name(names: &Vec<String>, name: &str) -> (found: bool)
    ensures
        found == names_view(names@).contains(name@),
{
    let mut i: usize = 0;
    while i < names.len()
        invariant
            i <= names@.len(),
            forall|j: int| 0 <= j < i ==> names@[j]@ != name@,
        decreases names@.len() - i,
    {
        if str_eq(names[i].as_str(), name) {
            assert(names_view(names@)[i as int] == name@);
            return true;
        }
        i = i + 1;
    }
    proof {
        if names_view(names@).contains(name@) {
            let k = choose|k: int| 0 <= k < names_view(names@).len() && names_view(names@)[k] == name@;
            assert(names@[k]@ == name@);
        }
    }
    false
}

/// A list of parameters that starts with parameters which are refused is
/// refused with the same error.
proof fn lemma_param_names_prefix(params: Seq<Node>, message: Seq<char>, filename: Option<Seq<char>>, n: int)
    requires
        0 <= n <= params.len(),
        spec_param_names(params.take(n), message, filename) is Err,
    ensures
        spec_param_names(params, message, filename) == spec_param_names(
            params.take(n),
            message,
            filename,
        ),
    decreases params.len() - n,
{
    if n == params.len() {
        assert(params.take(n) =~= params);
    } else {
        assert(params.take(n + 1).drop_last() =~= params.take(n));
        lemma_param_names_prefix(params, message, filename, n + 1);
    }
}

/// The names of the parameters, in order.
pub fn param_names(params: &Vec<Node>, message: &'static str, filename: Option<&str>) -> (result: Result<
    Vec<String>,
    ProgramError,
>)
    ensures
        agrees(
            result,
            |names: Vec<String>| names_view(names@),
            spec_param_names(params@, message@, opt_str_view(filename)),
        ),
{
    let mut names: Vec<String> = Vec::new();
    let mut i: usize = 0;
    let ghost fname = opt_str_view(filename);
    assert(names_view(names@) =~= Seq::<Seq<char>>::empty());
    while i < params.len()
        invariant
            i <= params@.len(),
            fname == opt_str_view(filename),
            spec_param_names(params@.take(i as int), message@, fname) == Ok::<
                Seq<Seq<char>>,
                ProgramErrorView,
            >(names_view(names@)),
        decreases params@.len() - i,
    {
        proof {
            assert(params@.take(i + 1).drop_last() =~= params@.take(i as int));
            assert(params@.take(i + 1).last() == params@[i as int]);
        }
        match &params[i].kind {
            NodeKind::Identifier(es_id) => {
                if has_name(&names, es_id.name.as_str()) {
                    proof {
                        lemma_param_names_prefix(params@, message@, fname, i + 1);
                    }
                    return Err(
                        new_program_error(
                            &params[i].loc,
                            filename,
                            ParseProgramError::DuplicateDeclarationError(es_id.name.clone()),
                        ),
                    );
                }
                let ghost before = names_view(names@);
                names.push(es_id.name.clone());
                assert(names_view(names@) =~= before.push(es_id.name@));
            },
            _ => {
                proof {
                    lemma_param_names_prefix(params@, message@, fname, i + 1);
                }
                return Err(
                    new_program_error(
                        &params[i].loc,
                        filename,
                        ParseProgramError::ESTreeError(message),
                    ),
                );
            },
        }
        i = i + 1;
    }
    assert(params@.take(i as int) =~= params@);
    Ok(names)
}

/// The constraints that the value of the attribute `constraint` stands for:
/// none where the attribute is missing, and a reason for refusal where it
/// has no value or an ill-formed one.
pub open spec fn spec_direct_constraints(value: Option<Option<Seq<char>>>) -> Result<
    ConstraintsView,
    Seq<char>,
> {
    match value {
        None => Ok(ConstraintsView::empty()),
        Some(None) => Err(MSG_CONSTRAINT_NEEDS_VALUE@),
        Some(Some(text)) => spec_parse_constraint(text),
    }
}

/// Whether every parameter that the constraints name is one of the names.
pub open spec fn constraints_known(constraints: ConstraintsView, names: Seq<Seq<char>>) -> bool {
    forall|i: int| 0 <= i < constraints.len() ==> names.contains((#[trigger] constraints[i]).0)
}

/// The types of the parameters with the given names under the constraints.
pub open spec fn direct_signature(constraints: ConstraintsView, names: Seq<Seq<char>>) -> Seq<VarType> {
    Seq::new(names.len(), |i: int| constrained_type(constraints, names[i]))
}

/// The signature of a direct function with the given parameters and the
/// given value of the attribute `constraint`; errors are reported at `loc`,
/// but for those about a parameter, which are reported there.
#[verifier::opaque]
pub open spec fn spec_direct_type(
    params: Seq<Node>,
    loc: Option<Span>,
    constraint: Option<Option<Seq<char>>>,
    filename: Option<Seq<char>>,
) -> Outcome<Seq<VarType>> {
    match spec_param_names(params, MSG_EXPECTED_IDENTIFIER@, filename) {
        Err(e) => Err(e),
        Ok(names) => match spec_direct_constraints(constraint) {
            Err(reason) => Err(
                program_error(loc, filename, ParseProgramErrorView::AttributeContentError(reason)),
            ),
            Ok(constraints) => if !constraints_known(constraints, names) {
                Err(
                    program_error(
                        loc,
                        filename,
                        ParseProgramErrorView::AttributeContentError(MSG_CONSTRAINT_UNKNOWN_PARAM@),
                    ),
                )
            } else {
                Ok(direct_signature(constraints, names))
            },
        },
    }
}

/// The signature of a direct function with the given parameters and the
/// given value of the attribute `constraint`.
pub fn direct_type(
    param_nodes: &Vec<Node>,
    loc: &Option<Span>,
    constraint_str_opt: Option<&Option<String>>,
    filename: Option<&str>,
) -> (result: Result<Vec<VarType>, ProgramError>)
    ensures
        agrees(
            result,
            |t: Vec<VarType>| t@,
            spec_direct_type(
                param_nodes@,
                *loc,
                attr_value_view(constraint_str_opt),
                opt_str_view(filename),
            ),
        ),
{
    reveal(spec_direct_type);
    let names = param_names(param_nodes, MSG_EXPECTED_IDENTIFIER, filename)?;
    let parsed: Result<Vec<(String, VarType)>, &'static str> = match constraint_str_opt {
        Some(cso) => match cso {
            Some(constraint_str) => parse_constraint(constraint_str.as_str()),
            None => Err(MSG_CONSTRAINT_NEEDS_VALUE),
        },
        None => Ok(Vec::new()),
    };
    proof {
        if constraint_str_opt is None {
            assert(constraints_view(parsed->Ok_0@) =~= ConstraintsView::empty());
        }
        assert(constraint_result_view(parsed) == spec_direct_constraints(
            attr_value_view(constraint_str_opt),
        ));
    }
    let constraints = match parsed {
        Ok(c) => c,
        Err(reason) => {
            return Err(
                new_program_error(loc, filename, ParseProgramError::AttributeContentError(reason)),
            );
        },
    };
    let ghost cv = constraints_view(constraints@);
    let ghost nv = names_view(names@);
    let mut k: usize = 0;
    while k < constraints.len()
        invariant
            k <= constraints@.len(),
            cv == constraints_view(constraints@),
            nv == names_view(names@),
            spec_param_names(param_nodes@, MSG_EXPECTED_IDENTIFIER@, opt_str_view(filename)) == Ok::<
                Seq<Seq<char>>,
                ProgramErrorView,
            >(nv),
            spec_direct_constraints(attr_value_view(constraint_str_opt)) == Ok::<
                ConstraintsView,
                Seq<char>,
            >(cv),
            forall|i: int| 0 <= i < k ==> nv.contains((#[trigger] cv[i]).0),
        decreases constraints@.len() - k,
    {
        proof {
            reveal(spec_direct_type);
        }
        if !has_name(&names, constraints[k].0.as_str()) {
            assert(!nv.contains(cv[k as int].0));
            return Err(
                new_program_error(
                    loc,
                    filename,
                    ParseProgramError::AttributeContentError(MSG_CONSTRAINT_UNKNOWN_PARAM),
                ),
            );
        }
        k = k + 1;
    }
    let mut types: Vec<VarType> = Vec::new();
    let mut i: usize = 0;
    while i < names.len()
        invariant
            i <= names@.len(),
            cv == constraints_view(constraints@),
            nv == names_view(names@),
            types@ == direct_signature(cv, nv).take(i as int),
        decreases names@.len() - i,
    {
        proof {
            reveal(spec_direct_type);
        }
        types.push(type_of_param(&constraints, names[i].as_str()));
        assert(direct_signature(cv, nv).take(i + 1) =~= direct_signature(cv, nv).take(i as int).push(
            direct_signature(cv, nv)[i as int],
        ));
        i = i + 1;
    }
    assert(direct_signature(cv, nv).take(i as int) =~= direct_signature(cv, nv));
    Ok(types)
}

/// What it does to a scope to declare the identifier as a direct function
/// with the given parameters: a new name where the scope has no direct
/// function of that name, and one more signature where it has. It is an
/// error where the scope has a variable of that name, or a direct function
/// with the same signature.
pub open spec fn spec_try_coalesce_id_direct(
    var_ctx: VarCtxView,
    next_idx: usize,
    params: Seq<Node>,
    id: Node,
    constraint: Option<Option<Seq<char>>>,
    filename: Option<Seq<char>>,
) -> Outcome<Coalesced> {
    match id.kind {
        NodeKind::Identifier(ident) => match spec_direct_type(params, id.loc, constraint, filename) {
            Err(e) => Err(e),
            Ok(signature) => match spec_try_coalesce(
                var_ctx,
                ident.name@,
                VarValueView::Direct(seq![signature]),
            ) {
                None => Err(
                    program_error(
                        id.loc,
                        filename,
                        ParseProgramErrorView::DuplicateDeclarationError(ident.name@),
                    ),
                ),
                Some(ctx) => if ctx.len() > var_ctx.len() {
                    if next_idx == usize::MAX {
                        Err(
                            program_error(
                                id.loc,
                                filename,
                                ParseProgramErrorView::ESTreeError(MSG_TOO_MANY_DECLS@),
                            ),
                        )
                    } else {
                        Ok(
                            Coalesced {
                                var_ctx: ctx,
                                next_idx: (next_idx + 1) as usize,
                                declared: Some((ident.name@, PreVar::Direct)),
                            },
                        )
                    }
                } else {
                    Ok(Coalesced { var_ctx: ctx, next_idx, declared: None })
                },
            },
        },
        _ => Err(program_error(id.loc, filename, ParseProgramErrorView::ESTreeError(MSG_ID_HERE@))),
    }
}

/// Declares the identifier as a direct function with the given parameters.
/// Gives the name where it is new to the scope, and nothing where the scope
/// had a direct function of that name and got one more signature of it.
pub fn try_coalesce_id_direct<'a>(
    var_ctx: &mut ProgramPreExports,
    param_nodes: &Vec<Node>,
    es_id_node: &'a Node,
    constraint_str_opt: Option<&Option<String>>,
    _depth: usize,
    start_idx: &mut usize,
    filename: Option<&str>,
) -> (result: Result<Option<&'a str>, ProgramError>)
    ensures
        agrees(
            result,
            |r: Option<&'a str>|
                Coalesced {
                    var_ctx: final(var_ctx)@,
                    next_idx: *final(start_idx),
                    declared: match r {
                        Some(name) => Some((name@, PreVar::Direct)),
                        None => None,
                    },
                },
            spec_try_coalesce_id_direct(
                old(var_ctx)@,
                *old(start_idx),
                param_nodes@,
                *es_id_node,
                attr_value_view(constraint_str_opt),
                opt_str_view(filename),
            ),
        ),
        result is Err ==> final(var_ctx)@ == old(var_ctx)@ && *final(start_idx) == *old(start_idx),
{
    match &es_id_node.kind {
        NodeKind::Identifier(es_id) => {
            let signature = direct_type(param_nodes, &es_id_node.loc, constraint_str_opt, filename)?;
            // a name that is new to the scope takes an index: see that one
            // is left before the scope is changed
            let is_new = var_ctx.position(es_id.name.as_str()).is_none();
            if is_new && *start_idx == usize::MAX {
                return Err(
                    new_program_error(
                        &es_id_node.loc,
                        filename,
                        ParseProgramError::ESTreeError(MSG_TOO_MANY_DECLS),
                    ),
                );
            }
            if var_ctx.try_coalesce(es_id.name.clone(), VarValue::new_direct(signature)) {
                if is_new {
                    *start_idx = *start_idx + 1;
                    Ok(Some(es_id.name.as_str()))
                } else {
                    Ok(None)
                }
            } else {
                Err(
                    new_program_error(
                        &es_id_node.loc,
                        filename,
                        ParseProgramError::DuplicateDeclarationError(es_id.name.clone()),
                    ),
                )
            }
        },
        _ => Err(
            new_program_error(
                &es_id_node.loc,
                filename,
                ParseProgramError::ESTreeError(MSG_ID_HERE),
            ),
        ),
    }
}

/// The state after a function declaration with the given attributes has
/// been read: the function is a direct function where it has the attribute
/// `direct`, and a variable where it has not.
pub open spec fn spec_process_func_decl(
    st: DeclState,
    func_decl: FunctionDeclaration,
    attrs: AttributesView,
    depth: usize,
    filename: Option<Seq<char>>,
) -> Outcome<DeclState> {
    let coalesced = if has_key(attrs, "direct"@) {
        spec_try_coalesce_id_direct(
            st.var_ctx,
            st.next_idx,
            func_decl.function.params@,
            *func_decl.id,
            attr_value(attrs, "constraint"@),
            filename,
        )
    } else {
        spec_try_coalesce_id_target(st.var_ctx, st.next_idx, *func_decl.id, depth, filename)
    };
    match coalesced {
        Ok(c) => Ok(st.after(c)),
        Err(e) => Err(e),
    }
}

/// Reads a function declaration with its attributes as a declaration of
/// the scope at the given depth.
pub fn process_func_decl_validation(
    var_ctx: &mut ProgramPreExports,
    out: &mut Vec<(String, PreVar)>,
    func_decl: &FunctionDeclaration,
    _loc: &Option<Span>,
    attr: &Attributes,
    depth: usize,
    start_idx: &mut usize,
    filename: Option<&str>,
) -> (result: Result<(), ProgramError>)
    ensures
        agrees(
            result,
            |u: ()| decl_state(*final(var_ctx), *final(out), *final(start_idx)),
            spec_process_func_decl(
                decl_state(*old(var_ctx), *old(out), *old(start_idx)),
                *func_decl,
                attr@,
                depth,
                opt_str_view(filename),
            ),
        ),
{
    let ghost before = decls_view(out@);
    if attr.contains_key("direct") {
        if let Some(name) = try_coalesce_id_direct(
            var_ctx,
            &func_decl.function.params,
            &*func_decl.id,
            attr.get("constraint"),
            depth,
            start_idx,
            filename,
        )? {
            out.push((name.to_owned(), PreVar::Direct));
            assert(decls_view(out@) =~= before.push((name@, PreVar::Direct)));
        }
    } else {
        let (name, varlocid) = try_coalesce_id_target(
            var_ctx,
            &*func_decl.id,
            depth,
            start_idx,
            filename,
        )?;
        out.push((name.to_owned(), PreVar::Target(varlocid)));
        assert(decls_view(out@) =~= before.push((name@, PreVar::Target(varlocid))));
    }
    Ok(())
}

/// The state after the declarators from position `at` on have been read as
/// declarations of variables.
pub open spec fn spec_declarators(
    st: DeclState,
    declarations: Seq<Node>,
    at: int,
    loc: Option<Span>,
    depth: usize,
    filename: Option<Seq<char>>,
) -> Outcome<DeclState>
    decreases declarations.len() - at,
{
    if at < 0 || at >= declarations.len() {
        Ok(st)
    } else {
        match declarations[at].kind {
            NodeKind::VariableDeclarator(d) => match spec_try_coalesce_id_target(
                st.var_ctx,
                st.next_idx,
                *d.id,
                depth,
                filename,
            ) {
                Ok(c) => spec_declarators(st.after(c), declarations, at + 1, loc, depth, filename),
                Err(e) => Err(e),
            },
            _ => Err(
                program_error(
                    loc,
                    filename,
                    ParseProgramErrorView::ESTreeError(MSG_DECLARATOR_EXPECTED@),
                ),
            ),
        }
    }
}

/// The state after a variable declaration with the given attributes has
/// been read: each of its declarators declares a variable. A variable
/// cannot be direct.
pub open spec fn spec_process_var_decl(
    st: DeclState,
    var_decl: VariableDeclaration,
    loc: Option<Span>,
    attrs: AttributesView,
    depth: usize,
    filename: Option<Seq<char>>,
) -> Outcome<DeclState> {
    if has_key(attrs, "direct"@) {
        Err(
            program_error(
                loc,
                filename,
                ParseProgramErrorView::AttributeContentError(MSG_DIRECT_ONLY_ON_FUNCTION@),
            ),
        )
    } else {
        spec_declarators(st, var_decl.declarations@, 0, loc, depth, filename)
    }
}

/// Reads a variable declaration with its attributes as declarations of the
/// scope at the given depth.
pub fn process_var_decl_validation(
    var_ctx: &mut ProgramPreExports,
    out: &mut Vec<(String, PreVar)>,
    var_decl: &VariableDeclaration,
    loc: &Option<Span>,
    attr: &Attributes,
    depth: usize,
    start_idx: &mut usize,
    filename: Option<&str>,
) -> (result: Result<(), ProgramError>)
    ensures
        agrees(
            result,
            |u: ()| decl_state(*final(var_ctx), *final(out), *final(start_idx)),
            spec_process_var_decl(
                decl_state(*old(var_ctx), *old(out), *old(start_idx)),
                *var_decl,
                *loc,
                attr@,
                depth,
                opt_str_view(filename),
            ),
        ),
{
    if attr.contains_key("direct") {
        Err(
            new_program_error(
                loc,
                filename,
                ParseProgramError::AttributeContentError(MSG_DIRECT_ONLY_ON_FUNCTION),
            ),
        )
    } else {
        let ghost start = decl_state(*var_ctx, *out, *start_idx);
        let ghost fname = opt_str_view(filename);
        let mut i: usize = 0;
        while i < var_decl.declarations.len()
            invariant
                i <= var_decl.declarations@.len(),
                fname == opt_str_view(filename),
                !has_key(attr@, "direct"@),
                start == decl_state(*old(var_ctx), *old(out), *old(start_idx)),
                spec_declarators(start, var_decl.declarations@, 0, *loc, depth, fname)
                    == spec_declarators(
                    decl_state(*var_ctx, *out, *start_idx),
                    var_decl.declarations@,
                    i as int,
                    *loc,
                    depth,
                    fname,
                ),
            decreases var_decl.declarations@.len() - i,
        {
            match &var_decl.declarations[i].kind {
                NodeKind::VariableDeclarator(var_decr) => {
                    let ghost before = decls_view(out@);
                    let (name, varlocid) = try_coalesce_id_target(
                        var_ctx,
                        &*var_decr.id,
                        depth,
                        start_idx,
                        filename,
                    )?;
                    out.push((name.to_owned(), PreVar::Target(varlocid)));
                    assert(decls_view(out@) =~= before.push((name@, PreVar::Target(varlocid))));
                },
                _ => {
                    return Err(
                        new_program_error(
                            loc,
                            filename,
                            ParseProgramError::ESTreeError(MSG_DECLARATOR_EXPECTED),
                        ),
                    );
                },
            }
            i = i + 1;
        }
        Ok(())
    }
}

/// The state after the import specifiers from position `at` on have been
/// read: each declares, under its local name, what the module that the
/// import names exports under the imported name.
pub open spec fn spec_import_specifiers(
    st: DeclState,
    specifiers: Seq<Node>,
    at: int,
    import_state: VarCtxView,
    loc: Option<Span>,
    filename: Option<Seq<char>>,
) -> Outcome<DeclState>
    decreases specifiers.len() - at,
{
    if at < 0 || at >= specifiers.len() {
        Ok(st)
    } else {
        match specifiers[at].kind {
            NodeKind::ImportSpecifier(spec) => match (spec.imported.kind, spec.local.kind) {
                (NodeKind::Identifier(source_id), NodeKind::Identifier(local_id)) => match ctx_get(
                    import_state,
                    source_id.name@,
                ) {
                    None => Err(
                        program_error(
                            spec.imported.loc,
                            filename,
                            ParseProgramErrorView::UndeclaredExportError(source_id.name@),
                        ),
                    ),
                    Some(value) => match spec_try_coalesce(st.var_ctx, local_id.name@, value) {
                        None => Err(
                            program_error(
                                spec.local.loc,
                                filename,
                                ParseProgramErrorView::DuplicateDeclarationError(local_id.name@),
                            ),
                        ),
                        Some(ctx) => spec_import_specifiers(
                            DeclState {
                                var_ctx: ctx,
                                out: st.out.push((local_id.name@, value.prevar())),
                                next_idx: st.next_idx,
                            },
                            specifiers,
                            at + 1,
                            import_state,
                            loc,
                            filename,
                        ),
                    },
                },
                (NodeKind::Identifier(_), _) => Err(
                    program_error(
                        spec.local.loc,
                        filename,
                        ParseProgramErrorView::ESTreeError(MSG_IMPORT_LOCAL_ID@),
                    ),
                ),
                _ => Err(
                    program_error(
                        spec.imported.loc,
                        filename,
                        ParseProgramErrorView::ESTreeError(MSG_IMPORT_SOURCE_ID@),
                    ),
                ),
            },
            _ => Err(
                program_error(
                    loc,
                    filename,
                    ParseProgramErrorView::ESTreeError(MSG_IMPORT_SPECIFIER_EXPECTED@),
                ),
            ),
        }
    }
}

/// The state after an import declaration with the given attributes has been
/// read. An import has no attributes.
pub open spec fn spec_process_import_decl(
    st: DeclState,
    import_state: VarCtxView,
    import_decl: ImportDeclaration,
    loc: Option<Span>,
    attrs: AttributesView,
    filename: Option<Seq<char>>,
) -> Outcome<DeclState> {
    if attrs.len() != 0 {
        Err(
            program_error(
                loc,
                filename,
                ParseProgramErrorView::AttributeContentError(MSG_NO_ATTRS_ON_IMPORT@),
            ),
        )
    } else {
        spec_import_specifiers(st, import_decl.specifiers@, 0, import_state, loc, filename)
    }
}

/// Reads an import declaration with its attributes: each of its specifiers
/// declares, under its local name, what `import_state` has under the
/// imported name.
pub fn process_import_decl_validation(
    var_ctx: &mut ProgramPreExports,
    out: &mut Vec<(String, PreVar)>,
    import_state: &ProgramPreExports,
    import_decl: &ImportDeclaration,
    loc: &Option<Span>,
    attr: &Attributes,
    filename: Option<&str>,
) -> (result: Result<(), ProgramError>)
    ensures
        forall|next_idx: usize|
            agrees(
                result,
                |u: ()| decl_state(*final(var_ctx), *final(out), next_idx),
                #[trigger] spec_process_import_decl(
                    decl_state(*old(var_ctx), *old(out), next_idx),
                    import_state@,
                    *import_decl,
                    *loc,
                    attr@,
                    opt_str_view(filename),
                ),
            ),
{
    if !attr.is_empty() {
        Err(
            new_program_error(
                loc,
                filename,
                ParseProgramError::AttributeContentError(MSG_NO_ATTRS_ON_IMPORT),
            ),
        )
    } else {
        let ghost start_ctx = *var_ctx;
        let ghost start_out = *out;
        let ghost fname = opt_str_view(filename);
        let mut i: usize = 0;
        while i < import_decl.specifiers.len()
            invariant
                i <= import_decl.specifiers@.len(),
                fname == opt_str_view(filename),
                attr@.len() == 0,
                start_ctx == *old(var_ctx),
                start_out == *old(out),
                forall|next_idx: usize|
                    #[trigger] spec_import_specifiers(
                        decl_state(start_ctx, start_out, next_idx),
                        import_decl.specifiers@,
                        0,
                        import_state@,
                        *loc,
                        fname,
                    ) == spec_import_specifiers(
                        decl_state(*var_ctx, *out, next_idx),
                        import_decl.specifiers@,
                        i as int,
                        import_state@,
                        *loc,
                        fname,
                    ),
            decreases import_decl.specifiers@.len() - i,
        {
            let import_spec_node = &import_decl.specifiers[i];
            match &import_spec_node.kind {
                NodeKind::ImportSpecifier(import_spec) => {
                    match &import_spec.imported.kind {
                        NodeKind::Identifier(source_id) => {
                            match &import_spec.local.kind {
                                NodeKind::Identifier(local_id) => {
                                    let varvalue = match import_state.get(source_id.name.as_str()) {
                                        Some(v) => v,
                                        None => {
                                            return Err(
                                                new_program_error(
                                                    &import_spec.imported.loc,
                                                    filename,
                                                    ParseProgramError::UndeclaredExportError(
                                                        source_id.name.clone(),
                                                    ),
                                                ),
                                            );
                                        },
                                    };
                                    let prevar = varvalue.prevar();
                                    if !var_ctx.try_coalesce(
                                        local_id.name.clone(),
                                        varvalue.duplicate(),
                                    ) {
                                        return Err(
                                            new_program_error(
                                                &import_spec.local.loc,
                                                filename,
                                                ParseProgramError::DuplicateDeclarationError(
                                                    local_id.name.clone(),
                                                ),
                                            ),
                                        );
                                    }
                                    let ghost before = decls_view(out@);
                                    out.push((local_id.name.clone(), prevar));
                                    assert(decls_view(out@) =~= before.push(
                                        (local_id.name@, prevar),
                                    ));
                                },
                                _ => {
                                    return Err(
                                        new_program_error(
                                            &import_spec.local.loc,
                                            filename,
                                            ParseProgramError::ESTreeError(MSG_IMPORT_LOCAL_ID),
                                        ),
                                    );
                                },
                            }
                        },
                        _ => {
                            return Err(
                                new_program_error(
                                    &import_spec.imported.loc,
                                    filename,
                                    ParseProgramError::ESTreeError(MSG_IMPORT_SOURCE_ID),
                                ),
                            );
                        },
                    }
                },
                _ => {
                    return Err(
                        new_program_error(
                            loc,
                            filename,
                            ParseProgramError::ESTreeError(MSG_IMPORT_SPECIFIER_EXPECTED),
                        ),
                    );
                },
            }
            i = i + 1;
        }
        Ok(())
    }
}

/// The exports after the export specifiers from position `at` on have been
/// read: each exports, under the exported name, what the module has declared
/// so far under the local name.
pub open spec fn spec_export_specifiers(
    var_ctx: VarCtxView,
    exports: VarCtxView,
    specifiers: Seq<Node>,
    at: int,
    filename: Option<Seq<char>>,
) -> Outcome<VarCtxView>
    decreases specifiers.len() - at,
{
    if at < 0 || at >= specifiers.len() {
        Ok(exports)
    } else {
        match specifiers[at].kind {
            NodeKind::ExportSpecifier(spec) => match (spec.exported.kind, spec.local.kind) {
                (NodeKind::Identifier(exported_id), NodeKind::Identifier(local_id)) => match ctx_get(
                    var_ctx,
                    local_id.name@,
                ) {
                    None => Err(
                        program_error(
                            spec.local.loc,
                            filename,
                            ParseProgramErrorView::UndeclaredNameError(local_id.name@),
                        ),
                    ),
                    Some(value) => match spec_try_coalesce(exports, exported_id.name@, value) {
                        None => Err(
                            program_error(
                                spec.exported.loc,
                                filename,
                                ParseProgramErrorView::DuplicateExportError(exported_id.name@),
                            ),
                        ),
                        Some(ctx) => spec_export_specifiers(
                            var_ctx,
                            ctx,
                            specifiers,
                            at + 1,
                            filename,
                        ),
                    },
                },
                (NodeKind::Identifier(_), _) => Err(
                    program_error(
                        spec.local.loc,
                        filename,
                        ParseProgramErrorView::ESTreeError(MSG_EXPORT_LOCAL_ID@),
                    ),
                ),
                _ => Err(
                    program_error(
                        spec.exported.loc,
                        filename,
                        ParseProgramErrorView::ESTreeError(MSG_EXPORT_EXPORTED_ID@),
                    ),
                ),
            },
            _ => Err(
                program_error(
                    specifiers[at].loc,
                    filename,
                    ParseProgramErrorView::ESTreeError(MSG_EXPORT_SPECIFIER_EXPECTED@),
                ),
            ),
        }
    }
}

/// The exports after an export declaration with the given attributes has
/// been read. An export has no attributes, and it is a list of names: it
/// declares nothing and names no other module.
pub open spec fn spec_process_export_decl(
    var_ctx: VarCtxView,
    exports: VarCtxView,
    export_decl: ExportNamedDeclaration,
    loc: Option<Span>,
    attrs: AttributesView,
    filename: Option<Seq<char>>,
) -> Outcome<VarCtxView> {
    if attrs.len() != 0 {
        Err(
            program_error(
                loc,
                filename,
                ParseProgramErrorView::AttributeContentError(MSG_NO_ATTRS_ON_IMPORT@),
            ),
        )
    } else if export_decl.declaration is Some {
        Err(
            program_error(
                loc,
                filename,
                ParseProgramErrorView::SourceRestrictionError(MSG_EXPORT_WITH_DECL@),
            ),
        )
    } else if export_decl.source is Some {
        Err(
            program_error(
                loc,
                filename,
                ParseProgramErrorView::SourceRestrictionError(MSG_EXPORT_WITH_IMPORT@),
            ),
        )
    } else {
        spec_export_specifiers(var_ctx, exports, export_decl.specifiers@, 0, filename)
    }
}

/// Reads an export declaration with its attributes: each of its specifiers
/// exports, under the exported name, what `var_ctx` has under the local
/// name.
pub fn process_export_decl_validation(
    var_ctx: &ProgramPreExports,
    exports: &mut ProgramPreExports,
    export_decl: &ExportNamedDeclaration,
    loc: &Option<Span>,
    attr: &Attributes,
    filename: Option<&str>,
) -> (result: Result<(), ProgramError>)
    ensures
        agrees(
            result,
            |u: ()| final(exports)@,
            spec_process_export_decl(
                var_ctx@,
                old(exports)@,
                *export_decl,
                *loc,
                attr@,
                opt_str_view(filename),
            ),
        ),
{
    if !attr.is_empty() {
        Err(
            new_program_error(
                loc,
                filename,
                ParseProgramError::AttributeContentError(MSG_NO_ATTRS_ON_IMPORT),
            ),
        )
    } else if export_decl.declaration.is_some() {
        Err(
            new_program_error(
                loc,
                filename,
                ParseProgramError::SourceRestrictionError(MSG_EXPORT_WITH_DECL),
            ),
        )
    } else if export_decl.source.is_some() {
        Err(
            new_program_error(
                loc,
                filename,
                ParseProgramError::SourceRestrictionError(MSG_EXPORT_WITH_IMPORT),
            ),
        )
    } else {
        let ghost start = exports@;
        let ghost fname = opt_str_view(filename);
        let mut i: usize = 0;
        while i < export_decl.specifiers.len()
            invariant
                i <= export_decl.specifiers@.len(),
                fname == opt_str_view(filename),
                attr@.len() == 0,
                export_decl.declaration is None,
                export_decl.source is None,
                start == old(exports)@,
                spec_export_specifiers(var_ctx@, start, export_decl.specifiers@, 0, fname)
                    == spec_export_specifiers(
                    var_ctx@,
                    exports@,
                    export_decl.specifiers@,
                    i as int,
                    fname,
                ),
            decreases export_decl.specifiers@.len() - i,
        {
            let export_spec_node = &export_decl.specifiers[i];
            match &export_spec_node.kind {
                NodeKind::ExportSpecifier(export_spec) => {
                    match &export_spec.exported.kind {
                        NodeKind::Identifier(exported_id) => {
                            match &export_spec.local.kind {
                                NodeKind::Identifier(local_id) => {
                                    let varvalue = match var_ctx.get(local_id.name.as_str()) {
                                        Some(v) => v,
                                        None => {
                                            return Err(
                                                new_program_error(
                                                    &export_spec.local.loc,
                                                    filename,
                                                    ParseProgramError::UndeclaredNameError(
                                                        local_id.name.clone(),
                                                    ),
                                                ),
                                            );
                                        },
                                    };
                                    if !exports.try_coalesce(
                                        exported_id.name.clone(),
                                        varvalue.duplicate(),
                                    ) {
                                        return Err(
                                            new_program_error(
                                                &export_spec.exported.loc,
                                                filename,
                                                ParseProgramError::DuplicateExportError(
                                                    exported_id.name.clone(),
                                                ),
                                            ),
                                        );
                                    }
                                },
                                _ => {
                                    return Err(
                                        new_program_error(
                                            &export_spec.local.loc,
                                            filename,
                                            ParseProgramError::ESTreeError(MSG_EXPORT_LOCAL_ID),
                                        ),
                                    );
                                },
                            }
                        },
                        _ => {
                            return Err(
                                new_program_error(
                                    &export_spec.exported.loc,
                                    filename,
                                    ParseProgramError::ESTreeError(MSG_EXPORT_EXPORTED_ID),
                                ),
                            );
                        },
                    }
                },
                _ => {
                    return Err(
                        new_program_error(
                            &export_spec_node.loc,
                            filename,
                            ParseProgramError::ESTreeError(MSG_EXPORT_SPECIFIER_EXPECTED),
                        ),
                    );
                },
            }
            i = i + 1;
        }
        Ok(())
    }
}

/// The state after one statement with its attributes has been read as a
/// statement of a block or of the body of a function: only function
/// declarations and variable declarations declare something.
pub open spec fn spec_decl_step(
    st: DeclState,
    node: Node,
    attrs: AttributesView,
    depth: usize,
    filename: Option<Seq<char>>,
) -> Outcome<DeclState> {
    match node.kind {
        NodeKind::FunctionDeclaration(func_decl) => spec_process_func_decl(
            st,
            func_decl,
            attrs,
            depth,
            filename,
        ),
        NodeKind::VariableDeclaration(var_decl) => spec_process_var_decl(
            st,
            var_decl,
            node.loc,
            attrs,
            depth,
            filename,
        ),
        _ => Ok(st),
    }
}

/// The state after the statements from position `at` on have been read,
/// each with the attributes that the attribute statement before it gives.
pub open spec fn spec_extract_decls(
    body: Seq<Node>,
    at: int,
    st: DeclState,
    depth: usize,
    filename: Option<Seq<char>>,
) -> Outcome<DeclState>
    decreases body.len() - at,
{
    match spec_next_attributed(body, at, filename) {
        Err(e) => Err(e),
        Ok(AttributedStep::End) => Ok(st),
        Ok(AttributedStep::Item { index, attrs, next }) => if at < next <= body.len() && 0 <= index
            < body.len() {
            match spec_decl_step(st, body[index], attrs, depth, filename) {
                Err(e) => Err(e),
                Ok(after) => spec_extract_decls(body, next, after, depth, filename),
            }
        } else {
            Ok(st)
        },
    }
}

/// The declarations of a block or of the body of a function, in order, and
/// the next free index after them, where the first of them gets the index
/// `start_idx`.
#[verifier::opaque]
pub open spec fn spec_validate_and_extract_decls(
    body: Seq<Node>,
    depth: usize,
    start_idx: usize,
    filename: Option<Seq<char>>,
) -> Outcome<(NameCtxView, usize)> {
    match spec_extract_decls(
        body,
        0,
        DeclState { var_ctx: VarCtxView::empty(), out: NameCtxView::empty(), next_idx: start_idx },
        depth,
        filename,
    ) {
        Ok(st) => Ok((st.out, st.next_idx)),
        Err(e) => Err(e),
    }
}

/// Reads the statements of a block or of the body of a function for what
/// they declare: gives the names in the order of their declarations, each
/// with what it is resolved to, and raises `start_idx` to the next free
/// index. It is an error where a name is declared twice.
pub fn validate_and_extract_decls(
    es_block_body: &Vec<Node>,
    depth: usize,
    start_idx: &mut usize,
    filename: Option<&str>,
) -> (result: Result<Vec<(String, PreVar)>, ProgramError>)
    ensures
        agrees(
            result,
            |decls: Vec<(String, PreVar)>| (decls_view(decls@), *final(start_idx)),
            spec_validate_and_extract_decls(
                es_block_body@,
                depth,
                *old(start_idx),
                opt_str_view(filename),
            ),
        ),
{
    reveal(spec_validate_and_extract_decls);
    let mut var_ctx: ProgramPreExports = VarCtx::new();
    let mut ret: Vec<(String, PreVar)> = Vec::new();
    let ghost fname = opt_str_view(filename);
    let ghost start = decl_state(var_ctx, ret, *start_idx);
    assert(decls_view(ret@) =~= NameCtxView::empty());
    let mut at: usize = 0;
    loop
        invariant
            at <= es_block_body@.len(),
            fname == opt_str_view(filename),
            start == (DeclState {
                var_ctx: VarCtxView::empty(),
                out: NameCtxView::empty(),
                next_idx: *old(start_idx),
            }),
            spec_extract_decls(es_block_body@, 0, start, depth, fname) == spec_extract_decls(
                es_block_body@,
                at as int,
                decl_state(var_ctx, ret, *start_idx),
                depth,
                fname,
            ),
        decreases es_block_body@.len() - at,
    {
        proof {
            reveal(spec_validate_and_extract_decls);
        }
        match next_attributed(es_block_body, at, filename)? {
            None => {
                return Ok(ret);
            },
            Some((index, attr, next)) => {
                let es_node = &es_block_body[index];
                match &es_node.kind {
                    NodeKind::FunctionDeclaration(func_decl) => {
                        process_func_decl_validation(
                            &mut var_ctx,
                            &mut ret,
                            func_decl,
                            &es_node.loc,
                            &attr,
                            depth,
                            start_idx,
                            filename,
                        )?;
                    },
                    NodeKind::VariableDeclaration(var_decl) => {
                        process_var_decl_validation(
                            &mut var_ctx,
                            &mut ret,
                            var_decl,
                            &es_node.loc,
                            &attr,
                            depth,
                            start_idx,
                            filename,
                        )?;
                    },
                    _ => {},
                }
                at = next;
            },
        }
    }
}

/// What is known of the declarations of a module while its statements are
/// read: the declarations, the exports, and the number of import
/// declarations read.
pub struct TopState {
    pub decls: DeclState,
    pub exports: VarCtxView,
    pub imports_seen: usize,
}

/// The state after one statement at the top of a module has been read with
/// its attributes. The import declarations take the exports of the modules
/// that they name from `import_ctx`, one after the other.
pub open spec fn spec_top_step(
    st: TopState,
    node: Node,
    attrs: AttributesView,
    import_ctx: Seq<VarCtxView>,
    filename: Option<Seq<char>>,
) -> Outcome<TopState> {
    match node.kind {
        NodeKind::FunctionDeclaration(func_decl) => match spec_process_func_decl(
            st.decls,
            func_decl,
            attrs,
            0,
            filename,
        ) {
            Ok(decls) => Ok(TopState { decls, ..st }),
            Err(e) => Err(e),
        },
        NodeKind::VariableDeclaration(var_decl) => match spec_process_var_decl(
            st.decls,
            var_decl,
            node.loc,
            attrs,
            0,
            filename,
        ) {
            Ok(decls) => Ok(TopState { decls, ..st }),
            Err(e) => Err(e),
        },
        NodeKind::ImportDeclaration(import_decl) => if st.imports_seen >= import_ctx.len() {
            Err(
                program_error(
                    node.loc,
                    filename,
                    ParseProgramErrorView::ESTreeError(MSG_IMPORT_UNRESOLVED@),
                ),
            )
        } else {
            match spec_process_import_decl(
                st.decls,
                import_ctx[st.imports_seen as int],
                import_decl,
                node.loc,
                attrs,
                filename,
            ) {
                Ok(decls) => Ok(
                    TopState { decls, imports_seen: (st.imports_seen + 1) as usize, ..st },
                ),
                Err(e) => Err(e),
            }
        },
        NodeKind::ExportNamedDeclaration(export_decl) => match spec_process_export_decl(
            st.decls.var_ctx,
            st.exports,
            export_decl,
            node.loc,
            attrs,
            filename,
        ) {
            Ok(exports) => Ok(TopState { exports, ..st }),
            Err(e) => Err(e),
        },
        _ => Ok(st),
    }
}

/// The state after the statements of a module from position `at` on have
/// been read, each with the attributes that the attribute statement before
/// it gives.
pub open spec fn spec_extract_top(
    body: Seq<Node>,
    at: int,
    st: TopState,
    import_ctx: Seq<VarCtxView>,
    filename: Option<Seq<char>>,
) -> Outcome<TopState>
    decreases body.len() - at,
{
    match spec_next_attributed(body, at, filename) {
        Err(e) => Err(e),
        Ok(AttributedStep::End) => Ok(st),
        Ok(AttributedStep::Item { index, attrs, next }) => if at < next <= body.len() && 0 <= index
            < body.len() {
            match spec_top_step(st, body[index], attrs, import_ctx, filename) {
                Err(e) => Err(e),
                Ok(after) => spec_extract_top(body, next, after, import_ctx, filename),
            }
        } else {
            Ok(st)
        },
    }
}

/// What a module declares and exports: the declarations in order, the
/// exports, and the next free index.
pub struct TopDecls {
    pub decls: NameCtxView,
    pub exports: VarCtxView,
    pub next_idx: usize,
}

/// The declarations and the exports of a module whose first variable gets
/// the index `start_idx`.
#[verifier::opaque]
pub open spec fn spec_validate_and_extract_imports_and_decls(
    body: Seq<Node>,
    import_ctx: Seq<VarCtxView>,
    start_idx: usize,
    filename: Option<Seq<char>>,
) -> Outcome<TopDecls> {
    match spec_extract_top(
        body,
        0,
        TopState {
            decls: DeclState {
                var_ctx: VarCtxView::empty(),
                out: NameCtxView::empty(),
                next_idx: start_idx,
            },
            exports: VarCtxView::empty(),
            imports_seen: 0,
        },
        import_ctx,
        filename,
    ) {
        Ok(st) => Ok(TopDecls { decls: st.decls.out, exports: st.exports, next_idx: st.decls.next_idx }),
        Err(e) => Err(e),
    }
}

/// The mathematical value of the exports of the imported modules.
pub open spec fn import_ctx_view(import_ctx: Seq<&ProgramPreExports>) -> Seq<VarCtxView> {
    Seq::new(import_ctx.len(), |i: int| import_ctx[i]@)
}

/// Reads the statements at the top of a module for what they declare,
/// import and export: gives the names in the order of their declarations,
/// each with what it is resolved to, and the exports, and raises `start_idx`
/// to the next free index. An imported name is resolved to what the module
/// that exports it resolves it to; it gets no location of its own.
pub fn validate_and_extract_imports_and_decls(
    es_program_body: &Vec<Node>,
    import_ctx: &[&ProgramPreExports],
    start_idx: &mut usize,
    filename: Option<&str>,
) -> (result: Result<(Vec<(String, PreVar)>, ProgramPreExports), ProgramError>)
    ensures
        agrees(
            result,
            |r: (Vec<(String, PreVar)>, ProgramPreExports)|
                TopDecls { decls: decls_view(r.0@), exports: r.1@, next_idx: *final(start_idx) },
            spec_validate_and_extract_imports_and_decls(
                es_program_body@,
                import_ctx_view(import_ctx@),
                *old(start_idx),
                opt_str_view(filename),
            ),
        ),
{
    reveal(spec_validate_and_extract_imports_and_decls);
    let mut var_ctx: ProgramPreExports = VarCtx::new();
    let mut ret: Vec<(String, PreVar)> = Vec::new();
    let mut exports: ProgramPreExports = VarCtx::new();
    let mut import_decl_idx: usize = 0;
    let ghost fname = opt_str_view(filename);
    let ghost imports = import_ctx_view(import_ctx@);
    let ghost start = TopState {
        decls: decl_state(var_ctx, ret, *start_idx),
        exports: exports@,
        imports_seen: 0,
    };
    assert(decls_view(ret@) =~= NameCtxView::empty());
    let mut at: usize = 0;
    loop
        invariant
            at <= es_program_body@.len(),
            fname == opt_str_view(filename),
            imports == import_ctx_view(import_ctx@),
            start == (TopState {
                decls: DeclState {
                    var_ctx: VarCtxView::empty(),
                    out: NameCtxView::empty(),
                    next_idx: *old(start_idx),
                },
                exports: VarCtxView::empty(),
                imports_seen: 0,
            }),
            spec_extract_top(es_program_body@, 0, start, imports, fname) == spec_extract_top(
                es_program_body@,
                at as int,
                TopState {
                    decls: decl_state(var_ctx, ret, *start_idx),
                    exports: exports@,
                    imports_seen: import_decl_idx,
                },
                imports,
                fname,
            ),
        decreases es_program_body@.len() - at,
    {
        proof {
            reveal(spec_validate_and_extract_imports_and_decls);
        }
        match next_attributed(es_program_body, at, filename)? {
            None => {
                return Ok((ret, exports));
            },
            Some((index, attr, next)) => {
                let es_node = &es_program_body[index];
                match &es_node.kind {
                    NodeKind::FunctionDeclaration(func_decl) => {
                        process_func_decl_validation(
                            &mut var_ctx,
                            &mut ret,
                            func_decl,
                            &es_node.loc,
                            &attr,
                            0,
                            start_idx,
                            filename,
                        )?;
                    },
                    NodeKind::VariableDeclaration(var_decl) => {
                        process_var_decl_validation(
                            &mut var_ctx,
                            &mut ret,
                            var_decl,
                            &es_node.loc,
                            &attr,
                            0,
                            start_idx,
                            filename,
                        )?;
                    },
                    NodeKind::ImportDeclaration(import_decl) => {
                        if import_decl_idx >= import_ctx.len() {
                            return Err(
                                new_program_error(
                                    &es_node.loc,
                                    filename,
                                    ParseProgramError::ESTreeError(MSG_IMPORT_UNRESOLVED),
                                ),
                            );
                        }
                        let import_state: &ProgramPreExports = import_ctx[import_decl_idx];
                        import_decl_idx = import_decl_idx + 1;
                        process_import_decl_validation(
                            &mut var_ctx,
                            &mut ret,
                            import_state,
                            import_decl,
                            &es_node.loc,
                            &attr,
                            filename,
                        )?;
                    },
                    NodeKind::ExportNamedDeclaration(export_decl) => {
                        process_export_decl_validation(
                            &var_ctx,
                            &mut exports,
                            export_decl,
                            &es_node.loc,
                            &attr,
                            filename,
                        )?;
                    },
                    _ => {},
                }
                at = next;
            },
        }
    }
}

/// The parameters of a function at the given depth, each with its location:
/// the parameters take the first indices of the function's scope, in order.
#[verifier::opaque]
pub open spec fn spec_validate_and_extract_params(
    params: Seq<Node>,
    depth: usize,
    filename: Option<Seq<char>>,
) -> Outcome<Seq<(Seq<char>, VarLocId)>> {
    match spec_param_names(params, MSG_PARAM_ID@, filename) {
        Ok(names) => Ok(
            Seq::new(names.len(), |i: int| (names[i], VarLocId { depth, index: i as usize })),
        ),
        Err(e) => Err(e),
    }
}

/// The mathematical value of a list of parameters with their locations.
pub open spec fn params_view(params: Seq<(String, VarLocId)>) -> Seq<(Seq<char>, VarLocId)> {
    Seq::new(params.len(), |i: int| (params[i].0@, params[i].1))
}

/// Reads the parameters of a function at the given depth: gives each with
/// its location. It is an error where two parameters have one name.
pub fn validate_and_extract_params(params: &Vec<Node>, depth: usize, filename: Option<&str>) -> (result:
    Result<Vec<(String, VarLocId)>, ProgramError>)
    ensures
        agrees(
            result,
            |r: Vec<(String, VarLocId)>| params_view(r@),
            spec_validate_and_extract_params(params@, depth, opt_str_view(filename)),
        ),
{
    reveal(spec_validate_and_extract_params);
    let names = param_names(params, MSG_PARAM_ID, filename)?;
    let ghost nv = names_view(names@);
    let ghost want = Seq::new(nv.len(), |i: int| (nv[i], VarLocId { depth, index: i as usize }));
    let mut out: Vec<(String, VarLocId)> = Vec::new();
    let mut i: usize = 0;
    while i < names.len()
        invariant
            i <= names@.len(),
            nv == names_view(names@),
            want == Seq::new(nv.len(), |i: int| (nv[i], VarLocId { depth, index: i as usize })),
            params_view(out@) == want.take(i as int),
        decreases names@.len() - i,
    {
        let ghost before = params_view(out@);
        out.push((names[i].clone(), VarLocId { depth, index: i }));
        assert(params_view(out@) =~= before.push(want[i as int]));
        assert(want.take(i + 1) =~= want.take(i as int).push(want[i as int]));
        i = i + 1;
    }
    assert(want.take(i as int) =~= want);
    Ok(out)
}

} // verus!
