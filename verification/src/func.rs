//! The analysis that runs ahead of parsing proper: which names each scope
//! declares, what each use of a name is resolved to, and how each variable
//! is used.

pub mod decls;
pub mod usage_spec;
pub mod pre_parse_expr;
pub mod pre_parse_scope;
pub mod pre_parse;
pub mod pre_parse_decl;
pub mod pre_parse_kinds;
pub mod annotation_spec;
pub mod capture_spec;
pub mod capture_laws;
pub mod capture_laws_decl;
pub mod capture_laws_elements;
pub mod capture_laws_expr;
pub mod capture_laws_function;
pub mod capture_laws_scope;
