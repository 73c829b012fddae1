//! Core of a compiler from a JavaScript subset to WebAssembly: the scope and
//! usage analysis that runs ahead of parsing proper, and the typed lowering
//! of values onto WebAssembly cells.

pub mod vartype;
pub mod wasm;
pub mod var_conv;
pub mod var_conv_laws;
pub mod log;
pub mod error;
pub mod text;
pub mod attributes;
pub mod frontendvar;
pub mod varusage;
pub mod constraint;
pub mod estree;
pub mod func;
pub mod importer;
pub mod dep_graph;
pub mod mutcontext;
pub mod attributes_laws;
