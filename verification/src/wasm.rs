//! A model of the WebAssembly back end: instructions, the builder that
//! collects them, the pool of scratch locals, and an abstract machine that
//! says what a sequence of instructions does.

pub mod instr;
pub mod machine;
pub mod scratch;
