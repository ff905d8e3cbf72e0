//! IR generation for a parsed C-like source language: scope-based
//! symbol resolution, compile-time constant evaluation, array types
//! folded from dimension expressions, and lowering of declarations,
//! statements and expressions into a koopa IR program, with a closed
//! taxonomy of the semantic errors raised along the way.

pub mod ast;
pub mod error;
pub mod eval;
pub mod func;
pub mod generate;
pub mod init;
mod ir;
pub mod scopes;
pub mod symbol;
pub mod types;
pub mod values;

pub use error::Error;
pub use generate::generate_program;
