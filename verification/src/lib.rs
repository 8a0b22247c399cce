//! An interpreter for a small register-based assembly language.
//!
//! A source text is preprocessed, split into tokens, parsed into a typed
//! program and executed on a machine with seventeen registers, a linear
//! memory of 32-bit words, a stack inside that memory, and condition flags.

pub mod context;
pub mod htab;
pub mod instruction;
pub mod lexer;
pub mod memory;
pub mod parser;
pub mod preprocessor;
pub mod program;
pub mod text;
