//! Execution core of a small scripting language: a lexical scanner over
//! source bytes and a stack machine over a linear instruction stream.

pub mod chunk;
pub mod compiler;
pub mod error;
pub mod laws;
pub mod scanner;
pub mod text;
pub mod value;
pub mod vm;
