//! Reading the text of a schema file into declarations.

pub mod grammar;
pub mod lexer;
pub mod parser;
