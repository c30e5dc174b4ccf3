pub mod span;
pub mod sources;
pub mod tokens;
pub mod lexer;
pub mod operators;
pub mod ast;
pub mod grammar;
pub mod error;
pub mod parser;
