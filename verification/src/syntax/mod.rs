pub mod ast;
pub mod errors;
pub mod lexer;
pub mod parse;
pub mod span;
