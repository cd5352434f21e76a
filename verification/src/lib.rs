//! A small compiler front end: a lexer and a recursive-descent parser for a
//! Lua-flavoured toy language, and a code generator that turns the parsed
//! program into C.
pub mod codegen;
pub mod syntax;
