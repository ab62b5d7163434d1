//! Front end of a small statically typed scripting language: a scanner, a
//! precedence-climbing parser and a semantic analyser, each with a
//! mathematical model that its executable code is proved against.

pub mod errors;
pub mod lexer;
pub mod parser;
pub mod schemas;
pub mod semantic;
pub mod text;
