//! A lexer and a recursive-descent parser for the C1 language, with their
//! behaviour stated as spec functions and proved.
pub mod grammar;
pub mod laws;
pub mod lexer;
pub mod message;
pub mod parser;
pub mod token;
