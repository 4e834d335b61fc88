//! Front end of a small language: a lexical scanner and a recursive-descent
//! parser with precedence climbing, producing an abstract syntax tree of
//! statements and expressions together with a list of parse errors.

pub mod ast;
pub mod grammar;
pub mod lexer;
pub mod parser;
pub mod scan;
pub mod token;
