//! A scanner, a recursive-descent parser and an evaluator for the
//! expression core of the Lox language.

pub mod token;
pub mod scanner;
pub mod ast;
pub mod parser;
pub mod interpreter;
pub mod error;
pub mod pipeline;
