//! A tree-walking implementation of a small dynamically typed scripting
//! language: scanner, recursive-descent parser, lexical environments and
//! evaluator, each stated against a mathematical model and proved.

pub mod ast_printer;
pub mod data;
pub mod environment;
pub mod expr;
pub mod grammar;
pub mod interpreter;
pub mod lexical;
pub mod notation;
pub mod number;
pub mod parser;
pub mod reporting;
pub mod scanner;
pub mod semantics;
pub mod stmt;
pub mod text;

pub use environment::Environment;
pub use interpreter::Interpreter;
pub use number::Number;
pub use parser::Parser;
pub use scanner::{Scanner, Token};
