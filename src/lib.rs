//! A small interpreted language: a tokenizer and recursive-descent parser that
//! produce an expression tree, and a tree-walking evaluator with lexical
//! scoping, closures and a fixed set of primitive operations.
pub mod ast;
pub mod builtins;
pub mod completion;
pub mod env;
pub mod error;
pub mod evaluator;
pub mod interpreter;
pub mod laws;
pub mod lexer;
pub mod parser;
pub mod semantics;
pub mod text;
pub mod value;

pub use value::Value;
pub use error::SatukitanError;
pub use interpreter::Interpreter;
