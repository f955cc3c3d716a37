//! Core of a small embeddable scripting language: an indentation-aware
//! recursive-descent parser producing an arena-allocated AST with a constant
//! pool and per-function locality analysis, and a runtime iterator subsystem
//! with lazy adaptors, generators, and eager operations.

pub mod ast;
pub mod constants;
pub mod error;
pub mod expr;
pub mod external;
pub mod frame;
pub mod iter;
pub mod laws;
pub mod lexer;
pub mod module;
pub mod node;
pub mod ops;
pub mod parser;
pub mod perror;
pub mod strings;
pub mod token;
pub mod trusted;
pub mod value;

pub use iter::KIterator;
pub use parser::Parser;
pub use value::Value;
