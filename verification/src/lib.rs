//! A tree-walking interpreter for a small dynamically typed, lexically scoped,
//! class-based scripting language: scanner, parser and evaluator.
//!
//! Numbers are IEEE-754 binary64 values carried as their bit patterns. The
//! library compares and negates them itself; it never rounds. Whatever needs
//! rounding, the clock or the terminal is asked of the host, which drives the
//! evaluator one step at a time.

pub mod table;

pub mod token;
pub mod value;
pub mod scanner;
pub mod list;
pub mod expressions;
pub mod statements;
pub mod grammar;
pub mod parser;
pub mod moonenv;
pub mod error;
pub mod machine;
pub mod interpreter;
pub mod moon;
pub mod laws;
pub mod reference;
