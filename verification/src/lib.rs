//! A small Lisp: S-expressions over numbers, symbols and native functions.
//!
//! One line of text is split into tokens, parsed into an expression tree and
//! reduced against a symbol table. Numbers are IEEE 754 binary64 values that
//! the library carries as their 64-bit patterns and never looks into: the
//! host hands in the operations that read, add, subtract and print them.

pub mod builtins;
pub mod display;
pub mod environment;
pub mod error;
pub mod evaluator;
pub mod expression;
pub mod grammar;
pub mod laws;
pub mod numbers;
pub mod parser;
pub mod tokenizer;
