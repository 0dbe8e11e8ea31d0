//! A small engine for mathematical expressions, and what a board shows around it.
//!
//! One part cuts a line into tokens, reads an expression from them and evaluates it against
//! a context of variables and functions. The other part takes a line either as a list literal,
//! which it decodes, or as an expression for the `evalexpr` evaluator, whose built-in functions
//! it plans. Numbers are carried, never computed with: what is to be computed is handed to the
//! caller as a plan, and the caller hands back the outcomes.

pub mod ast;
pub mod board;
pub mod builtin;
pub mod context;
pub mod decoder;
pub mod engine;
pub mod number;
pub mod parser;
pub mod radix;
pub mod repl;
pub mod roundtrip;
pub mod session;
pub mod text;
pub mod token;
pub mod value;
