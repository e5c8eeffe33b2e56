//! A small Lisp: lexer, parser, scoped environment and a tree-walking
//! evaluator.
//!
//! Numbers are IEEE 754 doubles, held as their 64 bit patterns. The library
//! decides what a program means; it does no arithmetic on a double, neither
//! reads nor writes one in decimal, and never prints. Where it needs the
//! sum or the difference of two doubles, the decimal text of one, or wants
//! a line written, it asks: the request comes back as the result, the
//! caller carries it out, records the reply in the [`host::Journal`] and
//! evaluates again. Evaluation is a function of the program and the journal
//! alone, so it arrives where it stopped, takes the recorded replies in
//! order and goes on.
//!
//! The one thing that the library decides of a double by itself is whether
//! a difference is within the tolerance of equality, which is a test on
//! the bit pattern.

pub mod balance;
pub mod env;
pub mod eval;
pub mod expr;
pub mod host;
pub mod interpreter;
pub mod laws;
pub mod lex;
pub mod parse;
pub mod semantics;
pub mod text;
pub mod types;
