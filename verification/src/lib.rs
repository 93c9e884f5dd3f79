//! A verified evaluator for two-operand arithmetic lines.
//!
//! The library parses a line of the form `<number> <op> <number>`, where the
//! operator is `+` or `-`, and renders the computed result as
//! `"<left> <op> <right> = <result>"`. Parsing runs strictly left to right:
//! a space skipper, a number reader and a symbol reader each consume a prefix
//! of the input and hand the remainder on.

pub mod expr;
pub mod laws;
pub mod parse;
pub mod render;
