//! The data model: the operator, the parsed expression and the parse errors.

use vstd::prelude::*;

verus! {

/// The operator read between the two numbers.
#[derive(Clone, Copy, Debug, PartialEq, Eq, Structural)]
pub enum Operator {
    Add,
    Subtract,
}

/// A fully parsed input line: one operator applied to two 64-bit operands.
#[derive(Clone, Copy, Debug, PartialEq, Eq, Structural)]
pub enum ParsedExpression {
    AddExpr(i64, i64),
    SubtractExpr(i64, i64),
}

/// Why a parse failed. Every failure is reported to the caller at once;
/// nothing is recovered from internally.
#[derive(Clone, Copy, Debug, PartialEq, Eq, Structural)]
pub enum ParseError {
    /// The input ran out before a required number or operator could start.
    UnexpectedEndOfInput,
    /// A character that is neither a digit, a leading minus nor a
    /// terminating space appeared while a number was being scanned.
    InvalidNumberCharacter(char),
    /// The character at the operator position is neither `+` nor `-`.
    InvalidOperatorCharacter(char),
    /// The scanned numeral cannot be converted: it has no digits (a lone
    /// minus, or nothing at all) or its value does not fit in an `i64`.
    MalformedNumber,
}

} // verus!
