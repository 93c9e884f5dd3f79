//! The evaluator and printer: computes the result of a parsed expression and
//! formats the line `"<left> <op> <right> = <result>"`.
//!
//! The arithmetic wraps around on 64-bit overflow, mirroring native signed
//! 64-bit arithmetic; the contract states the wrapped value exactly.

use vstd::prelude::*;

use crate::expr::ParsedExpression;

verus! {

/// The character that prints a decimal digit value.
pub open spec fn dec_digit(d: int) -> char {
    if d == 0 {
        '0'
    } else if d == 1 {
        '1'
    } else if d == 2 {
        '2'
    } else if d == 3 {
        '3'
    } else if d == 4 {
        '4'
    } else if d == 5 {
        '5'
    } else if d == 6 {
        '6'
    } else if d == 7 {
        '7'
    } else if d == 8 {
        '8'
    } else {
        '9'
    }
}

/// The decimal digits of a non-negative integer, most significant first,
/// with no leading zeros (a single `'0'` for zero).
pub open spec fn dec_nat(n: int) -> Seq<char>
    decreases n,
{
    if n < 10 {
        seq![dec_digit(n)]
    } else {
        dec_nat(n / 10).push(dec_digit(n % 10))
    }
}

/// The decimal form of a signed integer: a minus sign before the digits of
/// its magnitude when it is negative.
pub open spec fn dec_int(v: int) -> Seq<char> {
    if v < 0 {
        seq!['-'] + dec_nat(-v)
    } else {
        dec_nat(v)
    }
}

/// The value a parsed expression evaluates to, with 64-bit wraparound.
pub open spec fn spec_eval(e: ParsedExpression) -> i64 {
    match e {
        ParsedExpression::AddExpr(left, right) => left.wrapping_add(right),
        ParsedExpression::SubtractExpr(left, right) => left.wrapping_sub(right),
    }
}

/// The operator character a parsed expression prints.
pub open spec fn spec_op_char(e: ParsedExpression) -> char {
    match e {
        ParsedExpression::AddExpr(_, _) => '+',
        ParsedExpression::SubtractExpr(_, _) => '-',
    }
}

/// The left operand of a parsed expression.
pub open spec fn spec_left(e: ParsedExpression) -> i64 {
    match e {
        ParsedExpression::AddExpr(left, _) => left,
        ParsedExpression::SubtractExpr(left, _) => left,
    }
}

/// The right operand of a parsed expression.
pub open spec fn spec_right(e: ParsedExpression) -> i64 {
    match e {
        ParsedExpression::AddExpr(_, right) => right,
        ParsedExpression::SubtractExpr(_, right) => right,
    }
}

/// The whole printed line: `"<left> <op> <right> = <result>"`.
pub open spec fn spec_result_line(e: ParsedExpression) -> Seq<char> {
    dec_int(spec_left(e) as int) + seq![' ', spec_op_char(e), ' '] + dec_int(spec_right(e) as int)
        + seq![' ', '=', ' '] + dec_int(spec_eval(e) as int)
}

/// The one-character string that prints a decimal digit value.
fn digit_str(d: u64) -> (s: &'static str)
    requires
        d < 10,
    ensures
        s@ == seq![dec_digit(d as int)],
{
    proof {
        reveal_strlit("0");
        reveal_strlit("1");
        reveal_strlit("2");
        reveal_strlit("3");
        reveal_strlit("4");
        reveal_strlit("5");
        reveal_strlit("6");
        reveal_strlit("7");
        reveal_strlit("8");
        reveal_strlit("9");
    }
    let s = if d == 0 {
        "0"
    } else if d == 1 {
        "1"
    } else if d == 2 {
        "2"
    } else if d == 3 {
        "3"
    } else if d == 4 {
        "4"
    } else if d == 5 {
        "5"
    } else if d == 6 {
        "6"
    } else if d == 7 {
        "7"
    } else if d == 8 {
        "8"
    } else {
        "9"
    };
    proof {
        assert(s@ =~= seq![dec_digit(d as int)]);
    }
    s
}

/// Prints a non-negative 64-bit integer in decimal.
fn nat_dec_string(n: u64) -> (out: String)
    ensures
        out@ == dec_nat(n as int),
    decreases n,
{
    if n < 10 {
        String::from_str(digit_str(n))
    } else {
        let prefix = nat_dec_string(n / 10);
        let out = prefix.concat(digit_str(n % 10));
        proof {
            assert(out@ =~= dec_nat(n as int));
        }
        out
    }
}

/// Prints a signed 64-bit integer in decimal.
fn int_dec_string(v: i64) -> (out: String)
    ensures
        out@ == dec_int(v as int),
{
    if v >= 0 {
        nat_dec_string(v as u64)
    } else {
        let magnitude: u64 = if v == i64::MIN {
            9223372036854775808u64
        } else {
            (-v) as u64
        };
        let out = String::from_str("-").concat(nat_dec_string(magnitude).as_str());
        proof {
            reveal_strlit("-");
            assert(out@ =~= dec_int(v as int));
        }
        out
    }
}

/// Evaluates a parsed expression with wrapping 64-bit arithmetic and formats
/// the line `"<left> <op> <right> = <result>"`.
pub fn printed_result(parse_tree: ParsedExpression) -> (out: String)
    ensures
        out@ == spec_result_line(parse_tree),
{
    proof {
        reveal_strlit(" + ");
        reveal_strlit(" - ");
        reveal_strlit(" = ");
    }
    match parse_tree {
        ParsedExpression::AddExpr(left, right) => {
            let mut out = int_dec_string(left);
            out.append(" + ");
            out.append(int_dec_string(right).as_str());
            out.append(" = ");
            out.append(int_dec_string(left.wrapping_add(right)).as_str());
            proof {
                assert(out@ =~= spec_result_line(parse_tree));
            }
            out
        },
        ParsedExpression::SubtractExpr(left, right) => {
            let mut out = int_dec_string(left);
            out.append(" - ");
            out.append(int_dec_string(right).as_str());
            out.append(" = ");
            out.append(int_dec_string(left.wrapping_sub(right)).as_str());
            proof {
                assert(out@ =~= spec_result_line(parse_tree));
            }
            out
        },
    }
}

} // verus!
