//! The parser: a space skipper, a number reader, a symbol reader, and the
//! orchestration that turns one input line into a `ParsedExpression`.
//!
//! Each reader consumes a prefix of the input and returns the unconsumed
//! remainder. The spec functions `spec_skip_spaces`, `spec_read_number`,
//! `spec_read_symbol` and `spec_parse` state, character by character, what
//! each reader does; the executable functions are proved against them.

use vstd::prelude::*;

use crate::expr::Operator;
use crate::expr::ParseError;
use crate::expr::ParsedExpression;

verus! {

/// A decimal digit.
pub open spec fn is_digit(c: char) -> bool {
    '0' <= c && c <= '9'
}

/// The numeric value of a decimal digit.
pub open spec fn digit_val(c: char) -> int {
    c as int - '0' as int
}

/// The value of a run of decimal digits, most significant first.
pub open spec fn digits_value(s: Seq<char>) -> int
    decreases s.len(),
{
    if s.len() == 0 {
        0
    } else {
        10 * digits_value(s.drop_last()) + digit_val(s.last())
    }
}

/// How many consecutive spaces the sequence starts with.
pub open spec fn space_run_len(s: Seq<char>) -> int
    decreases s.len(),
{
    if s.len() > 0 && s[0] == ' ' {
        1 + space_run_len(s.skip(1))
    } else {
        0
    }
}

/// How many consecutive digits the sequence starts with.
pub open spec fn digit_run_len(s: Seq<char>) -> int
    decreases s.len(),
{
    if s.len() > 0 && is_digit(s[0]) {
        1 + digit_run_len(s.skip(1))
    } else {
        0
    }
}

/// Whether the character at position `j` may be part of a scanned numeral:
/// a digit anywhere, or a minus sign at position 0 only.
pub open spec fn numeral_char_at(s: Seq<char>, j: int) -> bool {
    is_digit(s[j]) || (j == 0 && s[j] == '-')
}

/// How many characters the number scan consumes: an optional minus sign at
/// position 0, then the run of digits after it.
pub open spec fn numeral_len(s: Seq<char>) -> int {
    if s.len() > 0 && s[0] == '-' {
        1 + digit_run_len(s.skip(1))
    } else {
        digit_run_len(s)
    }
}

/// How many digits a scanned numeral holds (its length, less a leading minus).
pub open spec fn numeral_digit_count(m: Seq<char>) -> int {
    if m.len() > 0 && m[0] == '-' {
        m.len() - 1
    } else {
        m.len() as int
    }
}

/// The signed value of a scanned numeral: the value of its digits, negated
/// when it starts with a minus sign.
pub open spec fn numeral_value(m: Seq<char>) -> int {
    if m.len() > 0 && m[0] == '-' {
        -digits_value(m.skip(1))
    } else {
        digits_value(m)
    }
}

/// A well-formed numeral: an optional minus sign at position 0, then at
/// least one digit, and nothing else. This is exactly the shape whose scan
/// consumes the whole numeral and whose conversion finds a digit to read.
pub open spec fn numeral_wf(m: Seq<char>) -> bool {
    &&& m.len() >= 1
    &&& (m[0] == '-' ==> m.len() >= 2)
    &&& forall|j: int| 0 <= j < m.len() ==> numeral_char_at(m, j)
}

/// Whether a mathematical integer fits in an `i64`.
pub open spec fn in_i64_range(v: int) -> bool {
    i64::MIN <= v <= i64::MAX
}

/// What the space skipper leaves: the input without its leading spaces.
pub open spec fn spec_skip_spaces(s: Seq<char>) -> Seq<char> {
    s.skip(space_run_len(s))
}

/// What the number reader returns: the value and the remainder, or the
/// first error met. The scan takes `numeral_len(s)` characters and must end
/// at a space or at the end of the input; the scanned numeral must then hold
/// at least one digit and denote a value that fits in an `i64`.
pub open spec fn spec_read_number(s: Seq<char>) -> Result<(int, Seq<char>), ParseError> {
    let n = numeral_len(s);
    if s.len() == 0 {
        Err(ParseError::UnexpectedEndOfInput)
    } else if n < s.len() && s[n] != ' ' {
        Err(ParseError::InvalidNumberCharacter(s[n]))
    } else {
        let m = s.take(n);
        if numeral_digit_count(m) >= 1 && in_i64_range(numeral_value(m)) {
            Ok((numeral_value(m), s.skip(n)))
        } else {
            Err(ParseError::MalformedNumber)
        }
    }
}

/// What the symbol reader returns: the operator denoted by the first
/// character and the remainder after it, or the error it raises.
pub open spec fn spec_read_symbol(s: Seq<char>) -> Result<(Operator, Seq<char>), ParseError> {
    if s.len() == 0 {
        Err(ParseError::UnexpectedEndOfInput)
    } else if s[0] == '+' {
        Ok((Operator::Add, s.skip(1)))
    } else if s[0] == '-' {
        Ok((Operator::Subtract, s.skip(1)))
    } else {
        Err(ParseError::InvalidOperatorCharacter(s[0]))
    }
}

/// What the whole parse returns: left number, operator and right number in
/// that order, each preceded by a space skip, with the first failure
/// propagated and anything after the right number ignored.
pub open spec fn spec_parse(s: Seq<char>) -> Result<ParsedExpression, ParseError> {
    match spec_read_number(spec_skip_spaces(s)) {
        Err(e) => Err(e),
        Ok((left, rest1)) => match spec_read_symbol(spec_skip_spaces(rest1)) {
            Err(e) => Err(e),
            Ok((op, rest2)) => match spec_read_number(spec_skip_spaces(rest2)) {
                Err(e) => Err(e),
                Ok((right, _)) => Ok(
                    match op {
                        Operator::Add => ParsedExpression::AddExpr(left as i64, right as i64),
                        Operator::Subtract => ParsedExpression::SubtractExpr(
                            left as i64,
                            right as i64,
                        ),
                    },
                ),
            },
        },
    }
}

/// A run of leading spaces ends exactly where the first non-space stands.
pub proof fn lemma_space_run_len_exact(s: Seq<char>, i: int)
    requires
        0 <= i <= s.len(),
        forall|j: int| 0 <= j < i ==> s[j] == ' ',
        i == s.len() || s[i] != ' ',
    ensures
        space_run_len(s) == i,
    decreases i,
{
    if i == 0 {
    } else {
        lemma_space_run_len_exact(s.skip(1), i - 1);
    }
}

/// A run of leading digits ends exactly where the first non-digit stands.
pub proof fn lemma_digit_run_len_exact(s: Seq<char>, i: int)
    requires
        0 <= i <= s.len(),
        forall|j: int| 0 <= j < i ==> is_digit(s[j]),
        i == s.len() || !is_digit(s[i]),
    ensures
        digit_run_len(s) == i,
    decreases i,
{
    if i == 0 {
    } else {
        lemma_digit_run_len_exact(s.skip(1), i - 1);
    }
}

/// The number scan ends exactly where the first character stands that is
/// neither a digit nor a minus sign at position 0.
pub proof fn lemma_numeral_len_exact(s: Seq<char>, i: int)
    requires
        0 <= i <= s.len(),
        forall|j: int| 0 <= j < i ==> numeral_char_at(s, j),
        i == s.len() || !numeral_char_at(s, i),
    ensures
        numeral_len(s) == i,
{
    if s.len() > 0 && s[0] == '-' {
        assert(numeral_char_at(s, 0));
        assert(i >= 1);
        let t = s.skip(1);
        assert forall|j: int| 0 <= j < i - 1 implies is_digit(t[j]) by {
            assert(numeral_char_at(s, j + 1));
        }
        if i - 1 < t.len() {
            assert(!is_digit(t[i - 1])) by {
                assert(!numeral_char_at(s, i));
            }
        }
        lemma_digit_run_len_exact(t, i - 1);
    } else {
        assert forall|j: int| 0 <= j < i implies is_digit(s[j]) by {
            assert(numeral_char_at(s, j));
        }
        lemma_digit_run_len_exact(s, i);
    }
}

/// The value of a run of digits is never negative.
pub proof fn lemma_digits_value_nonneg(d: Seq<char>)
    requires
        forall|j: int| 0 <= j < d.len() ==> is_digit(d[j]),
    ensures
        digits_value(d) >= 0,
    decreases d.len(),
{
    if d.len() > 0 {
        lemma_digits_value_nonneg(d.drop_last());
    }
}

/// Reading more digits never shrinks the value: every prefix of a digit run
/// denotes at most the value of the whole run.
pub proof fn lemma_digits_value_prefix_le(d: Seq<char>, k: int)
    requires
        forall|j: int| 0 <= j < d.len() ==> is_digit(d[j]),
        0 <= k <= d.len(),
    ensures
        digits_value(d.take(k)) <= digits_value(d),
    decreases d.len() - k,
{
    if k == d.len() {
        assert(d.take(k) =~= d);
    } else {
        let head = d.drop_last();
        lemma_digits_value_nonneg(head);
        assert(digits_value(d) >= digits_value(head));
        assert(d.take(k) =~= head.take(k));
        lemma_digits_value_prefix_le(head, k);
    }
}

/// Consumes the leading spaces of the input and returns the rest, starting
/// at the first character that is not an ASCII space. Other whitespace, tab
/// or newline, is not skipped.
pub fn read_any_amount_of_whitespace(input: &str) -> (rest: &str)
    ensures
        rest@ == spec_skip_spaces(input@),
{
    let len = input.unicode_len();
    let mut i: usize = 0;
    while i < len && input.get_char(i) == ' '
        invariant
            i <= len,
            len == input@.len(),
            forall|j: int| 0 <= j < i ==> input@[j] == ' ',
        decreases len - i,
    {
        i = i + 1;
    }
    proof {
        lemma_space_run_len_exact(input@, i as int);
    }
    let rest = input.substring_char(i, len);
    proof {
        assert(rest@ =~= spec_skip_spaces(input@));
    }
    rest
}

/// Whether the character at position `i` may be part of a scanned numeral:
/// a digit anywhere, or a minus sign at position 0 only.
fn numeral_char(input: &str, i: usize) -> (b: bool)
    requires
        i < input@.len(),
    ensures
        b == numeral_char_at(input@, i as int),
{
    let c = input.get_char(i);
    (i == 0 && c == '-') || ('0' <= c && c <= '9')
}

/// Reads a signed decimal number from the front of the input: an optional
/// minus sign at position 0, then digits, stopping at a space (which is left
/// in the remainder) or at the end of the input. The scanned numeral is then
/// converted to an `i64`; a numeral without digits, or one whose value does
/// not fit, is malformed.
#[verifier::loop_isolation(false)]
pub fn read_number<'a>(input: &'a str) -> (r: Result<(i64, &'a str), ParseError>)
    ensures
        spec_read_number(input@) matches Ok(p) ==> (r matches Ok(q) && q.0 as int == p.0
            && q.1@ == p.1),
        spec_read_number(input@) matches Err(e) ==> (r matches Err(e2) && e2 == e),
{
    let ghost s = input@;
    let len = input.unicode_len();
    let mut i: usize = 0;
    while i < len && numeral_char(input, i)
        invariant
            i <= len,
            forall|j: int| 0 <= j < i ==> numeral_char_at(s, j),
        decreases len - i,
    {
        i = i + 1;
    }
    proof {
        lemma_numeral_len_exact(s, i as int);
    }
    if i == len {
        if len == 0 {
            return Err(ParseError::UnexpectedEndOfInput);
        }
    } else {
        let c = input.get_char(i);
        if c != ' ' {
            return Err(ParseError::InvalidNumberCharacter(c));
        }
    }
    let neg: bool = if i > 0 {
        input.get_char(0) == '-'
    } else {
        false
    };
    let start: usize = if neg {
        1
    } else {
        0
    };
    if i <= start {
        return Err(ParseError::MalformedNumber);
    }
    let ghost m = s.take(i as int);
    let ghost digits = s.subrange(start as int, i as int);
    proof {
        assert forall|t: int| 0 <= t < digits.len() implies is_digit(digits[t]) by {
            assert(numeral_char_at(s, start + t));
        }
        if neg {
            assert(m.skip(1) =~= digits);
        } else {
            assert(m =~= digits);
        }
    }
    let mut acc: u64 = 0;
    let mut j: usize = start;
    while j < i
        invariant
            start <= j <= i,
            acc == digits_value(s.subrange(start as int, j as int)),
        decreases i - j,
    {
        let c = input.get_char(j);
        proof {
            assert(numeral_char_at(s, j as int));
        }
        let d: u64 = (c as u32 - 48) as u64;
        proof {
            assert(s.subrange(start as int, j + 1).drop_last() =~= s.subrange(
                start as int,
                j as int,
            ));
            assert(digits_value(s.subrange(start as int, j + 1)) == 10 * acc + d);
            assert(digits.take(j - start + 1) =~= s.subrange(start as int, j + 1));
        }
        let wide = match acc.checked_mul(10) {
            Some(t) => t,
            None => {
                proof {
                    lemma_digits_value_prefix_le(digits, j - start + 1);
                }
                return Err(ParseError::MalformedNumber);
            },
        };
        let grown = match wide.checked_add(d) {
            Some(a) => a,
            None => {
                proof {
                    lemma_digits_value_prefix_le(digits, j - start + 1);
                }
                return Err(ParseError::MalformedNumber);
            },
        };
        acc = grown;
        j = j + 1;
    }
    proof {
        assert(acc == digits_value(digits));
    }
    let value: i64;
    if neg {
        if acc > 9223372036854775808u64 {
            return Err(ParseError::MalformedNumber);
        }
        value = if acc == 9223372036854775808u64 {
            i64::MIN
        } else {
            -(acc as i64)
        };
    } else {
        if acc > 9223372036854775807u64 {
            return Err(ParseError::MalformedNumber);
        }
        value = acc as i64;
    }
    let rest = input.substring_char(i, len);
    proof {
        assert(rest@ =~= s.skip(i as int));
    }
    Ok((value, rest))
}

/// Reads the operator: exactly one character, `+` for addition or `-` for
/// subtraction. No whitespace is skipped here; the caller does that first.
pub fn read_symbol<'a>(input: &'a str) -> (r: Result<(Operator, &'a str), ParseError>)
    ensures
        spec_read_symbol(input@) matches Ok(p) ==> (r matches Ok(q) && q.0 == p.0 && q.1@ == p.1),
        spec_read_symbol(input@) matches Err(e) ==> (r matches Err(e2) && e2 == e),
{
    let len = input.unicode_len();
    if len == 0 {
        return Err(ParseError::UnexpectedEndOfInput);
    }
    let c = input.get_char(0);
    let symbol = if c == '+' {
        Operator::Add
    } else if c == '-' {
        Operator::Subtract
    } else {
        return Err(ParseError::InvalidOperatorCharacter(c));
    };
    Ok((symbol, input.substring_char(1, len)))
}

/// Parses one full input line: left number, operator, right number, each
/// preceded by a skip over spaces. The first failure is returned at once;
/// anything left after the right number is deliberately ignored.
pub fn parse_input(input: &str) -> (r: Result<ParsedExpression, ParseError>)
    ensures
        r == spec_parse(input@),
{
    let left_trimmed = read_any_amount_of_whitespace(input);
    let (left_number, symbol_untrimmed) = match read_number(left_trimmed) {
        Ok(values) => values,
        Err(e) => {
            return Err(e);
        },
    };
    let symbol_trimmed = read_any_amount_of_whitespace(symbol_untrimmed);
    let (symbol, right_untrimmed) = match read_symbol(symbol_trimmed) {
        Ok(values) => values,
        Err(e) => {
            return Err(e);
        },
    };
    let right_trimmed = read_any_amount_of_whitespace(right_untrimmed);
    let (right_number, _rest) = match read_number(right_trimmed) {
        Ok(values) => values,
        Err(e) => {
            return Err(e);
        },
    };
    let tree = match symbol {
        Operator::Add => ParsedExpression::AddExpr(left_number, right_number),
        Operator::Subtract => ParsedExpression::SubtractExpr(left_number, right_number),
    };
    Ok(tree)
}

} // verus!
