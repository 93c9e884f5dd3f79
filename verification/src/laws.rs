//! Proved laws of the whole pipeline: which input lines parse, what they
//! parse to, and what line is printed for them.

use vstd::prelude::*;

use crate::expr::ParseError;
use crate::expr::ParsedExpression;
use crate::parse::in_i64_range;
use crate::parse::lemma_numeral_len_exact;
use crate::parse::numeral_char_at;
use crate::parse::numeral_value;
use crate::parse::numeral_wf;
use crate::parse::space_run_len;
use crate::parse::spec_parse;
use crate::parse::spec_read_number;
use crate::parse::spec_skip_spaces;
use crate::render::dec_int;
use crate::render::spec_result_line;

verus! {

/// A run of `k` spaces.
pub open spec fn spaces(k: nat) -> Seq<char> {
    Seq::new(k, |i: int| ' ')
}

proof fn lemma_space_run_len_le(s: Seq<char>)
    ensures
        0 <= space_run_len(s) <= s.len(),
    decreases s.len(),
{
    if s.len() > 0 && s[0] == ' ' {
        lemma_space_run_len_le(s.skip(1));
    }
}

proof fn lemma_space_run_len_spaces_concat(k: nat, s: Seq<char>)
    ensures
        space_run_len(spaces(k) + s) == k + space_run_len(s),
    decreases k,
{
    if k == 0 {
        assert(spaces(0nat) + s =~= s);
    } else {
        let t = spaces(k) + s;
        assert(t[0] == ' ');
        assert(t.skip(1) =~= spaces((k - 1) as nat) + s);
        lemma_space_run_len_spaces_concat((k - 1) as nat, s);
    }
}

/// Leading spaces never change what an input parses to: the parse of
/// `spaces(k) + s` is the parse of `s`, whatever `s` is.
pub proof fn lemma_leading_spaces_ignored(k: nat, s: Seq<char>)
    ensures
        spec_parse(spaces(k) + s) == spec_parse(s),
{
    lemma_space_run_len_spaces_concat(k, s);
    lemma_space_run_len_le(s);
    assert(spec_skip_spaces(spaces(k) + s) =~= spec_skip_spaces(s));
}

/// Reading a number from a well-formed numeral followed by a space (or by
/// nothing) consumes exactly the numeral and returns its value.
proof fn lemma_read_number_of_numeral(m: Seq<char>, rest: Seq<char>)
    requires
        numeral_wf(m),
        in_i64_range(numeral_value(m)),
        rest.len() == 0 || rest[0] == ' ',
    ensures
        spec_read_number(m + rest) == Ok::<(int, Seq<char>), ParseError>((numeral_value(m), rest)),
{
    let s = m + rest;
    assert forall|j: int| 0 <= j < m.len() implies numeral_char_at(s, j) by {
        assert(numeral_char_at(m, j));
        assert(s[j] == m[j]);
    }
    if (m.len() as int) < s.len() {
        assert(s[m.len() as int] == rest[0]);
        assert(!numeral_char_at(s, m.len() as int));
    }
    lemma_numeral_len_exact(s, m.len() as int);
    assert(s.take(m.len() as int) =~= m);
    assert(s.skip(m.len() as int) =~= rest);
}

/// Skipping spaces in front of anything that does not start with a space
/// leaves it unchanged.
proof fn lemma_skip_spaces_before(k: nat, s: Seq<char>)
    requires
        s.len() == 0 || s[0] != ' ',
    ensures
        spec_skip_spaces(spaces(k) + s) =~= s,
{
    lemma_space_run_len_spaces_concat(k, s);
}

/// Every addition line parses and prints its sum: for any two well-formed
/// numerals whose values and sum fit in an `i64`, the input made of them
/// around a `+`, with any spacing that keeps the tokens apart and anything
/// (or nothing) after a space behind the right numeral, parses to the
/// addition of their values, and the printed line is exactly the decimal
/// form of the left value, ` + `, the right value, ` = `, and their sum.
pub proof fn lemma_addition_line(a: nat, b: nat, c: nat, m1: Seq<char>, m2: Seq<char>, tail: Seq<char>)
    requires
        numeral_wf(m1),
        numeral_wf(m2),
        in_i64_range(numeral_value(m1)),
        in_i64_range(numeral_value(m2)),
        in_i64_range(numeral_value(m1) + numeral_value(m2)),
        b >= 1,
        tail.len() == 0 || tail[0] == ' ',
    ensures
        ({
            let input = spaces(a) + m1 + spaces(b) + seq!['+'] + spaces(c) + m2 + tail;
            let left = numeral_value(m1);
            let right = numeral_value(m2);
            let tree = ParsedExpression::AddExpr(left as i64, right as i64);
            &&& spec_parse(input) == Ok::<ParsedExpression, ParseError>(tree)
            &&& spec_result_line(tree) == dec_int(left) + seq![' ', '+', ' '] + dec_int(right)
                + seq![' ', '=', ' '] + dec_int(left + right)
        }),
{
    let input = spaces(a) + m1 + spaces(b) + seq!['+'] + spaces(c) + m2 + tail;
    lemma_operator_line_parses(a, b, c, '+', m1, m2, tail);
}

/// Every subtraction line parses and prints its difference, under the same
/// conditions as the addition law, with `-` and the difference in place of
/// `+` and the sum.
pub proof fn lemma_subtraction_line(
    a: nat,
    b: nat,
    c: nat,
    m1: Seq<char>,
    m2: Seq<char>,
    tail: Seq<char>,
)
    requires
        numeral_wf(m1),
        numeral_wf(m2),
        in_i64_range(numeral_value(m1)),
        in_i64_range(numeral_value(m2)),
        in_i64_range(numeral_value(m1) - numeral_value(m2)),
        b >= 1,
        tail.len() == 0 || tail[0] == ' ',
    ensures
        ({
            let input = spaces(a) + m1 + spaces(b) + seq!['-'] + spaces(c) + m2 + tail;
            let left = numeral_value(m1);
            let right = numeral_value(m2);
            let tree = ParsedExpression::SubtractExpr(left as i64, right as i64);
            &&& spec_parse(input) == Ok::<ParsedExpression, ParseError>(tree)
            &&& spec_result_line(tree) == dec_int(left) + seq![' ', '-', ' '] + dec_int(right)
                + seq![' ', '=', ' '] + dec_int(left - right)
        }),
{
    lemma_operator_line_parses(a, b, c, '-', m1, m2, tail);
}

/// The shared shape of the two laws above: an input made of two well-formed
/// numerals around an operator character parses to that operator applied to
/// their values.
proof fn lemma_operator_line_parses(
    a: nat,
    b: nat,
    c: nat,
    op: char,
    m1: Seq<char>,
    m2: Seq<char>,
    tail: Seq<char>,
)
    requires
        numeral_wf(m1),
        numeral_wf(m2),
        in_i64_range(numeral_value(m1)),
        in_i64_range(numeral_value(m2)),
        op == '+' || op == '-',
        b >= 1,
        tail.len() == 0 || tail[0] == ' ',
    ensures
        ({
            let input = spaces(a) + m1 + spaces(b) + seq![op] + spaces(c) + m2 + tail;
            let left = numeral_value(m1);
            let right = numeral_value(m2);
            let tree = if op == '+' {
                ParsedExpression::AddExpr(left as i64, right as i64)
            } else {
                ParsedExpression::SubtractExpr(left as i64, right as i64)
            };
            spec_parse(input) == Ok::<ParsedExpression, ParseError>(tree)
        }),
{
    let input = spaces(a) + m1 + spaces(b) + seq![op] + spaces(c) + m2 + tail;
    let after_right = tail;
    let at_right = m2 + after_right;
    let after_symbol = spaces(c) + at_right;
    let at_symbol = seq![op] + after_symbol;
    let after_left = spaces(b) + at_symbol;
    let at_left = m1 + after_left;
    assert(input =~= spaces(a) + at_left);
    assert(numeral_char_at(m1, 0) && numeral_char_at(m2, 0));
    assert(at_left[0] == m1[0] && m1[0] != ' ');
    lemma_skip_spaces_before(a, at_left);
    assert(spec_skip_spaces(input) == spec_skip_spaces(spaces(a) + at_left));
    assert(after_left[0] == ' ');
    lemma_read_number_of_numeral(m1, after_left);
    assert(at_symbol[0] == op && op != ' ');
    lemma_skip_spaces_before(b, at_symbol);
    assert(after_left =~= spaces(b) + at_symbol);
    assert(at_symbol.skip(1) =~= after_symbol);
    assert(at_right[0] == m2[0] && m2[0] != ' ');
    lemma_skip_spaces_before(c, at_right);
    assert(after_symbol =~= spaces(c) + at_right);
    lemma_read_number_of_numeral(m2, after_right);
}

} // verus!
