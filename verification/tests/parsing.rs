use addsub::expr::ParseError;
use addsub::expr::ParsedExpression;
use addsub::parse::parse_input;
use addsub::parse::read_any_amount_of_whitespace;
use addsub::parse::read_number;
use addsub::parse::read_symbol;
use addsub::expr::Operator;

#[test]
fn skips_leading_spaces() {
    assert_eq!(read_any_amount_of_whitespace("   7"), "7");
    assert_eq!(read_any_amount_of_whitespace("x  "), "x  ");
    assert_eq!(read_any_amount_of_whitespace(""), "");
}

#[test]
fn skips_only_ascii_spaces() {
    assert_eq!(read_any_amount_of_whitespace("\t3"), "\t3");
    assert_eq!(read_any_amount_of_whitespace(" \n "), "\n ");
}

#[test]
fn reads_a_plain_number() {
    assert_eq!(read_number("42"), Ok((42, "")));
}

#[test]
fn reads_a_number_and_leaves_the_space() {
    assert_eq!(read_number("42 rest"), Ok((42, " rest")));
}

#[test]
fn reads_a_negative_number() {
    assert_eq!(read_number("-17 x"), Ok((-17, " x")));
}

#[test]
fn reads_leading_zeros() {
    assert_eq!(read_number("007"), Ok((7, "")));
}

#[test]
fn rejects_a_letter_in_a_number() {
    assert_eq!(read_number("4x"), Err(ParseError::InvalidNumberCharacter('x')));
}

#[test]
fn rejects_an_embedded_minus() {
    assert_eq!(read_number("1-2"), Err(ParseError::InvalidNumberCharacter('-')));
}

#[test]
fn rejects_an_empty_number() {
    assert_eq!(read_number(""), Err(ParseError::UnexpectedEndOfInput));
}

#[test]
fn rejects_a_lone_minus_as_malformed() {
    assert_eq!(read_number("-"), Err(ParseError::MalformedNumber));
}

#[test]
fn rejects_a_number_that_starts_with_a_space() {
    assert_eq!(read_number(" 5"), Err(ParseError::MalformedNumber));
}

#[test]
fn reads_the_64_bit_extremes() {
    assert_eq!(read_number("9223372036854775807"), Ok((i64::MAX, "")));
    assert_eq!(read_number("-9223372036854775808"), Ok((i64::MIN, "")));
}

#[test]
fn rejects_a_number_out_of_64_bit_range() {
    assert_eq!(read_number("9223372036854775808"), Err(ParseError::MalformedNumber));
    assert_eq!(read_number("-9223372036854775809"), Err(ParseError::MalformedNumber));
    assert_eq!(read_number("99999999999999999999999"), Err(ParseError::MalformedNumber));
}

#[test]
fn reads_the_plus_symbol() {
    assert_eq!(read_symbol("+4"), Ok((Operator::Add, "4")));
}

#[test]
fn reads_the_minus_symbol() {
    assert_eq!(read_symbol("- 4"), Ok((Operator::Subtract, " 4")));
}

#[test]
fn rejects_a_bad_symbol() {
    assert_eq!(read_symbol("*"), Err(ParseError::InvalidOperatorCharacter('*')));
}

#[test]
fn rejects_a_missing_symbol() {
    assert_eq!(read_symbol(""), Err(ParseError::UnexpectedEndOfInput));
}

#[test]
fn parses_an_addition() {
    assert_eq!(parse_input("3 + 4"), Ok(ParsedExpression::AddExpr(3, 4)));
}

#[test]
fn parses_a_subtraction() {
    assert_eq!(parse_input("10 - 4"), Ok(ParsedExpression::SubtractExpr(10, 4)));
}

#[test]
fn parses_with_extra_spaces() {
    assert_eq!(parse_input("  3 + 4"), Ok(ParsedExpression::AddExpr(3, 4)));
    assert_eq!(parse_input("3 +4"), Ok(ParsedExpression::AddExpr(3, 4)));
    assert_eq!(parse_input("3   +   4   "), Ok(ParsedExpression::AddExpr(3, 4)));
}

#[test]
fn needs_a_space_before_the_operator() {
    assert_eq!(parse_input("3+4"), Err(ParseError::InvalidNumberCharacter('+')));
    assert_eq!(parse_input("3+ 4"), Err(ParseError::InvalidNumberCharacter('+')));
}

#[test]
fn parses_a_negative_left_operand() {
    assert_eq!(parse_input("-5 + 10"), Ok(ParsedExpression::AddExpr(-5, 10)));
}

#[test]
fn parses_a_negative_right_operand() {
    // the minus stands at position 0 of the right number's own scan
    assert_eq!(parse_input("5 - -3"), Ok(ParsedExpression::SubtractExpr(5, -3)));
}

#[test]
fn rejects_a_minus_inside_the_right_operand() {
    assert_eq!(parse_input("5 - 1-2"), Err(ParseError::InvalidNumberCharacter('-')));
}

#[test]
fn rejects_a_missing_right_operand() {
    assert_eq!(parse_input("5 +"), Err(ParseError::UnexpectedEndOfInput));
}

#[test]
fn rejects_a_bad_operator() {
    assert_eq!(parse_input("5 * 3"), Err(ParseError::InvalidOperatorCharacter('*')));
}

#[test]
fn rejects_empty_input() {
    assert_eq!(parse_input(""), Err(ParseError::UnexpectedEndOfInput));
}

#[test]
fn rejects_input_of_only_spaces() {
    assert_eq!(parse_input("   "), Err(ParseError::UnexpectedEndOfInput));
}

#[test]
fn tolerates_trailing_garbage() {
    assert_eq!(parse_input("3 + 4 garbage"), Ok(ParsedExpression::AddExpr(3, 4)));
}

#[test]
fn rejects_a_lone_minus_input() {
    assert_eq!(parse_input("-"), Err(ParseError::MalformedNumber));
}

#[test]
fn rejects_a_lone_minus_right_operand() {
    assert_eq!(parse_input("5 + -"), Err(ParseError::MalformedNumber));
}

#[test]
fn rejects_a_tab_where_a_number_starts() {
    assert_eq!(parse_input("\t3 + 4"), Err(ParseError::InvalidNumberCharacter('\t')));
}
