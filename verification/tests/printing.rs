use addsub::expr::ParsedExpression;
use addsub::parse::parse_input;
use addsub::render::printed_result;

#[test]
fn prints_an_addition() {
    assert_eq!(printed_result(ParsedExpression::AddExpr(3, 4)), "3 + 4 = 7");
}

#[test]
fn prints_a_subtraction() {
    assert_eq!(printed_result(ParsedExpression::SubtractExpr(10, 4)), "10 - 4 = 6");
}

#[test]
fn prints_negative_operands() {
    assert_eq!(printed_result(ParsedExpression::AddExpr(-5, 10)), "-5 + 10 = 5");
}

#[test]
fn prints_a_negative_result() {
    assert_eq!(printed_result(ParsedExpression::SubtractExpr(3, 10)), "3 - 10 = -7");
}

#[test]
fn prints_zero() {
    assert_eq!(printed_result(ParsedExpression::AddExpr(0, 0)), "0 + 0 = 0");
}

#[test]
fn prints_the_64_bit_extremes() {
    assert_eq!(
        printed_result(ParsedExpression::AddExpr(i64::MIN, 0)),
        "-9223372036854775808 + 0 = -9223372036854775808"
    );
    assert_eq!(
        printed_result(ParsedExpression::SubtractExpr(i64::MAX, 0)),
        "9223372036854775807 - 0 = 9223372036854775807"
    );
}

#[test]
fn wraps_around_on_overflow() {
    assert_eq!(
        printed_result(ParsedExpression::AddExpr(i64::MAX, 1)),
        "9223372036854775807 + 1 = -9223372036854775808"
    );
    assert_eq!(
        printed_result(ParsedExpression::SubtractExpr(i64::MIN, 1)),
        "-9223372036854775808 - 1 = 9223372036854775807"
    );
}

#[test]
fn evaluates_a_parsed_addition() {
    let tree = parse_input("3 + 4").unwrap();
    assert_eq!(printed_result(tree), "3 + 4 = 7");
}

#[test]
fn evaluates_despite_trailing_garbage() {
    let tree = parse_input("3 + 4 garbage").unwrap();
    assert_eq!(printed_result(tree), "3 + 4 = 7");
}

#[test]
fn evaluates_a_double_minus() {
    let tree = parse_input("5 - -3").unwrap();
    assert_eq!(printed_result(tree), "5 - -3 = 8");
}

#[test]
fn prints_values_not_numerals() {
    // leading zeros are consumed while parsing; the printed line is canonical
    let tree = parse_input("007 + 08").unwrap();
    assert_eq!(printed_result(tree), "7 + 8 = 15");
}
