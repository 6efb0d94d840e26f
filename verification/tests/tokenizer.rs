//! Tests of the tokenizer and the lexeme classifiers.

use calc::Operator;
use calc::convert_to_math;
use calc::is_number;
use calc::is_operator;
use calc::operator_from_str;
use calc::tokenize;

fn lexemes(input: &str) -> Vec<String> {
    tokenize(input).into_iter().map(|t| t.lexeme).collect()
}

#[test]
fn multi_digit_literals_are_one_token() {
    let tokens = tokenize("42 + 7");
    let lex: Vec<&str> = tokens.iter().map(|t| t.lexeme.as_str()).collect();
    assert_eq!(lex, ["42", "+", "7"]);
    let flags: Vec<bool> = tokens.iter().map(|t| t.is_numeric).collect();
    assert_eq!(flags, [true, false, true]);
}

#[test]
fn decimal_literal_is_one_numeric_token() {
    let tokens = tokenize("3.14");
    assert_eq!(tokens.len(), 1);
    assert_eq!(tokens[0].lexeme, "3.14");
    assert!(tokens[0].is_numeric);
}

#[test]
fn double_dot_run_is_one_non_numeric_token() {
    let tokens = tokenize("1..2");
    assert_eq!(tokens.len(), 1);
    assert_eq!(tokens[0].lexeme, "1..2");
    assert!(!tokens[0].is_numeric);
}

#[test]
fn whitespace_and_unknown_characters_are_dropped() {
    assert_eq!(lexemes(" 2 x+ y3 "), ["2", "+", "3"]);
    assert_eq!(lexemes("abc"), Vec::<String>::new());
}

#[test]
fn parens_and_operators_are_single_tokens() {
    assert_eq!(lexemes("(1+2)*3"), ["(", "1", "+", "2", ")", "*", "3"]);
}

#[test]
fn is_number_accepts_decimal_literals() {
    assert!(is_number("12"));
    assert!(is_number("1.2"));
    assert!(is_number(".5"));
    assert!(is_number("5."));
    assert!(is_number("0"));
}

#[test]
fn is_number_rejects_everything_else() {
    assert!(!is_number(""));
    assert!(!is_number("."));
    assert!(!is_number("1..2"));
    assert!(!is_number("+"));
    assert!(!is_number("1a"));
}

#[test]
fn is_operator_recognizes_the_four_operators() {
    assert!(is_operator("+"));
    assert!(is_operator("-"));
    assert!(is_operator("*"));
    assert!(is_operator("/"));
    assert!(!is_operator("("));
    assert!(!is_operator(")"));
    assert!(!is_operator("++"));
    assert!(!is_operator("2"));
}

#[test]
fn operator_lexemes_map_to_operators() {
    assert_eq!(operator_from_str("+"), Some(Operator::Addition));
    assert_eq!(operator_from_str("-"), Some(Operator::Subtraction));
    assert_eq!(operator_from_str("*"), Some(Operator::Multiplication));
    assert_eq!(operator_from_str("/"), Some(Operator::Division));
    assert_eq!(operator_from_str("("), None);
    assert_eq!(operator_from_str("%"), None);
}

#[test]
fn multiplicative_operators_have_higher_priority() {
    assert_eq!(Operator::Multiplication.prioriter(), 2);
    assert_eq!(Operator::Division.prioriter(), 2);
    assert_eq!(Operator::Addition.prioriter(), 1);
    assert_eq!(Operator::Subtraction.prioriter(), 1);
}

#[test]
fn convert_to_math_keeps_the_lexeme_text() {
    assert_eq!(convert_to_math("3.5"), "3.5");
    assert_eq!(convert_to_math("+"), "+");
}
