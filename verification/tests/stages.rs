//! Tests of the individual pipeline stages: validation,
//! infix-to-postfix conversion, and postfix evaluation.

use calc::ExprError;
use calc::evaluate_expression;
use calc::evaluate_postfix;
use calc::infix_to_postfix;
use calc::tokenize;
use calc::validate_tokens;

fn postfix_of(input: &str) -> Vec<String> {
    infix_to_postfix(&tokenize(input)).unwrap()
}

#[test]
fn valid_token_sequences_pass_validation() {
    assert_eq!(validate_tokens(&tokenize("2 + 3 * (4 - 1)")), Ok(()));
    assert_eq!(validate_tokens(&tokenize("42")), Ok(()));
    assert_eq!(validate_tokens(&tokenize("")), Ok(()));
}

#[test]
fn leading_parenthesis_is_rejected() {
    // The leading-token rule asks for a numeric first token, so even a
    // balanced expression may not open with a parenthesis.
    assert!(matches!(
        validate_tokens(&tokenize("(2 + 3)")),
        Err(ExprError::LeadingOperatorError)
    ));
}

#[test]
fn invalid_symbol_reports_lexeme_and_position() {
    match validate_tokens(&tokenize("2 + 1..2")) {
        Err(ExprError::InvalidSymbolError { symbol, position }) => {
            assert_eq!(symbol, "1..2");
            assert_eq!(position, 3);
        }
        other => panic!("expected an invalid-symbol error, got {:?}", other),
    }
}

#[test]
fn consecutive_operators_report_both_lexemes() {
    match validate_tokens(&tokenize("2 * / 3")) {
        Err(ExprError::ConsecutiveOperatorError { previous, current }) => {
            assert_eq!(previous, "*");
            assert_eq!(current, "/");
        }
        other => panic!("expected a consecutive-operator error, got {:?}", other),
    }
}

#[test]
fn trailing_operator_is_reported_before_consecutive() {
    assert!(matches!(
        validate_tokens(&tokenize("2 + -")),
        Err(ExprError::TrailingOperatorError)
    ));
}

#[test]
fn conversion_orders_by_priority() {
    assert_eq!(postfix_of("2 + 3 * 4"), ["2", "3", "4", "*", "+"]);
    assert_eq!(postfix_of("2 * 3 + 4"), ["2", "3", "*", "4", "+"]);
}

#[test]
fn conversion_respects_parentheses() {
    assert_eq!(postfix_of("2 + 3 * (4 - 1)"), ["2", "3", "4", "1", "-", "*", "+"]);
}

#[test]
fn equal_priority_emits_the_earlier_operator_first() {
    assert_eq!(postfix_of("8 / 4 / 2"), ["8", "4", "/", "2", "/"]);
    assert_eq!(postfix_of("1 - 2 + 3"), ["1", "2", "-", "3", "+"]);
}

#[test]
fn unmatched_closing_parenthesis_fails_conversion() {
    assert!(matches!(
        infix_to_postfix(&tokenize("2 + 3)")),
        Err(ExprError::UnmatchedParenthesisError)
    ));
    assert!(matches!(
        evaluate_expression("2) + 3"),
        Err(ExprError::UnmatchedParenthesisError)
    ));
}

#[test]
fn unmatched_opening_parenthesis_is_drained_and_ignored() {
    assert_eq!(postfix_of("2 + (3"), ["2", "3", "(", "+"]);
    assert_eq!(evaluate_expression("2 + (3"), Ok(5.0f64.to_bits()));
}

#[test]
fn evaluation_pushes_parsed_literals() {
    let postfix = vec![String::from("2.5")];
    assert_eq!(evaluate_postfix(&postfix), Ok(2.5f64.to_bits()));
}

#[test]
fn operator_without_two_operands_fails() {
    let postfix = vec![String::from("2"), String::from("+")];
    assert_eq!(evaluate_postfix(&postfix), Err(ExprError::InsufficientOperandsError));
    let lone = vec![String::from("*")];
    assert_eq!(evaluate_postfix(&lone), Err(ExprError::InsufficientOperandsError));
}

#[test]
fn leftover_operands_are_malformed() {
    let postfix = vec![String::from("2"), String::from("3")];
    assert_eq!(evaluate_postfix(&postfix), Err(ExprError::MalformedExpressionError));
    assert_eq!(evaluate_postfix(&Vec::new()), Err(ExprError::MalformedExpressionError));
    assert!(matches!(
        evaluate_expression("2 3"),
        Err(ExprError::MalformedExpressionError)
    ));
}

#[test]
fn evaluation_applies_operands_in_order() {
    let postfix = vec![String::from("8"), String::from("2"), String::from("-")];
    assert_eq!(evaluate_postfix(&postfix), Ok(6.0f64.to_bits()));
}
