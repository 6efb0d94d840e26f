//! End-to-end tests of `evaluate_expression`: the whole pipeline from
//! text to the bit pattern of an IEEE-754 double.

use calc::ExprError;
use calc::evaluate_expression;

fn eval_ok(input: &str) -> f64 {
    match evaluate_expression(input) {
        Ok(bits) => f64::from_bits(bits),
        Err(e) => panic!("expected a value for {:?}, got {:?}", input, e),
    }
}

#[test]
fn paren_group_is_evaluated_first() {
    assert_eq!(eval_ok("2 + 3 * (4 - 1)"), 11.0);
}

#[test]
fn multiplication_binds_tighter_than_addition() {
    assert_eq!(eval_ok("2 + 3 * 4"), 14.0);
}

#[test]
fn equal_priority_applies_left_to_right() {
    assert_eq!(eval_ok("8 / 4 / 2"), 1.0);
    assert_eq!(eval_ok("10 - 2 - 3"), 5.0);
}

#[test]
fn leading_operator_is_rejected() {
    assert!(matches!(
        evaluate_expression("+ 2 3"),
        Err(ExprError::LeadingOperatorError)
    ));
}

#[test]
fn consecutive_operators_are_rejected() {
    match evaluate_expression("2 + + 3") {
        Err(ExprError::ConsecutiveOperatorError { previous, current }) => {
            assert_eq!(previous, "+");
            assert_eq!(current, "+");
        }
        other => panic!("expected a consecutive-operator error, got {:?}", other),
    }
}

#[test]
fn trailing_operator_is_rejected() {
    assert!(matches!(
        evaluate_expression("2 /"),
        Err(ExprError::TrailingOperatorError)
    ));
}

#[test]
fn division_by_zero_yields_infinity() {
    let bits = evaluate_expression("2 / 0").unwrap();
    let value = f64::from_bits(bits);
    assert!(value.is_infinite());
    assert!(value > 0.0);
}

#[test]
fn reevaluation_yields_identical_results() {
    let first = evaluate_expression("2 + 3 * (4 - 1)");
    for _ in 0..4 {
        assert_eq!(evaluate_expression("2 + 3 * (4 - 1)"), first);
    }
    let failing = evaluate_expression("2 /");
    assert_eq!(evaluate_expression("2 /"), failing);
}

#[test]
fn simple_expressions_give_exact_results() {
    assert_eq!(eval_ok("7"), 7.0);
    assert_eq!(eval_ok("2 * (3 + 4)"), 14.0);
    assert_eq!(eval_ok("12.5 + 0.5"), 13.0);
    assert_eq!(eval_ok("100 / 8"), 12.5);
    assert_eq!(eval_ok("3.5 * 2"), 7.0);
}

#[test]
fn arithmetic_matches_hardware_doubles() {
    assert_eq!(evaluate_expression("0.1 + 0.2").unwrap(), (0.1f64 + 0.2f64).to_bits());
    assert_eq!(evaluate_expression("1 / 3").unwrap(), (1.0f64 / 3.0f64).to_bits());
    assert_eq!(evaluate_expression("0.1 * 0.3").unwrap(), (0.1f64 * 0.3f64).to_bits());
    assert_eq!(evaluate_expression("1.5 - 0.7").unwrap(), (1.5f64 - 0.7f64).to_bits());
}

#[test]
fn whitespace_and_strays_are_dropped() {
    assert_eq!(eval_ok("  2   +2"), 4.0);
    assert_eq!(eval_ok("2 x+ 3"), 5.0);
}

#[test]
fn empty_input_is_malformed() {
    assert!(matches!(
        evaluate_expression(""),
        Err(ExprError::MalformedExpressionError)
    ));
}
