//! The error taxonomy of the calculator.
//!
//! Every stage reports failure through a typed value; no stage panics
//! and no stage recovers from an earlier stage's error.

use vstd::prelude::*;

verus! {

/// Everything that can go wrong between raw text and a numeric result.
///
/// The first four variants are structural validation failures, found
/// before conversion; `UnmatchedParenthesisError` is found during
/// infix-to-postfix conversion; the last three are found during
/// postfix evaluation.
#[derive(Debug, PartialEq)]
pub enum ExprError {
    /// A non-empty token sequence does not start with a numeric token.
    LeadingOperatorError,
    /// A token past the first is neither numeric, nor an operator, nor
    /// a parenthesis. `position` is the 1-based position of the token.
    InvalidSymbolError { symbol: String, position: usize },
    /// The last token is an operator.
    TrailingOperatorError,
    /// Two adjacent tokens are both operators.
    ConsecutiveOperatorError { previous: String, current: String },
    /// A closing parenthesis with no matching opening parenthesis on
    /// the operator stack.
    UnmatchedParenthesisError,
    /// An operator arrived with fewer than two operands available.
    InsufficientOperandsError,
    /// Evaluation ended with a number of operands other than one.
    MalformedExpressionError,
    /// An operator lexeme outside the recognized set reached the
    /// evaluator; unreachable through the library's own pipeline.
    UnknownOperatorError,
}

} // verus!
