//! A verified infix arithmetic calculator.
//!
//! The library turns a textual expression over non-negative decimal
//! literals, the four binary operators `+ - * /` and parentheses into a
//! numeric result, in three stages: tokenization, infix-to-postfix
//! conversion (shunting-yard), and postfix evaluation.
//!
//! Verus does not model IEEE-754 arithmetic, so numeric values travel
//! through the library as the 64-bit patterns of double-precision
//! floats, and the four arithmetic operations and decimal parsing are
//! delegated to a software IEEE-754 implementation behind trusted
//! wrappers.

mod errors;
mod eval;
mod ieee;
mod operator;
mod postfix;
mod token;
mod validate;

pub use eval::Outcome;
pub use eval::apply_operator;
pub use eval::evaluate_expression;
pub use eval::evaluate_matches;
pub use eval::evaluate_postfix;
pub use eval::lemma_evaluate_idempotent;
pub use eval::spec_apply_bits;
pub use eval::spec_evaluate_expression;
pub use eval::spec_evaluate_postfix;
pub use ieee::add_bits;
pub use ieee::div_bits;
pub use ieee::float_bits_of;
pub use ieee::mul_bits;
pub use ieee::sub_bits;

pub use errors::ExprError;
pub use operator::Operator;
pub use operator::is_operator;
pub use operator::is_operator_char;
pub use operator::operator_from_str;
pub use operator::spec_is_operator;
pub use operator::spec_operator_of;
pub use postfix::infix_to_postfix;
pub use postfix::lexemes_of;
pub use postfix::spec_to_postfix;
pub use token::Token;
pub use token::convert_to_math;
pub use token::is_number;
pub use token::spec_is_number;
pub use token::spec_tokenize;
pub use token::tokenize;
pub use token::tokens_view;
pub use validate::Violation;
pub use validate::spec_validate;
pub use validate::validate_tokens;
pub use validate::violation_error_matches;
