//! Postfix evaluation, and the whole pipeline from text to result.

use vstd::prelude::*;

use crate::errors::ExprError;
use crate::ieee::add_bits;
use crate::ieee::add_f64_bits;
use crate::ieee::div_bits;
use crate::ieee::div_f64_bits;
use crate::ieee::float_bits_of;
use crate::ieee::mul_bits;
use crate::ieee::mul_f64_bits;
use crate::ieee::parse_number_bits;
use crate::ieee::sub_bits;
use crate::ieee::sub_f64_bits;
use crate::operator::Operator;
use crate::operator::is_operator;
use crate::operator::operator_from_str;
use crate::operator::spec_is_operator;
use crate::operator::spec_operator_of;
use crate::postfix::infix_to_postfix;
use crate::postfix::lexemes_of;
use crate::postfix::spec_to_postfix;
use crate::token::Token;
use crate::token::is_number;
use crate::token::spec_is_number;
use crate::token::spec_tokenize;
use crate::token::tokenize;
use crate::token::tokens_view;
use crate::validate::Violation;
use crate::validate::spec_validate;
use crate::validate::validate_tokens;
use crate::validate::violation_error_matches;

verus! {

/// The bit pattern an operator produces from its two operand bit
/// patterns (left operand first).
pub open spec fn spec_apply_bits(op: Operator, a: u64, b: u64) -> u64 {
    match op {
        Operator::Addition => add_bits(a, b),
        Operator::Subtraction => sub_bits(a, b),
        Operator::Multiplication => mul_bits(a, b),
        Operator::Division => div_bits(a, b),
    }
}

/// Applies an operator to two operand bit patterns (left operand
/// first).
pub fn apply_operator(op: Operator, a: u64, b: u64) -> (r: u64)
    ensures
        r == spec_apply_bits(op, a, b),
{
    match op {
        Operator::Addition => add_f64_bits(a, b),
        Operator::Subtraction => sub_f64_bits(a, b),
        Operator::Multiplication => mul_f64_bits(a, b),
        Operator::Division => div_f64_bits(a, b),
    }
}

/// One left-to-right pass of postfix evaluation from lexeme `i`
/// onward, given the operand stack built so far: numeric lexemes push
/// their value, an operator pops its right then its left operand and
/// pushes the result (an error when fewer than two are available), any
/// other lexeme is ignored; at the end exactly one operand must
/// remain, and is the result.
pub open spec fn spec_eval_from(pf: Seq<Seq<char>>, i: int, stack: Seq<u64>) -> Result<u64, ExprError>
    decreases pf.len() - i,
{
    if i < 0 || i >= pf.len() {
        if stack.len() == 1 {
            Ok(stack[0])
        } else {
            Err(ExprError::MalformedExpressionError)
        }
    } else {
        let lex = pf[i];
        if spec_is_number(lex) {
            spec_eval_from(pf, i + 1, stack.push(float_bits_of(lex)))
        } else if spec_is_operator(lex) {
            if stack.len() < 2 {
                Err(ExprError::InsufficientOperandsError)
            } else {
                match spec_operator_of(lex) {
                    Some(op) => spec_eval_from(
                        pf,
                        i + 1,
                        stack.drop_last().drop_last().push(
                            spec_apply_bits(op, stack[stack.len() - 2], stack.last()),
                        ),
                    ),
                    None => Err(ExprError::UnknownOperatorError),
                }
            }
        } else {
            spec_eval_from(pf, i + 1, stack)
        }
    }
}

/// The result of evaluating a postfix lexeme sequence.
pub open spec fn spec_evaluate_postfix(pf: Seq<Seq<char>>) -> Result<u64, ExprError> {
    spec_eval_from(pf, 0, seq![])
}

/// Evaluates a postfix lexeme sequence with an operand stack. The
/// result is the bit pattern of an IEEE-754 double; division by zero
/// is not guarded, so it yields the bit pattern of an infinity or a
/// NaN rather than an error.
pub fn evaluate_postfix(postfix: &Vec<String>) -> (r: Result<u64, ExprError>)
    ensures
        r == spec_evaluate_postfix(lexemes_of(postfix@)),
{
    let ghost pf = lexemes_of(postfix@);
    let mut stack: Vec<u64> = Vec::new();
    let mut i: usize = 0;
    proof {
        assert(stack@ =~= Seq::<u64>::empty());
    }
    while i < postfix.len()
        invariant
            pf == lexemes_of(postfix@),
            0 <= i <= postfix@.len(),
            spec_eval_from(pf, i as int, stack@) == spec_evaluate_postfix(pf),
        decreases postfix@.len() - i,
    {
        let tok = postfix[i].as_str();
        if is_number(tok) {
            let b = parse_number_bits(tok).unwrap();
            stack.push(b);
        } else if is_operator(tok) {
            if stack.len() < 2 {
                return Err(ExprError::InsufficientOperandsError);
            }
            let operand2 = stack.pop().unwrap();
            let operand1 = stack.pop().unwrap();
            match operator_from_str(tok) {
                Some(op) => {
                    stack.push(apply_operator(op, operand1, operand2));
                },
                None => {
                    return Err(ExprError::UnknownOperatorError);
                },
            }
        } else {
            // a lexeme that is neither numeric nor an operator (a
            // parenthesis drained from the stack) is ignored
        }
        i += 1;
    }
    if stack.len() != 1 {
        return Err(ExprError::MalformedExpressionError);
    }
    Ok(stack.pop().unwrap())
}

/// The outcome of the whole pipeline on an input text.
pub ghost enum Outcome {
    /// The bit pattern of the resulting double.
    Value(u64),
    /// The token sequence was rejected by validation.
    Rejected(Violation),
    /// A closing parenthesis had no matching opening parenthesis.
    UnmatchedParenthesis,
    /// Postfix evaluation failed.
    EvalFailed(ExprError),
}

/// The outcome of tokenizing, validating, converting and evaluating
/// an input text: a function of the text alone.
pub open spec fn spec_evaluate_expression(input: Seq<char>) -> Outcome {
    let ts = spec_tokenize(input);
    match spec_validate(ts) {
        Some(v) => Outcome::Rejected(v),
        None => match spec_to_postfix(ts) {
            None => Outcome::UnmatchedParenthesis,
            Some(pf) => match spec_evaluate_postfix(pf) {
                Ok(b) => Outcome::Value(b),
                Err(e) => Outcome::EvalFailed(e),
            },
        },
    }
}

/// The result an `evaluate_expression` call reports for a given
/// pipeline outcome.
pub open spec fn evaluate_matches(input: Seq<char>, r: Result<u64, ExprError>) -> bool {
    match spec_evaluate_expression(input) {
        Outcome::Value(b) => r == Ok::<u64, ExprError>(b),
        Outcome::Rejected(v) => r matches Err(e)
            && violation_error_matches(spec_tokenize(input), v, e),
        Outcome::UnmatchedParenthesis => r == Err::<u64, ExprError>(
            ExprError::UnmatchedParenthesisError,
        ),
        Outcome::EvalFailed(e) => r == Err::<u64, ExprError>(e),
    }
}

/// Evaluates an infix arithmetic expression: tokenize, validate,
/// convert to postfix, evaluate. On success the result is the bit
/// pattern of an IEEE-754 double; every failure is one typed error.
pub fn evaluate_expression(input: &str) -> (r: Result<u64, ExprError>)
    ensures
        evaluate_matches(input@, r),
{
    let tokens = tokenize(input);
    match validate_tokens(&tokens) {
        Err(e) => Err(e),
        Ok(()) => match infix_to_postfix(&tokens) {
            Err(e) => Err(e),
            Ok(postfix) => evaluate_postfix(&postfix),
        },
    }
}

/// Re-evaluating the same expression text yields identical results:
/// the pipeline's outcome is a function of the input text alone, with
/// no hidden state between calls.
pub proof fn lemma_evaluate_idempotent(a: Seq<char>, b: Seq<char>)
    requires
        a == b,
    ensures
        spec_evaluate_expression(a) == spec_evaluate_expression(b),
{
}

} // verus!
