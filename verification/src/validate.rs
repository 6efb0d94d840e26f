//! Structural validation of a token sequence, before conversion.
//!
//! Validation deliberately does not check parenthesis balance or full
//! operator arity: unmatched closing parentheses surface during
//! conversion, and arity mismatches during evaluation.

use vstd::prelude::*;

use crate::errors::ExprError;
use crate::operator::spec_is_operator;
use crate::operator::is_operator;
use crate::token::Token;
use crate::token::is_number;
use crate::token::is_paren_char;
use crate::token::spec_is_number;
use crate::token::tokens_view;
use vstd::string::StrSliceExecFns;

verus! {

/// A structural flaw in a token sequence, by the position of the
/// offending token.
pub ghost enum Violation {
    /// The first token of a non-empty sequence is not numeric.
    Leading,
    /// The token at this position is neither numeric, nor an operator,
    /// nor a parenthesis.
    InvalidSymbol(int),
    /// The operator at this position ends the sequence.
    Trailing(int),
    /// The operator at this position follows another operator.
    Consecutive(int),
}

/// A parenthesis lexeme.
pub open spec fn spec_is_paren(s: Seq<char>) -> bool {
    s.len() == 1 && is_paren_char(s[0])
}

/// The first structural flaw at or after position `i`, scanning left
/// to right; at one position an invalid symbol is reported before a
/// trailing operator, and that before a consecutive operator.
pub open spec fn first_violation_from(ts: Seq<(Seq<char>, bool)>, i: int) -> Option<Violation>
    decreases ts.len() - i,
{
    if i < 1 || i >= ts.len() {
        None
    } else {
        let lex = ts[i].0;
        let numeric = ts[i].1;
        if !numeric && !spec_is_operator(lex) && !spec_is_paren(lex) {
            Some(Violation::InvalidSymbol(i))
        } else if spec_is_operator(lex) && !numeric && i == ts.len() - 1 {
            Some(Violation::Trailing(i))
        } else if spec_is_operator(lex) && spec_is_operator(ts[i - 1].0) {
            Some(Violation::Consecutive(i))
        } else {
            first_violation_from(ts, i + 1)
        }
    }
}

/// The first structural flaw of the whole sequence, if any: a
/// non-numeric leading token, else the first flaw of the scan from
/// position 1.
pub open spec fn spec_validate(ts: Seq<(Seq<char>, bool)>) -> Option<Violation> {
    if ts.len() > 0 && !spec_is_number(ts[0].0) {
        Some(Violation::Leading)
    } else {
        first_violation_from(ts, 1)
    }
}

/// The error value that reports a given structural flaw: the flaw's
/// kind, and for flaws with context the offending lexemes and the
/// 1-based position.
pub open spec fn violation_error_matches(
    m: Seq<(Seq<char>, bool)>,
    v: Violation,
    e: ExprError,
) -> bool {
    match v {
        Violation::Leading => e == ExprError::LeadingOperatorError,
        Violation::InvalidSymbol(i) => e matches ExprError::InvalidSymbolError {
            symbol,
            position,
        } && symbol@ == m[i].0 && position as int == i + 1,
        Violation::Trailing(_) => e == ExprError::TrailingOperatorError,
        Violation::Consecutive(i) => e matches ExprError::ConsecutiveOperatorError {
            previous,
            current,
        } && previous@ == m[i - 1].0 && current@ == m[i].0,
    }
}

/// Checks structural well-formedness of a token sequence: it must
/// start with a numeric token, hold only numeric, operator and
/// parenthesis tokens, not end in an operator, and hold no two
/// adjacent operators. The error identifies the first flaw in the
/// left-to-right scan.
pub fn validate_tokens(tokens: &Vec<Token>) -> (r: Result<(), ExprError>)
    ensures
        ({
            let m = tokens_view(tokens@);
            match spec_validate(m) {
                None => r == Ok::<(), ExprError>(()),
                Some(v) => r matches Err(e) && violation_error_matches(m, v, e),
            }
        }),
{
    let ghost m = tokens_view(tokens@);
    if tokens.len() > 0 && !is_number(tokens[0].lexeme.as_str()) {
        return Err(ExprError::LeadingOperatorError);
    }
    let mut i: usize = 1;
    while i < tokens.len()
        invariant
            1 <= i,
            m == tokens_view(tokens@),
            tokens@.len() > 0 ==> spec_is_number(m[0].0),
            first_violation_from(m, 1) == first_violation_from(m, i as int),
        decreases tokens@.len() - i,
    {
        let t = &tokens[i];
        let lex = t.lexeme.as_str();
        let op = is_operator(lex);
        let paren = lex.unicode_len() == 1
            && (lex.get_char(0) == '(' || lex.get_char(0) == ')');
        if !t.is_numeric && !op && !paren {
            return Err(ExprError::InvalidSymbolError {
                symbol: t.lexeme.clone(),
                position: i + 1,
            });
        }
        if op && !t.is_numeric && i == tokens.len() - 1 {
            return Err(ExprError::TrailingOperatorError);
        }
        if op && is_operator(tokens[i - 1].lexeme.as_str()) {
            return Err(ExprError::ConsecutiveOperatorError {
                previous: tokens[i - 1].lexeme.clone(),
                current: t.lexeme.clone(),
            });
        }
        i += 1;
    }
    Ok(())
}

} // verus!
