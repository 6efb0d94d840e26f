//! The closed set of binary operators and their priorities.

use vstd::prelude::*;
use vstd::string::StrSliceExecFns;

verus! {

/// One of the four recognized binary operators.
#[derive(Clone, Copy, PartialEq, Eq, Structural, Debug)]
pub enum Operator {
    Addition,
    Subtraction,
    Multiplication,
    Division,
}

impl Operator {
    /// Priority of this operator: multiplicative operators bind tighter
    /// than additive ones.
    pub open spec fn spec_prioriter(self) -> u8 {
        match self {
            Operator::Multiplication | Operator::Division => 2,
            Operator::Addition | Operator::Subtraction => 1,
        }
    }

    /// Returns the operator's priority, used to order emission during
    /// infix-to-postfix conversion.
    pub fn prioriter(&self) -> (r: u8)
        ensures
            r == self.spec_prioriter(),
    {
        match self {
            Operator::Multiplication | Operator::Division => 2,
            Operator::Addition | Operator::Subtraction => 1,
        }
    }
}

/// One of the four operator characters.
pub open spec fn is_operator_char(c: char) -> bool {
    c == '+' || c == '-' || c == '*' || c == '/'
}

/// The operator denoted by a lexeme, if any: exactly the four
/// single-character lexemes `+ - * /` denote one.
pub open spec fn spec_operator_of(s: Seq<char>) -> Option<Operator> {
    if s.len() == 1 {
        match s[0] {
            '+' => Some(Operator::Addition),
            '-' => Some(Operator::Subtraction),
            '*' => Some(Operator::Multiplication),
            '/' => Some(Operator::Division),
            _ => None,
        }
    } else {
        None
    }
}

/// A lexeme that denotes an operator.
pub open spec fn spec_is_operator(s: Seq<char>) -> bool {
    spec_operator_of(s) is Some
}

/// Decides whether a lexeme denotes one of the four operators.
pub fn is_operator(token: &str) -> (r: bool)
    ensures
        r == spec_is_operator(token@),
{
    if token.unicode_len() == 1 {
        let c = token.get_char(0);
        c == '+' || c == '-' || c == '*' || c == '/'
    } else {
        false
    }
}

/// Converts a lexeme to the operator it denotes, or `None` when the
/// lexeme is not one of `+ - * /`.
pub fn operator_from_str(token: &str) -> (r: Option<Operator>)
    ensures
        r == spec_operator_of(token@),
{
    if token.unicode_len() == 1 {
        match token.get_char(0) {
            '+' => Some(Operator::Addition),
            '-' => Some(Operator::Subtraction),
            '*' => Some(Operator::Multiplication),
            '/' => Some(Operator::Division),
            _ => None,
        }
    } else {
        None
    }
}

} // verus!
