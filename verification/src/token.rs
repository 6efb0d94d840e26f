//! Lexical analysis: character classes, numeric lexemes, and the
//! tokenizer.

use vstd::prelude::*;
use vstd::string::StrSliceExecFns;

use crate::operator::is_operator_char;

verus! {

/// One lexical unit: a lexeme together with its classification.
///
/// The tokenizer keeps the flag consistent with the lexeme: it is set
/// exactly when the lexeme is a well-formed decimal literal.
pub struct Token {
    pub lexeme: String,
    pub is_numeric: bool,
}

impl View for Token {
    type V = (Seq<char>, bool);

    open spec fn view(&self) -> (Seq<char>, bool) {
        (self.lexeme@, self.is_numeric)
    }
}

/// The model of a token sequence: each token as (lexeme, numeric flag).
pub open spec fn tokens_view(ts: Seq<Token>) -> Seq<(Seq<char>, bool)> {
    ts.map_values(|t: Token| t@)
}

/// A decimal digit.
pub open spec fn is_digit_char(c: char) -> bool {
    '0' <= c && c <= '9'
}

/// A character that may occur in a numeric lexeme.
pub open spec fn is_numeric_char(c: char) -> bool {
    is_digit_char(c) || c == '.'
}

/// A parenthesis.
pub open spec fn is_paren_char(c: char) -> bool {
    c == '(' || c == ')'
}

/// A character the tokenizer keeps; everything else is dropped.
pub open spec fn is_expr_char(c: char) -> bool {
    is_numeric_char(c) || is_operator_char(c) || is_paren_char(c)
}

/// A well-formed decimal literal: non-empty, made of digits and at
/// most one decimal point, with at least one digit. Over this
/// alphabet, this is exactly the set of lexemes that parse as a
/// floating-point number.
pub open spec fn spec_is_number(s: Seq<char>) -> bool {
    &&& s.len() > 0
    &&& forall|i: int| 0 <= i < s.len() ==> is_numeric_char(#[trigger] s[i])
    &&& exists|i: int| 0 <= i < s.len() && is_digit_char(#[trigger] s[i])
    &&& forall|i: int, j: int| 0 <= i < j < s.len() ==> !(#[trigger] s[i] == '.' && #[trigger] s[j] == '.')
}

/// Decides whether a lexeme is a well-formed decimal literal.
pub fn is_number(token: &str) -> (r: bool)
    ensures
        r == spec_is_number(token@),
{
    let n = token.unicode_len();
    let mut has_digit = false;
    let mut seen_dot = false;
    let mut i: usize = 0;
    while i < n
        invariant
            n == token@.len(),
            0 <= i <= n,
            forall|k: int| 0 <= k < i ==> is_numeric_char(#[trigger] token@[k]),
            has_digit == exists|k: int| 0 <= k < i && is_digit_char(#[trigger] token@[k]),
            seen_dot == exists|k: int| 0 <= k < i && #[trigger] token@[k] == '.',
            forall|k1: int, k2: int| 0 <= k1 < k2 < i
                ==> !(#[trigger] token@[k1] == '.' && #[trigger] token@[k2] == '.'),
        decreases n - i,
    {
        let c = token.get_char(i);
        if c == '.' {
            if seen_dot {
                return false;
            }
            seen_dot = true;
        } else if '0' <= c && c <= '9' {
            has_digit = true;
        } else {
            return false;
        }
        i += 1;
    }
    n > 0 && has_digit
}

/// Length of the maximal prefix of `s` made of numeric characters.
pub open spec fn run_len(s: Seq<char>) -> nat
    decreases s.len(),
{
    if s.len() == 0 || !is_numeric_char(s[0]) {
        0
    } else {
        1 + run_len(s.skip(1))
    }
}

proof fn lemma_run_len_bounds(s: Seq<char>)
    ensures
        run_len(s) <= s.len(),
        s.len() > 0 && is_numeric_char(s[0]) ==> run_len(s) >= 1,
    decreases s.len(),
{
    if s.len() > 0 && is_numeric_char(s[0]) {
        lemma_run_len_bounds(s.skip(1));
    }
}

/// The maximal numeric run is characterized by its contents and its
/// boundary: `j` numeric characters followed by the end of the input
/// or a non-numeric character.
proof fn lemma_run_len_is(s: Seq<char>, j: int)
    requires
        0 <= j <= s.len(),
        forall|k: int| 0 <= k < j ==> is_numeric_char(#[trigger] s[k]),
        j == s.len() || !is_numeric_char(s[j]),
    ensures
        run_len(s) == j,
    decreases j,
{
    if j == 0 {
    } else {
        lemma_run_len_is(s.skip(1), j - 1);
    }
}

/// The token sequence of an input text: maximal runs of digits and
/// decimal points become one numeric lexeme each (flagged by whether
/// the run is a well-formed literal), operator and parenthesis
/// characters become single-character lexemes, and every other
/// character is dropped.
///
/// Scanning maximal runs means a multi-digit literal such as `42` is
/// one token; splitting it into one token per character would also
/// satisfy the surrounding stages but misreads the literal.
pub open spec fn spec_tokenize(s: Seq<char>) -> Seq<(Seq<char>, bool)>
    decreases s.len(),
    via spec_tokenize_decreases
{
    if s.len() == 0 {
        seq![]
    } else if is_numeric_char(s[0]) {
        let n = run_len(s) as int;
        seq![(s.take(n), spec_is_number(s.take(n)))] + spec_tokenize(s.skip(n))
    } else if is_operator_char(s[0]) || is_paren_char(s[0]) {
        seq![(s.take(1), false)] + spec_tokenize(s.skip(1))
    } else {
        spec_tokenize(s.skip(1))
    }
}

#[via_fn]
proof fn spec_tokenize_decreases(s: Seq<char>) {
    lemma_run_len_bounds(s);
}

/// Splits the input into tokens, dropping whitespace and any other
/// unrecognized characters silently.
pub fn tokenize(input: &str) -> (r: Vec<Token>)
    ensures
        tokens_view(r@) == spec_tokenize(input@),
        forall|k: int| 0 <= k < r@.len()
            ==> (#[trigger] r@[k]).is_numeric == spec_is_number(r@[k].lexeme@),
{
    let n = input.unicode_len();
    let mut tokens: Vec<Token> = Vec::new();
    let mut i: usize = 0;
    proof {
        assert(input@.skip(0) =~= input@);
        assert(tokens_view(tokens@) + spec_tokenize(input@) =~= spec_tokenize(input@));
    }
    while i < n
        invariant
            n == input@.len(),
            0 <= i <= n,
            tokens_view(tokens@) + spec_tokenize(input@.skip(i as int)) == spec_tokenize(input@),
            forall|k: int| 0 <= k < tokens@.len()
                ==> (#[trigger] tokens@[k]).is_numeric == spec_is_number(tokens@[k].lexeme@),
        decreases n - i,
    {
        let ghost rest = input@.skip(i as int);
        let c = input.get_char(i);
        if ('0' <= c && c <= '9') || c == '.' {
            let mut j: usize = i + 1;
            while j < n
                invariant
                    n == input@.len(),
                    i < j <= n,
                    forall|k: int| i <= k < j ==> is_numeric_char(#[trigger] input@[k]),
                ensures
                    i < j <= n,
                    forall|k: int| i <= k < j ==> is_numeric_char(#[trigger] input@[k]),
                    j == n || !is_numeric_char(input@[j as int]),
                decreases n - j,
            {
                let d = input.get_char(j);
                if !(('0' <= d && d <= '9') || d == '.') {
                    break;
                }
                j += 1;
            }
            proof {
                assert forall|k: int| 0 <= k < j - i implies is_numeric_char(#[trigger] rest[k]) by {
                    assert(rest[k] == input@[i + k]);
                }
                lemma_run_len_is(rest, j - i);
                assert(rest.take(j - i) =~= input@.subrange(i as int, j as int));
                assert(rest.skip(j - i) =~= input@.skip(j as int));
            }
            let lexeme = input.substring_char(i, j).to_owned();
            let numeric = is_number(lexeme.as_str());
            let t = Token { lexeme, is_numeric: numeric };
            proof {
                assert(tokens_view(tokens@.push(t)) =~= tokens_view(tokens@).push(t@));
            }
            tokens.push(t);
            i = j;
        } else if c == '+' || c == '-' || c == '*' || c == '/' || c == '(' || c == ')' {
            proof {
                assert(rest.take(1) =~= input@.subrange(i as int, i + 1));
                assert(rest.skip(1) =~= input@.skip(i + 1));
            }
            let lexeme = input.substring_char(i, i + 1).to_owned();
            let numeric = is_number(lexeme.as_str());
            let t = Token { lexeme, is_numeric: numeric };
            proof {
                assert(!spec_is_number(rest.take(1)));
                assert(tokens_view(tokens@.push(t)) =~= tokens_view(tokens@).push(t@));
            }
            tokens.push(t);
            i = i + 1;
        } else {
            proof {
                assert(rest.skip(1) =~= input@.skip(i + 1));
            }
            i = i + 1;
        }
    }
    proof {
        assert(input@.skip(n as int) =~= Seq::<char>::empty());
        assert(tokens_view(tokens@) + spec_tokenize(input@.skip(n as int)) =~= tokens_view(tokens@));
    }
    tokens
}

/// Renders a lexeme in output notation; lexemes are already in
/// mathematical notation, so this is the identity on the text.
pub fn convert_to_math(token: &str) -> (r: String)
    ensures
        r@ == token@,
{
    token.to_owned()
}

} // verus!
