//! Infix-to-postfix conversion by the shunting-yard algorithm.

use vstd::prelude::*;
use vstd::string::StrSliceExecFns;

use crate::errors::ExprError;
use crate::operator::Operator;
use crate::operator::is_operator;
use crate::operator::operator_from_str;
use crate::operator::spec_is_operator;
use crate::operator::spec_operator_of;
use crate::token::Token;
use crate::token::is_number;
use crate::token::spec_is_number;
use crate::token::tokens_view;

verus! {

/// The character sequences of a sequence of owned lexemes.
pub open spec fn lexemes_of(v: Seq<String>) -> Seq<Seq<char>> {
    v.map_values(|s: String| s@)
}

/// An opening parenthesis lexeme.
pub open spec fn is_open_paren(s: Seq<char>) -> bool {
    s.len() == 1 && s[0] == '('
}

/// A closing parenthesis lexeme.
pub open spec fn is_close_paren(s: Seq<char>) -> bool {
    s.len() == 1 && s[0] == ')'
}

/// Priority of an operator lexeme; 0 for anything else.
pub open spec fn lex_priority(s: Seq<char>) -> u8 {
    match spec_operator_of(s) {
        Some(op) => op.spec_prioriter(),
        None => 0,
    }
}

/// Splits the operator stack at an incoming operator of priority `p`:
/// the operators popped to the output, in order of emission, and the
/// stack that remains. Operators of priority >= `p` are popped, so of
/// two operators of equal priority the earlier-stacked one is emitted
/// first: left-associativity.
pub open spec fn spec_pop_ge(stack: Seq<Seq<char>>, p: u8) -> (Seq<Seq<char>>, Seq<Seq<char>>)
    decreases stack.len(),
{
    if stack.len() == 0 {
        (seq![], stack)
    } else if spec_is_operator(stack.last()) && lex_priority(stack.last()) >= p {
        let rec = spec_pop_ge(stack.drop_last(), p);
        (seq![stack.last()] + rec.0, rec.1)
    } else {
        (seq![], stack)
    }
}

/// Splits the operator stack at a closing parenthesis: the lexemes
/// popped to the output, in order of emission, and the stack that
/// remains once the matching `(` is discarded; `None` when the stack
/// holds no `(`.
pub open spec fn spec_pop_until_paren(stack: Seq<Seq<char>>) -> Option<(Seq<Seq<char>>, Seq<Seq<char>>)>
    decreases stack.len(),
{
    if stack.len() == 0 {
        None
    } else if is_open_paren(stack.last()) {
        Some((seq![], stack.drop_last()))
    } else {
        match spec_pop_until_paren(stack.drop_last()) {
            None => None,
            Some(rec) => Some((seq![stack.last()] + rec.0, rec.1)),
        }
    }
}

/// The output once the whole remaining stack is popped onto it, top
/// first.
pub open spec fn spec_drain(stack: Seq<Seq<char>>, out: Seq<Seq<char>>) -> Seq<Seq<char>>
    decreases stack.len(),
{
    if stack.len() == 0 {
        out
    } else {
        spec_drain(stack.drop_last(), out.push(stack.last()))
    }
}

/// One left-to-right pass of the shunting-yard algorithm from token
/// `i` onward, given the output and operator stack built so far:
/// numeric lexemes go to the output, operators pop stacked operators
/// of no lower priority first, `(` is stacked, `)` pops to the
/// matching `(` (`None` when there is none), and any other lexeme is
/// ignored; at the end of input the stack is drained to the output.
pub open spec fn spec_shunt_from(
    ts: Seq<(Seq<char>, bool)>,
    i: int,
    stack: Seq<Seq<char>>,
    out: Seq<Seq<char>>,
) -> Option<Seq<Seq<char>>>
    decreases ts.len() - i,
{
    if i < 0 || i >= ts.len() {
        Some(spec_drain(stack, out))
    } else {
        let lex = ts[i].0;
        if spec_is_number(lex) {
            spec_shunt_from(ts, i + 1, stack, out.push(lex))
        } else if spec_is_operator(lex) {
            let pops = spec_pop_ge(stack, lex_priority(lex));
            spec_shunt_from(ts, i + 1, pops.1.push(lex), out + pops.0)
        } else if is_open_paren(lex) {
            spec_shunt_from(ts, i + 1, stack.push(lex), out)
        } else if is_close_paren(lex) {
            match spec_pop_until_paren(stack) {
                None => None,
                Some(pops) => spec_shunt_from(ts, i + 1, pops.1, out + pops.0),
            }
        } else {
            spec_shunt_from(ts, i + 1, stack, out)
        }
    }
}

/// The postfix lexeme sequence of a token sequence, or `None` when a
/// closing parenthesis finds no matching `(`.
pub open spec fn spec_to_postfix(ts: Seq<(Seq<char>, bool)>) -> Option<Seq<Seq<char>>> {
    spec_shunt_from(ts, 0, seq![], seq![])
}

proof fn lemma_lexemes_push(v: Seq<String>, s: String)
    ensures
        lexemes_of(v.push(s)) == lexemes_of(v).push(s@),
{
    assert(lexemes_of(v.push(s)) =~= lexemes_of(v).push(s@));
}

proof fn lemma_lexemes_drop_last(v: Seq<String>)
    requires
        v.len() > 0,
    ensures
        lexemes_of(v.drop_last()) == lexemes_of(v).drop_last(),
        lexemes_of(v).last() == v.last()@,
{
    assert(lexemes_of(v.drop_last()) =~= lexemes_of(v).drop_last());
}

/// Converts a validated token sequence to postfix (Reverse Polish)
/// order. Fails exactly when a closing parenthesis has no matching
/// opening parenthesis on the operator stack.
pub fn infix_to_postfix(tokens: &Vec<Token>) -> (r: Result<Vec<String>, ExprError>)
    ensures
        ({
            let res = spec_to_postfix(tokens_view(tokens@));
            match r {
                Ok(v) => res == Some(lexemes_of(v@)),
                Err(e) => res is None && e == ExprError::UnmatchedParenthesisError,
            }
        }),
{
    let ghost m = tokens_view(tokens@);
    let mut output: Vec<String> = Vec::new();
    let mut stack: Vec<String> = Vec::new();
    let mut i: usize = 0;
    proof {
        assert(lexemes_of(output@) =~= Seq::<Seq<char>>::empty());
        assert(lexemes_of(stack@) =~= Seq::<Seq<char>>::empty());
    }
    while i < tokens.len()
        invariant
            m == tokens_view(tokens@),
            0 <= i <= tokens@.len(),
            spec_shunt_from(m, i as int, lexemes_of(stack@), lexemes_of(output@))
                == spec_to_postfix(m),
        decreases tokens@.len() - i,
    {
        let t = &tokens[i];
        let lex = t.lexeme.as_str();
        let ghost stack0 = lexemes_of(stack@);
        let ghost out0 = lexemes_of(output@);
        if is_number(lex) {
            proof {
                lemma_lexemes_push(output@, t.lexeme);
            }
            output.push(t.lexeme.clone());
        } else if is_operator(lex) {
            let p = operator_from_str(lex).unwrap().prioriter();
            while stack.len() > 0
                invariant
                    m == tokens_view(tokens@),
                    (i as int) < m.len(),
                    p == lex_priority(m[i as int].0),
                    spec_pop_ge(stack0, p).1 == spec_pop_ge(lexemes_of(stack@), p).1,
                    out0 + spec_pop_ge(stack0, p).0
                        == lexemes_of(output@) + spec_pop_ge(lexemes_of(stack@), p).0,
                ensures
                    spec_pop_ge(lexemes_of(stack@), p) == (Seq::<Seq<char>>::empty(), lexemes_of(stack@)),
                    spec_pop_ge(stack0, p).1 == lexemes_of(stack@),
                    out0 + spec_pop_ge(stack0, p).0 == lexemes_of(output@),
                decreases stack@.len(),
            {
                let top_is_op = is_operator(stack[stack.len() - 1].as_str());
                let mut pop_now = false;
                if top_is_op {
                    let tp = operator_from_str(stack[stack.len() - 1].as_str()).unwrap().prioriter();
                    pop_now = tp >= p;
                }
                if pop_now {
                    proof {
                        lemma_lexemes_drop_last(stack@);
                    }
                    let s = stack.pop().unwrap();
                    proof {
                        lemma_lexemes_push(output@, s);
                        assert(out0 + spec_pop_ge(stack0, p).0
                            =~= lexemes_of(output@).push(s@) + spec_pop_ge(lexemes_of(stack@), p).0);
                    }
                    output.push(s);
                } else {
                    proof {
                        lemma_lexemes_drop_last(stack@);
                        assert(out0 + spec_pop_ge(stack0, p).0 =~= lexemes_of(output@));
                    }
                    break;
                }
            }
            proof {
                lemma_lexemes_push(stack@, t.lexeme);
            }
            stack.push(t.lexeme.clone());
        } else if lex.unicode_len() == 1 && lex.get_char(0) == '(' {
            proof {
                lemma_lexemes_push(stack@, t.lexeme);
            }
            stack.push(t.lexeme.clone());
        } else if lex.unicode_len() == 1 && lex.get_char(0) == ')' {
            let mut found = false;
            while stack.len() > 0
                invariant_except_break
                    !found,
                    (spec_pop_until_paren(stack0) is None
                        <==> spec_pop_until_paren(lexemes_of(stack@)) is None),
                    (match spec_pop_until_paren(stack0) {
                        None => true,
                        Some(p0) => match spec_pop_until_paren(lexemes_of(stack@)) {
                            None => false,
                            Some(pc) => p0.1 == pc.1 && out0 + p0.0 == lexemes_of(output@) + pc.0,
                        },
                    }),
                invariant
                    m == tokens_view(tokens@),
                ensures
                    found ==> (match spec_pop_until_paren(stack0) {
                        None => false,
                        Some(p0) => p0.1 == lexemes_of(stack@) && out0 + p0.0 == lexemes_of(output@),
                    }),
                    !found ==> stack@.len() == 0 && spec_pop_until_paren(stack0) is None,
                decreases stack@.len(),
            {
                let top = &stack[stack.len() - 1];
                if top.as_str().unicode_len() == 1 && top.as_str().get_char(0) == '(' {
                    proof {
                        lemma_lexemes_drop_last(stack@);
                        match spec_pop_until_paren(stack0) {
                            Some(p0) => {
                                assert(out0 + p0.0 =~= lexemes_of(output@));
                            },
                            None => {},
                        }
                    }
                    let _ = stack.pop();
                    found = true;
                    break;
                } else {
                    proof {
                        lemma_lexemes_drop_last(stack@);
                    }
                    let s = stack.pop().unwrap();
                    proof {
                        lemma_lexemes_push(output@, s);
                        match spec_pop_until_paren(stack0) {
                            Some(p0) => {
                                match spec_pop_until_paren(lexemes_of(stack@)) {
                                    Some(pc) => {
                                        assert(out0 + p0.0
                                            =~= lexemes_of(output@).push(s@) + pc.0);
                                    },
                                    None => {},
                                }
                            },
                            None => {},
                        }
                    }
                    output.push(s);
                }
            }
            if !found {
                return Err(ExprError::UnmatchedParenthesisError);
            }
        } else {
            // a lexeme that is neither numeric, operator nor
            // parenthesis takes no part in the conversion
        }
        i += 1;
    }
    while stack.len() > 0
        invariant
            spec_shunt_from(m, m.len() as int, lexemes_of(stack@), lexemes_of(output@))
                == spec_to_postfix(m),
        decreases stack@.len(),
    {
        proof {
            lemma_lexemes_drop_last(stack@);
        }
        let s = stack.pop().unwrap();
        proof {
            lemma_lexemes_push(output@, s);
        }
        output.push(s);
    }
    Ok(output)
}

} // verus!
