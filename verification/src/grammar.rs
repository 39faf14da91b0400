//! What the parser does, stated over the token sequence: each rule of the
//! grammar is a function from a position to a `Run`.
use vstd::prelude::*;

use crate::lexer::{kind_at, lex, lexeme_at, Lexeme};
use crate::message::{mismatch_message, not_factor_message};
use crate::token::C1Token;

verus! {

/// How a parsing step ends.
pub enum Run {
    /// It returns this result, and the current token is then at this position.
    Done(Result<(), Seq<char>>, int),
    /// It panics: it asks for a current token, or a lookahead, where there is none.
    Panic,
    /// It would make no progress (a loop or a recursion that stays in place).
    Stuck,
}

/// The tokens from `p` on that are left: the measure by which parsing ends.
pub open spec fn rest(t: Seq<Lexeme>, p: int) -> nat {
    if 0 <= p < t.len() {
        (t.len() - p) as nat
    } else {
        0
    }
}

/// `Result::and`: the first result if it is an error, else the second.
pub open spec fn both(a: Result<(), Seq<char>>, b: Result<(), Seq<char>>) -> Result<(), Seq<char>> {
    match a {
        Ok(_) => b,
        Err(_) => a,
    }
}

/// Checks that the current token is `k`: if so, eats it.
pub open spec fn eat_run(t: Seq<Lexeme>, p: int, k: C1Token) -> Run {
    match lexeme_at(t, p) {
        None => Run::Panic,
        Some(x) => if x.kind == k {
            Run::Done(Ok(()), p + 1)
        } else {
            Run::Done(Err(mismatch_message(x, k)), p)
        },
    }
}

/// Reports that `k` was expected at the current token.
pub open spec fn error_run(t: Seq<Lexeme>, p: int, k: C1Token) -> Run {
    match lexeme_at(t, p) {
        None => Run::Panic,
        Some(x) => Run::Done(Err(mismatch_message(x, k)), p),
    }
}

/// Runs `first`, then checks for `k`; the results are joined by `Result::and`.
pub open spec fn and_eat(t: Seq<Lexeme>, first: Run, k: C1Token) -> Run {
    match first {
        Run::Done(a, q) => match eat_run(t, q, k) {
            Run::Done(b, q2) => Run::Done(both(a, b), q2),
            other => other,
        },
        other => other,
    }
}

/// Runs `first`, then checks for `k`, keeping only the result of the check.
pub open spec fn then_eat(t: Seq<Lexeme>, first: Run, k: C1Token) -> Run {
    match first {
        Run::Done(_, q) => eat_run(t, q, k),
        other => other,
    }
}

/// A run that ends at `q`, unless no token is current there (where the parser
/// looks at the current token once more).
pub open spec fn then_current(t: Seq<Lexeme>, r: Run) -> Run {
    match r {
        Run::Done(a, q) => if 0 <= q < t.len() {
            Run::Done(a, q)
        } else {
            Run::Panic
        },
        other => other,
    }
}

pub open spec fn is_type_keyword(k: C1Token) -> bool {
    k == C1Token::KwBoolean || k == C1Token::KwFloat || k == C1Token::KwInt || k == C1Token::KwVoid
}

pub open spec fn starts_statement(k: C1Token) -> bool {
    k == C1Token::Identifier || k == C1Token::KwIf || k == C1Token::KwReturn || k
        == C1Token::KwPrintf
}

pub open spec fn is_comparison(k: C1Token) -> bool {
    k == C1Token::Equal || k == C1Token::NotEqual || k == C1Token::LessEqual || k
        == C1Token::GreaterEqual || k == C1Token::Less || k == C1Token::Greater
}

pub open spec fn is_additive(k: C1Token) -> bool {
    k == C1Token::Plus || k == C1Token::Minus || k == C1Token::Or
}

pub open spec fn is_multiplicative(k: C1Token) -> bool {
    k == C1Token::Asterisk || k == C1Token::Slash || k == C1Token::And
}

pub open spec fn is_constant(k: C1Token) -> bool {
    k == C1Token::ConstInt || k == C1Token::ConstFloat || k == C1Token::ConstBoolean
}

/// typeKw: a type keyword is eaten; anything else is reported as a mismatch
/// against itself.
pub open spec fn type_kw_run(t: Seq<Lexeme>, p: int) -> Run {
    match kind_at(t, p) {
        None => Run::Panic,
        Some(c) => if is_type_keyword(c) {
            eat_run(t, p, c)
        } else {
            error_run(t, p, c)
        },
    }
}

/// functionCall: an identifier followed by `(` and `)`.
pub open spec fn function_call_run(t: Seq<Lexeme>, p: int) -> Run {
    match kind_at(t, p) {
        None => Run::Panic,
        Some(c) => if c == C1Token::Identifier {
            match kind_at(t, p + 1) {
                None => Run::Panic,
                Some(n) => if n == C1Token::LeftParenthesis {
                    and_eat(
                        t,
                        and_eat(t, eat_run(t, p, c), C1Token::LeftParenthesis),
                        C1Token::RightParenthesis,
                    )
                } else {
                    error_run(t, p, c)
                },
            }
        } else {
            error_run(t, p, c)
        },
    }
}

/// factor: a constant, an identifier, a function call, or an assignment in
/// parentheses.
pub open spec fn factor_run(t: Seq<Lexeme>, p: int) -> Run
    decreases rest(t, p), 1nat,
{
    match kind_at(t, p) {
        None => Run::Panic,
        Some(c) => if is_constant(c) {
            eat_run(t, p, c)
        } else if c == C1Token::Identifier {
            match kind_at(t, p + 1) {
                None => Run::Panic,
                Some(n) => if n == C1Token::LeftParenthesis {
                    function_call_run(t, p)
                } else {
                    eat_run(t, p, c)
                },
            }
        } else if c == C1Token::LeftParenthesis {
            // The parenthesis is current, so it is eaten.
            then_current(
                t,
                and_eat(t, assignment_run(t, p + 1), C1Token::RightParenthesis),
            )
        } else {
            Run::Done(Err(not_factor_message()), p)
        },
    }
}

/// term: a factor, and after `*`, `/` or `&&` one more factor, whose result
/// is the term's.
pub open spec fn term_run(t: Seq<Lexeme>, p: int) -> Run
    decreases rest(t, p), 2nat,
{
    match factor_run(t, p) {
        Run::Done(a, q) => match kind_at(t, q) {
            None => Run::Panic,
            Some(op) => if is_multiplicative(op) {
                if 0 <= p <= q {
                    // The operator is eaten.
                    factor_run(t, q + 1)
                } else {
                    Run::Stuck
                }
            } else {
                Run::Done(a, q)
            },
        },
        other => other,
    }
}

/// The loop of simpexpr: while `+`, `-` or `||` is current, it is eaten and a
/// term is parsed; the result is that of the last term.
pub open spec fn simpexpr_loop_run(t: Seq<Lexeme>, a: Result<(), Seq<char>>, q: int) -> Run
    decreases rest(t, q), 3nat,
{
    match kind_at(t, q) {
        None => Run::Panic,
        Some(op) => if is_additive(op) {
            match kind_at(t, q + 1) {
                None => Run::Panic,
                Some(_) => match term_run(t, q + 1) {
                    Run::Done(b, q2) => if q < q2 {
                        simpexpr_loop_run(t, b, q2)
                    } else {
                        Run::Stuck
                    },
                    other => other,
                },
            }
        } else {
            Run::Done(a, q)
        },
    }
}

/// simpexpr: an optional leading `-`, a term, then the loop over `+`, `-`
/// and `||`.
pub open spec fn simpexpr_run(t: Seq<Lexeme>, p: int) -> Run
    decreases rest(t, p), 4nat,
{
    match kind_at(t, p) {
        None => Run::Panic,
        Some(c) => {
            let p1 = if c == C1Token::Minus {
                p + 1
            } else {
                p
            };
            match kind_at(t, p1) {
                None => Run::Panic,
                Some(_) => match term_run(t, p1) {
                    Run::Done(a, q) => if p <= q {
                        simpexpr_loop_run(t, a, q)
                    } else {
                        Run::Stuck
                    },
                    other => other,
                },
            }
        },
    }
}

/// expr: a simpexpr, and after a comparison operator one more simpexpr,
/// whose result is the expr's.
pub open spec fn expr_run(t: Seq<Lexeme>, p: int) -> Run
    decreases rest(t, p), 5nat,
{
    match kind_at(t, p) {
        None => Run::Panic,
        Some(_) => match simpexpr_run(t, p) {
            Run::Done(a, q) => match kind_at(t, q) {
                None => Run::Panic,
                Some(op) => if is_comparison(op) {
                    if p <= q {
                        // The operator is eaten.
                        match kind_at(t, q + 1) {
                            None => Run::Panic,
                            Some(_) => then_current(t, simpexpr_run(t, q + 1)),
                        }
                    } else {
                        Run::Stuck
                    }
                } else {
                    Run::Done(a, q)
                },
            },
            other => other,
        },
    }
}

/// assignment: `identifier = assignment`, or an expr.
pub open spec fn assignment_run(t: Seq<Lexeme>, p: int) -> Run
    decreases rest(t, p), 6nat,
{
    match kind_at(t, p) {
        None => Run::Panic,
        Some(c) => if c == C1Token::Identifier {
            match kind_at(t, p + 1) {
                None => Run::Panic,
                Some(n) => if n == C1Token::Assign {
                    // The identifier and `=` are eaten.
                    assignment_run(t, p + 2)
                } else {
                    then_current(t, expr_run(t, p))
                },
            }
        } else {
            then_current(t, expr_run(t, p))
        },
    }
}

/// statassignment: an identifier, `=` and an assignment.
pub open spec fn stat_assignment_run(t: Seq<Lexeme>, p: int) -> Run
    decreases rest(t, p), 7nat,
{
    match kind_at(t, p) {
        None => Run::Panic,
        Some(_) => match and_eat(t, eat_run(t, p, C1Token::Identifier), C1Token::Assign) {
            Run::Done(a, q) => match assignment_run(t, q) {
                Run::Done(b, q2) => then_current(t, Run::Done(both(a, b), q2)),
                other => other,
            },
            other => other,
        },
    }
}

/// A statement assignment followed by `;`; the `;` is checked only after a
/// successful assignment.
pub open spec fn call_statassign_run(t: Seq<Lexeme>, p: int) -> Run
    decreases rest(t, p), 8nat,
{
    match kind_at(t, p + 1) {
        None => Run::Panic,
        Some(_) => match then_current(t, stat_assignment_run(t, p)) {
            Run::Done(a, q) => match a {
                Err(e) => Run::Done(Err(e), q),
                Ok(_) => eat_run(t, q, C1Token::Semicolon),
            },
            other => other,
        },
    }
}

/// printf: `printf ( assignment )`; the result is that of the assignment and
/// the closing parenthesis.
pub open spec fn printf_run(t: Seq<Lexeme>, p: int) -> Run
    decreases rest(t, p), 7nat,
{
    match then_eat(t, eat_run(t, p, C1Token::KwPrintf), C1Token::LeftParenthesis) {
        Run::Done(_, q) => then_current(
            t,
            and_eat(t, assignment_run(t, q), C1Token::RightParenthesis),
        ),
        other => other,
    }
}

/// returnstatement: `return`, then `;` after a successful assignment; the
/// result is that of the `;`, or else that of the `return`.
pub open spec fn return_statement_run(t: Seq<Lexeme>, p: int) -> Run
    decreases rest(t, p), 7nat,
{
    match eat_run(t, p, C1Token::KwReturn) {
        Run::Done(a, q) => match assignment_run(t, q) {
            Run::Done(b, q2) => if b is Ok {
                eat_run(t, q2, C1Token::Semicolon)
            } else {
                Run::Done(a, q2)
            },
            other => other,
        },
        other => other,
    }
}

/// ifstatement: `if ( assignment ) block`; the result is that of the `)` and
/// the block.
pub open spec fn if_statement_run(t: Seq<Lexeme>, p: int) -> Run
    decreases rest(t, p), 7nat,
{
    match then_eat(t, eat_run(t, p, C1Token::KwIf), C1Token::LeftParenthesis) {
        Run::Done(_, q) => match then_current(t, assignment_run(t, q)) {
            Run::Done(_, q2) => match eat_run(t, q2, C1Token::RightParenthesis) {
                Run::Done(a, q3) => match kind_at(t, q3) {
                    None => Run::Panic,
                    Some(k) => if p < q3 {
                        match block_run(t, q3, k) {
                            Run::Done(b, q4) => then_current(t, Run::Done(both(a, b), q4)),
                            other => other,
                        }
                    } else {
                        Run::Stuck
                    },
                },
                other => other,
            },
            other => other,
        },
        other => other,
    }
}

/// statement: chosen by the current token.
pub open spec fn statement_run(t: Seq<Lexeme>, p: int) -> Run
    decreases rest(t, p), 9nat,
{
    match kind_at(t, p) {
        None => Run::Panic,
        Some(c) => if c == C1Token::KwIf {
            if_statement_run(t, p)
        } else if c == C1Token::KwReturn {
            return_statement_run(t, p)
        } else if c == C1Token::KwPrintf {
            and_eat(t, printf_run(t, p), C1Token::Semicolon)
        } else if c == C1Token::Identifier {
            match kind_at(t, p + 1) {
                None => Run::Panic,
                Some(n) => if n == C1Token::Assign {
                    call_statassign_run(t, p)
                } else if n == C1Token::LeftParenthesis {
                    and_eat(t, function_call_run(t, p), C1Token::Semicolon)
                } else {
                    and_eat(t, error_run(t, p, c), C1Token::Semicolon)
                },
            }
        } else {
            error_run(t, p, c)
        },
    }
}

pub open spec fn block_rank(k: C1Token) -> nat {
    if k == C1Token::LeftBrace {
        12
    } else {
        10
    }
}

/// block, given the token `k` that the caller saw: for `{`, a braced
/// statement list whose result is that of the `}`; for a token that starts a
/// statement, the statement at the current token; else a mismatch against `k`.
pub open spec fn block_run(t: Seq<Lexeme>, p: int, k: C1Token) -> Run
    decreases rest(t, p), block_rank(k),
{
    match kind_at(t, p) {
        None => Run::Panic,
        Some(c) => if k == C1Token::LeftBrace {
            match eat_run(t, p, C1Token::LeftBrace) {
                Run::Done(_, q) => match kind_at(t, q) {
                    None => Run::Panic,
                    Some(k2) => match statementlist_run(t, q, k2) {
                        Run::Done(_, q2) => eat_run(t, q2, C1Token::RightBrace),
                        other => other,
                    },
                },
                other => other,
            }
        } else if starts_statement(k) {
            statement_run(t, p)
        } else {
            error_run(t, p, k)
        },
    }
}

/// statementlist, given the token `k` that the caller saw: blocks for `k`
/// until one fails; its error is the result.
pub open spec fn statementlist_run(t: Seq<Lexeme>, p: int, k: C1Token) -> Run
    decreases rest(t, p), block_rank(k) + 1,
{
    match kind_at(t, p) {
        None => Run::Panic,
        Some(_) => match block_run(t, p, k) {
            Run::Done(a, q) => match a {
                Ok(_) => if p < q {
                    statementlist_run(t, q, k)
                } else {
                    Run::Stuck
                },
                Err(e) => Run::Done(Err(e), q),
            },
            other => other,
        },
    }
}

/// functiondefinition: a type keyword, an identifier, `(`, `)`, `{`, a
/// statement list, `}`; the result is that of the `}`.
pub open spec fn function_definition_run(t: Seq<Lexeme>, p: int) -> Run {
    let head = then_eat(
        t,
        then_eat(
            t,
            then_eat(
                t,
                then_eat(t, type_kw_run(t, p), C1Token::Identifier),
                C1Token::LeftParenthesis,
            ),
            C1Token::RightParenthesis,
        ),
        C1Token::LeftBrace,
    );
    match head {
        Run::Done(_, q) => match kind_at(t, q) {
            None => Run::Panic,
            Some(k) => then_eat(t, statementlist_run(t, q, k), C1Token::RightBrace),
        },
        other => other,
    }
}

/// program: function definitions while a token is current, until one fails;
/// the result is that of the last one (`last` before the first).
pub open spec fn program_run(t: Seq<Lexeme>, p: int, last: Result<(), Seq<char>>) -> Run
    decreases rest(t, p),
{
    match kind_at(t, p) {
        None => Run::Done(last, p),
        Some(_) => match function_definition_run(t, p) {
            Run::Done(a, q) => match a {
                Ok(_) => if p < q {
                    program_run(t, q, Ok(()))
                } else {
                    Run::Stuck
                },
                Err(e) => Run::Done(Err(e), q),
            },
            other => other,
        },
    }
}

/// How parsing a source text ends: it panics where the text has no token.
pub open spec fn parse_run(text: Seq<char>) -> Run {
    let t = lex(text);
    if t.len() == 0 {
        Run::Panic
    } else {
        program_run(t, 0, Ok(()))
    }
}

} // verus!
