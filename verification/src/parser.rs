//! A recursive-descent parser for C1 programs. Each rule of the grammar is a
//! method; its contract says that it ends as the rule's `Run` in `grammar`
//! says, where `None` stands for the places where the parser would panic.
use vstd::prelude::*;

use crate::grammar::{
    assignment_run, block_rank, block_run, both, call_statassign_run, error_run, eat_run,
    expr_run, factor_run, function_call_run, function_definition_run, if_statement_run,
    parse_run, printf_run, program_run, rest, return_statement_run, simpexpr_loop_run,
    simpexpr_run, stat_assignment_run, statement_run, statementlist_run, term_run, then_current,
    type_kw_run, Run,
};
use crate::lexer::{kind_at, lexeme_at, C1Lexer, Lexeme};
use crate::message::{mismatch_text, not_factor_text};
use crate::token::C1Token;

verus! {

/// The result of parsing: `Ok` or an error message.
pub type ParseResult = Result<(), String>;

/// A parse result with its message as a sequence of characters.
pub open spec fn result_view(r: ParseResult) -> Result<(), Seq<char>> {
    match r {
        Ok(_) => Ok(()),
        Err(e) => Err(e@),
    }
}

/// The run that a step with this outcome stands for: `None` where it panics,
/// else its result and the position it ends at.
pub open spec fn outcome(r: Option<ParseResult>, q: int) -> Run {
    match r {
        None => Run::Panic,
        Some(res) => Run::Done(result_view(res), q),
    }
}

/// A parser over the tokens of one source text.
pub struct C1Parser {
    lexer: C1Lexer,
}

/// A step of the parser from `before` to `after` with outcome `r` ran as
/// `expected` says; it kept the tokens, did not move back, and, where it
/// succeeded, ate at least one token.
pub open spec fn follows(before: C1Parser, after: C1Parser, r: Option<ParseResult>, expected: Run) -> bool {
    &&& after.tokens() == before.tokens()
    &&& outcome(r, after.at()) == expected
    &&& r is Some ==> before.at() <= after.at()
    &&& r matches Some(Ok(_)) ==> before.at() < after.at()
}

fn and_results(a: ParseResult, b: ParseResult) -> (r: ParseResult)
    ensures
        result_view(r) == both(result_view(a), result_view(b)),
{
    match a {
        Ok(_) => b,
        Err(e) => Err(e),
    }
}

impl C1Parser {
    /// The tokens of the text.
    pub closed spec fn tokens(self) -> Seq<Lexeme> {
        self.lexer.lexemes()
    }

    /// The position of the current token.
    pub closed spec fn at(self) -> int {
        self.lexer.position() as int
    }

    /// Parses a C1 program. The inputs on which parsing panics (see `try_parse`)
    /// are left out.
    pub fn parse(text: &str) -> (r: ParseResult)
        requires
            text@.len() < usize::MAX,
            !(parse_run(text@) is Panic),
        ensures
            parse_run(text@) matches Run::Done(v, _) && v == result_view(r),
    {
        Self::try_parse(text).unwrap()
    }

    /// Parses a C1 program: `None` exactly where parsing panics, else the
    /// result of `parse`.
    pub fn try_parse(text: &str) -> (r: Option<ParseResult>)
        requires
            text@.len() < usize::MAX,
        ensures
            !(parse_run(text@) is Stuck),
            match r {
                None => parse_run(text@) is Panic,
                Some(v) => parse_run(text@) matches Run::Done(w, _) && w == result_view(v),
            },
    {
        let mut parser = C1Parser { lexer: C1Lexer::new(text) };
        let token = parser.lexer.current_token()?;
        parser.program(token)
    }

    /// Checks that the current token is `token`: if so, eats it and returns
    /// `Ok`; else returns the mismatch and stays.
    pub fn check_and_eat_token(&mut self, token: C1Token) -> (r: ParseResult)
        requires
            lexeme_at(old(self).tokens(), old(self).at()) is Some,
        ensures
            final(self).tokens() == old(self).tokens(),
            outcome(Some(r), final(self).at()) == eat_run(old(self).tokens(), old(self).at(), token),
    {
        if self.current_matches(token) {
            self.eat();
            Ok(())
        } else {
            self.error_message(token)
        }
    }

    /// The kind of the current token.
    pub fn current_token(&self) -> (r: C1Token)
        requires
            kind_at(self.tokens(), self.at()) is Some,
        ensures
            kind_at(self.tokens(), self.at()) == Some(r),
    {
        self.lexer.current_token().unwrap()
    }

    /// Eats the current token: the lookahead becomes current.
    pub fn eat(&mut self)
        ensures
            final(self).tokens() == old(self).tokens(),
            final(self).at() == if old(self).at() < old(self).tokens().len() {
                old(self).at() + 1
            } else {
                old(self).at()
            },
    {
        self.lexer.eat();
    }

    /// Whether the current token is `token`.
    pub fn current_matches(&self, token: C1Token) -> (r: bool)
        requires
            kind_at(self.tokens(), self.at()) is Some,
        ensures
            r == (kind_at(self.tokens(), self.at()) == Some(token)),
    {
        let current = self.lexer.current_token().unwrap();
        current == token
    }

    /// Whether the token after the current one is `token`.
    pub fn next_matches(&self, token: C1Token) -> (r: bool)
        requires
            kind_at(self.tokens(), self.at() + 1) is Some,
        ensures
            r == (kind_at(self.tokens(), self.at() + 1) == Some(token)),
    {
        let next = self.lexer.peek_token().unwrap();
        next == token
    }

    /// The mismatch of `token` against the current token, as an error.
    pub fn error_message(&mut self, token: C1Token) -> (r: ParseResult)
        requires
            lexeme_at(old(self).tokens(), old(self).at()) is Some,
        ensures
            *final(self) == *old(self),
            outcome(Some(r), final(self).at()) == error_run(old(self).tokens(), old(self).at(), token),
    {
        let line = self.lexer.current_line_number().unwrap();
        let text = self.lexer.current_text().unwrap();
        let found = self.lexer.current_token().unwrap();
        Err(mismatch_text(line, text, token, found))
    }

    /// `check_and_eat_token`, or `None` where no token is current.
    fn eat_checked(&mut self, token: C1Token) -> (r: Option<ParseResult>)
        ensures
            follows(*old(self), *final(self), r, eat_run(old(self).tokens(), old(self).at(), token)),
    {
        if self.lexer.current_token().is_none() {
            return None;
        }
        Some(self.check_and_eat_token(token))
    }

    /// `r`, or `None` where no token is current.
    fn then_current_checked(&self, r: ParseResult) -> (o: Option<ParseResult>)
        ensures
            outcome(o, self.at()) == then_current(self.tokens(), outcome(Some(r), self.at())),
    {
        if self.lexer.current_token().is_none() {
            None
        } else {
            Some(r)
        }
    }

    fn program(&mut self, token: C1Token) -> (r: Option<ParseResult>)
        ensures
            final(self).tokens() == old(self).tokens(),
            outcome(r, final(self).at()) == program_run(old(self).tokens(), old(self).at(), Ok(())),
    {
        let ghost t = self.tokens();
        let ghost p0 = self.at();
        let mut res: ParseResult = Ok(());
        loop
            invariant
                t == old(self).tokens(),
                p0 == old(self).at(),
                self.tokens() == t,
                program_run(t, p0, Ok(())) == program_run(t, self.at(), result_view(res)),
            decreases rest(t, self.at()),
        {
            if self.lexer.current_token().is_none() {
                return Some(res);
            }
            let current = self.current_token();
            match self.function_definition(current) {
                None => {
                    return None;
                },
                Some(Err(e)) => {
                    return Some(Err(e));
                },
                Some(Ok(())) => {
                    res = Ok(());
                },
            }
        }
    }

    fn function_definition(&mut self, token: C1Token) -> (r: Option<ParseResult>)
        requires
            kind_at(old(self).tokens(), old(self).at()) == Some(token),
        ensures
            follows(
                *old(self),
                *final(self),
                r,
                function_definition_run(old(self).tokens(), old(self).at()),
            ),
    {
        self.type_kw(token)?;
        self.eat_checked(C1Token::Identifier)?;
        self.eat_checked(C1Token::LeftParenthesis)?;
        self.eat_checked(C1Token::RightParenthesis)?;
        self.eat_checked(C1Token::LeftBrace)?;
        let current = self.lexer.current_token()?;
        self.statementlist(current)?;
        self.eat_checked(C1Token::RightBrace)
    }

    fn type_kw(&mut self, token: C1Token) -> (r: Option<ParseResult>)
        requires
            kind_at(old(self).tokens(), old(self).at()) == Some(token),
        ensures
            follows(*old(self), *final(self), r, type_kw_run(old(self).tokens(), old(self).at())),
    {
        if token == C1Token::KwBoolean || token == C1Token::KwFloat || token == C1Token::KwInt
            || token == C1Token::KwVoid {
            Some(self.check_and_eat_token(token))
        } else {
            Some(self.error_message(token))
        }
    }

    fn statementlist(&mut self, token: C1Token) -> (r: Option<ParseResult>)
        ensures
            follows(
                *old(self),
                *final(self),
                r,
                statementlist_run(old(self).tokens(), old(self).at(), token),
            ),
        decreases rest(old(self).tokens(), old(self).at()), block_rank(token) + 1,
    {
        let ghost t = self.tokens();
        let ghost p0 = self.at();
        if self.lexer.current_token().is_none() {
            return None;
        }
        loop
            invariant
                t == old(self).tokens(),
                p0 == old(self).at(),
                self.tokens() == t,
                p0 <= self.at(),
                statementlist_run(t, p0, token) == statementlist_run(t, self.at(), token),
            decreases rest(t, self.at()),
        {
            match self.block(token) {
                None => {
                    return None;
                },
                Some(Err(e)) => {
                    return Some(Err(e));
                },
                Some(Ok(())) => {},
            }
        }
    }

    fn block(&mut self, token: C1Token) -> (r: Option<ParseResult>)
        ensures
            follows(
                *old(self),
                *final(self),
                r,
                block_run(old(self).tokens(), old(self).at(), token),
            ),
        decreases rest(old(self).tokens(), old(self).at()), block_rank(token),
    {
        let current = self.lexer.current_token()?;
        if token == C1Token::LeftBrace {
            self.eat_checked(C1Token::LeftBrace)?;
            let current = self.lexer.current_token()?;
            self.statementlist(current)?;
            self.eat_checked(C1Token::RightBrace)
        } else if token == C1Token::Identifier || token == C1Token::KwIf || token
            == C1Token::KwReturn || token == C1Token::KwPrintf {
            self.statement(current)
        } else {
            Some(self.error_message(token))
        }
    }

    fn statement(&mut self, token: C1Token) -> (r: Option<ParseResult>)
        requires
            kind_at(old(self).tokens(), old(self).at()) == Some(token),
        ensures
            follows(*old(self), *final(self), r, statement_run(old(self).tokens(), old(self).at())),
        decreases rest(old(self).tokens(), old(self).at()), 9nat,
    {
        if token == C1Token::KwIf {
            self.if_statement(token)
        } else if token == C1Token::KwReturn {
            self.return_statement(token)
        } else if token == C1Token::KwPrintf {
            let a = self.printf(token)?;
            let b = self.eat_checked(C1Token::Semicolon)?;
            Some(and_results(a, b))
        } else if token == C1Token::Identifier {
            if self.lexer.peek_token().is_none() {
                return None;
            }
            if self.next_matches(C1Token::Assign) {
                self.call_statassign(token)
            } else if self.next_matches(C1Token::LeftParenthesis) {
                let a = self.function_call(token)?;
                let b = self.eat_checked(C1Token::Semicolon)?;
                Some(and_results(a, b))
            } else {
                let a = self.error_message(token);
                let b = self.eat_checked(C1Token::Semicolon)?;
                Some(and_results(a, b))
            }
        } else {
            Some(self.error_message(token))
        }
    }

    fn call_statassign(&mut self, token: C1Token) -> (r: Option<ParseResult>)
        requires
            kind_at(old(self).tokens(), old(self).at()) == Some(token),
            token == C1Token::Identifier,
        ensures
            follows(
                *old(self),
                *final(self),
                r,
                call_statassign_run(old(self).tokens(), old(self).at()),
            ),
        decreases rest(old(self).tokens(), old(self).at()), 8nat,
    {
        self.lexer.peek_token()?;
        let res = self.stat_assignment(token)?;
        let res = self.then_current_checked(res)?;
        match res {
            Err(e) => Some(Err(e)),
            Ok(()) => self.eat_checked(C1Token::Semicolon),
        }
    }

    fn if_statement(&mut self, token: C1Token) -> (r: Option<ParseResult>)
        requires
            kind_at(old(self).tokens(), old(self).at()) == Some(token),
            token == C1Token::KwIf,
        ensures
            follows(*old(self), *final(self), r, if_statement_run(old(self).tokens(), old(self).at())),
        decreases rest(old(self).tokens(), old(self).at()), 7nat,
    {
        self.eat_checked(C1Token::KwIf)?;
        self.eat_checked(C1Token::LeftParenthesis)?;
        let current = self.lexer.current_token()?;
        let res = self.assignment(current)?;
        self.then_current_checked(res)?;
        let a = self.eat_checked(C1Token::RightParenthesis)?;
        let current = self.lexer.current_token()?;
        let b = self.block(current)?;
        self.then_current_checked(and_results(a, b))
    }

    fn return_statement(&mut self, token: C1Token) -> (r: Option<ParseResult>)
        requires
            kind_at(old(self).tokens(), old(self).at()) == Some(token),
            token == C1Token::KwReturn,
        ensures
            follows(
                *old(self),
                *final(self),
                r,
                return_statement_run(old(self).tokens(), old(self).at()),
            ),
        decreases rest(old(self).tokens(), old(self).at()), 7nat,
    {
        let intermediate_result = self.eat_checked(C1Token::KwReturn)?;
        let current = self.lexer.current_token()?;
        let assigned = self.assignment(current)?;
        if assigned.is_ok() {
            self.eat_checked(C1Token::Semicolon)
        } else {
            Some(intermediate_result)
        }
    }

    fn printf(&mut self, token: C1Token) -> (r: Option<ParseResult>)
        requires
            kind_at(old(self).tokens(), old(self).at()) == Some(token),
            token == C1Token::KwPrintf,
        ensures
            follows(*old(self), *final(self), r, printf_run(old(self).tokens(), old(self).at())),
        decreases rest(old(self).tokens(), old(self).at()), 7nat,
    {
        self.eat_checked(C1Token::KwPrintf)?;
        self.eat_checked(C1Token::LeftParenthesis)?;
        let current = self.lexer.current_token()?;
        let a = self.assignment(current)?;
        let b = self.eat_checked(C1Token::RightParenthesis)?;
        self.then_current_checked(and_results(a, b))
    }

    fn stat_assignment(&mut self, token: C1Token) -> (r: Option<ParseResult>)
        requires
            kind_at(old(self).tokens(), old(self).at()) == Some(token),
            token == C1Token::Identifier,
        ensures
            follows(
                *old(self),
                *final(self),
                r,
                stat_assignment_run(old(self).tokens(), old(self).at()),
            ),
        decreases rest(old(self).tokens(), old(self).at()), 7nat,
    {
        let a1 = self.eat_checked(C1Token::Identifier)?;
        let a2 = self.eat_checked(C1Token::Assign)?;
        let current = self.lexer.current_token()?;
        let a3 = self.assignment(current)?;
        self.then_current_checked(and_results(and_results(a1, a2), a3))
    }

    fn assignment(&mut self, token: C1Token) -> (r: Option<ParseResult>)
        requires
            kind_at(old(self).tokens(), old(self).at()) == Some(token),
        ensures
            follows(*old(self), *final(self), r, assignment_run(old(self).tokens(), old(self).at())),
        decreases rest(old(self).tokens(), old(self).at()), 6nat,
    {
        if token == C1Token::Identifier {
            self.lexer.peek_token()?;
            if self.next_matches(C1Token::Assign) {
                let a1 = self.check_and_eat_token(token);
                let a2 = self.eat_checked(C1Token::Assign)?;
                proof {
                    assert(kind_at(self.tokens(), self.at()) is None ==> assignment_run(
                        self.tokens(),
                        self.at(),
                    ) is Panic);
                }
                let current = self.lexer.current_token()?;
                let a3 = self.assignment(current)?;
                return Some(and_results(and_results(a1, a2), a3));
            }
        }
        let res = self.expr(token)?;
        self.then_current_checked(res)
    }

    fn expr(&mut self, token: C1Token) -> (r: Option<ParseResult>)
        requires
            kind_at(old(self).tokens(), old(self).at()) == Some(token),
        ensures
            follows(*old(self), *final(self), r, expr_run(old(self).tokens(), old(self).at())),
        decreases rest(old(self).tokens(), old(self).at()), 5nat,
    {
        let result = self.simpexpr(token)?;
        let current = self.lexer.current_token()?;
        if self.current_matches(C1Token::Equal) || self.current_matches(C1Token::NotEqual)
            || self.current_matches(C1Token::LessEqual) || self.current_matches(
            C1Token::GreaterEqual,
        ) || self.current_matches(C1Token::Less) || self.current_matches(C1Token::Greater) {
            let _ = self.check_and_eat_token(current);
            let current = self.lexer.current_token()?;
            let res = self.simpexpr(current)?;
            self.then_current_checked(res)
        } else {
            Some(result)
        }
    }

    fn simpexpr(&mut self, token: C1Token) -> (r: Option<ParseResult>)
        requires
            kind_at(old(self).tokens(), old(self).at()) == Some(token),
        ensures
            follows(*old(self), *final(self), r, simpexpr_run(old(self).tokens(), old(self).at())),
        decreases rest(old(self).tokens(), old(self).at()), 4nat,
    {
        let ghost t = self.tokens();
        let ghost p0 = self.at();
        if self.current_matches(C1Token::Minus) {
            let _ = self.check_and_eat_token(token);
        }
        let current = self.lexer.current_token()?;
        let mut res = self.term(current)?;
        loop
            invariant
                t == old(self).tokens(),
                p0 == old(self).at(),
                self.tokens() == t,
                p0 <= self.at(),
                res is Ok ==> p0 < self.at(),
                simpexpr_run(t, p0) == simpexpr_loop_run(t, result_view(res), self.at()),
            decreases rest(t, self.at()),
        {
            let current = self.lexer.current_token()?;
            if !(self.current_matches(C1Token::Plus) || self.current_matches(C1Token::Minus)
                || self.current_matches(C1Token::Or)) {
                return Some(res);
            }
            let _ = self.check_and_eat_token(current);
            let current = self.lexer.current_token()?;
            res = self.term(current)?;
        }
    }

    fn term(&mut self, token: C1Token) -> (r: Option<ParseResult>)
        requires
            kind_at(old(self).tokens(), old(self).at()) == Some(token),
        ensures
            follows(*old(self), *final(self), r, term_run(old(self).tokens(), old(self).at())),
        decreases rest(old(self).tokens(), old(self).at()), 2nat,
    {
        let intermediate_result = self.factor(token)?;
        let current = self.lexer.current_token()?;
        if self.current_matches(C1Token::Asterisk) || self.current_matches(C1Token::Slash)
            || self.current_matches(C1Token::And) {
            let _ = self.check_and_eat_token(current);
            let current = self.lexer.current_token()?;
            return self.factor(current);
        }
        Some(intermediate_result)
    }

    fn factor(&mut self, token: C1Token) -> (r: Option<ParseResult>)
        requires
            kind_at(old(self).tokens(), old(self).at()) == Some(token),
        ensures
            follows(*old(self), *final(self), r, factor_run(old(self).tokens(), old(self).at())),
        decreases rest(old(self).tokens(), old(self).at()), 1nat,
    {
        if token == C1Token::ConstInt || token == C1Token::ConstFloat || token
            == C1Token::ConstBoolean {
            Some(self.check_and_eat_token(token))
        } else if token == C1Token::Identifier {
            self.lexer.peek_token()?;
            if self.next_matches(C1Token::LeftParenthesis) {
                self.function_call(token)
            } else {
                Some(self.check_and_eat_token(token))
            }
        } else if token == C1Token::LeftParenthesis {
            let a1 = self.check_and_eat_token(token);
            let current = self.lexer.current_token()?;
            let a2 = self.assignment(current)?;
            let a3 = self.eat_checked(C1Token::RightParenthesis)?;
            self.then_current_checked(and_results(and_results(a1, a2), a3))
        } else {
            Some(Err(not_factor_text()))
        }
    }

    fn function_call(&mut self, token: C1Token) -> (r: Option<ParseResult>)
        requires
            kind_at(old(self).tokens(), old(self).at()) == Some(token),
        ensures
            follows(
                *old(self),
                *final(self),
                r,
                function_call_run(old(self).tokens(), old(self).at()),
            ),
    {
        if token == C1Token::Identifier {
            let next = self.lexer.peek_token()?;
            if next == C1Token::LeftParenthesis {
                let a1 = self.check_and_eat_token(token);
                let a2 = self.eat_checked(C1Token::LeftParenthesis)?;
                let a3 = self.eat_checked(C1Token::RightParenthesis)?;
                return Some(and_results(and_results(a1, a2), a3));
            }
        }
        Some(self.error_message(token))
    }
}

} // verus!
