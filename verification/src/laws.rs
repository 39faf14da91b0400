//! Properties that hold of every input.
use vstd::prelude::*;

use crate::grammar::{
    assignment_run, block_run, call_statassign_run, eat_run, expr_run, factor_run,
    function_call_run, function_definition_run, if_statement_run, parse_run, printf_run,
    program_run, rest, return_statement_run, simpexpr_loop_run, simpexpr_run,
    stat_assignment_run, statement_run, statementlist_run, term_run, type_kw_run, Run,
};
use crate::lexer::{
    alnum_end, digits_end, kind_at, lex, lex_from, newlines, scan, skip_end, Lexeme,
};
use crate::token::C1Token;

verus! {

/// Checking for a token succeeds exactly when that token is current; on
/// success the parser moves on by one token, on failure it stays.
pub proof fn lemma_check_agrees_with_current(t: Seq<Lexeme>, p: int, k: C1Token)
    requires
        0 <= p < t.len(),
    ensures
        eat_run(t, p, k) matches Run::Done(a, q) && (a is Ok <==> kind_at(t, p) == Some(k)) && q
            == if a is Ok {
            p + 1
        } else {
            p
        },
{
}

/// A statement list never succeeds: where it returns, it returns the error of
/// the first block that failed.
pub proof fn lemma_statementlist_ends_in_error(t: Seq<Lexeme>, p: int, k: C1Token)
    ensures
        statementlist_run(t, p, k) matches Run::Done(a, _) ==> a is Err,
    decreases rest(t, p),
{
    if kind_at(t, p) is Some {
        if let Run::Done(a, q) = block_run(t, p, k) {
            if a is Ok && p < q {
                lemma_statementlist_ends_in_error(t, q, k);
            }
        }
    }
}

proof fn lemma_program_ok_at_end(t: Seq<Lexeme>, p: int, last: Result<(), Seq<char>>)
    requires
        0 <= p,
    ensures
        program_run(t, p, last) matches Run::Done(Ok(_), q) ==> q >= t.len(),
    decreases rest(t, p),
{
    if kind_at(t, p) is Some {
        if let Run::Done(a, q) = crate::grammar::function_definition_run(t, p) {
            if a is Ok && p < q {
                lemma_program_ok_at_end(t, q, Ok(()));
            }
        }
    }
}

/// Parsing succeeds only where it has read every token of the text.
pub proof fn lemma_parse_ok_reads_all(text: Seq<char>)
    ensures
        parse_run(text) matches Run::Done(Ok(_), q) ==> q >= lex(text).len(),
{
    if lex(text).len() > 0 {
        lemma_program_ok_at_end(lex(text), 0, Ok(()));
    }
}

proof fn lemma_newlines_monotone(cs: Seq<char>, i: int, j: int)
    requires
        0 <= i <= j <= cs.len(),
    ensures
        newlines(cs, i) <= newlines(cs, j),
    decreases j - i,
{
    if i < j {
        lemma_newlines_monotone(cs, i, j - 1);
    }
}

proof fn lemma_lex_from_ordered(cs: Seq<char>, i: int)
    requires
        0 <= i <= cs.len(),
    ensures
        forall|a: int| #![trigger lex_from(cs, i)[a]]
            0 <= a < lex_from(cs, i).len() ==> lex_from(cs, i)[a].line >= newlines(cs, i) + 1
                && lex_from(cs, i)[a].text.len() > 0,
        forall|a: int, b: int|
            0 <= a <= b < lex_from(cs, i).len() ==> #[trigger] lex_from(cs, i)[a].line
                <= #[trigger] lex_from(cs, i)[b].line,
    decreases cs.len() - i,
{
    if i < cs.len() {
        match skip_end(cs, i) {
            Some(j) => {
                if i < j <= cs.len() {
                    lemma_lex_from_ordered(cs, j);
                    lemma_newlines_monotone(cs, i, j);
                }
            },
            None => {
                let (kind, e) = scan(cs, i);
                if i < e <= cs.len() {
                    lemma_lex_from_ordered(cs, e);
                    lemma_newlines_monotone(cs, i, e);
                    let x = Lexeme { kind, text: cs.subrange(i, e), line: newlines(cs, i) + 1 };
                    let tail = lex_from(cs, e);
                    assert(lex_from(cs, i) == seq![x] + tail);
                    assert forall|a: int| 0 < a < lex_from(cs, i).len() implies lex_from(
                        cs,
                        i,
                    )[a] == tail[a - 1] by {}
                }
            },
        }
    }
}

/// The tokens of a text come in the order of the text: their lines never
/// decrease, the first line is 1 or later, and no token is empty.
pub proof fn lemma_lex_ordered(cs: Seq<char>)
    ensures
        forall|a: int| #![trigger lex(cs)[a]]
            0 <= a < lex(cs).len() ==> lex(cs)[a].line >= 1 && lex(cs)[a].text.len() > 0,
        forall|a: int, b: int|
            0 <= a <= b < lex(cs).len() ==> #[trigger] lex(cs)[a].line <= #[trigger] lex(
                cs,
            )[b].line,
{
    lemma_lex_from_ordered(cs, 0);
}


/// Whether `k` is one of `+`, `-`, `||`.
pub open spec fn adds(k: C1Token) -> bool {
    k == C1Token::Plus || k == C1Token::Minus || k == C1Token::Or
}

/// Whether `k` is one of `==`, `!=`, `<`, `<=`, `>`, `>=`.
pub open spec fn compares(k: C1Token) -> bool {
    k == C1Token::Equal || k == C1Token::NotEqual || k == C1Token::Less || k == C1Token::LessEqual
        || k == C1Token::Greater || k == C1Token::GreaterEqual
}

/// Whether `k` is one of `*`, `/`, `&&`.
pub open spec fn multiplies(k: C1Token) -> bool {
    k == C1Token::Asterisk || k == C1Token::Slash || k == C1Token::And
}

proof fn lemma_simpexpr_loop_stops_at_non_additive(
    t: Seq<Lexeme>,
    a: Result<(), Seq<char>>,
    q: int,
)
    ensures
        simpexpr_loop_run(t, a, q) matches Run::Done(_, r) ==> (kind_at(t, r) matches Some(k)
            && !adds(k)),
    decreases rest(t, q),
{
    if let Some(op) = kind_at(t, q) {
        if adds(op) && kind_at(t, q + 1) is Some {
            if let Run::Done(b, q2) = term_run(t, q + 1) {
                if q < q2 {
                    lemma_simpexpr_loop_stops_at_non_additive(t, b, q2);
                }
            }
        }
    }
}

/// An additive expression takes every `+`, `-` and `||` that follows one of
/// its terms: where it returns, a token is current and it is none of these.
pub proof fn lemma_simpexpr_takes_every_additive_operator(t: Seq<Lexeme>, p: int)
    ensures
        simpexpr_run(t, p) matches Run::Done(_, q) ==> (kind_at(t, q) matches Some(k) && !adds(k)),
{
    if let Some(c) = kind_at(t, p) {
        let p1 = if c == C1Token::Minus {
            p + 1
        } else {
            p
        };
        if kind_at(t, p1) is Some {
            if let Run::Done(a, q) = term_run(t, p1) {
                lemma_simpexpr_loop_stops_at_non_additive(t, a, q);
            }
        }
    }
}

/// After an additive expression, an operator `+`, `-` or `||` is eaten and the
/// next term is parsed right after it: the result and end of the expression
/// from there are those of the expression from the start.
pub proof fn lemma_simpexpr_continues_after_operator(
    t: Seq<Lexeme>,
    a: Result<(), Seq<char>>,
    q: int,
)
    requires
        kind_at(t, q) matches Some(k) && adds(k),
        kind_at(t, q + 1) is Some,
        term_run(t, q + 1) matches Run::Done(b, q2) && q < q2,
    ensures
        term_run(t, q + 1) matches Run::Done(b, q2) && simpexpr_loop_run(t, a, q)
            == simpexpr_loop_run(t, b, q2),
{
}

/// A comparison expression: after its first additive expression, exactly the
/// six operators `==`, `!=`, `<`, `<=`, `>`, `>=` are eaten, and then the
/// result and end are those of the additive expression right after the
/// operator; any other token ends it with the first expression's result.
pub proof fn lemma_expr_takes_one_comparison(t: Seq<Lexeme>, p: int)
    ensures
        simpexpr_run(t, p) matches Run::Done(a, q) ==> (kind_at(t, q) matches Some(k) ==> {
            &&& compares(k) ==> (expr_run(t, p) matches Run::Done(b, q2) ==> simpexpr_run(
                t,
                q + 1,
            ) == Run::Done(b, q2))
            &&& !compares(k) ==> expr_run(t, p) == Run::Done(a, q)
        }),
{
}

/// A term: after its first factor, exactly `*`, `/` and `&&` are eaten, and
/// then the result and end are those of the factor right after the
/// operator; any other token ends it with the first factor's result.
pub proof fn lemma_term_takes_one_multiplicative(t: Seq<Lexeme>, p: int)
    ensures
        factor_run(t, p) matches Run::Done(a, q) ==> (kind_at(t, q) matches Some(k) ==> {
            &&& multiplies(k) ==> (term_run(t, p) matches Run::Done(b, q2) ==> factor_run(
                t,
                q + 1,
            ) == Run::Done(b, q2))
            &&& !multiplies(k) ==> term_run(t, p) == Run::Done(a, q)
        }),
{
}

/// A constant (integer, float or boolean) is a factor: it is eaten, alone, with
/// success.
pub proof fn lemma_constant_is_factor(t: Seq<Lexeme>, p: int)
    requires
        kind_at(t, p) == Some(C1Token::ConstInt) || kind_at(t, p) == Some(C1Token::ConstFloat)
            || kind_at(t, p) == Some(C1Token::ConstBoolean),
    ensures
        factor_run(t, p) == Run::Done(Ok(()), p + 1),
{
}

/// An identifier not followed by `(` is a factor: it is eaten, alone, with
/// success; followed by `(` and `)` it is a call, and all three are eaten.
pub proof fn lemma_identifier_is_factor(t: Seq<Lexeme>, p: int)
    requires
        kind_at(t, p) == Some(C1Token::Identifier),
        kind_at(t, p + 1) is Some,
    ensures
        kind_at(t, p + 1) != Some(C1Token::LeftParenthesis) ==> factor_run(t, p) == Run::Done(
            Ok(()),
            p + 1,
        ),
        kind_at(t, p + 1) == Some(C1Token::LeftParenthesis) && kind_at(t, p + 2) == Some(
            C1Token::RightParenthesis,
        ) ==> factor_run(t, p) == Run::Done(Ok(()), p + 3),
{
}

/// A token that starts no factor (no constant, identifier or `(`) gives the
/// error "Token was not factor" and is not eaten.
pub proof fn lemma_non_factor_is_refused(t: Seq<Lexeme>, p: int)
    requires
        kind_at(t, p) matches Some(k) && k != C1Token::ConstInt && k != C1Token::ConstFloat && k
            != C1Token::ConstBoolean && k != C1Token::Identifier && k != C1Token::LeftParenthesis,
    ensures
        factor_run(t, p) == Run::Done(Err("Token was not factor"@), p),
{
}

/// `printf ( e )` takes as its argument a whole assignment `e`: where the
/// assignment after `printf (` succeeds and is followed by `)` and one more
/// token, printf succeeds and ends right after the `)`.
pub proof fn lemma_printf_argument_is_assignment(t: Seq<Lexeme>, p: int)
    requires
        kind_at(t, p) == Some(C1Token::KwPrintf),
        kind_at(t, p + 1) == Some(C1Token::LeftParenthesis),
        assignment_run(t, p + 2) matches Run::Done(Ok(_), q) && kind_at(t, q) == Some(
            C1Token::RightParenthesis,
        ) && kind_at(t, q + 1) is Some,
    ensures
        assignment_run(t, p + 2) matches Run::Done(Ok(_), q) && printf_run(t, p) == Run::Done(
            Ok(()),
            q + 1,
        ),
{
}

/// Whether `c` is a decimal digit.
pub open spec fn decimal_digit(c: char) -> bool {
    '0' <= c && c <= '9'
}

proof fn lemma_digits_end_is_first_non_digit(cs: Seq<char>, i: int)
    requires
        0 <= i <= cs.len(),
    ensures
        i <= digits_end(cs, i) <= cs.len(),
        forall|m: int| i <= m < digits_end(cs, i) ==> decimal_digit(#[trigger] cs[m]),
        digits_end(cs, i) == cs.len() || !decimal_digit(cs[digits_end(cs, i)]),
    decreases cs.len() - i,
{
    if i < cs.len() && decimal_digit(cs[i]) {
        lemma_digits_end_is_first_non_digit(cs, i + 1);
    }
}

proof fn lemma_alnum_end_is_first_other(cs: Seq<char>, i: int)
    requires
        0 <= i <= cs.len(),
    ensures
        i <= alnum_end(cs, i) <= cs.len(),
        alnum_end(cs, i) == cs.len() || !(decimal_digit(cs[alnum_end(cs, i)]) || ('a' <= cs[alnum_end(cs, i)] <= 'z') || ('A' <= cs[alnum_end(cs, i)] <= 'Z')),
    decreases cs.len() - i,
{
    if i < cs.len() && (decimal_digit(cs[i]) || ('a' <= cs[i] <= 'z') || ('A' <= cs[i] <= 'Z')) {
        lemma_alnum_end_is_first_other(cs, i + 1);
    }
}

/// A number with a decimal point is one float token that takes every digit
/// after the point: from a digit, the token found is a `ConstFloat` ending at
/// the first non-digit after the point.
pub proof fn lemma_float_takes_all_fraction_digits(cs: Seq<char>, i: int, j: int)
    requires
        0 <= i < j < cs.len(),
        cs[j] == '.',
        forall|m: int| i <= m < j ==> decimal_digit(#[trigger] cs[m]),
    ensures
        scan(cs, i).0 == C1Token::ConstFloat,
        j < scan(cs, i).1 <= cs.len(),
        forall|m: int| j < m < scan(cs, i).1 ==> decimal_digit(#[trigger] cs[m]),
        scan(cs, i).1 == cs.len() || !decimal_digit(cs[scan(cs, i).1]),
{
    lemma_digits_end_is_first_non_digit(cs, i + 1);
    if digits_end(cs, i + 1) < j {
        assert(decimal_digit(cs[digits_end(cs, i + 1)]));
    }
    assert(digits_end(cs, i) == digits_end(cs, i + 1));
    lemma_digits_end_is_first_non_digit(cs, j + 1);
}

/// A text that is a number with one decimal point (digits, `.`, digits, with
/// a digit first) is lexed as exactly one `ConstFloat` token: the whole text,
/// on line 1.
pub proof fn lemma_decimal_number_is_one_float(cs: Seq<char>, j: int)
    requires
        0 < j < cs.len(),
        cs[j] == '.',
        forall|m: int| 0 <= m < cs.len() && m != j ==> decimal_digit(#[trigger] cs[m]),
    ensures
        lex(cs) == seq![Lexeme { kind: C1Token::ConstFloat, text: cs, line: 1 }],
{
    lemma_float_takes_all_fraction_digits(cs, 0, j);
    let e = scan(cs, 0).1;
    if e < cs.len() {
        assert(decimal_digit(cs[e]));
    }
    assert(skip_end(cs, 0) is None);
    assert(cs.subrange(0, cs.len() as int) =~= cs);
    assert(lex_from(cs, e) =~= Seq::<Lexeme>::empty());
    assert(newlines(cs, 0) == 0);
}

/// A run of digits with no `.` and no exponent after it is one integer token
/// that takes every digit.
pub proof fn lemma_integer_takes_all_digits(cs: Seq<char>, i: int)
    requires
        0 <= i < cs.len(),
        decimal_digit(cs[i]),
    ensures
        ({
            let e = digits_end(cs, i);
            e == cs.len() || (cs[e] != '.' && cs[e] != 'e' && cs[e] != 'E') ==> scan(cs, i) == (
            C1Token::ConstInt,
            e,
        )
        }),
        forall|m: int| i <= m < digits_end(cs, i) ==> decimal_digit(#[trigger] cs[m]),
        digits_end(cs, i) == cs.len() || !decimal_digit(cs[digits_end(cs, i)]),
{
    lemma_digits_end_is_first_non_digit(cs, i);
    lemma_digits_end_is_first_non_digit(cs, i + 1);
}

/// A word (a letter, then letters and digits) is one token that runs to the
/// first character that is neither a letter nor a digit.
pub proof fn lemma_word_takes_all_letters_and_digits(cs: Seq<char>, i: int)
    requires
        0 <= i < cs.len(),
        ('a' <= cs[i] <= 'z') || ('A' <= cs[i] <= 'Z'),
    ensures
        i < scan(cs, i).1 <= cs.len(),
        scan(cs, i).1 == cs.len() || !(decimal_digit(cs[scan(cs, i).1]) || ('a' <= cs[scan(
            cs,
            i,
        ).1] <= 'z') || ('A' <= cs[scan(cs, i).1] <= 'Z')),
{
    lemma_alnum_end_is_first_other(cs, i + 1);
}

/// Two-character operators are taken whole: `==`, `!=`, `<=`, `>=`, `&&`, `||`.
pub proof fn lemma_two_char_operators(cs: Seq<char>, i: int)
    requires
        0 <= i,
        i + 1 < cs.len(),
    ensures
        cs[i] == '=' && cs[i + 1] == '=' ==> scan(cs, i) == (C1Token::Equal, i + 2),
        cs[i] == '!' && cs[i + 1] == '=' ==> scan(cs, i) == (C1Token::NotEqual, i + 2),
        cs[i] == '<' && cs[i + 1] == '=' ==> scan(cs, i) == (C1Token::LessEqual, i + 2),
        cs[i] == '>' && cs[i + 1] == '=' ==> scan(cs, i) == (C1Token::GreaterEqual, i + 2),
        cs[i] == '&' && cs[i + 1] == '&' ==> scan(cs, i) == (C1Token::And, i + 2),
        cs[i] == '|' && cs[i + 1] == '|' ==> scan(cs, i) == (C1Token::Or, i + 2),
{
}


/// A type keyword (`bool`, `float`, `int`, `void`) is eaten with success; any
/// other token fails and is not eaten.
pub proof fn lemma_type_keyword(t: Seq<Lexeme>, p: int)
    requires
        kind_at(t, p) is Some,
    ensures
        ({
            let k = kind_at(t, p)->0;
            k == C1Token::KwBoolean || k == C1Token::KwFloat || k == C1Token::KwInt || k
                == C1Token::KwVoid
        }) ==> type_kw_run(t, p) == Run::Done(Ok(()), p + 1),
        ({
            let k = kind_at(t, p)->0;
            !(k == C1Token::KwBoolean || k == C1Token::KwFloat || k == C1Token::KwInt || k
                == C1Token::KwVoid)
        }) ==> (type_kw_run(t, p) matches Run::Done(Err(_), q) && q == p),
{
}

/// A call `f ( )` is eaten whole with success.
pub proof fn lemma_call_is_eaten(t: Seq<Lexeme>, p: int)
    requires
        kind_at(t, p) == Some(C1Token::Identifier),
        kind_at(t, p + 1) == Some(C1Token::LeftParenthesis),
        kind_at(t, p + 2) == Some(C1Token::RightParenthesis),
    ensures
        function_call_run(t, p) == Run::Done(Ok(()), p + 3),
{
}

/// `x = e` is an assignment whose result and end are those of the assignment
/// `e` after the `=`; any other start is an expression, whose result it keeps
/// where a token follows.
pub proof fn lemma_assignment_chains(t: Seq<Lexeme>, p: int)
    requires
        kind_at(t, p) is Some,
        kind_at(t, p + 1) is Some,
    ensures
        kind_at(t, p) == Some(C1Token::Identifier) && kind_at(t, p + 1) == Some(C1Token::Assign)
            ==> assignment_run(t, p) == assignment_run(t, p + 2),
        !(kind_at(t, p) == Some(C1Token::Identifier) && kind_at(t, p + 1) == Some(
            C1Token::Assign,
        )) ==> (expr_run(t, p) matches Run::Done(a, q) ==> (kind_at(t, q) is Some
            ==> assignment_run(t, p) == Run::Done(a, q))),
{
}

/// `return e ;`: where the assignment after `return` succeeds and `;` follows,
/// the statement succeeds right after the `;`; where it fails, `return`
/// alone is taken with success.
pub proof fn lemma_return_statement(t: Seq<Lexeme>, p: int)
    requires
        kind_at(t, p) == Some(C1Token::KwReturn),
    ensures
        assignment_run(t, p + 1) matches Run::Done(Ok(_), q) ==> (kind_at(t, q) == Some(
            C1Token::Semicolon,
        ) ==> return_statement_run(t, p) == Run::Done(Ok(()), q + 1)),
        assignment_run(t, p + 1) matches Run::Done(Err(_), q) ==> return_statement_run(t, p)
            == Run::Done(Ok(()), q),
{
}

/// `if ( e ) S`: where the condition is followed by `)`, the result and end of
/// the if statement are those of the block after the `)`, where a token
/// follows it.
pub proof fn lemma_if_statement(t: Seq<Lexeme>, p: int)
    requires
        kind_at(t, p) == Some(C1Token::KwIf),
        kind_at(t, p + 1) == Some(C1Token::LeftParenthesis),
        assignment_run(t, p + 2) matches Run::Done(_, q) && kind_at(t, q) == Some(
            C1Token::RightParenthesis,
        ) && p < q,
    ensures
        assignment_run(t, p + 2) matches Run::Done(_, q) ==> (kind_at(t, q + 1) matches Some(k)
            ==> (block_run(t, q + 1, k) matches Run::Done(b, q2) ==> (kind_at(t, q2) is Some
            ==> if_statement_run(t, p) == Run::Done(b, q2)))),
{
}

/// `x = e ;`: where the statement assignment succeeds and `;` follows, the
/// statement succeeds right after the `;`; where it fails, its error is the
/// result and no `;` is looked for.
pub proof fn lemma_assignment_statement(t: Seq<Lexeme>, p: int)
    requires
        kind_at(t, p) == Some(C1Token::Identifier),
        kind_at(t, p + 1) == Some(C1Token::Assign),
    ensures
        assignment_run(t, p + 2) matches Run::Done(b, q) ==> (kind_at(t, q) is Some
            ==> stat_assignment_run(t, p) == Run::Done(b, q)),
        stat_assignment_run(t, p) matches Run::Done(Ok(_), q) ==> (kind_at(t, q) == Some(
            C1Token::Semicolon,
        ) ==> statement_run(t, p) == Run::Done(Ok(()), q + 1)),
        stat_assignment_run(t, p) matches Run::Done(Err(e), q) ==> (kind_at(t, q) is Some
            ==> statement_run(t, p) == Run::Done(Err(e), q)),
{
    assert(statement_run(t, p) == call_statassign_run(t, p));
}

/// `printf ( e ) ;` and `f ( ) ;` are statements that succeed right after the
/// `;` where their first part succeeds.
pub proof fn lemma_printf_and_call_statements(t: Seq<Lexeme>, p: int)
    ensures
        kind_at(t, p) == Some(C1Token::KwPrintf) ==> (printf_run(t, p) matches Run::Done(Ok(_), q)
            ==> (kind_at(t, q) == Some(C1Token::Semicolon) ==> statement_run(t, p) == Run::Done(
            Ok(()),
            q + 1,
        ))),
        kind_at(t, p) == Some(C1Token::Identifier) && kind_at(t, p + 1) == Some(
            C1Token::LeftParenthesis,
        ) && kind_at(t, p + 2) == Some(C1Token::RightParenthesis) && kind_at(t, p + 3) == Some(
            C1Token::Semicolon,
        ) ==> statement_run(t, p) == Run::Done(Ok(()), p + 4),
{
}

/// A braced block `{ ... }` ends with the check for `}` where its statement
/// list stops: it succeeds right after a `}` there.
pub proof fn lemma_braced_block(t: Seq<Lexeme>, p: int)
    requires
        kind_at(t, p) == Some(C1Token::LeftBrace),
        kind_at(t, p + 1) is Some,
    ensures
        statementlist_run(t, p + 1, kind_at(t, p + 1)->0) matches Run::Done(_, q) ==> (kind_at(
            t,
            q,
        ) == Some(C1Token::RightBrace) ==> block_run(t, p, C1Token::LeftBrace) == Run::Done(
            Ok(()),
            q + 1,
        )),
{
}

/// A function definition `type name ( ) { ... }` succeeds right after a `}`
/// where its statement list stops, whatever that list reported.
pub proof fn lemma_function_definition(t: Seq<Lexeme>, p: int)
    requires
        kind_at(t, p) matches Some(k) && (k == C1Token::KwBoolean || k == C1Token::KwFloat || k
            == C1Token::KwInt || k == C1Token::KwVoid),
        kind_at(t, p + 1) == Some(C1Token::Identifier),
        kind_at(t, p + 2) == Some(C1Token::LeftParenthesis),
        kind_at(t, p + 3) == Some(C1Token::RightParenthesis),
        kind_at(t, p + 4) == Some(C1Token::LeftBrace),
        kind_at(t, p + 5) is Some,
    ensures
        statementlist_run(t, p + 5, kind_at(t, p + 5)->0) matches Run::Done(_, q) ==> (kind_at(
            t,
            q,
        ) == Some(C1Token::RightBrace) ==> function_definition_run(t, p) == Run::Done(
            Ok(()),
            q + 1,
        )),
{
}

/// A program of one function definition that reads every token succeeds.
pub proof fn lemma_single_definition_program(t: Seq<Lexeme>)
    requires
        t.len() > 0,
        function_definition_run(t, 0) matches Run::Done(Ok(_), q) && q >= t.len(),
    ensures
        program_run(t, 0, Ok(())) == Run::Done(Ok(()), function_definition_run(t, 0)->1),
{
    let q = function_definition_run(t, 0)->1;
    assert(program_run(t, q, Ok(())) == Run::Done(Ok(()), q));
}

/// A string constant `"..."` holding no line break and no `"` is one token,
/// quotes included.
pub proof fn lemma_string_constant(cs: Seq<char>, i: int, e: int)
    requires
        0 <= i < e < cs.len(),
        cs[i] == '"',
        cs[e] == '"',
        forall|m: int| i < m < e ==> #[trigger] cs[m] != '"' && cs[m] != '\n',
    ensures
        scan(cs, i) == (C1Token::ConstString, e + 1),
{
    lemma_string_body_end(cs, i + 1, e);
}

proof fn lemma_string_body_end(cs: Seq<char>, i: int, e: int)
    requires
        0 <= i <= e < cs.len(),
        cs[e] == '"',
        forall|m: int| i <= m < e ==> #[trigger] cs[m] != '"' && cs[m] != '\n',
    ensures
        crate::lexer::string_body_end(cs, i) == e,
    decreases e - i,
{
    if i < e {
        lemma_string_body_end(cs, i + 1, e);
    }
}

/// A blank character is skipped by itself; `//` skips up to and including the
/// next line break.
pub proof fn lemma_blanks_and_line_comments_are_skipped(cs: Seq<char>, i: int, e: int)
    requires
        0 <= i < cs.len(),
    ensures
        (cs[i] == ' ' || cs[i] == '\t' || cs[i] == '\n') ==> skip_end(cs, i) == Some(i + 1),
        i + 1 < e < cs.len() && cs[i] == '/' && cs[i + 1] == '/' && cs[e] == '\n' && (forall|m: int|
            i + 2 <= m < e ==> #[trigger] cs[m] != '\n') ==> skip_end(cs, i) == Some(e + 1),
{
    if i + 1 < e < cs.len() && cs[i] == '/' && cs[i + 1] == '/' && cs[e] == '\n' && (forall|m: int|
        i + 2 <= m < e ==> #[trigger] cs[m] != '\n') {
        lemma_line_end(cs, i + 2, e);
    }
}

proof fn lemma_line_end(cs: Seq<char>, i: int, e: int)
    requires
        0 <= i <= e < cs.len(),
        cs[e] == '\n',
        forall|m: int| i <= m < e ==> #[trigger] cs[m] != '\n',
    ensures
        crate::lexer::line_end(cs, i) == e,
    decreases e - i,
{
    if i < e {
        lemma_line_end(cs, i + 1, e);
    }
}

} // verus!
