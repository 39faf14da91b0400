use vstd::prelude::*;

use crate::token::C1Token;

verus! {

// ---------------------------------------------------------------------------
// The token grammar, stated over the characters of the source text.
// ---------------------------------------------------------------------------

pub open spec fn is_digit(c: char) -> bool {
    '0' <= c && c <= '9'
}

pub open spec fn is_letter(c: char) -> bool {
    ('a' <= c && c <= 'z') || ('A' <= c && c <= 'Z')
}

/// Characters that separate tokens and are skipped.
pub open spec fn is_space(c: char) -> bool {
    c == ' ' || c == '\t' || c == '\n' || c == '\x0C'
}

/// The character at `i`, if there is one.
pub open spec fn char_at(cs: Seq<char>, i: int) -> Option<char> {
    if 0 <= i < cs.len() {
        Some(cs[i])
    } else {
        None
    }
}

/// End of the run of digits that starts at `i`.
pub open spec fn digits_end(cs: Seq<char>, i: int) -> int
    decreases cs.len() - i,
{
    if 0 <= i < cs.len() && is_digit(cs[i]) {
        digits_end(cs, i + 1)
    } else {
        i
    }
}

/// End of the run of letters and digits that starts at `i`.
pub open spec fn alnum_end(cs: Seq<char>, i: int) -> int
    decreases cs.len() - i,
{
    if 0 <= i < cs.len() && (is_digit(cs[i]) || is_letter(cs[i])) {
        alnum_end(cs, i + 1)
    } else {
        i
    }
}

/// The first line break at or after `i`, or the end of the text.
pub open spec fn line_end(cs: Seq<char>, i: int) -> int
    decreases cs.len() - i,
{
    if 0 <= i < cs.len() && cs[i] != '\n' {
        line_end(cs, i + 1)
    } else {
        i
    }
}

/// The first line break or double quote at or after `i`, or the end of the text.
pub open spec fn string_body_end(cs: Seq<char>, i: int) -> int
    decreases cs.len() - i,
{
    if 0 <= i < cs.len() && cs[i] != '\n' && cs[i] != '"' {
        string_body_end(cs, i + 1)
    } else {
        i
    }
}

/// The first `*` or `/` at or after `i`, or the end of the text.
pub open spec fn comment_body_end(cs: Seq<char>, i: int) -> int
    decreases cs.len() - i,
{
    if 0 <= i < cs.len() && cs[i] != '*' && cs[i] != '/' {
        comment_body_end(cs, i + 1)
    } else {
        i
    }
}

/// An exponent `[eE][+-]?[0-9]+` starting at `k`: its end, if there is one.
pub open spec fn exponent_end(cs: Seq<char>, k: int) -> Option<int> {
    if char_at(cs, k) == Some('e') || char_at(cs, k) == Some('E') {
        let m = if char_at(cs, k + 1) == Some('+') || char_at(cs, k + 1) == Some('-') {
            k + 2
        } else {
            k + 1
        };
        if 0 <= m < cs.len() && is_digit(cs[m]) {
            Some(digits_end(cs, m))
        } else {
            None
        }
    } else {
        None
    }
}

/// What is skipped at `i` (a blank, a `//` comment up to and including its line
/// break, or a `/* */` comment whose body holds neither `*` nor `/`): the index
/// after it.
pub open spec fn skip_end(cs: Seq<char>, i: int) -> Option<int> {
    if 0 <= i < cs.len() && is_space(cs[i]) {
        Some(i + 1)
    } else if char_at(cs, i) == Some('/') && char_at(cs, i + 1) == Some('/') {
        let e = line_end(cs, i + 2);
        Some(if e < cs.len() { e + 1 } else { e })
    } else if char_at(cs, i) == Some('/') && char_at(cs, i + 1) == Some('*') {
        let e = comment_body_end(cs, i + 2);
        if char_at(cs, e) == Some('*') && char_at(cs, e + 1) == Some('/') {
            Some(e + 2)
        } else {
            None
        }
    } else {
        None
    }
}

/// The kind of a word made of letters and digits: a keyword, a boolean
/// constant, or an identifier.
pub open spec fn word_kind(w: Seq<char>) -> C1Token {
    if w == seq!['b', 'o', 'o', 'l'] {
        C1Token::KwBoolean
    } else if w == seq!['d', 'o'] {
        C1Token::KwDo
    } else if w == seq!['e', 'l', 's', 'e'] {
        C1Token::KwElse
    } else if w == seq!['f', 'l', 'o', 'a', 't'] {
        C1Token::KwFloat
    } else if w == seq!['f', 'o', 'r'] {
        C1Token::KwFor
    } else if w == seq!['i', 'f'] {
        C1Token::KwIf
    } else if w == seq!['i', 'n', 't'] {
        C1Token::KwInt
    } else if w == seq!['p', 'r', 'i', 'n', 't', 'f'] {
        C1Token::KwPrintf
    } else if w == seq!['r', 'e', 't', 'u', 'r', 'n'] {
        C1Token::KwReturn
    } else if w == seq!['v', 'o', 'i', 'd'] {
        C1Token::KwVoid
    } else if w == seq!['w', 'h', 'i', 'l', 'e'] {
        C1Token::KwWhile
    } else if w == seq!['t', 'r', 'u', 'e'] || w == seq!['f', 'a', 'l', 's', 'e'] {
        C1Token::ConstBoolean
    } else {
        C1Token::Identifier
    }
}

/// The token that starts at `i` (which holds no blank or comment): its kind
/// and the index after it. The longest match is taken.
pub open spec fn scan(cs: Seq<char>, i: int) -> (C1Token, int) {
    let c = cs[i];
    let next = char_at(cs, i + 1);
    if is_digit(c) {
        let d = digits_end(cs, i);
        if char_at(cs, d) == Some('.') {
            (C1Token::ConstFloat, digits_end(cs, d + 1))
        } else {
            match exponent_end(cs, d) {
                Some(e) => (C1Token::ConstFloat, e),
                None => (C1Token::ConstInt, d),
            }
        }
    } else if c == '.' {
        if 0 <= i + 1 < cs.len() && is_digit(cs[i + 1]) {
            let d = digits_end(cs, i + 1);
            match exponent_end(cs, d) {
                Some(e) => (C1Token::ConstFloat, e),
                None => (C1Token::ConstFloat, d),
            }
        } else {
            (C1Token::Error, i + 1)
        }
    } else if is_letter(c) {
        let e = alnum_end(cs, i + 1);
        (word_kind(cs.subrange(i, e)), e)
    } else if c == '"' {
        let e = string_body_end(cs, i + 1);
        if char_at(cs, e) == Some('"') {
            (C1Token::ConstString, e + 1)
        } else {
            (C1Token::Error, i + 1)
        }
    } else if c == '=' {
        if next == Some('=') {
            (C1Token::Equal, i + 2)
        } else {
            (C1Token::Assign, i + 1)
        }
    } else if c == '!' {
        if next == Some('=') {
            (C1Token::NotEqual, i + 2)
        } else {
            (C1Token::Error, i + 1)
        }
    } else if c == '<' {
        if next == Some('=') {
            (C1Token::LessEqual, i + 2)
        } else {
            (C1Token::Less, i + 1)
        }
    } else if c == '>' {
        if next == Some('=') {
            (C1Token::GreaterEqual, i + 2)
        } else {
            (C1Token::Greater, i + 1)
        }
    } else if c == '&' {
        if next == Some('&') {
            (C1Token::And, i + 2)
        } else {
            (C1Token::Error, i + 1)
        }
    } else if c == '|' {
        if next == Some('|') {
            (C1Token::Or, i + 2)
        } else {
            (C1Token::Error, i + 1)
        }
    } else {
        (single_char_kind(c), i + 1)
    }
}

/// The kind of a token of one character that no longer token starts with.
pub open spec fn single_char_kind(c: char) -> C1Token {
    if c == '+' {
        C1Token::Plus
    } else if c == '-' {
        C1Token::Minus
    } else if c == '*' {
        C1Token::Asterisk
    } else if c == '/' {
        C1Token::Slash
    } else if c == ',' {
        C1Token::Comma
    } else if c == ';' {
        C1Token::Semicolon
    } else if c == '(' {
        C1Token::LeftParenthesis
    } else if c == ')' {
        C1Token::RightParenthesis
    } else if c == '{' {
        C1Token::LeftBrace
    } else if c == '}' {
        C1Token::RightBrace
    } else {
        C1Token::Error
    }
}

/// The number of line breaks among the first `i` characters.
pub open spec fn newlines(cs: Seq<char>, i: int) -> nat
    decreases i,
{
    if i <= 0 || i > cs.len() {
        0
    } else {
        newlines(cs, i - 1) + if cs[i - 1] == '\n' {
            1nat
        } else {
            0nat
        }
    }
}

/// A token as the parser sees it: its kind, its text and its line (from 1).
pub struct Lexeme {
    pub kind: C1Token,
    pub text: Seq<char>,
    pub line: nat,
}

/// The tokens of the text from index `i` on.
pub open spec fn lex_from(cs: Seq<char>, i: int) -> Seq<Lexeme>
    decreases cs.len() - i,
{
    if i < 0 || i >= cs.len() {
        Seq::empty()
    } else {
        match skip_end(cs, i) {
            Some(j) => if i < j <= cs.len() {
                lex_from(cs, j)
            } else {
                Seq::empty()
            },
            None => {
                let (kind, e) = scan(cs, i);
                if i < e <= cs.len() {
                    seq![Lexeme { kind, text: cs.subrange(i, e), line: newlines(cs, i) + 1 }]
                        + lex_from(cs, e)
                } else {
                    Seq::empty()
                }
            },
        }
    }
}

/// The tokens of a source text.
pub open spec fn lex(cs: Seq<char>) -> Seq<Lexeme> {
    lex_from(cs, 0)
}


/// The token at position `p` of a token sequence, if there is one.
pub open spec fn lexeme_at(t: Seq<Lexeme>, p: int) -> Option<Lexeme> {
    if 0 <= p < t.len() {
        Some(t[p])
    } else {
        None
    }
}

/// The kind of the token at position `p`, if there is one.
pub open spec fn kind_at(t: Seq<Lexeme>, p: int) -> Option<C1Token> {
    if 0 <= p < t.len() {
        Some(t[p].kind)
    } else {
        None
    }
}

// ---------------------------------------------------------------------------
// The lexer.
// ---------------------------------------------------------------------------

/// A token with its text and the line (from 1) on which it starts.
pub struct TokenData {
    pub token: C1Token,
    pub text: Vec<char>,
    pub line: usize,
}

impl View for TokenData {
    type V = Lexeme;

    open spec fn view(&self) -> Lexeme {
        Lexeme { kind: self.token, text: self.text@, line: self.line as nat }
    }
}

/// The lexemes that a sequence of tokens stands for.
pub open spec fn views(ts: Seq<TokenData>) -> Seq<Lexeme> {
    ts.map_values(|t: TokenData| t@)
}

/// The tokens of a text, with a current token and one of lookahead.
pub struct C1Lexer {
    tokens: Vec<TokenData>,
    pos: usize,
}

fn is_digit_char(c: char) -> (r: bool)
    ensures
        r == is_digit(c),
{
    '0' <= c && c <= '9'
}

fn is_letter_char(c: char) -> (r: bool)
    ensures
        r == is_letter(c),
{
    ('a' <= c && c <= 'z') || ('A' <= c && c <= 'Z')
}

fn is_space_char(c: char) -> (r: bool)
    ensures
        r == is_space(c),
{
    c == ' ' || c == '\t' || c == '\n' || c == '\x0C'
}

fn char_at_exec(cs: &Vec<char>, i: usize) -> (r: Option<char>)
    ensures
        r == char_at(cs@, i as int),
{
    if i < cs.len() {
        Some(cs[i])
    } else {
        None
    }
}

fn digits_end_exec(cs: &Vec<char>, i: usize) -> (r: usize)
    requires
        i <= cs.len(),
    ensures
        r == digits_end(cs@, i as int),
        i <= r <= cs.len(),
{
    let mut j = i;
    while j < cs.len() && is_digit_char(cs[j])
        invariant
            i <= j <= cs.len(),
            digits_end(cs@, j as int) == digits_end(cs@, i as int),
        decreases cs.len() - j,
    {
        j = j + 1;
    }
    j
}

fn alnum_end_exec(cs: &Vec<char>, i: usize) -> (r: usize)
    requires
        i <= cs.len(),
    ensures
        r == alnum_end(cs@, i as int),
        i <= r <= cs.len(),
{
    let mut j = i;
    while j < cs.len() && (is_digit_char(cs[j]) || is_letter_char(cs[j]))
        invariant
            i <= j <= cs.len(),
            alnum_end(cs@, j as int) == alnum_end(cs@, i as int),
        decreases cs.len() - j,
    {
        j = j + 1;
    }
    j
}

fn line_end_exec(cs: &Vec<char>, i: usize) -> (r: usize)
    requires
        i <= cs.len(),
    ensures
        r == line_end(cs@, i as int),
        i <= r <= cs.len(),
{
    let mut j = i;
    while j < cs.len() && cs[j] != '\n'
        invariant
            i <= j <= cs.len(),
            line_end(cs@, j as int) == line_end(cs@, i as int),
        decreases cs.len() - j,
    {
        j = j + 1;
    }
    j
}

fn string_body_end_exec(cs: &Vec<char>, i: usize) -> (r: usize)
    requires
        i <= cs.len(),
    ensures
        r == string_body_end(cs@, i as int),
        i <= r <= cs.len(),
{
    let mut j = i;
    while j < cs.len() && cs[j] != '\n' && cs[j] != '"'
        invariant
            i <= j <= cs.len(),
            string_body_end(cs@, j as int) == string_body_end(cs@, i as int),
        decreases cs.len() - j,
    {
        j = j + 1;
    }
    j
}

fn comment_body_end_exec(cs: &Vec<char>, i: usize) -> (r: usize)
    requires
        i <= cs.len(),
    ensures
        r == comment_body_end(cs@, i as int),
        i <= r <= cs.len(),
{
    let mut j = i;
    while j < cs.len() && cs[j] != '*' && cs[j] != '/'
        invariant
            i <= j <= cs.len(),
            comment_body_end(cs@, j as int) == comment_body_end(cs@, i as int),
        decreases cs.len() - j,
    {
        j = j + 1;
    }
    j
}

fn exponent_end_exec(cs: &Vec<char>, k: usize) -> (r: Option<usize>)
    requires
        k <= cs.len(),
    ensures
        match r {
            Some(e) => exponent_end(cs@, k as int) == Some(e as int) && k < e <= cs.len(),
            None => exponent_end(cs@, k as int) is None,
        },
{
    let c = char_at_exec(cs, k);
    if c == Some('e') || c == Some('E') {
        let s = char_at_exec(cs, k + 1);
        let m = if s == Some('+') || s == Some('-') {
            k + 2
        } else {
            k + 1
        };
        if m < cs.len() && is_digit_char(cs[m]) {
            Some(digits_end_exec(cs, m))
        } else {
            None
        }
    } else {
        None
    }
}

fn skip_end_exec(cs: &Vec<char>, i: usize) -> (r: Option<usize>)
    requires
        i < cs.len(),
    ensures
        match r {
            Some(j) => skip_end(cs@, i as int) == Some(j as int) && i < j <= cs.len(),
            None => skip_end(cs@, i as int) is None,
        },
{
    let c = cs[i];
    let next = char_at_exec(cs, i + 1);
    if is_space_char(c) {
        Some(i + 1)
    } else if c == '/' && next == Some('/') {
        let e = line_end_exec(cs, i + 2);
        if e < cs.len() {
            Some(e + 1)
        } else {
            Some(e)
        }
    } else if c == '/' && next == Some('*') {
        let e = comment_body_end_exec(cs, i + 2);
        if char_at_exec(cs, e) == Some('*') && e + 1 < cs.len() && cs[e + 1] == '/' {
            Some(e + 2)
        } else {
            None
        }
    } else {
        None
    }
}

/// Whether the characters `i..e` spell `lit`.
fn spells(cs: &Vec<char>, i: usize, e: usize, lit: &[char]) -> (r: bool)
    requires
        i <= e <= cs.len(),
    ensures
        r == (cs@.subrange(i as int, e as int) == lit@),
{
    if e - i != lit.len() {
        return false;
    }
    let mut k: usize = 0;
    while k < lit.len()
        invariant
            k <= lit.len(),
            e - i == lit.len(),
            i <= e <= cs.len(),
            forall|m: int| 0 <= m < k ==> cs@[i + m] == lit@[m],
        decreases lit.len() - k,
    {
        if cs[i + k] != lit[k] {
            assert(cs@.subrange(i as int, e as int)[k as int] != lit@[k as int]);
            return false;
        }
        k = k + 1;
    }
    assert(cs@.subrange(i as int, e as int) =~= lit@);
    true
}

fn word_kind_exec(cs: &Vec<char>, i: usize, e: usize) -> (r: C1Token)
    requires
        i <= e <= cs.len(),
    ensures
        r == word_kind(cs@.subrange(i as int, e as int)),
{
    if spells(cs, i, e, &['b', 'o', 'o', 'l']) {
        C1Token::KwBoolean
    } else if spells(cs, i, e, &['d', 'o']) {
        C1Token::KwDo
    } else if spells(cs, i, e, &['e', 'l', 's', 'e']) {
        C1Token::KwElse
    } else if spells(cs, i, e, &['f', 'l', 'o', 'a', 't']) {
        C1Token::KwFloat
    } else if spells(cs, i, e, &['f', 'o', 'r']) {
        C1Token::KwFor
    } else if spells(cs, i, e, &['i', 'f']) {
        C1Token::KwIf
    } else if spells(cs, i, e, &['i', 'n', 't']) {
        C1Token::KwInt
    } else if spells(cs, i, e, &['p', 'r', 'i', 'n', 't', 'f']) {
        C1Token::KwPrintf
    } else if spells(cs, i, e, &['r', 'e', 't', 'u', 'r', 'n']) {
        C1Token::KwReturn
    } else if spells(cs, i, e, &['v', 'o', 'i', 'd']) {
        C1Token::KwVoid
    } else if spells(cs, i, e, &['w', 'h', 'i', 'l', 'e']) {
        C1Token::KwWhile
    } else if spells(cs, i, e, &['t', 'r', 'u', 'e']) || spells(cs, i, e, &['f', 'a', 'l', 's', 'e']) {
        C1Token::ConstBoolean
    } else {
        C1Token::Identifier
    }
}

fn single_char_kind_exec(c: char) -> (r: C1Token)
    ensures
        r == single_char_kind(c),
{
    if c == '+' {
        C1Token::Plus
    } else if c == '-' {
        C1Token::Minus
    } else if c == '*' {
        C1Token::Asterisk
    } else if c == '/' {
        C1Token::Slash
    } else if c == ',' {
        C1Token::Comma
    } else if c == ';' {
        C1Token::Semicolon
    } else if c == '(' {
        C1Token::LeftParenthesis
    } else if c == ')' {
        C1Token::RightParenthesis
    } else if c == '{' {
        C1Token::LeftBrace
    } else if c == '}' {
        C1Token::RightBrace
    } else {
        C1Token::Error
    }
}

/// The token that starts at `i`: its kind and the index after it.
fn scan_exec(cs: &Vec<char>, i: usize) -> (r: (C1Token, usize))
    requires
        i < cs.len(),
    ensures
        (r.0, r.1 as int) == scan(cs@, i as int),
        i < r.1 <= cs.len(),
{
    let c = cs[i];
    let next = char_at_exec(cs, i + 1);
    if is_digit_char(c) {
        let d = digits_end_exec(cs, i + 1);
        if char_at_exec(cs, d) == Some('.') {
            (C1Token::ConstFloat, digits_end_exec(cs, d + 1))
        } else {
            match exponent_end_exec(cs, d) {
                Some(e) => (C1Token::ConstFloat, e),
                None => (C1Token::ConstInt, d),
            }
        }
    } else if c == '.' {
        if i + 1 < cs.len() && is_digit_char(cs[i + 1]) {
            let d = digits_end_exec(cs, i + 1);
            match exponent_end_exec(cs, d) {
                Some(e) => (C1Token::ConstFloat, e),
                None => (C1Token::ConstFloat, d),
            }
        } else {
            (C1Token::Error, i + 1)
        }
    } else if is_letter_char(c) {
        let e = alnum_end_exec(cs, i + 1);
        (word_kind_exec(cs, i, e), e)
    } else if c == '"' {
        let e = string_body_end_exec(cs, i + 1);
        if char_at_exec(cs, e) == Some('"') {
            (C1Token::ConstString, e + 1)
        } else {
            (C1Token::Error, i + 1)
        }
    } else if c == '=' {
        if next == Some('=') {
            (C1Token::Equal, i + 2)
        } else {
            (C1Token::Assign, i + 1)
        }
    } else if c == '!' {
        if next == Some('=') {
            (C1Token::NotEqual, i + 2)
        } else {
            (C1Token::Error, i + 1)
        }
    } else if c == '<' {
        if next == Some('=') {
            (C1Token::LessEqual, i + 2)
        } else {
            (C1Token::Less, i + 1)
        }
    } else if c == '>' {
        if next == Some('=') {
            (C1Token::GreaterEqual, i + 2)
        } else {
            (C1Token::Greater, i + 1)
        }
    } else if c == '&' {
        if next == Some('&') {
            (C1Token::And, i + 2)
        } else {
            (C1Token::Error, i + 1)
        }
    } else if c == '|' {
        if next == Some('|') {
            (C1Token::Or, i + 2)
        } else {
            (C1Token::Error, i + 1)
        }
    } else {
        (single_char_kind_exec(c), i + 1)
    }
}

proof fn lemma_newlines_bound(cs: Seq<char>, i: int)
    requires
        0 <= i <= cs.len(),
    ensures
        newlines(cs, i) <= i,
    decreases i,
{
    if i > 0 {
        lemma_newlines_bound(cs, i - 1);
    }
}

/// The line number (from 1) at index `j`, given the one at index `i`.
fn line_at(cs: &Vec<char>, i: usize, j: usize, line: usize) -> (r: usize)
    requires
        i <= j <= cs.len(),
        cs.len() < usize::MAX,
        line == newlines(cs@, i as int) + 1,
    ensures
        r == newlines(cs@, j as int) + 1,
{
    let mut k = i;
    let mut l = line;
    while k < j
        invariant
            i <= k <= j <= cs.len(),
            cs.len() < usize::MAX,
            l == newlines(cs@, k as int) + 1,
        decreases j - k,
    {
        proof {
            lemma_newlines_bound(cs@, k as int);
        }
        if cs[k] == '\n' {
            l = l + 1;
        }
        k = k + 1;
    }
    l
}

/// A copy of the characters `i..e`.
fn copy_range(cs: &Vec<char>, i: usize, e: usize) -> (r: Vec<char>)
    requires
        i <= e <= cs.len(),
    ensures
        r@ == cs@.subrange(i as int, e as int),
{
    let mut r: Vec<char> = Vec::new();
    let mut k = i;
    while k < e
        invariant
            i <= k <= e <= cs.len(),
            r@ == cs@.subrange(i as int, k as int),
        decreases e - k,
    {
        r.push(cs[k]);
        k = k + 1;
        assert(r@ =~= cs@.subrange(i as int, k as int));
    }
    r
}

/// The tokens of a sequence of characters.
fn tokenize(cs: &Vec<char>) -> (toks: Vec<TokenData>)
    requires
        cs.len() < usize::MAX,
    ensures
        views(toks@) == lex(cs@),
{
    let mut toks: Vec<TokenData> = Vec::new();
    let mut i: usize = 0;
    let mut line: usize = 1;
    while i < cs.len()
        invariant
            i <= cs.len(),
            cs.len() < usize::MAX,
            line == newlines(cs@, i as int) + 1,
            views(toks@) + lex_from(cs@, i as int) == lex(cs@),
        decreases cs.len() - i,
    {
        match skip_end_exec(cs, i) {
            Some(j) => {
                line = line_at(cs, i, j, line);
                i = j;
            },
            None => {
                let (kind, e) = scan_exec(cs, i);
                let text = copy_range(cs, i, e);
                let tok = TokenData { token: kind, text, line };
                let ghost before = toks@;
                toks.push(tok);
                proof {
                    assert(views(toks@) =~= views(before).push(tok@));
                    assert(views(toks@) + lex_from(cs@, e as int) =~= views(before) + lex_from(
                        cs@,
                        i as int,
                    ));
                }
                line = line_at(cs, i, e, line);
                i = e;
            },
        }
    }
    toks
}

/// The characters of a text.
fn chars_of(text: &str) -> (v: Vec<char>)
    ensures
        v@ == text@,
{
    let mut v: Vec<char> = Vec::new();
    for c in it: text.chars()
        invariant
            v@ == it.seq().take(it.index() as int),
    {
        v.push(c);
    }
    v
}

impl C1Lexer {
    /// The tokens of the text, in order.
    pub closed spec fn lexemes(self) -> Seq<Lexeme> {
        views(self.tokens@)
    }

    /// The index of the current token; the end of the tokens where there is none.
    pub closed spec fn position(self) -> nat {
        self.pos as nat
    }

    /// Splits a text into its tokens; the first token is current.
    pub fn new(text: &str) -> (r: C1Lexer)
        requires
            text@.len() < usize::MAX,
        ensures
            r.lexemes() == lex(text@),
            r.position() == 0,
    {
        let cs = chars_of(text);
        C1Lexer { tokens: tokenize(&cs), pos: 0 }
    }

    /// The kind of the current token, if there is one.
    pub fn current_token(&self) -> (r: Option<C1Token>)
        ensures
            r == kind_at(self.lexemes(), self.position() as int),
    {
        if self.pos < self.tokens.len() {
            Some(self.tokens[self.pos].token)
        } else {
            None
        }
    }

    /// The kind of the token after the current one, if there is one.
    pub fn peek_token(&self) -> (r: Option<C1Token>)
        ensures
            r == kind_at(self.lexemes(), self.position() as int + 1),
    {
        if self.pos < self.tokens.len() && self.tokens.len() - self.pos > 1 {
            Some(self.tokens[self.pos + 1].token)
        } else {
            None
        }
    }

    /// The text of the current token, if there is one.
    pub fn current_text(&self) -> (r: Option<&[char]>)
        ensures
            match r {
                Some(s) => lexeme_at(self.lexemes(), self.position() as int) matches Some(x) && s@
                    == x.text,
                None => lexeme_at(self.lexemes(), self.position() as int) is None,
            },
    {
        if self.pos < self.tokens.len() {
            Some(self.tokens[self.pos].text.as_slice())
        } else {
            None
        }
    }

    /// The text of the token after the current one, if there is one.
    pub fn peek_text(&self) -> (r: Option<&[char]>)
        ensures
            match r {
                Some(s) => lexeme_at(self.lexemes(), self.position() as int + 1) matches Some(x) && s@
                    == x.text,
                None => lexeme_at(self.lexemes(), self.position() as int + 1) is None,
            },
    {
        if self.pos < self.tokens.len() && self.tokens.len() - self.pos > 1 {
            Some(self.tokens[self.pos + 1].text.as_slice())
        } else {
            None
        }
    }

    /// The line of the current token, if there is one.
    pub fn current_line_number(&self) -> (r: Option<usize>)
        ensures
            match r {
                Some(l) => lexeme_at(self.lexemes(), self.position() as int) matches Some(x) && l
                    == x.line,
                None => lexeme_at(self.lexemes(), self.position() as int) is None,
            },
    {
        if self.pos < self.tokens.len() {
            Some(self.tokens[self.pos].line)
        } else {
            None
        }
    }

    /// The line of the token after the current one, if there is one.
    pub fn peek_line_number(&self) -> (r: Option<usize>)
        ensures
            match r {
                Some(l) => lexeme_at(self.lexemes(), self.position() as int + 1) matches Some(x) && l
                    == x.line,
                None => lexeme_at(self.lexemes(), self.position() as int + 1) is None,
            },
    {
        if self.pos < self.tokens.len() && self.tokens.len() - self.pos > 1 {
            Some(self.tokens[self.pos + 1].line)
        } else {
            None
        }
    }

    /// Moves on by one token: the lookahead becomes current. At the end it stays there.
    pub fn eat(&mut self)
        ensures
            final(self).lexemes() == old(self).lexemes(),
            final(self).position() == if old(self).position() < old(self).lexemes().len() {
                old(self).position() + 1
            } else {
                old(self).position()
            },
    {
        if self.pos < self.tokens.len() {
            self.pos = self.pos + 1;
        }
    }
}

} // verus!
