use vstd::prelude::*;

use crate::lexer::Lexeme;
use crate::token::{token_name, C1Token};

verus! {

/// What `{:?}` prints for a string with the given characters: std's `Debug`
/// form of `str`, quoted and escaped.
pub uninterp spec fn str_debug(s: Seq<char>) -> Seq<char>;

/// Collects the characters into a `String` and formats it with std's `Debug`
/// for strings (`format!("{:?}", ..)`). The contract claims only that the
/// result is a function of the characters, named `str_debug`; the escaping
/// rules are std's and are not restated here.
#[verifier::external_body]
fn debug_text(text: &[char]) -> (r: String)
    ensures
        r@ == str_debug(text@),
{
    let s: String = text.iter().collect();
    format!("{:?}", s)
}

/// The decimal digit `d` (below ten) as text.
pub open spec fn digit_text(d: nat) -> Seq<char> {
    if d == 0 {
        "0"@
    } else if d == 1 {
        "1"@
    } else if d == 2 {
        "2"@
    } else if d == 3 {
        "3"@
    } else if d == 4 {
        "4"@
    } else if d == 5 {
        "5"@
    } else if d == 6 {
        "6"@
    } else if d == 7 {
        "7"@
    } else if d == 8 {
        "8"@
    } else {
        "9"@
    }
}

/// The decimal form of `n`, as `{:?}` prints an unsigned integer.
pub open spec fn decimal(n: nat) -> Seq<char>
    decreases n,
{
    if n < 10 {
        digit_text(n)
    } else {
        decimal(n / 10) + digit_text(n % 10)
    }
}

fn digit_str(d: usize) -> (r: &'static str)
    requires
        d < 10,
    ensures
        r@ == digit_text(d as nat),
{
    if d == 0 {
        "0"
    } else if d == 1 {
        "1"
    } else if d == 2 {
        "2"
    } else if d == 3 {
        "3"
    } else if d == 4 {
        "4"
    } else if d == 5 {
        "5"
    } else if d == 6 {
        "6"
    } else if d == 7 {
        "7"
    } else if d == 8 {
        "8"
    } else {
        "9"
    }
}

/// Appends the decimal form of `n`.
fn append_decimal(s: &mut String, n: usize)
    ensures
        final(s)@ == old(s)@ + decimal(n as nat),
    decreases n,
{
    if n >= 10 {
        append_decimal(s, n / 10);
    }
    s.append(digit_str(n % 10));
    assert(final(s)@ =~= old(s)@ + decimal(n as nat));
}

/// The message of a token mismatch: the line and text of the token found,
/// the kind expected and the kind found.
pub open spec fn mismatch_message(found: Lexeme, expected: C1Token) -> Seq<char> {
    "Token mismatch in line "@ + decimal(found.line) + " on token "@ + str_debug(found.text)
        + ", expected "@ + token_name(expected) + ", was "@ + token_name(found.kind)
}

/// The message given where no factor starts.
pub open spec fn not_factor_message() -> Seq<char> {
    "Token was not factor"@
}

/// Builds the message of a token mismatch.
pub fn mismatch_text(line: usize, text: &[char], expected: C1Token, found: C1Token) -> (r: String)
    ensures
        r@ == mismatch_message(
            Lexeme { kind: found, text: text@, line: line as nat },
            expected,
        ),
{
    let mut s = String::new();
    s.append("Token mismatch in line ");
    append_decimal(&mut s, line);
    s.append(" on token ");
    let quoted = debug_text(text);
    s.append(quoted.as_str());
    s.append(", expected ");
    s.append(expected.name());
    s.append(", was ");
    s.append(found.name());
    assert(s@ =~= mismatch_message(
        Lexeme { kind: found, text: text@, line: line as nat },
        expected,
    ));
    s
}

/// Builds the message given where no factor starts.
pub fn not_factor_text() -> (r: String)
    ensures
        r@ == not_factor_message(),
{
    String::from_str("Token was not factor")
}

} // verus!
