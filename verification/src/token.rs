use vstd::prelude::*;

verus! {

/// The kinds of token of the C1 language.
#[derive(Debug, Clone, Copy, PartialEq, Eq, Structural)]
pub enum C1Token {
    KwBoolean,
    KwDo,
    KwElse,
    KwFloat,
    KwFor,
    KwIf,
    KwInt,
    KwPrintf,
    KwReturn,
    KwVoid,
    KwWhile,
    Plus,
    Minus,
    Asterisk,
    Slash,
    Assign,
    Equal,
    NotEqual,
    Less,
    Greater,
    LessEqual,
    GreaterEqual,
    And,
    Or,
    Comma,
    Semicolon,
    LeftParenthesis,
    RightParenthesis,
    LeftBrace,
    RightBrace,
    ConstInt,
    ConstFloat,
    ConstBoolean,
    ConstString,
    Identifier,
    Error,
}

/// The name of a token kind, as its `Debug` form prints it.
pub open spec fn token_name(t: C1Token) -> Seq<char> {
    match t {
        C1Token::KwBoolean => "KwBoolean"@,
        C1Token::KwDo => "KwDo"@,
        C1Token::KwElse => "KwElse"@,
        C1Token::KwFloat => "KwFloat"@,
        C1Token::KwFor => "KwFor"@,
        C1Token::KwIf => "KwIf"@,
        C1Token::KwInt => "KwInt"@,
        C1Token::KwPrintf => "KwPrintf"@,
        C1Token::KwReturn => "KwReturn"@,
        C1Token::KwVoid => "KwVoid"@,
        C1Token::KwWhile => "KwWhile"@,
        C1Token::Plus => "Plus"@,
        C1Token::Minus => "Minus"@,
        C1Token::Asterisk => "Asterisk"@,
        C1Token::Slash => "Slash"@,
        C1Token::Assign => "Assign"@,
        C1Token::Equal => "Equal"@,
        C1Token::NotEqual => "NotEqual"@,
        C1Token::Less => "Less"@,
        C1Token::Greater => "Greater"@,
        C1Token::LessEqual => "LessEqual"@,
        C1Token::GreaterEqual => "GreaterEqual"@,
        C1Token::And => "And"@,
        C1Token::Or => "Or"@,
        C1Token::Comma => "Comma"@,
        C1Token::Semicolon => "Semicolon"@,
        C1Token::LeftParenthesis => "LeftParenthesis"@,
        C1Token::RightParenthesis => "RightParenthesis"@,
        C1Token::LeftBrace => "LeftBrace"@,
        C1Token::RightBrace => "RightBrace"@,
        C1Token::ConstInt => "ConstInt"@,
        C1Token::ConstFloat => "ConstFloat"@,
        C1Token::ConstBoolean => "ConstBoolean"@,
        C1Token::ConstString => "ConstString"@,
        C1Token::Identifier => "Identifier"@,
        C1Token::Error => "Error"@,
    }
}

impl C1Token {
    /// The name of this token kind.
    pub fn name(&self) -> (r: &'static str)
        ensures
            r@ == token_name(*self),
    {
        match self {
            C1Token::KwBoolean => "KwBoolean",
            C1Token::KwDo => "KwDo",
            C1Token::KwElse => "KwElse",
            C1Token::KwFloat => "KwFloat",
            C1Token::KwFor => "KwFor",
            C1Token::KwIf => "KwIf",
            C1Token::KwInt => "KwInt",
            C1Token::KwPrintf => "KwPrintf",
            C1Token::KwReturn => "KwReturn",
            C1Token::KwVoid => "KwVoid",
            C1Token::KwWhile => "KwWhile",
            C1Token::Plus => "Plus",
            C1Token::Minus => "Minus",
            C1Token::Asterisk => "Asterisk",
            C1Token::Slash => "Slash",
            C1Token::Assign => "Assign",
            C1Token::Equal => "Equal",
            C1Token::NotEqual => "NotEqual",
            C1Token::Less => "Less",
            C1Token::Greater => "Greater",
            C1Token::LessEqual => "LessEqual",
            C1Token::GreaterEqual => "GreaterEqual",
            C1Token::And => "And",
            C1Token::Or => "Or",
            C1Token::Comma => "Comma",
            C1Token::Semicolon => "Semicolon",
            C1Token::LeftParenthesis => "LeftParenthesis",
            C1Token::RightParenthesis => "RightParenthesis",
            C1Token::LeftBrace => "LeftBrace",
            C1Token::RightBrace => "RightBrace",
            C1Token::ConstInt => "ConstInt",
            C1Token::ConstFloat => "ConstFloat",
            C1Token::ConstBoolean => "ConstBoolean",
            C1Token::ConstString => "ConstString",
            C1Token::Identifier => "Identifier",
            C1Token::Error => "Error",
        }
    }
}

} // verus!
