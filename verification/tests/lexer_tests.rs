use lib::lexer::C1Lexer;
use lib::token::C1Token;
use lib::token::C1Token::{
    And, Assign, Asterisk, Comma, ConstBoolean, ConstFloat, ConstInt, ConstString, Equal, Error,
    Greater, GreaterEqual, Identifier, KwBoolean, KwDo, KwElse, KwFloat, KwFor, KwIf, KwInt,
    KwPrintf, KwReturn, KwVoid, KwWhile, LeftBrace, LeftParenthesis, Less, LessEqual, Minus,
    NotEqual, Or, Plus, RightBrace, RightParenthesis, Semicolon, Slash,
};

fn kinds(text: &str) -> Vec<C1Token> {
    let mut lexer = C1Lexer::new(text);
    let mut out = Vec::new();
    while let Some(t) = lexer.current_token() {
        out.push(t);
        lexer.eat();
    }
    out
}

fn texts(text: &str) -> Vec<String> {
    let mut lexer = C1Lexer::new(text);
    let mut out = Vec::new();
    while let Some(t) = lexer.current_text() {
        out.push(t.iter().collect());
        lexer.eat();
    }
    out
}

#[test]
fn keywords_and_identifiers() {
    assert_eq!(
        kinds("bool do else float for if int printf return void while true false x1 iff"),
        vec![
            KwBoolean, KwDo, KwElse, KwFloat, KwFor, KwIf, KwInt, KwPrintf, KwReturn, KwVoid,
            KwWhile, ConstBoolean, ConstBoolean, Identifier, Identifier
        ]
    );
}

#[test]
fn operators_take_the_longest_match() {
    assert_eq!(
        kinds("= == != < <= > >= && || + - * / , ; ( ) { }"),
        vec![
            Assign, Equal, NotEqual, Less, LessEqual, Greater, GreaterEqual, And, Or, Plus,
            Minus, Asterisk, Slash, Comma, Semicolon, LeftParenthesis, RightParenthesis,
            LeftBrace, RightBrace
        ]
    );
    assert_eq!(kinds("a==b"), vec![Identifier, Equal, Identifier]);
}

#[test]
fn numbers() {
    assert_eq!(kinds("12 3.5 .5 7. 1e5 2E-3 .5e+2"), vec![ConstInt, ConstFloat, ConstFloat, ConstFloat, ConstFloat, ConstFloat, ConstFloat]);
    assert_eq!(texts("3.5e2"), vec!["3.5", "e2"]);
    assert_eq!(kinds("3.5e2"), vec![ConstFloat, Identifier]);
    assert_eq!(kinds("12e"), vec![ConstInt, Identifier]);
}

#[test]
fn strings_and_errors() {
    assert_eq!(kinds("\"hi there\""), vec![ConstString]);
    assert_eq!(texts("\"hi there\""), vec!["\"hi there\""]);
    assert_eq!(kinds("\"open\nx"), vec![Error, Identifier, Identifier]);
    assert_eq!(kinds("! & | # ."), vec![Error, Error, Error, Error, Error]);
}

#[test]
fn comments_and_whitespace_are_skipped() {
    assert_eq!(kinds("a // b c\n d"), vec![Identifier, Identifier]);
    assert_eq!(kinds("a /* b c */ d"), vec![Identifier, Identifier]);
    assert_eq!(kinds("a /* b * c */"), vec![Identifier, Slash, Asterisk, Identifier, Asterisk, Identifier, Asterisk, Slash]);
    assert_eq!(kinds(" \t\n\x0C"), vec![]);
}

#[test]
fn lines_and_lookahead() {
    let mut lexer = C1Lexer::new("a\nb /* x\n */ c");
    assert_eq!(lexer.current_line_number(), Some(1));
    assert_eq!(lexer.peek_token(), Some(C1Token::Identifier));
    assert_eq!(lexer.peek_line_number(), Some(2));
    lexer.eat();
    assert_eq!(lexer.current_line_number(), Some(2));
    assert_eq!(lexer.peek_text().map(|t| t.iter().collect::<String>()), Some("c".to_string()));
    assert_eq!(lexer.peek_line_number(), Some(3));
    lexer.eat();
    assert_eq!(lexer.peek_token(), None);
    lexer.eat();
    assert_eq!(lexer.current_token(), None);
    assert_eq!(lexer.current_line_number(), None);
    lexer.eat();
    assert_eq!(lexer.current_token(), None);
}

#[test]
fn token_names() {
    assert_eq!(C1Token::LeftParenthesis.name(), "LeftParenthesis");
    assert_eq!(C1Token::KwBoolean.name(), format!("{:?}", C1Token::KwBoolean));
}
