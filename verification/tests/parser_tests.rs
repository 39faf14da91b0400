use lib::parser::C1Parser;

fn mismatch(line: usize, text: &str, expected: &str, found: &str) -> String {
    format!(
        "Token mismatch in line {} on token {:?}, expected {}, was {}",
        line, text, expected, found
    )
}

#[test]
fn empty_function_parses() {
    assert_eq!(C1Parser::parse("int main() {}"), Ok(()));
}

#[test]
fn return_statement_parses() {
    assert_eq!(C1Parser::parse("int main() { return 1; }"), Ok(()));
}

#[test]
fn assignment_with_operators_parses() {
    assert_eq!(C1Parser::parse("void f() { x = 1 + 2 * 3; }"), Ok(()));
    assert_eq!(C1Parser::parse("void f() { x = -a || b && c; }"), Ok(()));
    assert_eq!(C1Parser::parse("void f() { x = y = (a - 1) / 2; }"), Ok(()));
}

#[test]
fn if_statement_parses() {
    assert_eq!(
        C1Parser::parse("void f() { if (x == 1) { y = 2; } }"),
        Ok(())
    );
    assert_eq!(C1Parser::parse("void f() { if (a <= b) return 0; }"), Ok(()));
}

#[test]
fn printf_and_call_statements_parse() {
    assert_eq!(C1Parser::parse("void f() { printf(1); g(); }"), Ok(()));
    assert_eq!(C1Parser::parse("float f() { return g() + 1.5; }"), Ok(()));
}

#[test]
fn several_functions_parse() {
    assert_eq!(
        C1Parser::parse("int a() { return 1; }\nvoid b() { a(); }\nbool c() {}"),
        Ok(())
    );
}

#[test]
fn comments_and_blanks_are_skipped() {
    assert_eq!(
        C1Parser::parse("// header\nint main() { /* body */ return 0; }\n"),
        Ok(())
    );
}

#[test]
fn error_inside_body_is_not_reported() {
    // The statement list's error is dropped; only the closing brace counts.
    assert_eq!(C1Parser::parse("int main() { return 1 }"), Ok(()));
}

#[test]
fn missing_type_keyword_reports_closing_brace() {
    assert_eq!(
        C1Parser::parse("int 5"),
        Err(mismatch(1, "5", "RightBrace", "ConstInt"))
    );
}

#[test]
fn line_numbers_count_line_breaks() {
    assert_eq!(
        C1Parser::parse("int\n\n5"),
        Err(mismatch(3, "5", "RightBrace", "ConstInt"))
    );
}

#[test]
fn missing_expression_reports_at_closing_brace() {
    assert_eq!(
        C1Parser::parse("void f() { return ; }"),
        Err(mismatch(1, ";", "RightBrace", "Semicolon"))
    );
}

#[test]
fn second_function_error_is_reported() {
    assert_eq!(
        C1Parser::parse("int a() {} 7"),
        Err(mismatch(1, "7", "RightBrace", "ConstInt"))
    );
}

#[test]
fn string_token_text_is_quoted_in_messages() {
    assert_eq!(
        C1Parser::parse("int \"a\""),
        Err(mismatch(1, "\"a\"", "RightBrace", "ConstString"))
    );
}

#[test]
fn empty_text_panics() {
    assert_eq!(C1Parser::try_parse(""), None);
    assert_eq!(C1Parser::try_parse("  // nothing\n"), None);
}

#[test]
fn running_out_of_tokens_panics() {
    assert_eq!(C1Parser::try_parse("foo"), None);
    assert_eq!(C1Parser::try_parse("int a() {} b"), None);
    assert_eq!(C1Parser::try_parse("int main() {"), None);
}

#[test]
fn try_parse_agrees_with_parse() {
    for text in ["int main() {}", "int 5", "void f() { return ; }"] {
        assert_eq!(C1Parser::try_parse(text), Some(C1Parser::parse(text)));
    }
}
