use shlang::errors::{
    conversion_error, error_unexpected, error_unexpected_keyword, error_unexpected_token_type, keyword_name_chars,
    to_ascii_lower, to_ascii_upper, token_type_name_chars,
};
use shlang::lexer::Scanner;
use shlang::text::{decimal_chars, parse_int, str_to_chars};
use shlang::tokens::{chars_equal, Keywords, Token, TokenType};

fn chars(s: &str) -> Vec<char> {
    s.chars().collect()
}

fn text(v: &[char]) -> String {
    v.iter().collect()
}

fn scan_all(source: &str) -> Vec<Token> {
    let source = source.to_string();
    let mut scanner = Scanner::init(&source);
    scanner.get_tokens()
}

fn types(tokens: &[Token]) -> Vec<TokenType> {
    tokens.iter().map(|t| t.token_type).collect()
}

#[test]
fn scanner_declaration_tokens() {
    let tokens = scan_all("var x: int = 42");
    assert_eq!(
        types(&tokens),
        vec![
            TokenType::KEYWORD(Keywords::VAR),
            TokenType::IDENTIFIER,
            TokenType::COLON,
            TokenType::KEYWORD(Keywords::INT),
            TokenType::EQ,
            TokenType::INT,
            TokenType::EOF,
        ]
    );
    assert_eq!(text(&tokens[1].value), "x");
    assert_eq!(text(&tokens[5].value), "42");
    assert_eq!(text(&tokens[6].value), "EOF");
}

#[test]
fn scanner_operators_and_lines() {
    let tokens = scan_all("a >= b\n!= <\n== !");
    assert_eq!(
        types(&tokens),
        vec![
            TokenType::IDENTIFIER,
            TokenType::GREATER_EQ,
            TokenType::IDENTIFIER,
            TokenType::INTERJ_EQ,
            TokenType::LESS,
            TokenType::EQ_EQ,
            TokenType::INTERJ,
            TokenType::EOF,
        ]
    );
    assert_eq!(tokens[0].line, 1);
    assert_eq!(tokens[3].line, 2);
    assert_eq!(tokens[5].line, 3);
}

#[test]
fn scanner_float_and_string() {
    let tokens = scan_all("3.25 \"a\\tb\"");
    assert_eq!(types(&tokens), vec![TokenType::FLOAT, TokenType::STRING, TokenType::EOF]);
    assert_eq!(text(&tokens[0].value), "3.25");
    assert_eq!(text(&tokens[1].value), "a\tb");
}

#[test]
fn scanner_skips_comments() {
    let tokens = scan_all("x # note\ny");
    assert_eq!(types(&tokens), vec![TokenType::IDENTIFIER, TokenType::IDENTIFIER, TokenType::EOF]);
    assert_eq!(tokens[1].line, 2);
}

#[test]
fn scanner_missing_quote_error() {
    let tokens = scan_all("\"abc");
    assert_eq!(tokens[0].token_type, TokenType::ERROR);
    assert_eq!(text(&tokens[0].value), "Missing \" at the end of string 1:5");
}

#[test]
fn scanner_invalid_char_error() {
    let tokens = scan_all("a $");
    assert_eq!(tokens[1].token_type, TokenType::ERROR);
    assert_eq!(text(&tokens[1].value), "Invalid char ($) 1:4");
}

#[test]
fn scanner_trailing_comment_cannot_be_scanned() {
    let source = "x # no newline".to_string();
    let mut scanner = Scanner::init(&source);
    assert!(scanner.try_get_tokens().is_none());
    let source = "x # newline\n".to_string();
    let mut scanner = Scanner::init(&source);
    assert_eq!(types(&scanner.try_get_tokens().unwrap()), vec![TokenType::IDENTIFIER, TokenType::EOF]);
}

#[test]
fn scanner_empty_source_is_eof() {
    let tokens = scan_all("");
    assert_eq!(types(&tokens), vec![TokenType::EOF]);
}

#[test]
fn scan_token_one_at_a_time() {
    let source = "fn main".to_string();
    let mut scanner = Scanner::init(&source);
    assert_eq!(scanner.scan_token().token_type, TokenType::KEYWORD(Keywords::FN));
    let t = scanner.scan_token();
    assert_eq!(t.token_type, TokenType::IDENTIFIER);
    assert_eq!(text(&t.value), "main");
    assert_eq!(scanner.scan_token().token_type, TokenType::EOF);
}

#[test]
fn keywords_from_chars() {
    assert_eq!(Keywords::from_chars(&chars("while")), Ok(Keywords::WHILE));
    assert_eq!(Keywords::from_chars(&chars("String")), Ok(Keywords::STRING));
    assert_eq!(Keywords::from_chars(&chars("methods")), Ok(Keywords::METHODS));
    assert_eq!(Keywords::from_chars(&chars("string")), Err(()));
}

#[test]
fn keywords_convert() {
    assert_eq!(Keywords::INT.convert(), Some(TokenType::INT));
    assert_eq!(Keywords::TRUE.convert(), Some(TokenType::BOOL));
    assert_eq!(Keywords::LIST.convert(), Some(TokenType::LIST));
    assert_eq!(Keywords::WHILE.convert(), None);
}

#[test]
fn token_duplicate_and_chars_equal() {
    let t = Token { token_type: TokenType::IDENTIFIER, value: chars("abc"), line: 7 };
    let d = t.duplicate();
    assert_eq!(d, t);
    assert!(chars_equal(&chars("ab"), &chars("ab")));
    assert!(!chars_equal(&chars("ab"), &chars("abc")));
}

#[test]
fn parse_int_cases() {
    assert_eq!(parse_int(&chars("123")), Some(123));
    assert_eq!(parse_int(&chars("-45")), Some(-45));
    assert_eq!(parse_int(&chars("+7")), Some(7));
    assert_eq!(parse_int(&chars("9223372036854775807")), Some(i64::MAX));
    assert_eq!(parse_int(&chars("-9223372036854775808")), Some(i64::MIN));
    assert_eq!(parse_int(&chars("9223372036854775808")), None);
    assert_eq!(parse_int(&chars("")), None);
    assert_eq!(parse_int(&chars("-")), None);
    assert_eq!(parse_int(&chars("1x")), None);
}

#[test]
fn decimal_text() {
    assert_eq!(text(&decimal_chars(0)), "0");
    assert_eq!(text(&decimal_chars(1907)), "1907");
    assert_eq!(text(&decimal_chars(u64::MAX)), "18446744073709551615");
    assert_eq!(str_to_chars("héllo"), chars("héllo"));
}

#[test]
fn ascii_case_changes() {
    assert_eq!(text(&to_ascii_upper(&chars("aBc-é"))), "ABC-é");
    assert_eq!(text(&to_ascii_lower(&chars("AbC-É"))), "abc-É");
}

#[test]
fn error_messages() {
    assert_eq!(text(&conversion_error("Enum Value", "i64")), "ERROR: Unable to convert Enum Value to i64; exit code: 1");
    let t = Token { token_type: TokenType::COMMA, value: chars(","), line: 3 };
    assert_eq!(text(&error_unexpected(&t, "parser")), "Unexpected token (COMMA) in PARSER 3:");
    assert_eq!(
        text(&error_unexpected_token_type(TokenType::KEYWORD(Keywords::IF), 12, "expr")),
        "Unexpected type (KEYWORD(IF)) in EXPR 12:"
    );
    assert_eq!(text(&error_unexpected_keyword(Keywords::INSTANCE(4), 1, "decl")), "Unexpected keyword (INSTANCE(4)) in DECL 1:");
    assert_eq!(text(&keyword_name_chars(Keywords::METHODS)), "METHODS");
    assert_eq!(text(&token_type_name_chars(TokenType::STRUCT(2))), "STRUCT(2)");
}

#[test]
fn end_of_file_repeats_unchanged() {
    let source = "x  \n ".to_string();
    let mut scanner = Scanner::init(&source);
    assert_eq!(scanner.scan_token().token_type, TokenType::IDENTIFIER);
    let first = scanner.scan_token();
    let second = scanner.scan_token();
    assert_eq!(first.token_type, TokenType::EOF);
    assert_eq!(text(&first.value), "EOF");
    assert_eq!(second.token_type, TokenType::EOF);
    assert_eq!(second.value, first.value);
    assert_eq!(second.line, first.line);
}

#[test]
fn tokens_cover_what_is_not_whitespace() {
    let tokens = scan_all("a+b\t(  1 )\n");
    let written: String = tokens[..tokens.len() - 1].iter().map(|t| text(&t.value)).collect();
    assert_eq!(written, "a+b(1)");
}
