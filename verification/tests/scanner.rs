use ax_lang::scanner::{Scanner, Token, TokenType};

fn tokens(source: &str) -> Vec<Token> {
    let mut scanner = Scanner::new(source);
    let mut out = Vec::new();
    loop {
        let t = scanner.scan_tokens();
        let done = t.token_type == TokenType::Eof;
        out.push(t);
        if done {
            break;
        }
    }
    out
}

fn kinds(source: &str) -> Vec<TokenType> {
    tokens(source).into_iter().map(|t| t.token_type).collect()
}

#[test]
fn scans_a_declaration() {
    assert_eq!(
        kinds("print x = 12;"),
        vec![
            TokenType::Print,
            TokenType::Identifier,
            TokenType::Equal,
            TokenType::Number,
            TokenType::Semicolon,
            TokenType::Eof
        ]
    );
}

#[test]
fn keywords_of_the_scanner() {
    assert_eq!(
        kinds("print abs floor ceil Round set fix sqrt is_empty trim rev round let"),
        vec![
            TokenType::Print,
            TokenType::Abs,
            TokenType::Floor,
            TokenType::Ceil,
            TokenType::Round,
            TokenType::SetKw,
            TokenType::Fix,
            TokenType::Sqrt,
            TokenType::IsEmpty,
            TokenType::Trim,
            TokenType::Reverse,
            TokenType::Identifier,
            TokenType::Identifier,
            TokenType::Eof
        ]
    );
}

#[test]
fn single_characters() {
    assert_eq!(
        kinds("(){};,.-+/*"),
        vec![
            TokenType::LeftParen,
            TokenType::RigtParen,
            TokenType::LeftBrace,
            TokenType::RightBrace,
            TokenType::Semicolon,
            TokenType::Comma,
            TokenType::Dot,
            TokenType::Minus,
            TokenType::Plus,
            TokenType::Slash,
            TokenType::Star,
            TokenType::Eof
        ]
    );
}

#[test]
fn two_character_operators() {
    assert_eq!(kinds("<="), vec![TokenType::LesserEqual, TokenType::Eof]);
    assert_eq!(kinds("< ="), vec![TokenType::Lesser, TokenType::Equal, TokenType::Eof]);
    assert_eq!(kinds(">"), vec![TokenType::Greater, TokenType::Eof]);
    assert_eq!(kinds("<"), vec![TokenType::Lesser, TokenType::Eof]);
    assert_eq!(kinds(">= 2"), vec![TokenType::GreaterEqual, TokenType::Number, TokenType::Eof]);
    assert_eq!(kinds("== x"), vec![TokenType::EqualEqual, TokenType::Identifier, TokenType::Eof]);
    assert_eq!(kinds("! x"), vec![TokenType::Bang, TokenType::Identifier, TokenType::Eof]);
    let ts = tokens("!= 1");
    assert_eq!(ts[0].token_type, TokenType::BangEqual);
    assert_eq!(ts[0].start, "!=");
    assert_eq!(ts[0].length, 2);
    assert_eq!(ts[1].token_type, TokenType::Number);
    assert_eq!(ts[1].start, "1");
}

#[test]
fn literals_keep_their_text() {
    let ts = tokens("\"hi\" 12.5 7. x_1");
    assert_eq!(ts[0].token_type, TokenType::String);
    assert_eq!(ts[0].start, "\"hi\"");
    assert_eq!(ts[0].length, 4);
    assert_eq!(ts[1].token_type, TokenType::Number);
    assert_eq!(ts[1].start, "12.5");
    assert_eq!(ts[2].start, "7");
    assert_eq!(ts[3].token_type, TokenType::Dot);
    assert_eq!(ts[4].token_type, TokenType::Identifier);
    assert_eq!(ts[4].start, "x_1");
    assert_eq!(ts[4].length, 3);
}

#[test]
fn unexpected_character_is_an_error_token() {
    let ts = tokens("@");
    assert_eq!(ts[0].token_type, TokenType::Error);
    assert_eq!(ts[0].start, "Unexpected character.");
    assert_eq!(ts[0].length, 21);
    assert_eq!(ts[1].token_type, TokenType::Eof);
}

#[test]
fn lines_and_comments() {
    let ts = tokens("a // note\n\"x\ny\" b");
    assert_eq!(ts[0].line, 1);
    assert_eq!(ts[1].token_type, TokenType::String);
    assert_eq!(ts[1].line, 3);
    assert_eq!(ts[2].line, 3);
    assert_eq!(ts[3].token_type, TokenType::Eof);
}

#[test]
fn end_of_source_is_sticky() {
    let mut scanner = Scanner::new("x");
    assert_eq!(scanner.scan_tokens().token_type, TokenType::Identifier);
    for _ in 0..3 {
        let t = scanner.scan_tokens();
        assert_eq!(t.token_type, TokenType::Eof);
        assert_eq!(t.length, 0);
    }
}

#[test]
fn multibyte_characters_count_bytes() {
    let ts = tokens("\"é\"");
    assert_eq!(ts[0].length, 4);
}

#[test]
fn unterminated_strings_are_detected() {
    let scanner = Scanner::new("a \"open");
    assert!(!scanner.at_unterminated_string());
    assert!(!scanner.scans_safely());
    let mut s2 = Scanner::new("\"closed\" x");
    assert!(s2.scans_safely());
    assert!(!s2.at_unterminated_string());
    s2.scan_tokens();
    assert!(s2.scans_safely());
    let s3 = Scanner::new("  \"open");
    assert!(s3.at_unterminated_string());
}
