use rlox::scanner::Scanner;
use rlox::token::{Literal, TokenType};

#[test]
fn test_grouping_tokens() {
    let mut scanner = Scanner::new("({ })".into());
    let tokens = scanner.scan_tokens();
    assert_eq!(tokens.len(), 5);
    assert_eq!(tokens[0].token_type, TokenType::LeftParen);
    assert_eq!(tokens[2].token_type, TokenType::RightBrace);
}

#[test]
fn test_operator_tokens() {
    let mut scanner = Scanner::new("!= <= == =".into());
    let tokens = scanner.scan_tokens();
    assert_eq!(tokens.len(), 5);
    assert_eq!(tokens[0].token_type, TokenType::BangEqual);
    assert_eq!(tokens[1].token_type, TokenType::LessEqual);
    assert_eq!(tokens[2].token_type, TokenType::EqualEqual);
    assert_eq!(tokens[3].token_type, TokenType::Equal);
}

#[test]
fn test_string_literal_tokens() {
    let mut scanner = Scanner::new("\"hello\"".into());
    let tokens = scanner.scan_tokens();
    assert_eq!(tokens.len(), 2);
    assert_eq!(tokens[0].token_type, TokenType::String);
    assert_eq!(tokens[0].literal, Some(Literal::String("hello".into())));
}

#[test]
fn test_string_multiline_literal_tokens() {
    let mut scanner = Scanner::new("\"hello\nworld\"".into());
    let tokens = scanner.scan_tokens();
    assert_eq!(tokens.len(), 2);
    assert_eq!(tokens[0].token_type, TokenType::String);
    assert_eq!(
        tokens[0].literal,
        Some(Literal::String("hello\nworld".into()))
    );
}

#[test]
fn test_number_literal_tokens() {
    let mut scanner = Scanner::new("123.456 42".into());
    let tokens = scanner.scan_tokens();
    assert_eq!(tokens.len(), 3);
    assert_eq!(tokens[0].token_type, TokenType::Number);
    assert_eq!(tokens[0].literal, Some(Literal::Number("123.456".into())));
    assert_eq!(tokens[1].token_type, TokenType::Number);
    assert_eq!(tokens[1].literal, Some(Literal::Number("42".into())));
}

#[test]
fn test_identifier_tokens() {
    let mut scanner = Scanner::new("foo bar".into());
    let tokens = scanner.scan_tokens();
    assert_eq!(tokens.len(), 3);
    assert_eq!(tokens[0].token_type, TokenType::Identifier);
    assert_eq!(tokens[0].lexeme, "foo");
    assert_eq!(tokens[1].token_type, TokenType::Identifier);
    assert_eq!(tokens[1].lexeme, "bar");
}

#[test]
fn test_keyword_tokens() {
    let mut scanner = Scanner::new("for return var".into());
    let tokens = scanner.scan_tokens();
    assert_eq!(tokens.len(), 4);
    assert_eq!(tokens[0].token_type, TokenType::For);
    assert_eq!(tokens[1].token_type, TokenType::Return);
    assert_eq!(tokens[2].token_type, TokenType::Var);
}

#[test]
fn test_comments_skip() {
    let mut scanner = Scanner::new("// some comment\n () // comment after".into());
    let tokens = scanner.scan_tokens();
    assert_eq!(tokens.len(), 3);
}

#[test]
fn empty_source_gives_only_end_of_input() {
    let mut scanner = Scanner::new(String::new());
    let tokens = scanner.scan_tokens();
    assert_eq!(tokens.len(), 1);
    assert_eq!(tokens[0].token_type, TokenType::Eof);
    assert_eq!(tokens[0].lexeme, "");
    assert_eq!(tokens[0].line, 1);
}

#[test]
fn number_literal_keeps_its_text() {
    for text in ["0", "7", "123", "3.25", "10.0"] {
        let mut scanner = Scanner::new(text.to_string());
        let tokens = scanner.scan_tokens();
        assert_eq!(tokens.len(), 2);
        assert_eq!(tokens[0].token_type, TokenType::Number);
        assert_eq!(tokens[0].lexeme, text);
        assert_eq!(tokens[0].literal, Some(Literal::Number(text.to_string())));
        assert_eq!(tokens[1].token_type, TokenType::Eof);
    }
}

#[test]
fn trailing_dot_is_not_part_of_number() {
    let mut scanner = Scanner::new("12.".into());
    let tokens = scanner.scan_tokens();
    assert_eq!(tokens.len(), 3);
    assert_eq!(tokens[0].lexeme, "12");
    assert_eq!(tokens[1].token_type, TokenType::Dot);
    assert_eq!(tokens[2].token_type, TokenType::Eof);
}

#[test]
fn lines_are_counted() {
    let mut scanner = Scanner::new("1\n2\n\"a\nb\" 3".into());
    let tokens = scanner.scan_tokens();
    assert_eq!(tokens.len(), 5);
    assert_eq!(tokens[0].line, 1);
    assert_eq!(tokens[1].line, 2);
    assert_eq!(tokens[2].line, 4);
    assert_eq!(tokens[2].lexeme, "\"a\nb\"");
    assert_eq!(tokens[3].line, 4);
    assert_eq!(tokens[4].token_type, TokenType::Eof);
    assert_eq!(tokens[4].line, 4);
}

#[test]
fn unterminated_string_and_unknown_characters_are_skipped() {
    let mut scanner = Scanner::new("1 @ # \"open".into());
    let tokens = scanner.scan_tokens();
    assert_eq!(tokens.len(), 2);
    assert_eq!(tokens[0].token_type, TokenType::Number);
    assert_eq!(tokens[1].token_type, TokenType::Eof);
}

#[test]
fn identifiers_may_hold_digits_and_unicode_letters() {
    let mut scanner = Scanner::new("x1 és andy and".into());
    let tokens = scanner.scan_tokens();
    assert_eq!(tokens.len(), 5);
    assert_eq!(tokens[0].token_type, TokenType::Identifier);
    assert_eq!(tokens[0].lexeme, "x1");
    assert_eq!(tokens[1].token_type, TokenType::Identifier);
    assert_eq!(tokens[1].lexeme, "és");
    assert_eq!(tokens[2].token_type, TokenType::Identifier);
    assert_eq!(tokens[3].token_type, TokenType::And);
}

#[test]
fn every_keyword_is_recognised() {
    let mut scanner = Scanner::new(
        "and class else false fun for if nil or print return super this true var while".into(),
    );
    let tokens = scanner.scan_tokens();
    let kinds: Vec<TokenType> = tokens.iter().map(|t| t.token_type).collect();
    assert_eq!(
        kinds,
        vec![
            TokenType::And,
            TokenType::Class,
            TokenType::Else,
            TokenType::False,
            TokenType::Fun,
            TokenType::For,
            TokenType::If,
            TokenType::Nil,
            TokenType::Or,
            TokenType::Print,
            TokenType::Return,
            TokenType::Super,
            TokenType::This,
            TokenType::True,
            TokenType::Var,
            TokenType::While,
            TokenType::Eof,
        ]
    );
}

#[test]
fn single_and_double_character_operators() {
    let mut scanner = Scanner::new("(){},.-+;*/ ! != = == < <= > >=".into());
    let tokens = scanner.scan_tokens();
    let kinds: Vec<TokenType> = tokens.iter().map(|t| t.token_type).collect();
    assert_eq!(
        kinds,
        vec![
            TokenType::LeftParen,
            TokenType::RightParen,
            TokenType::LeftBrace,
            TokenType::RightBrace,
            TokenType::Comma,
            TokenType::Dot,
            TokenType::Minus,
            TokenType::Plus,
            TokenType::Semicolon,
            TokenType::Star,
            TokenType::Slash,
            TokenType::Bang,
            TokenType::BangEqual,
            TokenType::Equal,
            TokenType::EqualEqual,
            TokenType::Less,
            TokenType::LessEqual,
            TokenType::Greater,
            TokenType::GreaterEqual,
            TokenType::Eof,
        ]
    );
    assert_eq!(tokens[12].lexeme, "!=");
}
