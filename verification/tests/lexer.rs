use zest::lexer::token::{Token, TokenType};
use zest::lexer::Lexer;

#[test]
fn test_lexer() {
    let mut lexer = Lexer::new("1 + 2".to_string());
    assert_eq!(
        lexer.lex(),
        vec![
            Token {
                token_type: TokenType::Literal,
                lexeme: "1".to_string(),
                literal: Some("1".to_string()),
            },
            Token {
                token_type: TokenType::Plus,
                lexeme: "+".to_string(),
                literal: None,
            },
            Token {
                token_type: TokenType::Literal,
                lexeme: "2".to_string(),
                literal: Some("2".to_string()),
            },
        ]
    );
}

fn literal(text: &str) -> Token {
    Token { token_type: TokenType::Literal, lexeme: text.to_string(), literal: Some(text.to_string()) }
}

fn operator(token_type: TokenType, text: &str) -> Token {
    Token { token_type, lexeme: text.to_string(), literal: None }
}

#[test]
fn every_operator_is_a_token() {
    let mut lexer = Lexer::new("+-*/();".to_string());
    assert_eq!(
        lexer.lex(),
        vec![
            operator(TokenType::Plus, "+"),
            operator(TokenType::Minus, "-"),
            operator(TokenType::Star, "*"),
            operator(TokenType::Slash, "/"),
            operator(TokenType::LParen, "("),
            operator(TokenType::RParen, ")"),
            operator(TokenType::Semicolon, ";"),
        ]
    );
}

#[test]
fn numbers_take_digits_and_periods() {
    let mut lexer = Lexer::new("12.5 .5\n1.2.3;".to_string());
    assert_eq!(
        lexer.lex(),
        vec![literal("12.5"), literal(".5"), literal("1.2.3"), operator(TokenType::Semicolon, ";")]
    );
}

#[test]
fn lexing_stops_at_the_end_or_at_a_nul() {
    assert_eq!(Lexer::new(String::new()).lex(), vec![]);
    assert_eq!(Lexer::new(" \n ".to_string()).lex(), vec![]);
    let mut lexer = Lexer::new("1\0x".to_string());
    assert!(lexer.lexable());
    assert_eq!(lexer.lex(), vec![literal("1")]);
    assert_eq!(lexer.lex(), vec![]);
}

#[test]
fn only_texts_without_other_characters_are_lexable() {
    assert!(Lexer::new("(1 + 2) * 3;\n".to_string()).lexable());
    assert!(!Lexer::new("1 + x".to_string()).lexable());
    assert!(!Lexer::new("1\t2".to_string()).lexable());
    assert!(!Lexer::new("\"1\"".to_string()).lexable());
}

#[test]
fn tokens_are_described() {
    assert_eq!(literal("12").describe(), "Token{ tt: Literal, lexeme: 12, literal: 12 }");
    assert_eq!(
        operator(TokenType::Star, "*").describe(),
        "Token{ tt: Star, lexeme: *, literal:  }"
    );
    assert_eq!(TokenType::Semicolon.label(), "Semicolon");
    assert_eq!(TokenType::LParen.label(), "LParen");
}
