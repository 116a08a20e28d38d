use zest::line_lexer::{Lexer, Token, TokenType};

fn token(token_type: TokenType, value: &str, line: usize) -> Token {
    Token { token_type, value: value.to_string(), line }
}

#[test]
fn tokens_come_one_per_call() {
    let mut lexer = Lexer::new("12 + (3*4);");
    assert_eq!(lexer.next_token(), token(TokenType::Number, "12", 1));
    assert_eq!(lexer.next_token(), token(TokenType::Plus, "", 1));
    assert_eq!(lexer.next_token(), token(TokenType::LParen, "", 1));
    assert_eq!(lexer.next_token(), token(TokenType::Number, "3", 1));
    assert_eq!(lexer.next_token(), token(TokenType::Star, "", 1));
    assert_eq!(lexer.next_token(), token(TokenType::Number, "4", 1));
    assert_eq!(lexer.next_token(), token(TokenType::RParen, "", 1));
    assert_eq!(lexer.next_token(), token(TokenType::Semicolon, "", 1));
    assert_eq!(lexer.next_token(), token(TokenType::EoI, "", 1));
    assert_eq!(lexer.next_token(), token(TokenType::EoI, "", 1));
}

#[test]
fn each_line_feed_counts_one_line() {
    let mut lexer = Lexer::new("1\n\n 2 -\r\n/\n");
    assert_eq!(lexer.next_token(), token(TokenType::Number, "1", 1));
    assert_eq!(lexer.next_token(), token(TokenType::Number, "2", 3));
    assert_eq!(lexer.next_token(), token(TokenType::Minus, "", 3));
    assert_eq!(lexer.next_token(), token(TokenType::Slash, "", 4));
    assert_eq!(lexer.next_token(), token(TokenType::EoI, "", 5));
    assert_eq!(lexer.next_token(), token(TokenType::EoI, "", 5));
}

#[test]
fn strings_are_read_raw() {
    let mut lexer = Lexer::new("\"abc\" \"\" \"a\\\"b\"");
    assert_eq!(lexer.next_token(), token(TokenType::String, "abc", 1));
    assert_eq!(lexer.next_token(), token(TokenType::String, "", 1));
    assert_eq!(lexer.next_token(), token(TokenType::String, "a\\\"b", 1));
    assert_eq!(lexer.next_token(), token(TokenType::EoI, "", 1));
}

#[test]
fn a_string_without_its_closing_quote_is_unknown() {
    let mut lexer = Lexer::new("1 \"abc");
    assert_eq!(lexer.next_token(), token(TokenType::Number, "1", 1));
    assert_eq!(lexer.next_token(), token(TokenType::Unknown, "", 1));
    assert_eq!(lexer.next_token(), token(TokenType::EoI, "", 1));
}

#[test]
fn any_other_character_is_unknown_and_passed_over() {
    let mut lexer = Lexer::new("a.5");
    assert_eq!(lexer.next_token(), token(TokenType::Unknown, "", 1));
    assert_eq!(lexer.next_token(), token(TokenType::Unknown, "", 1));
    assert_eq!(lexer.next_token(), token(TokenType::Number, "5", 1));
    assert_eq!(lexer.next_token(), token(TokenType::EoI, "", 1));
}

#[test]
fn an_empty_text_ends_at_once() {
    let mut lexer = Lexer::new("");
    assert_eq!(lexer.next_token(), token(TokenType::EoI, "", 1));
    let mut lexer = Lexer::new(" \t ");
    assert_eq!(lexer.next_token(), token(TokenType::EoI, "", 1));
}
