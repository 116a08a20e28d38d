use zest::lexer::token::{Token, TokenType};
use zest::lexer::Lexer;
use zest::parser::ast::AST;
use zest::parser::Parser;

fn literal(text: &str) -> Token {
    Token { token_type: TokenType::Literal, lexeme: text.to_string(), literal: Some(text.to_string()) }
}

fn operator(token_type: TokenType, text: &str) -> Token {
    Token { token_type, lexeme: text.to_string(), literal: None }
}

fn constant(text: &str) -> AST {
    AST::Constant { token: literal(text) }
}

fn binary(left: AST, token_type: TokenType, text: &str, right: AST) -> AST {
    AST::Binary { left: Box::new(left), operator: operator(token_type, text), right: Box::new(right) }
}

fn parse(text: &str) -> AST {
    let tokens = Lexer::new(text.to_string()).lex();
    Parser::new(tokens).parse()
}

#[test]
fn a_number_is_a_constant() {
    assert_eq!(parse("42"), constant("42"));
    assert_eq!(parse("42;"), constant("42"));
}

#[test]
fn products_bind_tighter_than_sums() {
    assert_eq!(
        parse("1 + 2 * 3;"),
        binary(
            constant("1"),
            TokenType::Plus,
            "+",
            binary(constant("2"), TokenType::Star, "*", constant("3"))
        )
    );
    assert_eq!(
        parse("1 * 2 + 3"),
        binary(
            binary(constant("1"), TokenType::Star, "*", constant("2")),
            TokenType::Plus,
            "+",
            constant("3")
        )
    );
}

#[test]
fn operators_of_one_level_join_to_the_left() {
    assert_eq!(
        parse("1 - 2 + 3"),
        binary(
            binary(constant("1"), TokenType::Minus, "-", constant("2")),
            TokenType::Plus,
            "+",
            constant("3")
        )
    );
    assert_eq!(
        parse("8 / 4 / 2"),
        binary(
            binary(constant("8"), TokenType::Slash, "/", constant("4")),
            TokenType::Slash,
            "/",
            constant("2")
        )
    );
}

#[test]
fn a_minus_sign_subtracts_from_zero() {
    assert_eq!(parse("-5"), binary(constant("0"), TokenType::Minus, "-", constant("5")));
    assert_eq!(
        parse("2 * --3"),
        binary(
            constant("2"),
            TokenType::Star,
            "*",
            binary(
                constant("0"),
                TokenType::Minus,
                "-",
                binary(constant("0"), TokenType::Minus, "-", constant("3"))
            )
        )
    );
}

#[test]
fn parsing_stops_behind_the_sum() {
    let tokens = Lexer::new("1 + 2; 3".to_string()).lex();
    let mut parser = Parser::new(tokens);
    assert_eq!(parser.parse(), binary(constant("1"), TokenType::Plus, "+", constant("2")));
    assert_eq!(parser.parse(), constant("3"));
}

#[test]
fn parses_tells_whether_a_sum_stands_at_the_cursor() {
    let parses = |text: &str| Parser::new(Lexer::new(text.to_string()).lex()).parses();
    assert!(parses("1"));
    assert!(parses("1 + 2 * -3;"));
    assert!(parses("1 2"));
    assert!(parses("1 )"));
    assert!(!parses(""));
    assert!(!parses(";"));
    assert!(!parses("1 +"));
    assert!(!parses("1 + * 2"));
    assert!(!parses("(1)"));
    assert!(!parses("-"));
    assert!(!parses("2 * ;"));
}
