use std::collections::VecDeque;
use zest::error::ParseError;
use zest::tokeniser::{Token, Tokeniser};

fn scan(text: &str) -> Vec<Token> {
    let mut tokeniser = Tokeniser::new(text.to_string());
    let mut tokens = Vec::new();
    loop {
        let token = tokeniser.tokenise();
        if token == Token::EoF || token == Token::Unknown {
            tokens.push(token);
            return tokens;
        }
        tokens.push(token);
    }
}

fn identifier(text: &str) -> Token {
    Token::Identifier(text.to_string())
}

fn number(text: &str) -> Token {
    Token::Number(text.to_string())
}

#[test]
fn structural_characters_are_tokens_of_their_own() {
    assert_eq!(
        scan("{}().,="),
        vec![
            Token::LBrace,
            Token::RBrace,
            Token::LParen,
            Token::RParen,
            Token::Dot,
            Token::Comma,
            Token::Equal,
            Token::EoF,
        ]
    );
}

#[test]
fn whitespace_is_skipped_and_never_a_token() {
    assert_eq!(
        scan("  \n\t scene \r\n  Demo\u{a0}{\u{2003}}\n"),
        vec![identifier("scene"), identifier("Demo"), Token::LBrace, Token::RBrace, Token::EoF]
    );
    assert_eq!(scan(""), vec![Token::EoF]);
    assert_eq!(scan(" \n "), vec![Token::EoF]);
}

#[test]
fn end_of_input_repeats() {
    let mut tokeniser = Tokeniser::new("a".to_string());
    assert_eq!(tokeniser.tokenise(), identifier("a"));
    assert_eq!(tokeniser.tokenise(), Token::EoF);
    assert_eq!(tokeniser.tokenise(), Token::EoF);
    assert_eq!(tokeniser.tokenise(), Token::EoF);
    assert_eq!(tokeniser.position(), 1);
}

#[test]
fn numbers_keep_their_text() {
    assert_eq!(scan("0 42 -7 3.25 -0.5"), vec![
        number("0"),
        number("42"),
        number("-7"),
        number("3.25"),
        number("-0.5"),
        Token::EoF,
    ]);
}

#[test]
fn a_second_period_ends_a_number() {
    assert_eq!(scan("1.2.3"), vec![number("1.2"), Token::Dot, number("3"), Token::EoF]);
    assert_eq!(scan("5.."), vec![number("5."), Token::Dot, Token::EoF]);
}

#[test]
fn a_bare_minus_is_a_number_without_digits() {
    assert_eq!(scan("-"), vec![number("-"), Token::EoF]);
    assert_eq!(scan("- 1"), vec![number("-"), number("1"), Token::EoF]);
    assert_eq!(scan("-x"), vec![number("-"), identifier("x"), Token::EoF]);
}

#[test]
fn identifiers_are_letters_only() {
    assert_eq!(scan("abc"), vec![identifier("abc"), Token::EoF]);
    assert_eq!(scan("abc1"), vec![identifier("abc"), number("1"), Token::EoF]);
    assert_eq!(scan("a_b"), vec![identifier("a"), Token::Unknown]);
    assert_eq!(scan("Camera cam"), vec![identifier("Camera"), identifier("cam"), Token::EoF]);
}

#[test]
fn strings_keep_their_raw_text() {
    assert_eq!(scan("\"abc\""), vec![Token::String("abc".to_string()), Token::EoF]);
    assert_eq!(scan("\"\""), vec![Token::String(String::new()), Token::EoF]);
    assert_eq!(
        scan("\"a b, c\" x"),
        vec![Token::String("a b, c".to_string()), identifier("x"), Token::EoF]
    );
}

#[test]
fn an_escaped_quote_does_not_close_a_string() {
    assert_eq!(
        scan("\"a\\\"b\" c"),
        vec![Token::String("a\\\"b".to_string()), identifier("c"), Token::EoF]
    );
}

#[test]
fn an_unterminated_string_is_unknown_and_uses_up_the_text() {
    let mut tokeniser = Tokeniser::new("x \"abc".to_string());
    assert_eq!(tokeniser.tokenise(), identifier("x"));
    assert_eq!(tokeniser.tokenise(), Token::Unknown);
    assert_eq!(tokeniser.position(), 6);
    assert_eq!(tokeniser.tokenise(), Token::EoF);
}

#[test]
fn an_unrecognised_character_is_unknown_and_stays() {
    let mut tokeniser = Tokeniser::new("a  #b".to_string());
    assert_eq!(tokeniser.tokenise(), identifier("a"));
    assert_eq!(tokeniser.tokenise(), Token::Unknown);
    assert_eq!(tokeniser.position(), 3);
    assert_eq!(tokeniser.tokenise(), Token::Unknown);
    assert_eq!(tokeniser.position(), 3);
}

#[test]
fn the_parts_of_the_scanner_read_at_the_cursor() {
    let mut tokeniser = Tokeniser::new("  -12.5abc\"s\"".to_string());
    tokeniser.skip_whitespace();
    assert_eq!(tokeniser.position(), 2);
    assert_eq!(tokeniser.number(), number("-12.5"));
    assert_eq!(tokeniser.position(), 7);
    assert_eq!(tokeniser.identifier(), identifier("abc"));
    assert_eq!(tokeniser.position(), 10);
    assert_eq!(tokeniser.string(), Token::String("s".to_string()));
    assert_eq!(tokeniser.position(), 13);
    assert_eq!(tokeniser.make_token(), Token::EoF);
}

#[test]
fn make_token_tells_a_word_by_its_first_character() {
    assert_eq!(Tokeniser::new("7x".to_string()).make_token(), number("7"));
    assert_eq!(Tokeniser::new("-7".to_string()).make_token(), number("-7"));
    assert_eq!(Tokeniser::new("x7".to_string()).make_token(), identifier("x"));
    assert_eq!(Tokeniser::new("\"x\"".to_string()).make_token(), Token::String("x".to_string()));
    assert_eq!(Tokeniser::new("{".to_string()).make_token(), Token::Unknown);
    assert_eq!(Tokeniser::new(" x".to_string()).make_token(), Token::Unknown);
}

#[test]
fn number_and_identifier_read_nothing_where_none_starts() {
    let mut tokeniser = Tokeniser::new("abc".to_string());
    assert_eq!(tokeniser.number(), number(""));
    assert_eq!(tokeniser.position(), 0);
    let mut tokeniser = Tokeniser::new("123".to_string());
    assert_eq!(tokeniser.identifier(), identifier(""));
    assert_eq!(tokeniser.position(), 0);
    assert_eq!(tokeniser.string(), Token::Unknown);
    assert_eq!(tokeniser.position(), 0);
}

#[test]
fn all_tokens_of_a_text() {
    let mut tokeniser = Tokeniser::new("scene X { Sphere s { .radius = 5, } }".to_string());
    let expected: VecDeque<Token> = vec![
        identifier("scene"),
        identifier("X"),
        Token::LBrace,
        identifier("Sphere"),
        identifier("s"),
        Token::LBrace,
        Token::Dot,
        identifier("radius"),
        Token::Equal,
        number("5"),
        Token::Comma,
        Token::RBrace,
        Token::RBrace,
    ]
    .into();
    assert_eq!(tokeniser.tokens(), Ok(expected));
    assert_eq!(tokeniser.tokens(), Ok(VecDeque::new()));
}

#[test]
fn an_unrecognised_character_is_reported_with_its_position() {
    let mut tokeniser = Tokeniser::new("scene X { # }".to_string());
    assert_eq!(
        tokeniser.tokens(),
        Err(ParseError::UnrecognizedCharacter { character: '#', position: 10 })
    );
}

#[test]
fn a_text_that_ends_inside_a_string_ends_too_soon() {
    let mut tokeniser = Tokeniser::new("\"abc".to_string());
    assert_eq!(tokeniser.tokens(), Err(ParseError::UnexpectedEndOfInput));
}

#[test]
fn same_compares_kind_and_text() {
    assert!(identifier("a").same(&identifier("a")));
    assert!(!identifier("a").same(&identifier("b")));
    assert!(!identifier("1").same(&number("1")));
    assert!(Token::Comma.same(&Token::Comma));
    assert!(!Token::Comma.same(&Token::Dot));
    assert_eq!(number("1").clone(), number("1"));
}

#[test]
fn the_line_of_the_cursor_counts_the_line_feeds_read() {
    let mut tokeniser = Tokeniser::new("a\nb\n\n c \"x\ny\" d".to_string());
    assert_eq!(tokeniser.line(), 1);
    assert_eq!(tokeniser.tokenise(), identifier("a"));
    assert_eq!(tokeniser.line(), 1);
    assert_eq!(tokeniser.tokenise(), identifier("b"));
    assert_eq!(tokeniser.line(), 2);
    assert_eq!(tokeniser.tokenise(), identifier("c"));
    assert_eq!(tokeniser.line(), 4);
    assert_eq!(tokeniser.tokenise(), Token::String("x\ny".to_string()));
    assert_eq!(tokeniser.line(), 5);
    assert_eq!(tokeniser.tokenise(), identifier("d"));
    assert_eq!(tokeniser.tokenise(), Token::EoF);
    assert_eq!(tokeniser.line(), 5);
}

#[test]
fn tokens_written_with_a_space_behind_each_are_read_back() {
    let written = vec![
        identifier("scene"),
        identifier("X"),
        Token::LBrace,
        identifier("Light"),
        identifier("sun"),
        Token::LBrace,
        Token::Dot,
        identifier("position"),
        Token::Equal,
        Token::LParen,
        number("-1.5"),
        Token::Comma,
        number("0"),
        Token::Comma,
        Token::String("a \\\" b".to_string()),
        Token::RParen,
        Token::RBrace,
        Token::RBrace,
    ];
    let text = "scene X { Light sun { . position = ( -1.5 , 0 , \"a \\\" b\" ) } } ";
    let read: Vec<Token> = Tokeniser::new(text.to_string()).tokens().unwrap().into();
    assert_eq!(read, written);
}
