//! The tokens of arithmetic expressions.
use vstd::prelude::*;

verus! {

/// The kinds of token of an arithmetic expression.
#[derive(Debug, PartialEq, Eq, Clone, Copy, Structural)]
pub enum TokenType {
    Literal,
    Plus,
    Minus,
    Star,
    Slash,
    LParen,
    RParen,
    Semicolon,
}

/// A token with the text it was read from. A literal carries its value as
/// text too.
#[derive(Debug, PartialEq)]
pub struct Token {
    pub token_type: TokenType,
    pub lexeme: String,
    pub literal: Option<String>,
}

/// A token with its texts as sequences of characters.
pub struct TokenView {
    pub token_type: TokenType,
    pub lexeme: Seq<char>,
    pub literal: Option<Seq<char>>,
}

impl View for Token {
    type V = TokenView;

    open spec fn view(&self) -> TokenView {
        TokenView {
            token_type: self.token_type,
            lexeme: self.lexeme@,
            literal: match self.literal {
                Some(text) => Some(text@),
                None => None,
            },
        }
    }
}

impl Clone for Token {
    fn clone(&self) -> (r: Self)
        ensures
            r == *self,
    {
        Token {
            token_type: self.token_type,
            lexeme: self.lexeme.clone(),
            literal: match &self.literal {
                Some(text) => Some(text.clone()),
                None => None,
            },
        }
    }
}

/// The views of a sequence of tokens, in order.
pub open spec fn token_views(tokens: Seq<Token>) -> Seq<TokenView> {
    Seq::new(tokens.len(), |i: int| tokens[i]@)
}

/// The name of a token type.
pub open spec fn type_label(token_type: TokenType) -> Seq<char> {
    match token_type {
        TokenType::Literal => "Literal"@,
        TokenType::Plus => "Plus"@,
        TokenType::Minus => "Minus"@,
        TokenType::Star => "Star"@,
        TokenType::Slash => "Slash"@,
        TokenType::LParen => "LParen"@,
        TokenType::RParen => "RParen"@,
        TokenType::Semicolon => "Semicolon"@,
    }
}

/// A token written out: its type, its lexeme and its literal, which is
/// left empty where there is none.
pub open spec fn token_text(token: TokenView) -> Seq<char> {
    "Token{ tt: "@ + type_label(token.token_type) + ", lexeme: "@ + token.lexeme + ", literal: "@
        + match token.literal {
        Some(text) => text,
        None => Seq::empty(),
    } + " }"@
}

impl TokenType {
    /// The name of the token type, as text.
    pub fn label(&self) -> (r: &'static str)
        ensures
            r@ == type_label(*self),
    {
        match self {
            TokenType::Literal => "Literal",
            TokenType::Plus => "Plus",
            TokenType::Minus => "Minus",
            TokenType::Star => "Star",
            TokenType::Slash => "Slash",
            TokenType::LParen => "LParen",
            TokenType::RParen => "RParen",
            TokenType::Semicolon => "Semicolon",
        }
    }
}

impl Token {
    /// The token written out for a reader.
    pub fn describe(&self) -> (r: String)
        ensures
            r@ == token_text(self@),
    {
        let mut text = "Token{ tt: ".to_owned();
        text.append(self.token_type.label());
        text.append(", lexeme: ");
        text.append(self.lexeme.as_str());
        text.append(", literal: ");
        match &self.literal {
            Some(literal) => {
                text.append(literal.as_str());
            },
            None => {
                assert(text@ + Seq::<char>::empty() =~= text@);
            },
        }
        text.append(" }");
        text
    }
}

} // verus!
