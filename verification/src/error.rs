//! The ways in which reading a scene description fails.
use crate::tokeniser::{Token, TokenView};
use vstd::prelude::*;

verus! {

/// Why a scene description was refused. Every error ends the parse.
#[derive(Debug, PartialEq, Eq)]
pub enum ParseError {
    /// Another token stood where `expected` had to stand. `position` counts
    /// the tokens read before it. An `Identifier` with empty text as
    /// `expected` stands for an identifier of any text.
    UnexpectedToken { expected: Token, actual: Token, position: usize },
    /// A token was needed behind the end of the input.
    UnexpectedEndOfInput,
    /// The type named in an object header is not one of the object types.
    InvalidObjectType { name: String },
    /// A token that cannot start a value or stand inside a group.
    InvalidExpressionToken { token: Token },
    /// A character with which no token starts, and its index in the text,
    /// counted in characters.
    UnrecognizedCharacter { character: char, position: usize },
}

/// A parse error over the views of its parts.
pub enum ParseErrorView {
    UnexpectedToken { expected: TokenView, actual: TokenView, position: nat },
    UnexpectedEndOfInput,
    InvalidObjectType { name: Seq<char> },
    InvalidExpressionToken { token: TokenView },
    UnrecognizedCharacter { character: char, position: nat },
}

impl View for ParseError {
    type V = ParseErrorView;

    open spec fn view(&self) -> ParseErrorView {
        match self {
            ParseError::UnexpectedToken { expected, actual, position } => {
                ParseErrorView::UnexpectedToken {
                    expected: expected@,
                    actual: actual@,
                    position: *position as nat,
                }
            },
            ParseError::UnexpectedEndOfInput => ParseErrorView::UnexpectedEndOfInput,
            ParseError::InvalidObjectType { name } => ParseErrorView::InvalidObjectType {
                name: name@,
            },
            ParseError::InvalidExpressionToken { token } => ParseErrorView::InvalidExpressionToken {
                token: token@,
            },
            ParseError::UnrecognizedCharacter { character, position } => {
                ParseErrorView::UnrecognizedCharacter {
                    character: *character,
                    position: *position as nat,
                }
            },
        }
    }
}

} // verus!
