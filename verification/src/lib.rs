//! A front end for a small scene-description language.
//!
//! [`tokeniser`] turns text into tokens, [`constructor`] is the state
//! machine that builds the scene tree from them, and [`transpiler`]
//! writes the tree out as source text. What the parser computes is laid
//! down over sequences in [`machine`], and [`grammar`] proves what it makes
//! of texts that follow the grammar.
//!
//! Beside the scene language stand two lexers and a parser for arithmetic
//! expressions: [`lexer`], [`line_lexer`] and [`parser`].
pub mod chars;
pub mod constructor;
pub mod error;
pub mod grammar;
pub mod lexer;
pub mod line_lexer;
pub mod machine;
pub mod parser;
pub mod scene;
pub mod tokeniser;
pub mod transpiler;
pub mod writing;
