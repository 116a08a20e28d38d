//! A lexer for arithmetic expressions: numbers, the four operators,
//! parentheses and the semicolon.
pub mod token;

use crate::chars::{digit, is_digit};
use crate::tokeniser::slice;
use token::{token_views, Token, TokenType, TokenView};
use vstd::prelude::*;

verus! {

/// The character at `i`, or NUL behind the end of the text.
pub open spec fn char_at(text: Seq<char>, i: int) -> char {
    if 0 <= i < text.len() {
        text[i]
    } else {
        '\0'
    }
}

/// A character of a number: a digit or a period.
pub open spec fn is_numeral(c: char) -> bool {
    is_digit(c) || c == '.'
}

/// Where the run of digits and periods that starts at `i` ends.
pub open spec fn numeral_end(text: Seq<char>, i: int) -> int
    decreases text.len() - i,
{
    if 0 <= i < text.len() && is_numeral(text[i]) {
        numeral_end(text, i + 1)
    } else {
        i
    }
}

/// The token type that an operator character stands for.
pub open spec fn operator(c: char) -> Option<TokenType> {
    if c == '+' {
        Some(TokenType::Plus)
    } else if c == '-' {
        Some(TokenType::Minus)
    } else if c == '*' {
        Some(TokenType::Star)
    } else if c == '/' {
        Some(TokenType::Slash)
    } else if c == '(' {
        Some(TokenType::LParen)
    } else if c == ')' {
        Some(TokenType::RParen)
    } else if c == ';' {
        Some(TokenType::Semicolon)
    } else {
        None
    }
}

/// The tokens of a text and where their reading stopped.
pub struct Lexed {
    pub tokens: Seq<TokenView>,
    pub end: int,
}

/// The token of an operator: its lexeme is the character itself.
pub open spec fn operator_token(token_type: TokenType, c: char) -> TokenView {
    TokenView { token_type, lexeme: seq![c], literal: None }
}

/// The number between `from` and `to`: its text is lexeme and literal.
pub open spec fn number_token(text: Seq<char>, from: int, to: int) -> TokenView {
    TokenView {
        token_type: TokenType::Literal,
        lexeme: slice(text, from, to),
        literal: Some(slice(text, from, to)),
    }
}

/// The tokens from `i` on. Reading stops at the end of the text or at a
/// NUL character; spaces and line feeds are passed over; any other
/// character that starts no token leaves the text without a result.
pub open spec fn lexing(text: Seq<char>, i: int) -> Option<Lexed>
    decreases text.len() - i,
{
    let c = char_at(text, i);
    if c == '\0' {
        Some(Lexed { tokens: Seq::empty(), end: i })
    } else if c == ' ' || c == '\n' {
        lexing(text, i + 1)
    } else if operator(c) is Some {
        match lexing(text, i + 1) {
            Some(rest) => Some(
                Lexed {
                    tokens: seq![operator_token(operator(c)->Some_0, c)] + rest.tokens,
                    end: rest.end,
                },
            ),
            None => None,
        }
    } else if is_numeral(c) {
        proof {
            lemma_numeral_end(text, i + 1);
        }
        let end = numeral_end(text, i);
        match lexing(text, end) {
            Some(rest) => Some(
                Lexed { tokens: seq![number_token(text, i, end)] + rest.tokens, end: rest.end },
            ),
            None => None,
        }
    } else {
        None
    }
}

/// A run of digits and periods ends at or after where it starts, and
/// inside the text.
pub proof fn lemma_numeral_end(text: Seq<char>, i: int)
    requires
        0 <= i <= text.len(),
    ensures
        i <= numeral_end(text, i) <= text.len(),
    decreases text.len() - i,
{
    if i < text.len() && is_numeral(text[i]) {
        lemma_numeral_end(text, i + 1);
    }
}

/// The text under the lexer and the cursor into it.
pub struct LexerView {
    pub contents: Seq<char>,
    pub position: nat,
}

/// A cursor over the characters of an arithmetic text.
pub struct Lexer {
    contents: Vec<char>,
    position: usize,
}

impl View for Lexer {
    type V = LexerView;

    closed spec fn view(&self) -> LexerView {
        LexerView { contents: self.contents@, position: self.position as nat }
    }
}

impl Lexer {
    /// A lexer at the start of `contents`.
    pub fn new(contents: String) -> (r: Lexer)
        ensures
            r@.contents == contents@,
            r@.position == 0,
    {
        Lexer { contents: crate::chars::chars_of(contents.as_str()), position: 0 }
    }

    /// The character under the cursor, or NUL behind the end of the text.
    fn current(&self) -> (c: char)
        ensures
            c == char_at(self@.contents, self@.position as int),
    {
        if self.position < self.contents.len() {
            self.contents[self.position]
        } else {
            '\0'
        }
    }

    /// Moves the cursor by one character.
    fn advance(&mut self)
        requires
            old(self)@.position < old(self)@.contents.len(),
        ensures
            final(self)@.contents == old(self)@.contents,
            final(self)@.position == old(self)@.position + 1,
    {
        proof {
            vstd::std_specs::vec::axiom_spec_len(&self.contents);
        }
        self.position = self.position + 1;
    }

    /// Whether the text from the cursor on can be read: whether it holds
    /// only what tokens are made of, spaces and line feeds, up to its end
    /// or to the first NUL character.
    pub fn lexable(&self) -> (r: bool)
        ensures
            r == lexing(self@.contents, self@.position as int) is Some,
    {
        let n = self.contents.len();
        let mut i = self.position;
        while i < n && self.contents[i] != '\0'
            invariant
                n == self.contents@.len(),
                lexing(self@.contents, self@.position as int) is Some <==> lexing(
                    self@.contents,
                    i as int,
                ) is Some,
            decreases n - i,
        {
            let c = self.contents[i];
            if !(c == ' ' || c == '\n' || c == '+' || c == '-' || c == '*' || c == '/' || c == '('
                || c == ')' || c == ';' || digit(c) || c == '.') {
                return false;
            }
            proof {
                if is_numeral(c) {
                    lemma_numeral_rest(self.contents@, i as int);
                }
            }
            i = i + 1;
        }
        true
    }

    /// Reads every token up to the end of the text, or to the first NUL
    /// character.
    pub fn lex(&mut self) -> (tokens: Vec<Token>)
        requires
            lexing(old(self)@.contents, old(self)@.position as int) is Some,
        ensures
            final(self)@.contents == old(self)@.contents,
            token_views(tokens@) == lexing(
                old(self)@.contents,
                old(self)@.position as int,
            )->Some_0.tokens,
            final(self)@.position == lexing(
                old(self)@.contents,
                old(self)@.position as int,
            )->Some_0.end,
    {
        let mut tokens = Vec::<Token>::new();
        assert(token_views(tokens@) =~= Seq::empty());
        loop
            invariant
                self@.contents == old(self)@.contents,
                lexing(self@.contents, self@.position as int) is Some,
                lexing(old(self)@.contents, old(self)@.position as int)->Some_0 == (Lexed {
                    tokens: token_views(tokens@) + lexing(
                        self@.contents,
                        self@.position as int,
                    )->Some_0.tokens,
                    end: lexing(self@.contents, self@.position as int)->Some_0.end,
                }),
            decreases self@.contents.len() - self@.position,
        {
            let c = self.current();
            let ghost read = token_views(tokens@);
            let ghost before = self@.position as int;
            if c == '\0' {
                assert(read + Seq::<TokenView>::empty() =~= read);
                return tokens;
            } else if c == ' ' || c == '\n' {
                self.advance();
            } else if c == '+' || c == '-' || c == '*' || c == '/' || c == '(' || c == ')' || c
                == ';' {
                let token_type = if c == '+' {
                    TokenType::Plus
                } else if c == '-' {
                    TokenType::Minus
                } else if c == '*' {
                    TokenType::Star
                } else if c == '/' {
                    TokenType::Slash
                } else if c == '(' {
                    TokenType::LParen
                } else if c == ')' {
                    TokenType::RParen
                } else {
                    TokenType::Semicolon
                };
                let mut lexeme = String::new();
                lexeme.push(c);
                assert(lexeme@ =~= seq![c]);
                let token = Token { token_type, lexeme, literal: None };
                tokens.push(token);
                self.advance();
                proof {
                    let rest = lexing(self@.contents, self@.position as int)->Some_0.tokens;
                    assert(token_views(tokens@) + rest =~= read + (seq![token@] + rest));
                }
            } else {
                let token = self.make_number();
                tokens.push(token);
                proof {
                    lemma_numeral_end(self@.contents, before + 1);
                    let rest = lexing(self@.contents, self@.position as int)->Some_0.tokens;
                    assert(token_views(tokens@) + rest =~= read + (seq![token@] + rest));
                }
            }
        }
    }

    /// Reads a number: the run of digits and periods at the cursor.
    fn make_number(&mut self) -> (token: Token)
        ensures
            final(self)@.contents == old(self)@.contents,
            final(self)@.position == numeral_end(old(self)@.contents, old(self)@.position as int),
            token@ == number_token(
                old(self)@.contents,
                old(self)@.position as int,
                final(self)@.position as int,
            ),
    {
        let n = self.contents.len();
        let start = self.position;
        let mut value = String::new();
        let mut i = start;
        while i < n && (digit(self.contents[i]) || self.contents[i] == '.')
            invariant
                n == self.contents@.len(),
                start <= i,
                start <= n ==> i <= n,
                value@ == slice(self.contents@, start as int, i as int),
                numeral_end(self.contents@, i as int) == numeral_end(self.contents@, start as int),
            decreases n - i,
        {
            let c = self.contents[i];
            value.push(c);
            assert(slice(self.contents@, start as int, i + 1) == slice(
                self.contents@,
                start as int,
                i as int,
            ).push(c));
            i = i + 1;
        }
        self.position = i;
        Token { token_type: TokenType::Literal, lexeme: value.clone(), literal: Some(value) }
    }
}

/// Behind the first character of a number, the rest of it can be read
/// where the whole can, and the other way round.
pub proof fn lemma_numeral_rest(text: Seq<char>, i: int)
    requires
        0 <= i < text.len(),
        is_numeral(text[i]),
        text[i] != '\0',
    ensures
        lexing(text, i) is Some <==> lexing(text, i + 1) is Some,
    decreases text.len() - i,
{
    lemma_numeral_end(text, i + 1);
    let end = numeral_end(text, i);
    assert(end == numeral_end(text, i + 1));
    if i + 1 < text.len() && is_numeral(text[i + 1]) {
        lemma_numeral_rest(text, i + 1);
    } else {
        assert(end == i + 1);
    }
}

} // verus!
