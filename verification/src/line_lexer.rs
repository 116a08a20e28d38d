//! A lexer that hands out one token per call and knows on which line each
//! token stands: numbers, strings, the four operators, parentheses and
//! the semicolon.
use crate::chars::{blank, capped, chars_of, digit, is_blank, is_digit, line_feeds};
use crate::tokeniser::{closing_quote, slice};
use vstd::prelude::*;

verus! {

/// The kinds of token, with the end of the input and what is no token
/// among them.
#[derive(Debug, PartialEq, Eq, Clone, Copy, Structural)]
pub enum TokenType {
    Number,
    String,
    Plus,
    Minus,
    Star,
    Slash,
    LParen,
    RParen,
    Semicolon,
    EoI,
    Unknown,
}

/// A token, its text where it has one, and the line on which it stands.
#[derive(Debug, PartialEq, Eq)]
pub struct Token {
    pub token_type: TokenType,
    pub value: String,
    pub line: usize,
}

/// A token with its text as a sequence of characters.
pub struct TokenView {
    pub token_type: TokenType,
    pub value: Seq<char>,
    pub line: nat,
}

impl View for Token {
    type V = TokenView;

    open spec fn view(&self) -> TokenView {
        TokenView { token_type: self.token_type, value: self.value@, line: self.line as nat }
    }
}

/// Where the run of blanks that starts at `i` ends.
pub open spec fn blanks_end(text: Seq<char>, i: int) -> int
    decreases text.len() - i,
{
    if 0 <= i < text.len() && is_blank(text[i]) {
        blanks_end(text, i + 1)
    } else {
        i
    }
}

/// Where the run of digits that starts at `i` ends.
pub open spec fn figures_end(text: Seq<char>, i: int) -> int
    decreases text.len() - i,
{
    if 0 <= i < text.len() && is_digit(text[i]) {
        figures_end(text, i + 1)
    } else {
        i
    }
}

/// The token type of an operator character.
pub open spec fn operator(c: char) -> Option<TokenType> {
    if c == '+' {
        Some(TokenType::Plus)
    } else if c == '-' {
        Some(TokenType::Minus)
    } else if c == '*' {
        Some(TokenType::Star)
    } else if c == '/' {
        Some(TokenType::Slash)
    } else if c == ';' {
        Some(TokenType::Semicolon)
    } else if c == '(' {
        Some(TokenType::LParen)
    } else if c == ')' {
        Some(TokenType::RParen)
    } else {
        None
    }
}

/// A token without text.
pub open spec fn bare(token_type: TokenType, line: nat) -> TokenView {
    TokenView { token_type, value: Seq::empty(), line }
}

/// A token read from the text, and the position behind it.
pub struct Read {
    pub token: TokenView,
    pub next: int,
}

/// The number at `i`: a run of digits. Where no digit stands at `i`,
/// nothing is read, and the token is `Unknown` with the character there as
/// its text.
pub open spec fn number_at(text: Seq<char>, i: int, line: nat) -> Read {
    if 0 <= i < text.len() && is_digit(text[i]) {
        Read {
            token: TokenView {
                token_type: TokenType::Number,
                value: slice(text, i, figures_end(text, i)),
                line,
            },
            next: figures_end(text, i),
        }
    } else if 0 <= i < text.len() {
        Read {
            token: TokenView { token_type: TokenType::Unknown, value: seq![text[i]], line },
            next: i,
        }
    } else {
        Read { token: bare(TokenType::EoI, line), next: i }
    }
}

/// The string whose opening quote stands at `i`: the raw characters up to
/// the first quote that no backslash stands before. A text that ends
/// before that quote is used up and gives `Unknown`. Where no quote stands
/// at `i`, nothing is read, and the token is `Unknown` with the character
/// there as its text.
pub open spec fn string_at(text: Seq<char>, i: int, line: nat) -> Read {
    if 0 <= i < text.len() && text[i] == '"' {
        let close = closing_quote(text, i + 1);
        if close < text.len() {
            Read {
                token: TokenView {
                    token_type: TokenType::String,
                    value: slice(text, i + 1, close),
                    line,
                },
                next: close + 1,
            }
        } else {
            Read { token: bare(TokenType::Unknown, line), next: text.len() as int }
        }
    } else if 0 <= i < text.len() {
        Read {
            token: TokenView { token_type: TokenType::Unknown, value: seq![text[i]], line },
            next: i,
        }
    } else {
        Read { token: bare(TokenType::EoI, line), next: i }
    }
}

/// The next token at or after `i`, where `line` is the line of `i`:
/// blanks are passed over, and each line feed among them counts one line.
/// An operator is one character; a digit starts a number and a quote a
/// string; any other character is read as `Unknown`. At the end of the
/// text the token is `EoI`, again and again.
pub open spec fn token_at(text: Seq<char>, i: int, line: nat) -> Read {
    let start = blanks_end(text, i);
    let line = capped(line + line_feeds(text, i, start));
    if 0 <= start < text.len() {
        let c = text[start];
        if operator(c) is Some {
            Read { token: bare(operator(c)->Some_0, line), next: start + 1 }
        } else if is_digit(c) {
            number_at(text, start, line)
        } else if c == '"' {
            string_at(text, start, line)
        } else {
            Read { token: bare(TokenType::Unknown, line), next: start + 1 }
        }
    } else {
        Read { token: bare(TokenType::EoI, line), next: start }
    }
}

/// The text under the lexer, the cursor into it and the line of the
/// cursor.
pub struct LexerView {
    pub contents: Seq<char>,
    pub position: nat,
    pub line: nat,
}

/// A cursor over a buffer of characters that counts the lines it passes.
pub struct Lexer {
    contents: Vec<char>,
    position: usize,
    line: usize,
}

impl View for Lexer {
    type V = LexerView;

    closed spec fn view(&self) -> LexerView {
        LexerView {
            contents: self.contents@,
            position: self.position as nat,
            line: self.line as nat,
        }
    }
}

impl Lexer {
    /// A lexer at the start of `contents`, on line 1.
    pub fn new(contents: &str) -> (r: Lexer)
        ensures
            r@.contents == contents@,
            r@.position == 0,
            r@.line == 1,
    {
        Lexer { contents: chars_of(contents), position: 0, line: 1 }
    }

    /// The next token; the cursor moves behind it, and the line of the
    /// cursor is the line of the token.
    pub fn next_token(&mut self) -> (token: Token)
        ensures
            final(self)@.contents == old(self)@.contents,
            token@ == token_at(
                old(self)@.contents,
                old(self)@.position as int,
                old(self)@.line,
            ).token,
            final(self)@.position == token_at(
                old(self)@.contents,
                old(self)@.position as int,
                old(self)@.line,
            ).next,
            final(self)@.line == token@.line,
    {
        let n = self.contents.len();
        let ghost from = self.position as int;
        let ghost lines: nat = self.line as nat;
        let mut i = self.position;
        let mut line = self.line;
        while i < n && blank(self.contents[i])
            invariant
                n == self.contents@.len(),
                from <= i,
                lines == old(self)@.line,
                from == old(self)@.position,
                self.contents == old(self).contents,
                blanks_end(self.contents@, i as int) == blanks_end(self.contents@, from),
                line == capped(lines + line_feeds(self.contents@, from, i as int)),
            decreases n - i,
        {
            if self.contents[i] == '\n' && line < usize::MAX {
                line = line + 1;
            }
            i = i + 1;
        }
        self.position = i;
        self.line = line;
        if i >= n {
            return self.empty_token(TokenType::EoI);
        }
        let c = self.contents[i];
        let token_type = if c == '+' {
            TokenType::Plus
        } else if c == '-' {
            TokenType::Minus
        } else if c == '*' {
            TokenType::Star
        } else if c == '/' {
            TokenType::Slash
        } else if c == ';' {
            TokenType::Semicolon
        } else if c == '(' {
            TokenType::LParen
        } else if c == ')' {
            TokenType::RParen
        } else {
            let number = self.check_number();
            if number.token_type == TokenType::Number {
                return number;
            }
            let string = self.check_string();
            if string.token_type == TokenType::String || c == '"' {
                return string;
            }
            TokenType::Unknown
        };
        let token = self.empty_token(token_type);
        self.position = i + 1;
        token
    }

    /// A token without text on the line of the cursor.
    fn empty_token(&self, token_type: TokenType) -> (token: Token)
        ensures
            token@ == bare(token_type, self@.line),
    {
        Token { token_type, value: String::new(), line: self.line }
    }

    /// Reads a number if a digit stands at the cursor.
    fn check_number(&mut self) -> (token: Token)
        ensures
            final(self)@.contents == old(self)@.contents,
            final(self)@.line == old(self)@.line,
            token@ == number_at(
                old(self)@.contents,
                old(self)@.position as int,
                old(self)@.line,
            ).token,
            final(self)@.position == number_at(
                old(self)@.contents,
                old(self)@.position as int,
                old(self)@.line,
            ).next,
    {
        let n = self.contents.len();
        let start = self.position;
        if start >= n {
            return self.empty_token(TokenType::EoI);
        }
        let c = self.contents[start];
        if !digit(c) {
            let mut value = String::new();
            value.push(c);
            assert(value@ =~= seq![c]);
            return Token { token_type: TokenType::Unknown, value, line: self.line };
        }
        let mut result = String::new();
        let mut i = start;
        while i < n && digit(self.contents[i])
            invariant
                n == self.contents@.len(),
                start <= i <= n,
                result@ == slice(self.contents@, start as int, i as int),
                figures_end(self.contents@, i as int) == figures_end(
                    self.contents@,
                    start as int,
                ),
            decreases n - i,
        {
            let c = self.contents[i];
            result.push(c);
            assert(slice(self.contents@, start as int, i + 1) == slice(
                self.contents@,
                start as int,
                i as int,
            ).push(c));
            i = i + 1;
        }
        self.position = i;
        Token { token_type: TokenType::Number, value: result, line: self.line }
    }

    /// Reads a string if a quote stands at the cursor.
    fn check_string(&mut self) -> (token: Token)
        ensures
            final(self)@.contents == old(self)@.contents,
            final(self)@.line == old(self)@.line,
            token@ == string_at(
                old(self)@.contents,
                old(self)@.position as int,
                old(self)@.line,
            ).token,
            final(self)@.position == string_at(
                old(self)@.contents,
                old(self)@.position as int,
                old(self)@.line,
            ).next,
    {
        let n = self.contents.len();
        if self.position >= n {
            return self.empty_token(TokenType::EoI);
        }
        let c = self.contents[self.position];
        if c != '"' {
            let mut value = String::new();
            value.push(c);
            assert(value@ =~= seq![c]);
            return Token { token_type: TokenType::Unknown, value, line: self.line };
        }
        let start = self.position + 1;
        let mut result = String::new();
        let mut i = start;
        while i < n && !(self.contents[i] == '"' && self.contents[i - 1] != '\\')
            invariant
                n == self.contents@.len(),
                1 <= start <= i <= n,
                result@ == slice(self.contents@, start as int, i as int),
                closing_quote(self.contents@, i as int) == closing_quote(
                    self.contents@,
                    start as int,
                ),
            decreases n - i,
        {
            let c = self.contents[i];
            result.push(c);
            assert(slice(self.contents@, start as int, i + 1) == slice(
                self.contents@,
                start as int,
                i as int,
            ).push(c));
            i = i + 1;
        }
        if i < n {
            self.position = i + 1;
            Token { token_type: TokenType::String, value: result, line: self.line }
        } else {
            self.position = n;
            self.empty_token(TokenType::Unknown)
        }
    }
}

} // verus!
