//! The scanner: turns the characters of a scene description into tokens.
use crate::chars::{
    capped, chars_of, digit, is_digit, is_letter, is_space, letter, line_feeds, space,
};
use crate::error::{ParseError, ParseErrorView};
use std::collections::VecDeque;
use vstd::prelude::*;

verus! {

/// The atomic lexical unit. Numbers and strings keep their literal text.
#[derive(Debug, PartialEq, Eq)]
pub enum Token {
    Identifier(String),
    RBrace,
    LBrace,
    RParen,
    LParen,
    Dot,
    Comma,
    Equal,
    Number(String),
    String(String),
    EoF,
    Unknown,
}

/// A token with its text as a sequence of characters.
pub enum TokenView {
    Identifier(Seq<char>),
    RBrace,
    LBrace,
    RParen,
    LParen,
    Dot,
    Comma,
    Equal,
    Number(Seq<char>),
    String(Seq<char>),
    EoF,
    Unknown,
}

impl View for Token {
    type V = TokenView;

    open spec fn view(&self) -> TokenView {
        match self {
            Token::Identifier(s) => TokenView::Identifier(s@),
            Token::RBrace => TokenView::RBrace,
            Token::LBrace => TokenView::LBrace,
            Token::RParen => TokenView::RParen,
            Token::LParen => TokenView::LParen,
            Token::Dot => TokenView::Dot,
            Token::Comma => TokenView::Comma,
            Token::Equal => TokenView::Equal,
            Token::Number(s) => TokenView::Number(s@),
            Token::String(s) => TokenView::String(s@),
            Token::EoF => TokenView::EoF,
            Token::Unknown => TokenView::Unknown,
        }
    }
}

impl Clone for Token {
    fn clone(&self) -> (r: Self)
        ensures
            r == *self,
    {
        match self {
            Token::Identifier(s) => Token::Identifier(s.clone()),
            Token::RBrace => Token::RBrace,
            Token::LBrace => Token::LBrace,
            Token::RParen => Token::RParen,
            Token::LParen => Token::LParen,
            Token::Dot => Token::Dot,
            Token::Comma => Token::Comma,
            Token::Equal => Token::Equal,
            Token::Number(s) => Token::Number(s.clone()),
            Token::String(s) => Token::String(s.clone()),
            Token::EoF => Token::EoF,
            Token::Unknown => Token::Unknown,
        }
    }
}

impl Token {
    /// Whether two tokens are of the same kind and carry the same text.
    pub fn same(&self, other: &Token) -> (r: bool)
        ensures
            r == (self@ == other@),
    {
        match (self, other) {
            (Token::Identifier(a), Token::Identifier(b)) => *a == *b,
            (Token::Number(a), Token::Number(b)) => *a == *b,
            (Token::String(a), Token::String(b)) => *a == *b,
            (Token::RBrace, Token::RBrace) => true,
            (Token::LBrace, Token::LBrace) => true,
            (Token::RParen, Token::RParen) => true,
            (Token::LParen, Token::LParen) => true,
            (Token::Dot, Token::Dot) => true,
            (Token::Comma, Token::Comma) => true,
            (Token::Equal, Token::Equal) => true,
            (Token::EoF, Token::EoF) => true,
            (Token::Unknown, Token::Unknown) => true,
            _ => false,
        }
    }
}

/// The characters of `text` from `from` up to `to`; empty where the two do
/// not bound a part of the text.
pub open spec fn slice(text: Seq<char>, from: int, to: int) -> Seq<char> {
    if 0 <= from <= to <= text.len() {
        text.subrange(from, to)
    } else {
        Seq::empty()
    }
}

/// Where the run of whitespace that starts at `i` ends.
pub open spec fn spaces_end(text: Seq<char>, i: int) -> int
    decreases text.len() - i,
{
    if 0 <= i < text.len() && is_space(text[i]) {
        spaces_end(text, i + 1)
    } else {
        i
    }
}

/// Where the run of letters that starts at `i` ends.
pub open spec fn letters_end(text: Seq<char>, i: int) -> int
    decreases text.len() - i,
{
    if 0 <= i < text.len() && is_letter(text[i]) {
        letters_end(text, i + 1)
    } else {
        i
    }
}

/// Where the digits of a number end: digits are taken greedily, and one
/// period among them unless `period_seen` says it was taken before `i`.
pub open spec fn digits_end(text: Seq<char>, i: int, period_seen: bool) -> int
    decreases text.len() - i,
{
    if 0 <= i < text.len() && is_digit(text[i]) {
        digits_end(text, i + 1, period_seen)
    } else if 0 <= i < text.len() && text[i] == '.' && !period_seen {
        digits_end(text, i + 1, true)
    } else {
        i
    }
}

/// Whether the character at `i` is a quote that no backslash stands before.
pub open spec fn closes_string(text: Seq<char>, i: int) -> bool {
    0 <= i < text.len() && text[i] == '"' && !(i > 0 && text[i - 1] == '\\')
}

/// The first closing quote at or after `i`, or the end of the text.
pub open spec fn closing_quote(text: Seq<char>, i: int) -> int
    decreases text.len() - i,
{
    if 0 <= i < text.len() && !closes_string(text, i) {
        closing_quote(text, i + 1)
    } else {
        i
    }
}

/// A token read from the text and the position after it.
pub struct Scan {
    pub token: TokenView,
    pub next: int,
}

/// The token that a single structural character stands for.
pub open spec fn punctuation(c: char) -> Option<TokenView> {
    if c == '{' {
        Some(TokenView::LBrace)
    } else if c == '}' {
        Some(TokenView::RBrace)
    } else if c == '(' {
        Some(TokenView::LParen)
    } else if c == ')' {
        Some(TokenView::RParen)
    } else if c == '.' {
        Some(TokenView::Dot)
    } else if c == ',' {
        Some(TokenView::Comma)
    } else if c == '=' {
        Some(TokenView::Equal)
    } else {
        None
    }
}

/// The number at `i`: an optional minus sign, then digits with at most one
/// period among them. Its text is kept as written.
pub open spec fn number_at(text: Seq<char>, i: int) -> Scan {
    let digits = if 0 <= i < text.len() && text[i] == '-' {
        i + 1
    } else {
        i
    };
    let end = digits_end(text, digits, false);
    Scan { token: TokenView::Number(slice(text, i, end)), next: end }
}

/// The identifier at `i`: the run of letters that starts there.
pub open spec fn identifier_at(text: Seq<char>, i: int) -> Scan {
    let end = letters_end(text, i);
    Scan { token: TokenView::Identifier(slice(text, i, end)), next: end }
}

/// The string whose opening quote stands at `i`: the raw characters up to
/// the closing quote. A text that ends before the closing quote gives
/// `Unknown` and is used up; where no quote stands at `i`, nothing is read.
pub open spec fn string_at(text: Seq<char>, i: int) -> Scan {
    if 0 <= i < text.len() && text[i] == '"' {
        let close = closing_quote(text, i + 1);
        if close < text.len() {
            Scan { token: TokenView::String(slice(text, i + 1, close)), next: close + 1 }
        } else {
            Scan { token: TokenView::Unknown, next: text.len() as int }
        }
    } else {
        Scan { token: TokenView::Unknown, next: i }
    }
}

/// The number, identifier or string that starts at `i`, told by its first
/// character. Any other character gives `Unknown` and is not read.
pub open spec fn word_at(text: Seq<char>, i: int) -> Scan {
    if 0 <= i < text.len() {
        let c = text[i];
        if is_digit(c) || c == '-' {
            number_at(text, i)
        } else if is_letter(c) {
            identifier_at(text, i)
        } else if c == '"' {
            string_at(text, i)
        } else {
            Scan { token: TokenView::Unknown, next: i }
        }
    } else {
        Scan { token: TokenView::EoF, next: i }
    }
}

/// The next token at or after `i`: whitespace is skipped, then a structural
/// character is taken alone and anything else is read as a word. At the end
/// of the text the token is `EoF`, again and again.
pub open spec fn token_at(text: Seq<char>, i: int) -> Scan {
    let start = spaces_end(text, i);
    if 0 <= start < text.len() {
        match punctuation(text[start]) {
            Some(token) => Scan { token, next: start + 1 },
            None => word_at(text, start),
        }
    } else {
        Scan { token: TokenView::EoF, next: start }
    }
}

/// All the tokens from `i` to the end of the text, without the closing
/// `EoF`. An unrecognised character is reported with its position; a text
/// that ends inside a token is reported as ending too soon.
pub open spec fn tokens_from(text: Seq<char>, i: int) -> Result<Seq<TokenView>, ParseErrorView>
    decreases text.len() - i,
{
    let scan = token_at(text, i);
    match scan.token {
        TokenView::EoF => Ok(Seq::empty()),
        TokenView::Unknown => if 0 <= scan.next < text.len() {
            Err(
                ParseErrorView::UnrecognizedCharacter {
                    character: text[scan.next],
                    position: scan.next as nat,
                },
            )
        } else {
            Err(ParseErrorView::UnexpectedEndOfInput)
        },
        token => {
            proof {
                if 0 <= i <= text.len() {
                    lemma_token_moves(text, i);
                }
            }
            match tokens_from(text, scan.next) {
                Ok(rest) => Ok(seq![token] + rest),
                Err(e) => Err(e),
            }
        },
    }
}

/// The text under the scanner and the cursor into it.
pub struct TokeniserView {
    pub text: Seq<char>,
    pub position: nat,
}

/// A cursor over a buffer of characters that hands out one token per call.
pub struct Tokeniser {
    text: Vec<char>,
    current: usize,
}

impl View for Tokeniser {
    type V = TokeniserView;

    closed spec fn view(&self) -> TokeniserView {
        TokeniserView { text: self.text@, position: self.current as nat }
    }
}

impl Tokeniser {
    #[verifier::type_invariant]
    spec fn cursor_in_text(self) -> bool {
        self.current <= self.text@.len()
    }

    /// A scanner at the start of `text`.
    pub fn new(text: String) -> (r: Self)
        ensures
            r@.text == text@,
            r@.position == 0,
    {
        Self { text: chars_of(text.as_str()), current: 0 }
    }

    /// How many characters have been read.
    pub fn position(&self) -> (r: usize)
        ensures
            r == self@.position,
            r <= self@.text.len(),
    {
        proof {
            use_type_invariant(self);
        }
        self.current
    }

    /// The line on which the cursor stands, counted from 1: one more than
    /// the line feeds that were read.
    pub fn line(&self) -> (r: usize)
        ensures
            r == capped(1 + line_feeds(self@.text, 0, self@.position as int)),
    {
        proof {
            use_type_invariant(self);
        }
        let mut line: usize = 1;
        let mut i: usize = 0;
        while i < self.current
            invariant
                i <= self.current <= self.text@.len(),
                line == capped(1 + line_feeds(self.text@, 0, i as int)),
            decreases self.current - i,
        {
            if self.text[i] == '\n' && line < usize::MAX {
                line = line + 1;
            }
            i = i + 1;
        }
        line
    }

    /// The next token; the cursor moves behind it.
    pub fn tokenise(&mut self) -> (token: Token)
        ensures
            final(self)@.text == old(self)@.text,
            token@ == token_at(old(self)@.text, old(self)@.position as int).token,
            final(self)@.position == token_at(old(self)@.text, old(self)@.position as int).next,
    {
        self.skip_whitespace();
        proof {
            use_type_invariant(&*self);
        }
        if self.current >= self.text.len() {
            return Token::EoF;
        }
        let c = self.text[self.current];
        let token = if c == '{' {
            Token::LBrace
        } else if c == '}' {
            Token::RBrace
        } else if c == '(' {
            Token::LParen
        } else if c == ')' {
            Token::RParen
        } else if c == '.' {
            Token::Dot
        } else if c == ',' {
            Token::Comma
        } else if c == '=' {
            Token::Equal
        } else {
            return self.make_token();
        };
        self.current = self.current + 1;
        token
    }

    /// The number, identifier or string at the cursor, told by the
    /// character there. Any other character gives `Unknown` and is left;
    /// at the end of the text the token is `EoF`.
    pub fn make_token(&mut self) -> (token: Token)
        ensures
            final(self)@.text == old(self)@.text,
            token@ == word_at(old(self)@.text, old(self)@.position as int).token,
            final(self)@.position == word_at(old(self)@.text, old(self)@.position as int).next,
    {
        if self.current >= self.text.len() {
            return Token::EoF;
        }
        let c = self.text[self.current];
        if digit(c) || c == '-' {
            self.number()
        } else if letter(c) {
            self.identifier()
        } else if c == '"' {
            self.string()
        } else {
            Token::Unknown
        }
    }

    /// Moves the cursor over the whitespace in front of it.
    pub fn skip_whitespace(&mut self)
        ensures
            final(self)@.text == old(self)@.text,
            final(self)@.position == spaces_end(old(self)@.text, old(self)@.position as int),
    {
        proof {
            use_type_invariant(&*self);
        }
        let n = self.text.len();
        let mut i = self.current;
        while i < n && space(self.text[i])
            invariant
                n == self.text@.len(),
                i <= n,
                spaces_end(self.text@, i as int) == spaces_end(self.text@, self.current as int),
            decreases n - i,
        {
            i = i + 1;
        }
        self.current = i;
    }

    /// Reads a number: an optional minus sign, then digits with at most one
    /// period among them. A second period ends the number and is left.
    pub fn number(&mut self) -> (token: Token)
        ensures
            final(self)@.text == old(self)@.text,
            token@ == number_at(old(self)@.text, old(self)@.position as int).token,
            final(self)@.position == number_at(old(self)@.text, old(self)@.position as int).next,
    {
        proof {
            use_type_invariant(&*self);
        }
        let n = self.text.len();
        let start = self.current;
        let mut number = String::new();
        let mut i = start;
        if i < n && self.text[i] == '-' {
            number.push('-');
            i = i + 1;
        }
        let ghost digits = i;
        let mut period_seen = false;
        while i < n && (digit(self.text[i]) || (self.text[i] == '.' && !period_seen))
            invariant
                n == self.text@.len(),
                start <= digits <= i <= n,
                number@ == slice(self.text@, start as int, i as int),
                digits_end(self.text@, i as int, period_seen) == digits_end(
                    self.text@,
                    digits as int,
                    false,
                ),
            decreases n - i,
        {
            let c = self.text[i];
            if c == '.' {
                period_seen = true;
            }
            number.push(c);
            assert(slice(self.text@, start as int, i + 1) == slice(
                self.text@,
                start as int,
                i as int,
            ).push(c));
            i = i + 1;
        }
        self.current = i;
        Token::Number(number)
    }

    /// Reads an identifier: letters only.
    pub fn identifier(&mut self) -> (token: Token)
        ensures
            final(self)@.text == old(self)@.text,
            token@ == identifier_at(old(self)@.text, old(self)@.position as int).token,
            final(self)@.position == identifier_at(
                old(self)@.text,
                old(self)@.position as int,
            ).next,
    {
        proof {
            use_type_invariant(&*self);
        }
        let n = self.text.len();
        let start = self.current;
        let mut identifier = String::new();
        let mut i = start;
        while i < n && letter(self.text[i])
            invariant
                n == self.text@.len(),
                start <= i <= n,
                identifier@ == slice(self.text@, start as int, i as int),
                letters_end(self.text@, i as int) == letters_end(self.text@, start as int),
            decreases n - i,
        {
            let c = self.text[i];
            identifier.push(c);
            assert(slice(self.text@, start as int, i + 1) == slice(
                self.text@,
                start as int,
                i as int,
            ).push(c));
            i = i + 1;
        }
        self.current = i;
        Token::Identifier(identifier)
    }

    /// Reads a string from its opening quote to the closing one. A quote
    /// behind a backslash does not close it, and the text is kept raw.
    pub fn string(&mut self) -> (token: Token)
        ensures
            final(self)@.text == old(self)@.text,
            token@ == string_at(old(self)@.text, old(self)@.position as int).token,
            final(self)@.position == string_at(old(self)@.text, old(self)@.position as int).next,
    {
        let n = self.text.len();
        if self.current >= n || self.text[self.current] != '"' {
            return Token::Unknown;
        }
        let start = self.current + 1;
        let mut string = String::new();
        let mut i = start;
        while i < n && !(self.text[i] == '"' && self.text[i - 1] != '\\')
            invariant
                n == self.text@.len(),
                1 <= start <= i <= n,
                string@ == slice(self.text@, start as int, i as int),
                closing_quote(self.text@, i as int) == closing_quote(self.text@, start as int),
            decreases n - i,
        {
            let c = self.text[i];
            string.push(c);
            assert(slice(self.text@, start as int, i + 1) == slice(
                self.text@,
                start as int,
                i as int,
            ).push(c));
            i = i + 1;
        }
        if i < n {
            self.current = i + 1;
            Token::String(string)
        } else {
            self.current = n;
            Token::Unknown
        }
    }

    /// Reads every token up to the end of the text. The closing `EoF` is
    /// not part of the result. A character that starts no token ends the
    /// reading with the cursor on it; in every other case the text is used
    /// up.
    pub fn tokens(&mut self) -> (r: Result<VecDeque<Token>, ParseError>)
        ensures
            final(self)@.text == old(self)@.text,
            match r {
                Ok(tokens) => Ok::<Seq<TokenView>, ParseErrorView>(token_views(tokens@)),
                Err(e) => Err(e@),
            } == tokens_from(old(self)@.text, old(self)@.position as int),
            match r {
                Err(ParseError::UnrecognizedCharacter { position, .. }) => final(self)@.position
                    == position,
                _ => final(self)@.position == final(self)@.text.len(),
            },
    {
        let mut tokens: VecDeque<Token> = VecDeque::new();
        proof {
            use_type_invariant(&*self);
        }
        loop
            invariant
                self@.text == old(self)@.text,
                self@.position <= self@.text.len(),
                tokens_from(old(self)@.text, old(self)@.position as int) == match tokens_from(
                    self@.text,
                    self@.position as int,
                ) {
                    Ok(rest) => Ok(token_views(tokens@) + rest),
                    Err(e) => Err(e),
                },
            decreases self@.text.len() - self@.position,
        {
            let ghost before = self@.position as int;
            let token = self.tokenise();
            match token {
                Token::EoF => {
                    proof {
                        lemma_spaces_end(self@.text, before);
                    }
                    assert(token_views(tokens@) + Seq::empty() == token_views(tokens@));
                    return Ok(tokens);
                },
                Token::Unknown => {
                    if self.current < self.text.len() {
                        return Err(
                            ParseError::UnrecognizedCharacter {
                                character: self.text[self.current],
                                position: self.current,
                            },
                        );
                    } else {
                        return Err(ParseError::UnexpectedEndOfInput);
                    }
                },
                token => {
                    proof {
                        use_type_invariant(&*self);
                        lemma_token_moves(self@.text, before);
                        let rest = tokens_from(self@.text, self@.position as int);
                        if let Ok(rest) = rest {
                            assert(token_views(tokens@.push(token)) + rest == token_views(tokens@)
                                + (seq![token@] + rest));
                        }
                    }
                    tokens.push_back(token);
                },
            }
        }
    }
}

/// The views of a sequence of tokens, in order.
pub open spec fn token_views(tokens: Seq<Token>) -> Seq<TokenView> {
    Seq::new(tokens.len(), |i: int| tokens[i]@)
}

/// Whitespace ends at or after where it starts, and inside the text.
pub proof fn lemma_spaces_end(text: Seq<char>, i: int)
    requires
        0 <= i <= text.len(),
    ensures
        i <= spaces_end(text, i) <= text.len(),
    decreases text.len() - i,
{
    if i < text.len() && is_space(text[i]) {
        lemma_spaces_end(text, i + 1);
    }
}

/// A run of letters ends at or after where it starts, and inside the text.
pub proof fn lemma_letters_end(text: Seq<char>, i: int)
    requires
        0 <= i <= text.len(),
    ensures
        i <= letters_end(text, i) <= text.len(),
    decreases text.len() - i,
{
    if i < text.len() && is_letter(text[i]) {
        lemma_letters_end(text, i + 1);
    }
}

/// The digits of a number end at or after where they start, and inside the
/// text.
pub proof fn lemma_digits_end(text: Seq<char>, i: int, period_seen: bool)
    requires
        0 <= i <= text.len(),
    ensures
        i <= digits_end(text, i, period_seen) <= text.len(),
    decreases text.len() - i,
{
    if i < text.len() && is_digit(text[i]) {
        lemma_digits_end(text, i + 1, period_seen);
    } else if i < text.len() && text[i] == '.' && !period_seen {
        lemma_digits_end(text, i + 1, true);
    }
}

/// The search for a closing quote ends at or after where it starts, and
/// inside the text or at its end.
pub proof fn lemma_closing_quote(text: Seq<char>, i: int)
    requires
        0 <= i <= text.len(),
    ensures
        i <= closing_quote(text, i) <= text.len(),
    decreases text.len() - i,
{
    if i < text.len() && !closes_string(text, i) {
        lemma_closing_quote(text, i + 1);
    }
}

/// Once the end of the text is reached, every further token is `EoF`.
pub proof fn lemma_end_repeats(text: Seq<char>, i: int)
    requires
        0 <= i <= text.len(),
        token_at(text, i).token == TokenView::EoF,
    ensures
        token_at(text, token_at(text, i).next) == token_at(text, i),
{
    lemma_spaces_end(text, i);
    let start = spaces_end(text, i);
    if start < text.len() {
        let c = text[start];
        if punctuation(c) is None && c == '"' {
            lemma_closing_quote(text, start + 1);
        }
    }
}

/// Every token but `EoF` and `Unknown` uses up at least one character, and
/// no token ends behind the end of the text.
pub proof fn lemma_token_moves(text: Seq<char>, i: int)
    requires
        0 <= i <= text.len(),
    ensures
        i <= token_at(text, i).next <= text.len(),
        token_at(text, i).token != TokenView::EoF && token_at(text, i).token != TokenView::Unknown
            ==> i < token_at(text, i).next,
{
    lemma_spaces_end(text, i);
    let start = spaces_end(text, i);
    if start < text.len() {
        let c = text[start];
        if punctuation(c) is None {
            if is_digit(c) || c == '-' {
                let digits = if c == '-' {
                    start + 1
                } else {
                    start
                };
                lemma_digits_end(text, digits, false);
                if c != '-' {
                    lemma_digits_end(text, start + 1, false);
                }
            } else if is_letter(c) {
                lemma_letters_end(text, start + 1);
            } else if c == '"' {
                lemma_closing_quote(text, start + 1);
            }
        }
    }
}

} // verus!
