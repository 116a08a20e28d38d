//! A parser for arithmetic expressions: sums of products of numbers, with
//! the minus sign in front of a number read as a subtraction from zero.
pub mod ast;

use crate::lexer::token::{token_views, Token, TokenType, TokenView};
use ast::{AstView, AST};
use vstd::prelude::*;

verus! {

/// The type of the token at `i`, if there is one.
pub open spec fn type_at(tokens: Seq<TokenView>, i: int) -> Option<TokenType> {
    if 0 <= i < tokens.len() {
        Some(tokens[i].token_type)
    } else {
        None
    }
}

/// A tree read from the tokens, and the position behind it.
pub struct Parsed {
    pub node: AstView,
    pub next: int,
}

/// The literal `0`, from which a number behind a minus sign is subtracted.
pub open spec fn zero() -> TokenView {
    TokenView { token_type: TokenType::Literal, lexeme: "0"@, literal: Some("0"@) }
}

/// An operator between two trees.
pub open spec fn binary(left: AstView, operator: TokenView, right: AstView) -> AstView {
    AstView::Binary { left: Box::new(left), operator, right: Box::new(right) }
}

/// A literal at `i`.
pub open spec fn primary_at(tokens: Seq<TokenView>, i: int) -> Option<Parsed> {
    if type_at(tokens, i) == Some(TokenType::Literal) {
        Some(Parsed { node: AstView::Constant { token: tokens[i] }, next: i + 1 })
    } else {
        None
    }
}

/// A literal at `i`, behind any number of minus signs.
pub open spec fn unary_at(tokens: Seq<TokenView>, i: int) -> Option<Parsed>
    decreases tokens.len() - i,
{
    if type_at(tokens, i) == Some(TokenType::Minus) {
        match unary_at(tokens, i + 1) {
            Some(right) => Some(
                Parsed {
                    node: binary(AstView::Constant { token: zero() }, tokens[i], right.node),
                    next: right.next,
                },
            ),
            None => None,
        }
    } else {
        primary_at(tokens, i)
    }
}

/// The rest of a product behind `left`: `*` or `/` and a factor, again
/// and again, each joined to what stands on its left.
pub open spec fn product_from(tokens: Seq<TokenView>, left: AstView, i: int) -> Option<Parsed>
    decreases tokens.len() - i,
{
    if type_at(tokens, i) == Some(TokenType::Star) || type_at(tokens, i) == Some(
        TokenType::Slash,
    ) {
        match unary_at(tokens, i + 1) {
            Some(right) => {
                proof {
                    lemma_unary_moves(tokens, i + 1);
                }
                product_from(tokens, binary(left, tokens[i], right.node), right.next)
            },
            None => None,
        }
    } else {
        Some(Parsed { node: left, next: i })
    }
}

/// A product at `i`.
pub open spec fn multiplication_at(tokens: Seq<TokenView>, i: int) -> Option<Parsed> {
    match unary_at(tokens, i) {
        Some(first) => product_from(tokens, first.node, first.next),
        None => None,
    }
}

/// The rest of a sum behind `left`: `+` or `-` and a product, again and
/// again, each joined to what stands on its left.
pub open spec fn sum_from(tokens: Seq<TokenView>, left: AstView, i: int) -> Option<Parsed>
    decreases tokens.len() - i,
{
    if type_at(tokens, i) == Some(TokenType::Plus) || type_at(tokens, i) == Some(
        TokenType::Minus,
    ) {
        match multiplication_at(tokens, i + 1) {
            Some(right) => {
                proof {
                    lemma_multiplication_moves(tokens, i + 1);
                }
                sum_from(tokens, binary(left, tokens[i], right.node), right.next)
            },
            None => None,
        }
    } else {
        Some(Parsed { node: left, next: i })
    }
}

/// A sum at `i`.
pub open spec fn addition_at(tokens: Seq<TokenView>, i: int) -> Option<Parsed> {
    match multiplication_at(tokens, i) {
        Some(first) => sum_from(tokens, first.node, first.next),
        None => None,
    }
}

/// A sum at `i`, and the semicolon behind it if there is one.
pub open spec fn statement_at(tokens: Seq<TokenView>, i: int) -> Option<Parsed> {
    match addition_at(tokens, i) {
        Some(sum) => Some(
            Parsed {
                node: sum.node,
                next: if type_at(tokens, sum.next) == Some(TokenType::Semicolon) {
                    sum.next + 1
                } else {
                    sum.next
                },
            },
        ),
        None => None,
    }
}

/// What was read as a factor took at least one token, and none behind the
/// end.
pub proof fn lemma_unary_moves(tokens: Seq<TokenView>, i: int)
    requires
        unary_at(tokens, i) is Some,
    ensures
        0 <= i < unary_at(tokens, i)->Some_0.next <= tokens.len(),
    decreases tokens.len() - i,
{
    if type_at(tokens, i) == Some(TokenType::Minus) {
        lemma_unary_moves(tokens, i + 1);
    }
}

/// Behind a factor, the rest of a product takes no token back.
pub proof fn lemma_product_moves(tokens: Seq<TokenView>, left: AstView, i: int)
    requires
        0 <= i <= tokens.len(),
        product_from(tokens, left, i) is Some,
    ensures
        i <= product_from(tokens, left, i)->Some_0.next <= tokens.len(),
    decreases tokens.len() - i,
{
    if type_at(tokens, i) == Some(TokenType::Star) || type_at(tokens, i) == Some(
        TokenType::Slash,
    ) {
        lemma_unary_moves(tokens, i + 1);
        let right = unary_at(tokens, i + 1)->Some_0;
        lemma_product_moves(tokens, binary(left, tokens[i], right.node), right.next);
    }
}

/// What was read as a product took at least one token, and none behind the
/// end.
pub proof fn lemma_multiplication_moves(tokens: Seq<TokenView>, i: int)
    requires
        multiplication_at(tokens, i) is Some,
    ensures
        0 <= i < multiplication_at(tokens, i)->Some_0.next <= tokens.len(),
{
    lemma_unary_moves(tokens, i);
    let first = unary_at(tokens, i)->Some_0;
    lemma_product_moves(tokens, first.node, first.next);
}

/// The tokens under the parser and the cursor into them.
pub struct ParserView {
    pub tokens: Seq<TokenView>,
    pub current: nat,
}

/// A cursor over the tokens of an arithmetic expression.
pub struct Parser {
    tokens: Vec<Token>,
    current: usize,
}

impl View for Parser {
    type V = ParserView;

    closed spec fn view(&self) -> ParserView {
        ParserView { tokens: token_views(self.tokens@), current: self.current as nat }
    }
}

impl Parser {
    /// A parser at the first of `tokens`.
    pub fn new(tokens: Vec<Token>) -> (r: Self)
        ensures
            r@.tokens == token_views(tokens@),
            r@.current == 0,
    {
        Self { tokens, current: 0 }
    }

    /// Whether a sum stands at the cursor, so that `parse` can read it.
    pub fn parses(&self) -> (r: bool)
        ensures
            r == statement_at(self@.tokens, self@.current as int) is Some,
    {
        self.sum_end(self.current).is_some()
    }

    /// Whether the token at `i` is of one of two types.
    fn one_of(&self, i: usize, first: TokenType, second: TokenType) -> (r: bool)
        ensures
            r == (type_at(self@.tokens, i as int) == Some(first) || type_at(self@.tokens, i as int)
                == Some(second)),
    {
        i < self.tokens.len() && (self.tokens[i].token_type == first || self.tokens[i].token_type
            == second)
    }

    /// Where the factor at `i` ends, if one stands there.
    fn factor_end(&self, i: usize) -> (r: Option<usize>)
        ensures
            r is Some <==> unary_at(self@.tokens, i as int) is Some,
            r is Some ==> r->Some_0 == unary_at(self@.tokens, i as int)->Some_0.next,
    {
        let n = self.tokens.len();
        let mut j = i;
        while j < n && self.tokens[j].token_type == TokenType::Minus
            invariant
                n == self.tokens@.len(),
                i <= j,
                unary_at(self@.tokens, j as int) is Some <==> unary_at(self@.tokens, i as int) is Some,
                unary_at(self@.tokens, j as int) is Some ==> unary_at(
                    self@.tokens,
                    j as int,
                )->Some_0.next == unary_at(self@.tokens, i as int)->Some_0.next,
            decreases n - j,
        {
            j = j + 1;
        }
        if j < n && self.tokens[j].token_type == TokenType::Literal {
            Some(j + 1)
        } else {
            None
        }
    }

    /// Where the product at `i` ends, if one stands there.
    fn product_end(&self, i: usize) -> (r: Option<usize>)
        ensures
            r is Some <==> multiplication_at(self@.tokens, i as int) is Some,
            r is Some ==> r->Some_0 == multiplication_at(self@.tokens, i as int)->Some_0.next,
    {
        let mut j = match self.factor_end(i) {
            Some(j) => j,
            None => {
                return None;
            },
        };
        let ghost mut left = unary_at(self@.tokens, i as int)->Some_0.node;
        proof {
            lemma_unary_moves(self@.tokens, i as int);
        }
        loop
            invariant
                j <= self@.tokens.len(),
                product_from(self@.tokens, left, j as int) == multiplication_at(
                    self@.tokens,
                    i as int,
                ),
            decreases self@.tokens.len() - j,
        {
            if !self.one_of(j, TokenType::Star, TokenType::Slash) {
                return Some(j);
            }
            proof {
                vstd::std_specs::vec::axiom_spec_len(&self.tokens);
            }
            let next = match self.factor_end(j + 1) {
                Some(next) => next,
                None => {
                    return None;
                },
            };
            proof {
                lemma_unary_moves(self@.tokens, j + 1);
                left = binary(
                    left,
                    self@.tokens[j as int],
                    unary_at(self@.tokens, j + 1)->Some_0.node,
                );
            }
            j = next;
        }
    }

    /// Where the sum at `i` ends, with the semicolon behind it if there is
    /// one, if a sum stands there.
    fn sum_end(&self, i: usize) -> (r: Option<usize>)
        ensures
            r is Some <==> statement_at(self@.tokens, i as int) is Some,
            r is Some ==> r->Some_0 == statement_at(self@.tokens, i as int)->Some_0.next,
    {
        let mut j = match self.product_end(i) {
            Some(j) => j,
            None => {
                return None;
            },
        };
        let ghost mut left = multiplication_at(self@.tokens, i as int)->Some_0.node;
        proof {
            lemma_multiplication_moves(self@.tokens, i as int);
        }
        loop
            invariant
                j <= self@.tokens.len(),
                sum_from(self@.tokens, left, j as int) == addition_at(self@.tokens, i as int),
            decreases self@.tokens.len() - j,
        {
            if !self.one_of(j, TokenType::Plus, TokenType::Minus) {
                if j < self.tokens.len() && self.tokens[j].token_type == TokenType::Semicolon {
                    return Some(j + 1);
                }
                return Some(j);
            }
            proof {
                vstd::std_specs::vec::axiom_spec_len(&self.tokens);
            }
            let next = match self.product_end(j + 1) {
                Some(next) => next,
                None => {
                    return None;
                },
            };
            proof {
                lemma_multiplication_moves(self@.tokens, j + 1);
                left = binary(
                    left,
                    self@.tokens[j as int],
                    multiplication_at(self@.tokens, j + 1)->Some_0.node,
                );
            }
            j = next;
        }
    }

    /// Reads a sum and the semicolon behind it, if there is one.
    pub fn parse(&mut self) -> (r: AST)
        requires
            statement_at(old(self)@.tokens, old(self)@.current as int) is Some,
        ensures
            final(self)@.tokens == old(self)@.tokens,
            r@ == statement_at(old(self)@.tokens, old(self)@.current as int)->Some_0.node,
            final(self)@.current == statement_at(
                old(self)@.tokens,
                old(self)@.current as int,
            )->Some_0.next,
    {
        let res = self.expression();
        let _ = self.match_token(TokenType::Semicolon);
        res
    }

    fn expression(&mut self) -> (r: AST)
        requires
            addition_at(old(self)@.tokens, old(self)@.current as int) is Some,
        ensures
            final(self)@.tokens == old(self)@.tokens,
            r@ == addition_at(old(self)@.tokens, old(self)@.current as int)->Some_0.node,
            final(self)@.current == addition_at(
                old(self)@.tokens,
                old(self)@.current as int,
            )->Some_0.next,
    {
        self.addition()
    }

    fn addition(&mut self) -> (r: AST)
        requires
            addition_at(old(self)@.tokens, old(self)@.current as int) is Some,
        ensures
            final(self)@.tokens == old(self)@.tokens,
            r@ == addition_at(old(self)@.tokens, old(self)@.current as int)->Some_0.node,
            final(self)@.current == addition_at(
                old(self)@.tokens,
                old(self)@.current as int,
            )->Some_0.next,
    {
        proof {
            lemma_multiplication_moves(self@.tokens, self@.current as int);
        }
        let mut node = self.multiplication();
        loop
            invariant
                self@.tokens == old(self)@.tokens,
                self@.current <= self@.tokens.len(),
                sum_from(self@.tokens, node@, self@.current as int) == addition_at(
                    old(self)@.tokens,
                    old(self)@.current as int,
                ),
                sum_from(self@.tokens, node@, self@.current as int) is Some,
            decreases self@.tokens.len() - self@.current,
        {
            if !(self.match_token(TokenType::Plus) || self.match_token(TokenType::Minus)) {
                return node;
            }
            let operator = self.previous();
            proof {
                lemma_multiplication_moves(self@.tokens, self@.current as int);
            }
            let right = self.multiplication();
            node = AST::Binary { left: Box::new(node), operator, right: Box::new(right) };
        }
    }

    fn multiplication(&mut self) -> (r: AST)
        requires
            multiplication_at(old(self)@.tokens, old(self)@.current as int) is Some,
        ensures
            final(self)@.tokens == old(self)@.tokens,
            r@ == multiplication_at(old(self)@.tokens, old(self)@.current as int)->Some_0.node,
            final(self)@.current == multiplication_at(
                old(self)@.tokens,
                old(self)@.current as int,
            )->Some_0.next,
    {
        proof {
            lemma_unary_moves(self@.tokens, self@.current as int);
        }
        let mut node = self.unary();
        loop
            invariant
                self@.tokens == old(self)@.tokens,
                self@.current <= self@.tokens.len(),
                product_from(self@.tokens, node@, self@.current as int) == multiplication_at(
                    old(self)@.tokens,
                    old(self)@.current as int,
                ),
                product_from(self@.tokens, node@, self@.current as int) is Some,
            decreases self@.tokens.len() - self@.current,
        {
            if !(self.match_token(TokenType::Star) || self.match_token(TokenType::Slash)) {
                return node;
            }
            let operator = self.previous();
            proof {
                lemma_unary_moves(self@.tokens, self@.current as int);
            }
            let right = self.unary();
            node = AST::Binary { left: Box::new(node), operator, right: Box::new(right) };
        }
    }

    fn unary(&mut self) -> (r: AST)
        requires
            unary_at(old(self)@.tokens, old(self)@.current as int) is Some,
        ensures
            final(self)@.tokens == old(self)@.tokens,
            r@ == unary_at(old(self)@.tokens, old(self)@.current as int)->Some_0.node,
            final(self)@.current == unary_at(
                old(self)@.tokens,
                old(self)@.current as int,
            )->Some_0.next,
        decreases old(self)@.tokens.len() - old(self)@.current,
    {
        if self.match_token(TokenType::Minus) {
            let operator = self.previous();
            let right = self.unary();
            let lexeme = "0".to_owned();
            let literal = Some(lexeme.clone());
            let left = AST::Constant {
                token: Token { token_type: TokenType::Literal, lexeme, literal },
            };
            assert(left@ == AstView::Constant { token: zero() });
            return AST::Binary { left: Box::new(left), operator, right: Box::new(right) };
        }
        self.primary()
    }

    fn primary(&mut self) -> (r: AST)
        requires
            primary_at(old(self)@.tokens, old(self)@.current as int) is Some,
        ensures
            final(self)@.tokens == old(self)@.tokens,
            r@ == primary_at(old(self)@.tokens, old(self)@.current as int)->Some_0.node,
            final(self)@.current == old(self)@.current + 1,
    {
        let _ = self.match_token(TokenType::Literal);
        AST::Constant { token: self.previous() }
    }

    /// Moves over the token at the cursor if it is of that type.
    fn match_token(&mut self, token_type: TokenType) -> (r: bool)
        ensures
            final(self)@.tokens == old(self)@.tokens,
            r == (type_at(old(self)@.tokens, old(self)@.current as int) == Some(token_type)),
            final(self)@.current == if r {
                old(self)@.current + 1
            } else {
                old(self)@.current
            },
    {
        if self.check(token_type) {
            let _ = self.advance();
            return true;
        }
        false
    }

    fn check(&self, token_type: TokenType) -> (r: bool)
        ensures
            r == (type_at(self@.tokens, self@.current as int) == Some(token_type)),
    {
        if self.is_at_end() {
            return false;
        }
        self.peek().token_type == token_type
    }

    fn peek(&self) -> (token: Token)
        requires
            self@.current < self@.tokens.len(),
        ensures
            token@ == self@.tokens[self@.current as int],
    {
        self.tokens[self.current].clone()
    }

    fn is_at_end(&self) -> (r: bool)
        ensures
            r == (self@.current >= self@.tokens.len()),
    {
        self.current >= self.tokens.len()
    }

    fn advance(&mut self) -> (token: Token)
        requires
            old(self)@.current < old(self)@.tokens.len(),
        ensures
            final(self)@.tokens == old(self)@.tokens,
            final(self)@.current == old(self)@.current + 1,
            token@ == old(self)@.tokens[old(self)@.current as int],
    {
        proof {
            vstd::std_specs::vec::axiom_spec_len(&self.tokens);
        }
        if !self.is_at_end() {
            self.current = self.current + 1;
        }
        self.previous()
    }

    fn previous(&self) -> (token: Token)
        requires
            1 <= self@.current <= self@.tokens.len(),
        ensures
            token@ == self@.tokens[self@.current - 1],
    {
        self.tokens[self.current - 1].clone()
    }
}

} // verus!
