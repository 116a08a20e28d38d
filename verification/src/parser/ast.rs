//! The tree of an arithmetic expression.
use crate::lexer::token::{Token, TokenView};
use vstd::prelude::*;

verus! {

/// A constant, or an operator between two trees.
#[derive(Debug, PartialEq)]
pub enum AST {
    Constant { token: Token },
    Binary { left: Box<AST>, operator: Token, right: Box<AST> },
}

/// A tree over the views of its tokens.
pub enum AstView {
    Constant { token: TokenView },
    Binary { left: Box<AstView>, operator: TokenView, right: Box<AstView> },
}

impl View for AST {
    type V = AstView;

    open spec fn view(&self) -> AstView
        decreases self,
    {
        match self {
            AST::Constant { token } => AstView::Constant { token: token@ },
            AST::Binary { left, operator, right } => AstView::Binary {
                left: Box::new((**left).view()),
                operator: operator@,
                right: Box::new((**right).view()),
            },
        }
    }
}

} // verus!
