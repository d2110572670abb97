//! The lexical units of a filter expression.

use vstd::prelude::*;

verus! {

/// A boolean connective of the filter language.
#[derive(Debug, PartialEq, Eq, Clone, Copy, Structural)]
pub enum Operator {
    And,
    Or,
    Not,
}

/// One lexical unit: a connective, a grouping mark or a label.
#[derive(Debug, PartialEq, Eq)]
pub enum Token {
    Operator(Operator),
    OpenGroup,
    CloseGroup,
    Label(String),
}

/// The mathematical content of a [`Token`]: a label is the sequence of
/// its characters.
pub ghost enum TokenView {
    Operator(Operator),
    OpenGroup,
    CloseGroup,
    Label(Seq<char>),
}

impl View for Token {
    type V = TokenView;

    open spec fn view(&self) -> TokenView {
        match self {
            Token::Operator(op) => TokenView::Operator(*op),
            Token::OpenGroup => TokenView::OpenGroup,
            Token::CloseGroup => TokenView::CloseGroup,
            Token::Label(text) => TokenView::Label(text@),
        }
    }
}

/// The contents of a token sequence, token by token.
pub open spec fn token_views(tokens: Seq<Token>) -> Seq<TokenView> {
    tokens.map_values(|t: Token| t@)
}

} // verus!
