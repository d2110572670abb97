//! The syntax tree of a filter expression.

use vstd::prelude::*;
use crate::token::Operator;

verus! {

/// A parsed filter expression. Every node owns its operands.
#[derive(Debug, PartialEq, Eq)]
pub enum Expression {
    /// A leaf: the name of a label.
    Label(String),
    /// The negation of the operand.
    Inverse(Box<Expression>),
    /// Two operands joined by `And` or `Or`.
    Operation(Box<Expression>, Operator, Box<Expression>),
}

/// The mathematical content of an [`Expression`].
pub ghost enum ExpressionView {
    Label(Seq<char>),
    Inverse(Box<ExpressionView>),
    Operation(Box<ExpressionView>, Operator, Box<ExpressionView>),
}

impl ExpressionView {
    /// No `Operation` node, at any depth, carries `Not` as its operator.
    pub open spec fn well_formed(self) -> bool
        decreases self,
    {
        match self {
            ExpressionView::Label(_) => true,
            ExpressionView::Inverse(operand) => operand.well_formed(),
            ExpressionView::Operation(left, operator, right) => {
                &&& operator != Operator::Not
                &&& left.well_formed()
                &&& right.well_formed()
            },
        }
    }
}

impl Expression {
    /// The tree with every label replaced by its characters.
    pub open spec fn content(self) -> ExpressionView
        decreases self,
    {
        match self {
            Expression::Label(text) => ExpressionView::Label(text@),
            Expression::Inverse(operand) => ExpressionView::Inverse(Box::new(operand.content())),
            Expression::Operation(left, operator, right) => ExpressionView::Operation(
                Box::new(left.content()),
                operator,
                Box::new(right.content()),
            ),
        }
    }
}

impl View for Expression {
    type V = ExpressionView;

    open spec fn view(&self) -> ExpressionView {
        self.content()
    }
}

} // verus!
