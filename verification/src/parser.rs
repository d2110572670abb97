//! Recursive-descent parsing of a token sequence.
//!
//! ```text
//! expression := single (operator expression)?
//! single     := label | '!' single | '(' expression ')'
//! operator   := '&&' | '||'
//! ```
//!
//! `&&` and `||` have the same rank and group to the right: `a && b || c`
//! is `a && (b || c)`. `!` binds to the single term that follows it.

use vstd::prelude::*;
use crate::cursor::TokenIterator;
use crate::expression::{Expression, ExpressionView};
use crate::token::{token_views, Operator, Token, TokenView};

verus! {

/// Why a token sequence is not an expression.
#[derive(Debug, PartialEq, Eq, Clone, Copy, Structural)]
pub enum ParseError {
    /// A term was due, and the input ended or held `)`, `&&` or `||`.
    UnexpectedToken,
    /// The input ended inside a group, where `)` was due.
    UnterminatedGroup,
    /// A binary operator was due, and the token was `!`, `(` or a label.
    InvalidBinaryOperator,
}

/// Where a parsing step ends: its result, and the tokens that it left
/// unread.
pub ghost struct Parsed {
    pub result: Result<ExpressionView, ParseError>,
    pub rest: Seq<TokenView>,
}

/// Parsing one term from the front of `tokens`.
///
/// A failing step has read the token that it failed on, as a succeeding
/// one has read its term.
pub open spec fn spec_parse_single(tokens: Seq<TokenView>) -> Parsed
    decreases tokens.len(), 0nat,
{
    if tokens.len() == 0 {
        Parsed { result: Err(ParseError::UnexpectedToken), rest: tokens }
    } else {
        let rest = tokens.drop_first();
        match tokens[0] {
            TokenView::Label(text) => Parsed { result: Ok(ExpressionView::Label(text)), rest },
            TokenView::Operator(Operator::Not) => {
                let operand = spec_parse_single(rest);
                match operand.result {
                    Ok(e) => Parsed {
                        result: Ok(ExpressionView::Inverse(Box::new(e))),
                        rest: operand.rest,
                    },
                    Err(_) => operand,
                }
            },
            TokenView::OpenGroup => {
                let inner = spec_parse_expression(rest);
                if inner.result is Err {
                    inner
                } else if inner.rest.len() > 0 && inner.rest[0] is CloseGroup {
                    Parsed { result: inner.result, rest: inner.rest.drop_first() }
                } else {
                    Parsed { result: Err(ParseError::UnterminatedGroup), rest: inner.rest }
                }
            },
            _ => Parsed { result: Err(ParseError::UnexpectedToken), rest },
        }
    }
}

/// Parsing one expression from the front of `tokens`: a term, and then,
/// unless the input ends there or goes on with `)`, a binary operator and
/// an expression.
pub open spec fn spec_parse_expression(tokens: Seq<TokenView>) -> Parsed
    decreases tokens.len(), 1nat,
{
    let first = spec_parse_single(tokens);
    match first.result {
        Err(_) => first,
        Ok(left) => {
            if first.rest.len() == 0 || first.rest[0] is CloseGroup {
                first
            } else if first.rest.len() > tokens.len() {
                // Never so: a step leaves at most what it was given
                // (`lemma_parse_consumes`). The recursion below rests on it.
                first
            } else {
                let rest = first.rest.drop_first();
                match first.rest[0] {
                    TokenView::Operator(Operator::And) => join(left, Operator::And, spec_parse_expression(rest)),
                    TokenView::Operator(Operator::Or) => join(left, Operator::Or, spec_parse_expression(rest)),
                    _ => Parsed { result: Err(ParseError::InvalidBinaryOperator), rest },
                }
            }
        },
    }
}

/// The operation of `left` and what was parsed to the right of `operator`.
pub open spec fn join(left: ExpressionView, operator: Operator, right: Parsed) -> Parsed {
    match right.result {
        Ok(e) => Parsed {
            result: Ok(ExpressionView::Operation(Box::new(left), operator, Box::new(e))),
            rest: right.rest,
        },
        Err(_) => right,
    }
}

/// Parsing a whole token sequence: one expression, and nothing after it.
/// What is left over after an expression starts with a `)` that no `(`
/// called for, and is refused as an unexpected token.
pub open spec fn spec_parse(tokens: Seq<TokenView>) -> Result<ExpressionView, ParseError> {
    let whole = spec_parse_expression(tokens);
    if whole.result is Ok && whole.rest.len() > 0 {
        Err(ParseError::UnexpectedToken)
    } else {
        whole.result
    }
}

/// A parsing step takes tokens from the front and leaves a suffix of what
/// it was given.
pub proof fn lemma_parse_consumes(tokens: Seq<TokenView>)
    ensures
        spec_parse_single(tokens).rest.len() <= tokens.len(),
        spec_parse_expression(tokens).rest.len() <= tokens.len(),
        spec_parse_single(tokens).rest == tokens.skip(
            tokens.len() - spec_parse_single(tokens).rest.len(),
        ),
        spec_parse_expression(tokens).rest == tokens.skip(
            tokens.len() - spec_parse_expression(tokens).rest.len(),
        ),
        spec_parse_single(tokens).result is Ok ==> spec_parse_single(tokens).rest.len()
            < tokens.len(),
        spec_parse_expression(tokens).result is Ok ==> spec_parse_expression(tokens).rest.len()
            < tokens.len(),
    decreases tokens.len(),
{
    if tokens.len() > 0 {
        let rest = tokens.drop_first();
        lemma_parse_consumes(rest);
        let first = spec_parse_single(tokens);
        if first.result is Ok && first.rest.len() > 0 {
            lemma_parse_consumes(first.rest.drop_first());
        }
    }
}

/// An expression that ends before the end of the input ends before `)`.
pub proof fn lemma_expression_ends(tokens: Seq<TokenView>)
    ensures
        spec_parse_expression(tokens).result is Ok ==> {
            let rest = spec_parse_expression(tokens).rest;
            rest.len() == 0 || rest[0] is CloseGroup
        },
    decreases tokens.len(),
{
    lemma_parse_consumes(tokens);
    let first = spec_parse_single(tokens);
    if first.result is Ok && first.rest.len() > 0 {
        lemma_expression_ends(first.rest.drop_first());
    }
}

/// No parsing step yields an operation whose operator is `Not`.
pub proof fn lemma_parsed_well_formed(tokens: Seq<TokenView>)
    ensures
        spec_parse_single(tokens).result matches Ok(e) ==> e.well_formed(),
        spec_parse_expression(tokens).result matches Ok(e) ==> e.well_formed(),
        spec_parse(tokens) matches Ok(e) ==> e.well_formed(),
    decreases tokens.len(),
{
    lemma_parse_consumes(tokens);
    if tokens.len() > 0 {
        lemma_parsed_well_formed(tokens.drop_first());
        let first = spec_parse_single(tokens);
        assert(first.result matches Ok(e) ==> e.well_formed());
        if first.result is Ok && first.rest.len() > 0 {
            lemma_parsed_well_formed(first.rest.drop_first());
        }
    }
}

/// The contents of what a parsing function returns.
pub open spec fn result_view(result: Result<Expression, ParseError>) -> Result<
    ExpressionView,
    ParseError,
> {
    match result {
        Ok(e) => Ok(e@),
        Err(error) => Err(error),
    }
}

/// Parses one term: a label, a negated term, or an expression in a group.
pub fn parse_single(iter: &mut TokenIterator) -> (result: Result<Expression, ParseError>)
    ensures
        result_view(result) == spec_parse_single(old(iter)@).result,
        final(iter)@ == spec_parse_single(old(iter)@).rest,
        result matches Ok(e) ==> e@.well_formed(),
    decreases old(iter)@.len(), 0nat,
{
    proof {
        lemma_parsed_well_formed(iter@);
    }
    match iter.next() {
        Some(Token::Label(label)) => Ok(Expression::Label(label)),
        Some(Token::Operator(Operator::Not)) => {
            let operand = parse_single(iter)?;
            Ok(Expression::Inverse(Box::new(operand)))
        },
        Some(Token::OpenGroup) => {
            proof {
                lemma_expression_ends(iter@);
            }
            let inner = parse_expression(iter)?;
            match iter.next() {
                Some(Token::CloseGroup) => Ok(inner),
                _ => Err(ParseError::UnterminatedGroup),
            }
        },
        _ => Err(ParseError::UnexpectedToken),
    }
}

/// Parses one expression: a term, and as long as a binary operator
/// follows, the expression to its right.
pub fn parse_expression(iter: &mut TokenIterator) -> (result: Result<Expression, ParseError>)
    ensures
        result_view(result) == spec_parse_expression(old(iter)@).result,
        final(iter)@ == spec_parse_expression(old(iter)@).rest,
        result matches Ok(e) ==> e@.well_formed(),
    decreases old(iter)@.len(), 1nat,
{
    proof {
        lemma_parse_consumes(iter@);
        lemma_parsed_well_formed(iter@);
    }
    let first = parse_single(iter)?;
    match iter.peek() {
        None | Some(Token::CloseGroup) => {
            return Ok(first);
        },
        _ => {},
    }
    let operator = match iter.next() {
        Some(Token::Operator(Operator::And)) => Operator::And,
        Some(Token::Operator(Operator::Or)) => Operator::Or,
        _ => {
            return Err(ParseError::InvalidBinaryOperator);
        },
    };
    let right = parse_expression(iter)?;
    Ok(Expression::Operation(Box::new(first), operator, Box::new(right)))
}

/// Parses a whole token sequence into one expression. Tokens that are left
/// over after the expression are refused.
///
/// The parser calls itself once for each `!`, each group and each binary
/// operator, so the depth of the calls grows with the length of the input.
pub fn parse(tokens: Vec<Token>) -> (result: Result<Expression, ParseError>)
    ensures
        result_view(result) == spec_parse(token_views(tokens@)),
        result matches Ok(e) ==> e@.well_formed(),
{
    let mut iter = TokenIterator::new(tokens);
    let expression = parse_expression(&mut iter)?;
    match iter.peek() {
        None => Ok(expression),
        Some(_) => Err(ParseError::UnexpectedToken),
    }
}

} // verus!
