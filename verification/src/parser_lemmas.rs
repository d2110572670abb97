//! What holds of parsing, shown on expressions written out as tokens.

use vstd::prelude::*;
use crate::expression::ExpressionView;
use crate::parser::{spec_parse, spec_parse_expression, spec_parse_single, ParseError, Parsed};
use crate::token::{Operator, TokenView};

verus! {

/// The tokens of an expression written out with every operation in a group.
pub open spec fn expression_tokens(expression: ExpressionView) -> Seq<TokenView>
    decreases expression,
{
    match expression {
        ExpressionView::Label(text) => seq![TokenView::Label(text)],
        ExpressionView::Inverse(operand) => seq![TokenView::Operator(Operator::Not)]
            + expression_tokens(*operand),
        ExpressionView::Operation(left, operator, right) => seq![TokenView::OpenGroup]
            + expression_tokens(*left) + seq![TokenView::Operator(operator)] + expression_tokens(
            *right,
        ) + seq![TokenView::CloseGroup],
    }
}

/// A term written out with every operation in a group parses to itself,
/// and leaves what follows it.
pub proof fn lemma_parse_term(expression: ExpressionView, tail: Seq<TokenView>)
    requires
        expression.well_formed(),
    ensures
        spec_parse_single(expression_tokens(expression) + tail) == (Parsed {
            result: Ok(expression),
            rest: tail,
        }),
    decreases expression,
{
    let tokens = expression_tokens(expression) + tail;
    match expression {
        ExpressionView::Label(text) => {
            assert(tokens.drop_first() =~= tail);
        },
        ExpressionView::Inverse(operand) => {
            assert(tokens.drop_first() =~= expression_tokens(*operand) + tail);
            lemma_parse_term(*operand, tail);
        },
        ExpressionView::Operation(left, operator, right) => {
            let close = seq![TokenView::CloseGroup] + tail;
            let after_left = seq![TokenView::Operator(operator)] + expression_tokens(*right)
                + close;
            let inner = expression_tokens(*left) + after_left;
            assert(tokens.drop_first() =~= inner);
            lemma_parse_term(*left, after_left);
            assert(after_left.drop_first() =~= expression_tokens(*right) + close);
            lemma_parse_term(*right, close);
            assert(spec_parse_expression(expression_tokens(*right) + close) == (Parsed {
                result: Ok(*right),
                rest: close,
            }));
            assert(spec_parse_expression(inner) == (Parsed { result: Ok(expression), rest: close }));
            assert(close.drop_first() =~= tail);
        },
    }
}

/// The tokens of an expression written out with every operation in a
/// group parse to that expression.
pub proof fn lemma_parse_expression_tokens(expression: ExpressionView)
    requires
        expression.well_formed(),
    ensures
        spec_parse(expression_tokens(expression)) == Ok::<ExpressionView, ParseError>(expression),
{
    lemma_parse_term(expression, Seq::empty());
}

/// A single label parses to the label with the same text.
pub proof fn lemma_parse_label(text: Seq<char>)
    ensures
        spec_parse(seq![TokenView::Label(text)]) == Ok::<ExpressionView, ParseError>(
            ExpressionView::Label(text),
        ),
{
    lemma_parse_expression_tokens(ExpressionView::Label(text));
}

/// A group stands for the expression inside it and adds no node.
pub proof fn lemma_parse_group(expression: ExpressionView, tail: Seq<TokenView>)
    requires
        expression.well_formed(),
    ensures
        spec_parse_single(
            seq![TokenView::OpenGroup] + expression_tokens(expression) + seq![
                TokenView::CloseGroup,
            ] + tail,
        ) == (Parsed { result: Ok(expression), rest: tail }),
{
    let close = seq![TokenView::CloseGroup] + tail;
    let inner = expression_tokens(expression) + close;
    let tokens = seq![TokenView::OpenGroup] + expression_tokens(expression) + seq![
        TokenView::CloseGroup,
    ] + tail;
    assert(tokens.drop_first() =~= inner);
    lemma_parse_term(expression, close);
    assert(spec_parse_expression(inner) == (Parsed { result: Ok(expression), rest: close }));
    assert(close.drop_first() =~= tail);
}

/// `&&` and `||` have one rank and group to the right: of three terms in
/// a row, the second and the third form the right operand of the first
/// operator, whichever the two operators are.
pub proof fn lemma_parse_groups_to_the_right(
    a: ExpressionView,
    first: Operator,
    b: ExpressionView,
    second: Operator,
    c: ExpressionView,
)
    requires
        a.well_formed(),
        b.well_formed(),
        c.well_formed(),
        first != Operator::Not,
        second != Operator::Not,
    ensures
        spec_parse(
            expression_tokens(a) + seq![TokenView::Operator(first)] + expression_tokens(b) + seq![
                TokenView::Operator(second),
            ] + expression_tokens(c),
        ) == Ok::<ExpressionView, ParseError>(
            ExpressionView::Operation(
                Box::new(a),
                first,
                Box::new(ExpressionView::Operation(Box::new(b), second, Box::new(c))),
            ),
        ),
{
    let tokens = expression_tokens(a) + seq![TokenView::Operator(first)] + expression_tokens(b)
        + seq![TokenView::Operator(second)] + expression_tokens(c);
    let after_b = seq![TokenView::Operator(second)] + expression_tokens(c);
    let after_a = seq![TokenView::Operator(first)] + expression_tokens(b) + after_b;
    assert(tokens =~= expression_tokens(a) + after_a);
    lemma_parse_term(a, after_a);
    assert(after_a.drop_first() =~= expression_tokens(b) + after_b);
    lemma_parse_term(b, after_b);
    assert(after_b.drop_first() =~= expression_tokens(c) + Seq::<TokenView>::empty());
    lemma_parse_term(c, Seq::empty());
    assert(spec_parse_expression(after_b.drop_first()) == (Parsed {
        result: Ok(c),
        rest: Seq::empty(),
    }));
    assert(spec_parse_expression(after_a.drop_first()) == (Parsed {
        result: Ok(ExpressionView::Operation(Box::new(b), second, Box::new(c))),
        rest: Seq::empty(),
    }));
}

/// `!` binds to the one term that follows it, not to the operation that
/// the term is part of.
pub proof fn lemma_parse_negation_binds_first(
    a: ExpressionView,
    operator: Operator,
    b: ExpressionView,
)
    requires
        a.well_formed(),
        b.well_formed(),
        operator != Operator::Not,
    ensures
        spec_parse(
            seq![TokenView::Operator(Operator::Not)] + expression_tokens(a) + seq![
                TokenView::Operator(operator),
            ] + expression_tokens(b),
        ) == Ok::<ExpressionView, ParseError>(
            ExpressionView::Operation(
                Box::new(ExpressionView::Inverse(Box::new(a))),
                operator,
                Box::new(b),
            ),
        ),
{
    let tokens = seq![TokenView::Operator(Operator::Not)] + expression_tokens(a) + seq![
        TokenView::Operator(operator),
    ] + expression_tokens(b);
    let after_a = seq![TokenView::Operator(operator)] + expression_tokens(b);
    assert(tokens.drop_first() =~= expression_tokens(a) + after_a);
    lemma_parse_term(a, after_a);
    assert(after_a.drop_first() =~= expression_tokens(b) + Seq::<TokenView>::empty());
    lemma_parse_term(b, Seq::empty());
    assert(spec_parse_expression(after_a.drop_first()) == (Parsed {
        result: Ok(b),
        rest: Seq::empty(),
    }));
    assert(spec_parse_single(tokens) == (Parsed {
        result: Ok(ExpressionView::Inverse(Box::new(a))),
        rest: after_a,
    }));
}

/// Where a term is due, the end of the input, `)`, `&&` and `||` are
/// unexpected tokens, whatever follows them.
pub proof fn lemma_parse_missing_term(tokens: Seq<TokenView>)
    requires
        tokens.len() == 0 || tokens[0] is CloseGroup || tokens[0] == TokenView::Operator(
            Operator::And,
        ) || tokens[0] == TokenView::Operator(Operator::Or),
    ensures
        spec_parse(tokens) == Err::<ExpressionView, ParseError>(ParseError::UnexpectedToken),
{
    assert(spec_parse_single(tokens).result == Err::<ExpressionView, ParseError>(
        ParseError::UnexpectedToken,
    ));
}

/// A group that the end of the input cuts short after its expression is
/// unterminated.
pub proof fn lemma_parse_unterminated_group(expression: ExpressionView)
    requires
        expression.well_formed(),
    ensures
        spec_parse(seq![TokenView::OpenGroup] + expression_tokens(expression)) == Err::<
            ExpressionView,
            ParseError,
        >(ParseError::UnterminatedGroup),
{
    let tokens = seq![TokenView::OpenGroup] + expression_tokens(expression);
    let empty = Seq::<TokenView>::empty();
    assert(tokens.drop_first() =~= expression_tokens(expression) + empty);
    lemma_parse_term(expression, empty);
    assert(spec_parse_expression(tokens.drop_first()) == (Parsed {
        result: Ok(expression),
        rest: empty,
    }));
    assert(spec_parse_single(tokens).result == Err::<ExpressionView, ParseError>(
        ParseError::UnterminatedGroup,
    ));
}

/// After a term, a token that is neither `&&`, `||` nor `)` is no binary
/// operator: `!`, `(` and a label are refused there, whatever follows.
pub proof fn lemma_parse_invalid_operator(
    expression: ExpressionView,
    token: TokenView,
    tail: Seq<TokenView>,
)
    requires
        expression.well_formed(),
        token == TokenView::Operator(Operator::Not) || token is OpenGroup || token is Label,
    ensures
        spec_parse(expression_tokens(expression) + seq![token] + tail) == Err::<
            ExpressionView,
            ParseError,
        >(ParseError::InvalidBinaryOperator),
{
    let after = seq![token] + tail;
    assert(expression_tokens(expression) + seq![token] + tail =~= expression_tokens(expression)
        + after);
    lemma_parse_term(expression, after);
}

/// A `)` that no `(` called for is an unexpected token, whatever follows.
pub proof fn lemma_parse_unmatched_close(expression: ExpressionView, tail: Seq<TokenView>)
    requires
        expression.well_formed(),
    ensures
        spec_parse(expression_tokens(expression) + seq![TokenView::CloseGroup] + tail) == Err::<
            ExpressionView,
            ParseError,
        >(ParseError::UnexpectedToken),
{
    let after = seq![TokenView::CloseGroup] + tail;
    assert(expression_tokens(expression) + seq![TokenView::CloseGroup] + tail
        =~= expression_tokens(expression) + after);
    lemma_parse_term(expression, after);
}

} // verus!
