//! Writing an expression out as text, and reading it back.
//!
//! In the written form every operation stands in its own pair of
//! parentheses, so the text fixes the shape of the tree whatever the
//! grouping of `&&` and `||` would be without them.

use vstd::prelude::*;
use crate::expression::ExpressionView;
use crate::lexer::{is_label, spec_tokenize};
use crate::lexer_lemmas::{
    lemma_normalize_plain, lemma_tokenize_grouped, lemma_tokenize_label, lemma_tokenize_negated,
    lemma_tokenize_spaced, lemma_word_tokens_of_word,
};
use crate::parser::{spec_parse, ParseError};
use crate::parser_lemmas::{expression_tokens, lemma_parse_expression_tokens};
use crate::token::{Operator, TokenView};

verus! {

/// The word for a connective.
pub open spec fn operator_text(operator: Operator) -> Seq<char> {
    match operator {
        Operator::And => seq!['&', '&'],
        Operator::Or => seq!['|', '|'],
        Operator::Not => seq!['!'],
    }
}

/// The text of an expression, with every operation in parentheses:
/// `!a`, `(a && b)`, `((a && b) || !c)`.
pub open spec fn render(expression: ExpressionView) -> Seq<char>
    decreases expression,
{
    match expression {
        ExpressionView::Label(text) => text,
        ExpressionView::Inverse(operand) => seq!['!'] + render(*operand),
        ExpressionView::Operation(left, operator, right) => seq!['('] + render(*left) + seq![' ']
            + operator_text(operator) + seq![' '] + render(*right) + seq![')'],
    }
}

/// Every label of the expression can stand for a label in a text.
pub open spec fn has_plain_labels(expression: ExpressionView) -> bool
    decreases expression,
{
    match expression {
        ExpressionView::Label(text) => is_label(text),
        ExpressionView::Inverse(operand) => has_plain_labels(*operand),
        ExpressionView::Operation(left, _, right) => has_plain_labels(*left) && has_plain_labels(
            *right,
        ),
    }
}

/// The word for `&&` or `||` is the token for it.
proof fn lemma_tokenize_operator(operator: Operator)
    requires
        operator != Operator::Not,
    ensures
        spec_tokenize(operator_text(operator)) == seq![TokenView::Operator(operator)],
{
    let word = operator_text(operator);
    lemma_normalize_plain(word);
    lemma_word_tokens_of_word(word);
}

/// The written form of an expression falls into the tokens of the
/// expression.
pub proof fn lemma_tokenize_render(expression: ExpressionView)
    requires
        expression.well_formed(),
        has_plain_labels(expression),
    ensures
        spec_tokenize(render(expression)) == expression_tokens(expression),
    decreases expression,
{
    match expression {
        ExpressionView::Label(text) => {
            lemma_tokenize_label(text);
        },
        ExpressionView::Inverse(operand) => {
            lemma_tokenize_render(*operand);
            lemma_tokenize_negated(render(*operand));
        },
        ExpressionView::Operation(left, operator, right) => {
            let space = seq![' '];
            let tail = operator_text(operator) + space + render(*right);
            let inner = render(*left) + space + tail;
            lemma_tokenize_render(*left);
            lemma_tokenize_render(*right);
            lemma_tokenize_operator(operator);
            lemma_tokenize_spaced(operator_text(operator), render(*right));
            lemma_tokenize_spaced(render(*left), tail);
            lemma_tokenize_grouped(inner);
            assert(render(expression) =~= seq!['('] + inner + seq![')']);
        },
    }
}

/// Writing an expression out with every operation in parentheses,
/// splitting the text into tokens and parsing them gives the expression
/// back, if its labels can stand in a text and no operation has `Not`
/// for its operator.
pub proof fn lemma_render_round_trip(expression: ExpressionView)
    requires
        expression.well_formed(),
        has_plain_labels(expression),
    ensures
        spec_tokenize(render(expression)) == expression_tokens(expression),
        spec_parse(spec_tokenize(render(expression))) == Ok::<ExpressionView, ParseError>(
            expression,
        ),
{
    lemma_tokenize_render(expression);
    lemma_parse_expression_tokens(expression);
}

} // verus!
