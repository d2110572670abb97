use label_filter::cursor::TokenIterator;
use label_filter::expression::Expression;
use label_filter::lexer::tokenize;
use label_filter::parser::{parse, parse_expression, parse_single, ParseError};
use label_filter::token::{Operator, Token};

fn label(text: &str) -> Expression {
    Expression::Label(text.to_string())
}

fn not(operand: Expression) -> Expression {
    Expression::Inverse(Box::new(operand))
}

fn and(left: Expression, right: Expression) -> Expression {
    Expression::Operation(Box::new(left), Operator::And, Box::new(right))
}

fn or(left: Expression, right: Expression) -> Expression {
    Expression::Operation(Box::new(left), Operator::Or, Box::new(right))
}

fn parse_text(text: &str) -> Result<Expression, ParseError> {
    parse(tokenize(text))
}

#[test]
fn test_parse_single() {
    let mut test1 = TokenIterator::new(vec![Token::Label("asd".into())]);
    assert_eq!(parse_single(&mut test1), Ok(Expression::Label("asd".into())));

    let mut test2 = TokenIterator::new(vec![
        Token::Operator(Operator::Not),
        Token::Label("asd".into()),
    ]);
    assert_eq!(
        parse_single(&mut test2),
        Ok(Expression::Inverse(Expression::Label("asd".into()).into()))
    );

    let mut test3 = TokenIterator::new(vec![
        Token::OpenGroup,
        Token::Label("asd".into()),
        Token::CloseGroup,
    ]);
    assert_eq!(parse_single(&mut test3), Ok(Expression::Label("asd".into())));
}

#[test]
fn a_label_token_is_a_label_node() {
    assert_eq!(parse(vec![Token::Label("asd".into())]), Ok(label("asd")));
    assert_eq!(parse(vec![Token::Label("tag:x-1".into())]), Ok(label("tag:x-1")));
}

#[test]
fn negation_wraps_the_next_term() {
    assert_eq!(
        parse(vec![Token::Operator(Operator::Not), Token::Label("asd".into())]),
        Ok(not(label("asd")))
    );
    assert_eq!(parse_text("!!a"), Ok(not(not(label("a")))));
}

#[test]
fn a_group_adds_no_node() {
    assert_eq!(
        parse(vec![Token::OpenGroup, Token::Label("asd".into()), Token::CloseGroup]),
        Ok(label("asd"))
    );
    assert_eq!(parse_text("(((a)))"), Ok(label("a")));
}

#[test]
fn operators_group_to_the_right() {
    assert_eq!(parse_text("a && b || c"), Ok(and(label("a"), or(label("b"), label("c")))));
    assert_eq!(parse_text("a || b && c"), Ok(or(label("a"), and(label("b"), label("c")))));
    assert_eq!(
        parse_text("a && b && c && d"),
        Ok(and(label("a"), and(label("b"), and(label("c"), label("d")))))
    );
}

#[test]
fn groups_override_the_grouping() {
    assert_eq!(parse_text("(a && b) || c"), Ok(or(and(label("a"), label("b")), label("c"))));
    assert_eq!(parse_text("a && (b || c)"), Ok(and(label("a"), or(label("b"), label("c")))));
}

#[test]
fn negation_binds_to_one_term() {
    assert_eq!(parse_text("! a && b"), Ok(and(not(label("a")), label("b"))));
    assert_eq!(parse_text("!(a && b)"), Ok(not(and(label("a"), label("b")))));
    assert_eq!(parse_text("a && !b"), Ok(and(label("a"), not(label("b")))));
}

#[test]
fn a_longer_query() {
    assert_eq!(
        parse_text("tag:tag1 && (tag:tag2 || (tag:tag3 && !asdf))"),
        Ok(and(
            label("tag:tag1"),
            or(label("tag:tag2"), and(label("tag:tag3"), not(label("asdf"))))
        ))
    );
    assert_eq!(
        parse_text("tag:tag1 && (tag:tag2 || tag:tag3 || tag:tag4) && !bad"),
        Ok(and(
            label("tag:tag1"),
            and(
                or(label("tag:tag2"), or(label("tag:tag3"), label("tag:tag4"))),
                not(label("bad"))
            )
        ))
    );
}

#[test]
fn a_fully_grouped_text_reads_back_as_written() {
    assert_eq!(
        parse_text("((a && b) || !c)"),
        Ok(or(and(label("a"), label("b")), not(label("c"))))
    );
    assert_eq!(
        parse_text("(!(a || b) && (c || (d && e)))"),
        Ok(and(
            not(or(label("a"), label("b"))),
            or(label("c"), and(label("d"), label("e")))
        ))
    );
    assert_eq!(parse_text("!!(x && !y)"), Ok(not(not(and(label("x"), not(label("y")))))));
}

#[test]
fn an_open_group_at_the_end_is_unterminated() {
    assert_eq!(
        parse(vec![Token::OpenGroup, Token::Label("a".into())]),
        Err(ParseError::UnterminatedGroup)
    );
    assert_eq!(parse_text("(a && b"), Err(ParseError::UnterminatedGroup));
    assert_eq!(parse_text("((a)"), Err(ParseError::UnterminatedGroup));
}

#[test]
fn an_operator_without_left_operand_is_unexpected() {
    assert_eq!(parse(vec![Token::Operator(Operator::And)]), Err(ParseError::UnexpectedToken));
    assert_eq!(parse_text("|| a"), Err(ParseError::UnexpectedToken));
}

#[test]
fn a_missing_term_is_unexpected() {
    assert_eq!(parse(Vec::new()), Err(ParseError::UnexpectedToken));
    assert_eq!(parse_text(""), Err(ParseError::UnexpectedToken));
    assert_eq!(parse_text("a &&"), Err(ParseError::UnexpectedToken));
    assert_eq!(parse_text("!"), Err(ParseError::UnexpectedToken));
    assert_eq!(parse_text("("), Err(ParseError::UnexpectedToken));
    assert_eq!(parse_text("()"), Err(ParseError::UnexpectedToken));
    assert_eq!(parse_text(")"), Err(ParseError::UnexpectedToken));
    assert_eq!(parse_text("a && && b"), Err(ParseError::UnexpectedToken));
}

#[test]
fn a_close_without_open_is_unexpected() {
    assert_eq!(parse_text("a )"), Err(ParseError::UnexpectedToken));
    assert_eq!(parse_text("(a) )"), Err(ParseError::UnexpectedToken));
    assert_eq!(parse_text("a ) b"), Err(ParseError::UnexpectedToken));
}

#[test]
fn only_and_and_or_join_two_terms() {
    assert_eq!(parse_text("a ! b"), Err(ParseError::InvalidBinaryOperator));
    assert_eq!(parse_text("a b"), Err(ParseError::InvalidBinaryOperator));
    assert_eq!(parse_text("a (b)"), Err(ParseError::InvalidBinaryOperator));
    assert_eq!(parse_text("(a b"), Err(ParseError::InvalidBinaryOperator));
    assert_eq!(
        parse(vec![
            Token::Label("a".into()),
            Token::Operator(Operator::Not),
            Token::Label("b".into()),
        ]),
        Err(ParseError::InvalidBinaryOperator)
    );
}

#[test]
fn a_term_leaves_the_rest_unread() {
    let mut iter = TokenIterator::new(tokenize("a && b"));
    assert_eq!(parse_single(&mut iter), Ok(label("a")));
    assert_eq!(iter.peek(), Some(&Token::Operator(Operator::And)));
    assert_eq!(iter.next(), Some(Token::Operator(Operator::And)));
    assert_eq!(parse_single(&mut iter), Ok(label("b")));
    assert_eq!(iter.peek(), None);
    assert_eq!(parse_single(&mut iter), Err(ParseError::UnexpectedToken));
}

#[test]
fn an_expression_stops_before_a_close() {
    let mut iter = TokenIterator::new(tokenize("a || b ) c"));
    assert_eq!(parse_expression(&mut iter), Ok(or(label("a"), label("b"))));
    assert_eq!(iter.next(), Some(Token::CloseGroup));
    assert_eq!(iter.next(), Some(Token::Label("c".into())));
    assert_eq!(iter.next(), None);
}

#[test]
fn a_failing_step_has_read_its_token() {
    let mut iter = TokenIterator::new(tokenize("&& a"));
    assert_eq!(parse_single(&mut iter), Err(ParseError::UnexpectedToken));
    assert_eq!(iter.next(), Some(Token::Label("a".into())));

    let mut iter = TokenIterator::new(tokenize("a ! b"));
    assert_eq!(parse_expression(&mut iter), Err(ParseError::InvalidBinaryOperator));
    assert_eq!(iter.next(), Some(Token::Label("b".into())));

    let mut iter = TokenIterator::new(tokenize("( a"));
    assert_eq!(parse_single(&mut iter), Err(ParseError::UnterminatedGroup));
    assert_eq!(iter.next(), None);
}

#[test]
fn the_cursor_hands_out_tokens_in_order() {
    let mut iter = TokenIterator::new(vec![
        Token::OpenGroup,
        Token::Label("x".into()),
        Token::CloseGroup,
    ]);
    assert_eq!(iter.peek(), Some(&Token::OpenGroup));
    assert_eq!(iter.peek(), Some(&Token::OpenGroup));
    assert_eq!(iter.next(), Some(Token::OpenGroup));
    assert_eq!(iter.peek(), Some(&Token::Label("x".into())));
    assert_eq!(iter.next(), Some(Token::Label("x".into())));
    assert_eq!(iter.next(), Some(Token::CloseGroup));
    assert_eq!(iter.peek(), None);
    assert_eq!(iter.next(), None);
    assert_eq!(iter.next(), None);
}

#[test]
fn the_cursor_of_no_tokens_is_at_its_end() {
    let mut iter = TokenIterator::new(Vec::new());
    assert_eq!(iter.peek(), None);
    assert_eq!(iter.next(), None);
}
