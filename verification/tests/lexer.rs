use label_filter::lexer::{classify, normalize, tokenize};
use label_filter::token::{Operator, Token};

fn label(text: &str) -> Token {
    Token::Label(text.to_string())
}

fn chars(text: &str) -> Vec<char> {
    text.chars().collect()
}

#[test]
fn test_tokenize() {
    assert_eq!(tokenize(""), Vec::<Token>::new());
    assert_eq!(
        tokenize("a b c"),
        vec![
            Token::Label("a".into()),
            Token::Label("b".into()),
            Token::Label("c".into()),
        ]
    );
    assert_eq!(
        tokenize("tag:test && hello-world"),
        vec![
            Token::Label("tag:test".into()),
            Token::Operator(Operator::And),
            Token::Label("hello-world".into()),
        ]
    );
    assert_eq!(
        tokenize("a && !b"),
        vec![
            Token::Label("a".into()),
            Token::Operator(Operator::And),
            Token::Operator(Operator::Not),
            Token::Label("b".into()),
        ]
    );
    assert_eq!(
        tokenize("((a b) c)"),
        vec![
            Token::OpenGroup,
            Token::OpenGroup,
            Token::Label("a".into()),
            Token::Label("b".into()),
            Token::CloseGroup,
            Token::Label("c".into()),
            Token::CloseGroup,
        ]
    );
}

#[test]
fn empty_text_has_no_tokens() {
    assert_eq!(tokenize(""), Vec::<Token>::new());
}

#[test]
fn spaces_alone_have_no_tokens() {
    assert_eq!(tokenize(" "), Vec::<Token>::new());
    assert_eq!(tokenize("      "), Vec::<Token>::new());
}

#[test]
fn spaces_around_tokens_are_dropped() {
    assert_eq!(tokenize("  a   b  "), vec![label("a"), label("b")]);
    assert_eq!(tokenize(" &&"), vec![Token::Operator(Operator::And)]);
}

#[test]
fn three_labels_in_a_row() {
    assert_eq!(tokenize("a b c"), vec![label("a"), label("b"), label("c")]);
}

#[test]
fn labels_keep_their_punctuation() {
    assert_eq!(
        tokenize("tag:test && hello-world"),
        vec![label("tag:test"), Token::Operator(Operator::And), label("hello-world")]
    );
    assert_eq!(tokenize("a.b/c_d=e"), vec![label("a.b/c_d=e")]);
}

#[test]
fn label_text_is_copied_whole() {
    assert_eq!(tokenize("abc"), vec![Token::Label(String::from("abc"))]);
    assert_eq!(tokenize("étiquette ключ"), vec![label("étiquette"), label("ключ")]);
}

#[test]
fn negation_needs_no_space_after_it() {
    assert_eq!(
        tokenize("a && !b"),
        vec![
            label("a"),
            Token::Operator(Operator::And),
            Token::Operator(Operator::Not),
            label("b"),
        ]
    );
    assert_eq!(
        tokenize("!!a"),
        vec![Token::Operator(Operator::Not), Token::Operator(Operator::Not), label("a")]
    );
}

#[test]
fn groups_need_no_space_inside() {
    assert_eq!(
        tokenize("((a b) c)"),
        vec![
            Token::OpenGroup,
            Token::OpenGroup,
            label("a"),
            label("b"),
            Token::CloseGroup,
            label("c"),
            Token::CloseGroup,
        ]
    );
    assert_eq!(
        tokenize("!(a)"),
        vec![Token::Operator(Operator::Not), Token::OpenGroup, label("a"), Token::CloseGroup]
    );
}

#[test]
fn every_reserved_word_has_its_token() {
    assert_eq!(
        tokenize("! && || ( )"),
        vec![
            Token::Operator(Operator::Not),
            Token::Operator(Operator::And),
            Token::Operator(Operator::Or),
            Token::OpenGroup,
            Token::CloseGroup,
        ]
    );
}

#[test]
fn operators_are_words_of_their_own() {
    assert_eq!(tokenize("a&&b"), vec![label("a&&b")]);
    assert_eq!(tokenize("a ||b"), vec![label("a"), label("||b")]);
    assert_eq!(tokenize("&"), vec![label("&")]);
    assert_eq!(tokenize("&&&"), vec![label("&&&")]);
}

#[test]
fn marks_are_set_off_on_one_side_only() {
    assert_eq!(tokenize("a(b"), vec![label("a("), label("b")]);
    assert_eq!(tokenize("a)b"), vec![label("a"), label(")b")]);
    assert_eq!(tokenize("a!b"), vec![label("a!"), label("b")]);
    assert_eq!(tokenize("a &&(b)"), vec![label("a"), label("&&("), label("b"), Token::CloseGroup]);
}

#[test]
fn only_the_space_separates() {
    assert_eq!(tokenize("a\tb"), vec![label("a\tb")]);
    assert_eq!(tokenize("\n"), vec![label("\n")]);
}

#[test]
fn normalize_adds_spaces_at_the_marks() {
    assert_eq!(normalize(""), chars(""));
    assert_eq!(normalize("a && b"), chars("a && b"));
    assert_eq!(normalize("(a)"), chars("( a )"));
    assert_eq!(normalize("!a"), chars("! a"));
    assert_eq!(normalize("!(a b)"), chars("! ( a b )"));
    assert_eq!(normalize("( a )"), chars("(  a  )"));
}

#[test]
fn classify_knows_the_reserved_words() {
    assert_eq!(classify(&chars("!")), Token::Operator(Operator::Not));
    assert_eq!(classify(&chars("&&")), Token::Operator(Operator::And));
    assert_eq!(classify(&chars("||")), Token::Operator(Operator::Or));
    assert_eq!(classify(&chars("(")), Token::OpenGroup);
    assert_eq!(classify(&chars(")")), Token::CloseGroup);
}

#[test]
fn classify_takes_any_other_word_for_a_label() {
    assert_eq!(classify(&chars("tag:test")), label("tag:test"));
    assert_eq!(classify(&chars("&|")), label("&|"));
    assert_eq!(classify(&chars("!!")), label("!!"));
    assert_eq!(classify(&chars("")), label(""));
}
