//! Splitting the text of a filter expression into tokens.
//!
//! The text is first spaced out: a space is put after every `(` and `!`
//! and before every `)`. The result is cut at the spaces, and each piece
//! that is left, a word, becomes one token. So `!(a)` needs no spaces of
//! its own, while `&&` and `||` are operators only where they stand as
//! words: `a&&b` is one label.
//!
//! The space is the only separator. A mark is set off on one side only,
//! the side where a term may follow `(` and `!` or come before `)`; on
//! its other side it joins the word next to it, so `a(b` is the two labels
//! `a(` and `b`.

use vstd::prelude::*;
use crate::token::{token_views, Operator, Token, TokenView};

verus! {

/// `String::push` appends the character to the end of the string.
pub assume_specification[ String::push ](s: &mut String, c: char)
    ensures
        final(s)@ == old(s)@.push(c),
;

/// What one character becomes when the text is spaced out: a space is added
/// after `(` and `!` and before `)`; any other character stands as it is.
pub open spec fn spaced(c: char) -> Seq<char> {
    if c == '(' || c == '!' {
        seq![c, ' ']
    } else if c == ')' {
        seq![' ', c]
    } else {
        seq![c]
    }
}

/// The text with every character spaced out.
pub open spec fn spec_normalize(text: Seq<char>) -> Seq<char> {
    text.flat_map(|c: char| spaced(c))
}

/// The number of characters before the first space, or before the end of
/// the text if it holds no space.
pub open spec fn word_len(text: Seq<char>) -> nat
    decreases text.len(),
{
    if text.len() == 0 || text[0] == ' ' {
        0
    } else {
        1 + word_len(text.drop_first())
    }
}

/// The first word is a proper, non-empty prefix of a text that does not
/// start with a space.
pub proof fn lemma_word_len_bounds(text: Seq<char>)
    ensures
        word_len(text) <= text.len(),
        text.len() > 0 && text[0] != ' ' ==> word_len(text) >= 1,
    decreases text.len(),
{
    if text.len() > 0 && text[0] != ' ' {
        lemma_word_len_bounds(text.drop_first());
    }
}

/// The maximal runs of characters other than the space, in the order in
/// which they stand in the text. No word is empty.
pub open spec fn words(text: Seq<char>) -> Seq<Seq<char>>
    decreases text.len(),
{
    if text.len() == 0 {
        Seq::empty()
    } else if text[0] == ' ' {
        words(text.drop_first())
    } else {
        proof {
            lemma_word_len_bounds(text);
        }
        let n = word_len(text) as int;
        seq![text.take(n)] + words(text.skip(n))
    }
}

/// The token that a word stands for. The five reserved words are the
/// connectives and the grouping marks; any other word is a label, taken
/// as it is.
pub open spec fn spec_classify(word: Seq<char>) -> TokenView {
    if word =~= seq!['!'] {
        TokenView::Operator(Operator::Not)
    } else if word =~= seq!['&', '&'] {
        TokenView::Operator(Operator::And)
    } else if word =~= seq!['|', '|'] {
        TokenView::Operator(Operator::Or)
    } else if word =~= seq!['('] {
        TokenView::OpenGroup
    } else if word =~= seq![')'] {
        TokenView::CloseGroup
    } else {
        TokenView::Label(word)
    }
}

/// The tokens of a text that is already spaced out: one for each word.
pub open spec fn word_tokens(text: Seq<char>) -> Seq<TokenView> {
    words(text).map_values(|word: Seq<char>| spec_classify(word))
}

/// The tokens of a text, in the order of the text: those of its words
/// once it is spaced out.
pub open spec fn spec_tokenize(text: Seq<char>) -> Seq<TokenView> {
    word_tokens(spec_normalize(text))
}

/// What a word of a spaced-out text looks like: it is not empty and holds
/// no space, `(` and `!` stand nowhere in it but at its end, and `)`
/// nowhere but at its start.
pub open spec fn is_word(word: Seq<char>) -> bool {
    &&& word.len() > 0
    &&& forall|i: int|
        0 <= i < word.len() ==> {
            &&& #[trigger] word[i] != ' '
            &&& (word[i] == '(' || word[i] == '!') ==> i == word.len() - 1
            &&& word[i] == ')' ==> i == 0
        }
}

/// A text that can stand for a label wherever a label may stand: it is not
/// empty, holds no space, `(`, `)` or `!`, and is neither `&&` nor `||`.
pub open spec fn is_label(word: Seq<char>) -> bool {
    &&& word.len() > 0
    &&& forall|i: int| 0 <= i < word.len() ==> is_plain(#[trigger] word[i]) && word[i] != ' '
    &&& !(word =~= seq!['&', '&'])
    &&& !(word =~= seq!['|', '|'])
}

/// A character that spacing out leaves alone.
pub open spec fn is_plain(c: char) -> bool {
    c != '(' && c != ')' && c != '!'
}

/// Spaces the text out, character by character.
pub fn normalize(input: &str) -> (text: Vec<char>)
    ensures
        text@ == spec_normalize(input@),
{
    let mut text: Vec<char> = Vec::new();
    for c in chars: input.chars()
        invariant
            chars.seq() == input@,
            text@ == spec_normalize(input@.take(chars.index() as int)),
    {
        proof {
            input@.lemma_flat_map_take_append(|c: char| spaced(c), chars.index() as int);
        }
        if c == '(' || c == '!' {
            text.push(c);
            text.push(' ');
        } else if c == ')' {
            text.push(' ');
            text.push(c);
        } else {
            text.push(c);
        }
    }
    assert(input@.take(input@.len() as int) == input@);
    text
}

/// The token for a word: a connective or a grouping mark for one of the
/// five reserved words, a label with the word as its text for any other.
pub fn classify(word: &[char]) -> (token: Token)
    ensures
        token@ == spec_classify(word@),
{
    let len: usize = word.len();
    if len == 1 && word[0] == '!' {
        Token::Operator(Operator::Not)
    } else if len == 2 && word[0] == '&' && word[1] == '&' {
        Token::Operator(Operator::And)
    } else if len == 2 && word[0] == '|' && word[1] == '|' {
        Token::Operator(Operator::Or)
    } else if len == 1 && word[0] == '(' {
        Token::OpenGroup
    } else if len == 1 && word[0] == ')' {
        Token::CloseGroup
    } else {
        let mut label = String::new();
        let mut i: usize = 0;
        while i < len
            invariant
                i <= len == word@.len(),
                label@ == word@.take(i as int),
            decreases len - i,
        {
            label.push(word[i]);
            i += 1;
        }
        assert(word@.take(len as int) == word@);
        Token::Label(label)
    }
}

/// Splits the text of a filter expression into its tokens. Every text has
/// a token sequence; whether that sequence is an expression is for the
/// parser to say.
pub fn tokenize(input: &str) -> (tokens: Vec<Token>)
    ensures
        token_views(tokens@) == spec_tokenize(input@),
{
    let text = normalize(input);
    let mut tokens: Vec<Token> = Vec::new();
    let mut i: usize = 0;
    assert(text@.skip(0) == text@);
    while i < text.len()
        invariant
            i <= text.len(),
            token_views(tokens@) + word_tokens(text@.skip(i as int)) == word_tokens(text@),
        decreases text.len() - i,
    {
        let ghost rest = text@.skip(i as int);
        if text[i] == ' ' {
            assert(rest.drop_first() == text@.skip(i + 1));
            i += 1;
        } else {
            let start: usize = i;
            while i < text.len() && text[i] != ' '
                invariant
                    start <= i <= text.len(),
                    rest == text@.skip(start as int),
                    word_len(rest) == (i - start) + word_len(text@.skip(i as int)),
                decreases text.len() - i,
            {
                assert(text@.skip(i as int).drop_first() == text@.skip(i + 1));
                i += 1;
            }
            let token = classify(&text.as_slice()[start..i]);
            proof {
                assert(rest.take(i - start) == text@.subrange(start as int, i as int));
                assert(rest.skip(i - start) == text@.skip(i as int));
            }
            tokens.push(token);
        }
    }
    tokens
}

} // verus!
