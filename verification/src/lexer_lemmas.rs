//! What holds of the tokens of every text.

use vstd::prelude::*;
use crate::lexer::{
    is_label, is_plain, is_word, lemma_word_len_bounds, spaced, spec_classify, spec_normalize,
    spec_tokenize, word_len, word_tokens, words,
};
use crate::token::{Operator, TokenView};

verus! {

/// Spacing out a single character.
pub proof fn lemma_normalize_char(c: char)
    ensures
        spec_normalize(seq![c]) == spaced(c),
{
    seq![c].lemma_flat_map_singleton(|c: char| spaced(c));
}

/// Spacing out goes through a text piece by piece.
pub proof fn lemma_normalize_concat(a: Seq<char>, b: Seq<char>)
    ensures
        spec_normalize(a + b) == spec_normalize(a) + spec_normalize(b),
{
    let f = |c: char| spaced(c);
    assert((a + b).map_values(f) =~= a.map_values(f) + b.map_values(f));
    vstd::seq_lib::lemma_flatten_concat(a.map_values(f), b.map_values(f));
}

/// Spacing out changes nothing in a text without `(`, `)` and `!`.
pub proof fn lemma_normalize_plain(text: Seq<char>)
    requires
        forall|i: int| 0 <= i < text.len() ==> is_plain(#[trigger] text[i]),
    ensures
        spec_normalize(text) == text,
    decreases text.len(),
{
    if text.len() > 0 {
        let front = text.drop_last();
        lemma_normalize_plain(front);
        assert(text =~= front + seq![text.last()]);
        lemma_normalize_concat(front, seq![text.last()]);
        lemma_normalize_char(text.last());
    }
}

/// A space ends the first word, whatever stands behind it.
pub proof fn lemma_word_len_before_space(a: Seq<char>, b: Seq<char>)
    ensures
        word_len(a + seq![' '] + b) == word_len(a),
    decreases a.len(),
{
    let whole = a + seq![' '] + b;
    if a.len() > 0 && a[0] != ' ' {
        lemma_word_len_before_space(a.drop_first(), b);
        assert(whole.drop_first() =~= a.drop_first() + seq![' '] + b);
    }
}

/// A text without a space is one word.
pub proof fn lemma_word_len_of_word(word: Seq<char>)
    requires
        forall|i: int| 0 <= i < word.len() ==> #[trigger] word[i] != ' ',
    ensures
        word_len(word) == word.len(),
    decreases word.len(),
{
    if word.len() > 0 {
        lemma_word_len_of_word(word.drop_first());
    }
}

/// The words of a non-empty text without a space: the text itself.
pub proof fn lemma_words_of_word(word: Seq<char>)
    requires
        word.len() > 0,
        forall|i: int| 0 <= i < word.len() ==> #[trigger] word[i] != ' ',
    ensures
        words(word) == seq![word],
{
    lemma_word_len_of_word(word);
    assert(word.take(word.len() as int) =~= word);
    assert(words(word.skip(word.len() as int)) =~= Seq::<Seq<char>>::empty());
}

/// The words of two texts joined by a space are the words of the first
/// followed by the words of the second.
pub proof fn lemma_words_split(a: Seq<char>, b: Seq<char>)
    ensures
        words(a + seq![' '] + b) == words(a) + words(b),
    decreases a.len(),
{
    let whole = a + seq![' '] + b;
    if a.len() == 0 {
        assert(whole.drop_first() =~= b);
    } else if a[0] == ' ' {
        assert(whole.drop_first() =~= a.drop_first() + seq![' '] + b);
        lemma_words_split(a.drop_first(), b);
    } else {
        let n = word_len(a) as int;
        lemma_word_len_bounds(a);
        lemma_word_len_before_space(a, b);
        assert(whole.take(n) =~= a.take(n));
        assert(whole.skip(n) =~= a.skip(n) + seq![' '] + b);
        lemma_words_split(a.skip(n), b);
    }
}

/// The tokens of a text that is spaced out and holds two texts with a
/// space between them.
pub proof fn lemma_word_tokens_split(a: Seq<char>, b: Seq<char>)
    ensures
        word_tokens(a + seq![' '] + b) == word_tokens(a) + word_tokens(b),
{
    lemma_words_split(a, b);
}

/// The tokens of a text that is spaced out and is one word.
pub proof fn lemma_word_tokens_of_word(word: Seq<char>)
    requires
        word.len() > 0,
        forall|i: int| 0 <= i < word.len() ==> #[trigger] word[i] != ' ',
    ensures
        word_tokens(word) == seq![spec_classify(word)],
{
    lemma_words_of_word(word);
}

/// A space between two texts keeps their tokens apart: the tokens of the
/// whole are those of the first text followed by those of the second.
pub proof fn lemma_tokenize_spaced(a: Seq<char>, b: Seq<char>)
    ensures
        spec_tokenize(a + seq![' '] + b) == spec_tokenize(a) + spec_tokenize(b),
{
    lemma_normalize_concat(a, seq![' ']);
    lemma_normalize_concat(a + seq![' '], b);
    lemma_normalize_char(' ');
    lemma_word_tokens_split(spec_normalize(a), spec_normalize(b));
}

/// `!` in front of a text is a token of its own.
pub proof fn lemma_tokenize_negated(a: Seq<char>)
    ensures
        spec_tokenize(seq!['!'] + a) == seq![TokenView::Operator(Operator::Not)] + spec_tokenize(a),
{
    let bang = seq!['!'];
    lemma_normalize_concat(bang, a);
    lemma_normalize_char('!');
    assert(spec_normalize(bang + a) =~= bang + seq![' '] + spec_normalize(a));
    lemma_word_tokens_split(bang, spec_normalize(a));
    lemma_word_tokens_of_word(bang);
}

/// Parentheses around a text are tokens of their own.
pub proof fn lemma_tokenize_grouped(a: Seq<char>)
    ensures
        spec_tokenize(seq!['('] + a + seq![')']) == seq![TokenView::OpenGroup] + spec_tokenize(a)
            + seq![TokenView::CloseGroup],
{
    let open = seq!['('];
    let close = seq![')'];
    let space = seq![' '];
    lemma_normalize_concat(open, a);
    lemma_normalize_concat(open + a, close);
    lemma_normalize_char('(');
    lemma_normalize_char(')');
    let tail = spec_normalize(a) + space + close;
    assert(spec_normalize(open + a + close) =~= open + space + tail);
    lemma_word_tokens_split(open, tail);
    lemma_word_tokens_split(spec_normalize(a), close);
    lemma_word_tokens_of_word(open);
    lemma_word_tokens_of_word(close);
}

/// A label on its own is one token, with the label's text.
pub proof fn lemma_tokenize_label(text: Seq<char>)
    requires
        is_label(text),
    ensures
        spec_tokenize(text) == seq![TokenView::Label(text)],
{
    lemma_normalize_plain(text);
    lemma_word_tokens_of_word(text);
}

/// No word is empty, and none holds a space.
pub proof fn lemma_words_are_words(text: Seq<char>, k: int)
    requires
        0 <= k < words(text).len(),
    ensures
        words(text)[k].len() > 0,
        forall|i: int| 0 <= i < words(text)[k].len() ==> #[trigger] words(text)[k][i] != ' ',
    decreases text.len(),
{
    if text[0] == ' ' {
        lemma_words_are_words(text.drop_first(), k);
    } else {
        let n = word_len(text) as int;
        lemma_word_len_bounds(text);
        if k == 0 {
            lemma_word_len_is_space_free(text);
        } else {
            lemma_words_are_words(text.skip(n), k - 1);
        }
    }
}

/// No space stands before the end of the first word.
pub proof fn lemma_word_len_is_space_free(text: Seq<char>)
    ensures
        forall|i: int| 0 <= i < word_len(text) ==> #[trigger] text[i] != ' ',
    decreases text.len(),
{
    if text.len() > 0 && text[0] != ' ' {
        lemma_word_len_is_space_free(text.drop_first());
        lemma_word_len_bounds(text);
        assert forall|i: int| 0 <= i < word_len(text) implies #[trigger] text[i] != ' ' by {
            if i > 0 {
                assert(text[i] == text.drop_first()[i - 1]);
            }
        }
    }
}

/// Every `(` and `!` of the text has a space behind it, and every `)` a
/// space in front of it.
pub open spec fn marks_spaced(text: Seq<char>) -> bool {
    forall|i: int|
        0 <= i < text.len() ==> {
            &&& (#[trigger] text[i] == '(' || text[i] == '!') ==> i + 1 < text.len() && text[i
                + 1] == ' '
            &&& text[i] == ')' ==> i > 0 && text[i - 1] == ' '
        }
}

/// Every `(` and `!` of the text has a space or the end of the text behind
/// it, and every `)` a space or the start of the text in front of it.
pub open spec fn marks_set_off(text: Seq<char>) -> bool {
    forall|i: int|
        0 <= i < text.len() ==> {
            &&& (#[trigger] text[i] == '(' || text[i] == '!') ==> i + 1 == text.len() || text[i
                + 1] == ' '
            &&& text[i] == ')' ==> i == 0 || text[i - 1] == ' '
        }
}

/// Two texts with their marks spaced, one after the other, have their
/// marks spaced.
pub proof fn lemma_marks_spaced_concat(a: Seq<char>, b: Seq<char>)
    requires
        marks_spaced(a),
        marks_spaced(b),
    ensures
        marks_spaced(a + b),
{
    let whole = a + b;
    assert forall|i: int| 0 <= i < whole.len() implies {
        &&& (#[trigger] whole[i] == '(' || whole[i] == '!') ==> i + 1 < whole.len() && whole[i
            + 1] == ' '
        &&& whole[i] == ')' ==> i > 0 && whole[i - 1] == ' '
    } by {
        if i < a.len() {
            assert(whole[i] == a[i]);
        } else {
            assert(whole[i] == b[i - a.len()]);
        }
    }
}

/// Spacing out leaves every mark spaced.
pub proof fn lemma_normalize_spaces_marks(text: Seq<char>)
    ensures
        marks_spaced(spec_normalize(text)),
        marks_set_off(spec_normalize(text)),
    decreases text.len(),
{
    if text.len() > 0 {
        let front = text.drop_last();
        lemma_normalize_spaces_marks(front);
        assert(text =~= front + seq![text.last()]);
        lemma_normalize_concat(front, seq![text.last()]);
        lemma_normalize_char(text.last());
        lemma_marks_spaced_concat(spec_normalize(front), spaced(text.last()));
    }
}

/// The words of a text whose marks are set off have `(` and `!` at their
/// end only and `)` at their start only.
pub proof fn lemma_words_of_set_off_text(text: Seq<char>, k: int)
    requires
        marks_set_off(text),
        0 <= k < words(text).len(),
    ensures
        is_word(words(text)[k]),
    decreases text.len(),
{
    if text[0] == ' ' {
        // Without its first character, a space, the text has its marks
        // set off as before.
        assert(marks_set_off(text.drop_first()));
        lemma_words_of_set_off_text(text.drop_first(), k);
    } else {
        let n = word_len(text) as int;
        lemma_word_len_bounds(text);
        if k == 0 {
            // Inside the first word every neighbour is no space, so a mark
            // in it has the edge of the word for its neighbour.
            lemma_word_len_is_space_free(text);
            assert(is_word(text.take(n)));
        } else {
            assert(marks_set_off(text.skip(n)));
            lemma_words_of_set_off_text(text.skip(n), k - 1);
        }
    }
}

/// A text of nothing but spaces has no tokens; so has the empty text.
pub proof fn lemma_blank_text_has_no_tokens(text: Seq<char>)
    requires
        forall|i: int| 0 <= i < text.len() ==> #[trigger] text[i] == ' ',
    ensures
        spec_tokenize(text) == Seq::<TokenView>::empty(),
{
    lemma_normalize_plain(text);
    lemma_blank_text_has_no_words(text);
}

/// A text of nothing but spaces has no words.
pub proof fn lemma_blank_text_has_no_words(text: Seq<char>)
    requires
        forall|i: int| 0 <= i < text.len() ==> #[trigger] text[i] == ' ',
    ensures
        words(text) == Seq::<Seq<char>>::empty(),
    decreases text.len(),
{
    if text.len() > 0 {
        lemma_blank_text_has_no_words(text.drop_first());
    }
}

/// Every label among the tokens of a text is a word that is none of the
/// five reserved ones: it is not empty and holds no space, and a mark in
/// it stands at the one edge where no space was put.
pub proof fn lemma_tokenize_labels(text: Seq<char>, k: int)
    requires
        0 <= k < spec_tokenize(text).len(),
    ensures
        spec_tokenize(text)[k] matches TokenView::Label(word) ==> {
            &&& is_word(word)
            &&& spec_classify(word) == TokenView::Label(word)
        },
{
    lemma_normalize_spaces_marks(text);
    lemma_words_of_set_off_text(spec_normalize(text), k);
}

} // verus!
