//! The matching of `(` and `)` in what the parser accepts.

use vstd::prelude::*;
use crate::parser::{lemma_parse_consumes, spec_parse, spec_parse_expression, spec_parse_single};
use crate::token::TokenView;

verus! {

/// What a token adds to the number of open groups.
pub open spec fn group_step(token: TokenView) -> int {
    match token {
        TokenView::OpenGroup => 1,
        TokenView::CloseGroup => -1,
        _ => 0,
    }
}

/// The number of `(` among the tokens, less the number of `)`.
pub open spec fn open_groups(tokens: Seq<TokenView>) -> int
    decreases tokens.len(),
{
    if tokens.len() == 0 {
        0
    } else {
        open_groups(tokens.drop_last()) + group_step(tokens.last())
    }
}

/// Every `)` closes a `(` that stands open before it, and no `(` stays
/// open at the end.
pub open spec fn groups_match(tokens: Seq<TokenView>) -> bool {
    &&& open_groups(tokens) == 0
    &&& forall|n: int| 0 <= n <= tokens.len() ==> open_groups(#[trigger] tokens.take(n)) >= 0
}

/// The tokens that a step has read, given what it was handed and what it
/// left.
pub open spec fn tokens_read(tokens: Seq<TokenView>, rest: Seq<TokenView>) -> Seq<TokenView> {
    tokens.take(tokens.len() - rest.len())
}

/// The open groups of two sequences in a row add up.
pub proof fn lemma_open_groups_concat(a: Seq<TokenView>, b: Seq<TokenView>)
    ensures
        open_groups(a + b) == open_groups(a) + open_groups(b),
    decreases b.len(),
{
    if b.len() > 0 {
        assert((a + b).drop_last() =~= a + b.drop_last());
        lemma_open_groups_concat(a, b.drop_last());
    }
}

/// The open groups of a single token.
pub proof fn lemma_open_groups_one(token: TokenView)
    ensures
        open_groups(seq![token]) == group_step(token),
{
    assert(open_groups(seq![token].drop_last()) == 0);
}

/// Two sequences with matching groups, one after the other, have
/// matching groups.
pub proof fn lemma_groups_match_concat(a: Seq<TokenView>, b: Seq<TokenView>)
    requires
        groups_match(a),
        groups_match(b),
    ensures
        groups_match(a + b),
{
    lemma_open_groups_concat(a, b);
    assert forall|n: int| 0 <= n <= (a + b).len() implies open_groups(#[trigger] (a + b).take(n))
        >= 0 by {
        if n <= a.len() {
            assert((a + b).take(n) =~= a.take(n));
        } else {
            assert((a + b).take(n) =~= a + b.take(n - a.len()));
            lemma_open_groups_concat(a, b.take(n - a.len()));
        }
    }
}

/// A token that is no grouping mark has matching groups.
pub proof fn lemma_groups_match_one(token: TokenView)
    requires
        group_step(token) == 0,
    ensures
        groups_match(seq![token]),
{
    let one = seq![token];
    lemma_open_groups_one(token);
    assert forall|n: int| 0 <= n <= one.len() implies open_groups(#[trigger] one.take(n)) >= 0 by {
        if n == 1 {
            assert(one.take(n) =~= one);
        }
    }
}

/// A sequence with matching groups, set in a group, has matching groups.
pub proof fn lemma_groups_match_group(a: Seq<TokenView>)
    requires
        groups_match(a),
    ensures
        groups_match(seq![TokenView::OpenGroup] + a + seq![TokenView::CloseGroup]),
{
    let open = seq![TokenView::OpenGroup];
    let close = seq![TokenView::CloseGroup];
    let whole = open + a + close;
    lemma_open_groups_one(TokenView::OpenGroup);
    lemma_open_groups_one(TokenView::CloseGroup);
    lemma_open_groups_concat(open, a);
    lemma_open_groups_concat(open + a, close);
    assert forall|n: int| 0 <= n <= whole.len() implies open_groups(#[trigger] whole.take(n))
        >= 0 by {
        if 0 < n <= a.len() + 1 {
            assert(whole.take(n) =~= open + a.take(n - 1));
            lemma_open_groups_concat(open, a.take(n - 1));
        } else if n > 0 {
            assert(whole.take(n) =~= whole);
        }
    }
}

/// What a successful step has read has matching groups.
pub proof fn lemma_step_groups_match(tokens: Seq<TokenView>)
    ensures
        spec_parse_single(tokens).result is Ok ==> groups_match(
            tokens_read(tokens, spec_parse_single(tokens).rest),
        ),
        spec_parse_expression(tokens).result is Ok ==> groups_match(
            tokens_read(tokens, spec_parse_expression(tokens).rest),
        ),
    decreases tokens.len(),
{
    lemma_parse_consumes(tokens);
    if tokens.len() > 0 {
        let after = tokens.drop_first();
        lemma_parse_consumes(after);
        lemma_step_groups_match(after);
        let first = spec_parse_single(tokens);
        if first.result is Ok {
            let read = tokens_read(tokens, first.rest);
            match tokens[0] {
                TokenView::Label(_) => {
                    assert(read =~= seq![tokens[0]]);
                    lemma_groups_match_one(tokens[0]);
                },
                TokenView::Operator(_) => {
                    let operand = spec_parse_single(after);
                    let inner = tokens_read(after, operand.rest);
                    assert(read =~= seq![tokens[0]] + inner);
                    lemma_groups_match_one(tokens[0]);
                    lemma_groups_match_concat(seq![tokens[0]], inner);
                },
                TokenView::OpenGroup => {
                    let body = spec_parse_expression(after);
                    let inner = tokens_read(after, body.rest);
                    assert(read =~= seq![TokenView::OpenGroup] + inner + seq![
                        TokenView::CloseGroup,
                    ]);
                    lemma_groups_match_group(inner);
                },
                TokenView::CloseGroup => {},
            }
            if first.rest.len() > 0 && !(first.rest[0] is CloseGroup) {
                let operator = first.rest[0];
                let right_tokens = first.rest.drop_first();
                let right = spec_parse_expression(right_tokens);
                if right.result is Ok && spec_parse_expression(tokens).result is Ok {
                    lemma_parse_consumes(right_tokens);
                    lemma_step_groups_match(right_tokens);
                    let right_read = tokens_read(right_tokens, right.rest);
                    assert(tokens_read(tokens, right.rest) =~= read + seq![operator] + right_read);
                    lemma_groups_match_one(operator);
                    lemma_groups_match_concat(read, seq![operator]);
                    lemma_groups_match_concat(read + seq![operator], right_read);
                }
            }
        }
    }
}

/// In a token sequence that parses, every `(` has its `)` and every `)`
/// its `(`.
pub proof fn lemma_parsed_groups_match(tokens: Seq<TokenView>)
    requires
        spec_parse(tokens) is Ok,
    ensures
        groups_match(tokens),
{
    lemma_step_groups_match(tokens);
    assert(tokens.take(tokens.len() as int) =~= tokens);
}

} // verus!
