//! What holds of every compiled pattern.
use crate::chars::{lemma_run_end, CharClass};
use crate::optimizer::{
    compile_model, flushed, is_merged, lemma_optimize_is_merged, optimize, MatcherTokenModel,
};
use crate::parser::{lemma_next_token_advances, next_token, parse_from, parse_model};
use crate::state::{lemma_successor_is_consistent, StateModel};
use crate::token::{CaptureOrExactModel, TokenModel};
use vstd::prelude::*;

verus! {

/// Whether the token gives rise to a capture over more than one section.
pub open spec fn emits_multi(token: TokenModel) -> bool {
    match token {
        TokenModel::Capture(capture) => !capture.is_single(),
        TokenModel::QueryCapture { capture_or_match: CaptureOrExactModel::Capture(capture), .. } => {
            !capture.is_single()
        },
        _ => false,
    }
}

/// Whether the token stands for literal text that is not empty.
pub open spec fn is_solid(token: TokenModel) -> bool {
    token.is_literal() && token.text().len() > 0
}

/// Whether the tokens are such that a capture in front of them would find
/// its end: there are none, or the first is solid, or the end marker is all
/// there is.
pub open spec fn begin_solid(tokens: Seq<TokenModel>) -> bool {
    tokens.len() == 0 || is_solid(tokens[0]) || (tokens[0] is End && tokens.len() == 1)
}

/// Whether every token that gives rise to a capture over more than one
/// section is followed by tokens that begin solid.
pub open spec fn multi_captures_are_followed(tokens: Seq<TokenModel>) -> bool {
    forall|i: int|
        0 <= i < tokens.len() && emits_multi(#[trigger] tokens[i]) ==> begin_solid(
            tokens.skip(i + 1),
        )
}

/// Whether every capture over more than one section is the last token or is
/// followed by a literal.
pub open spec fn is_delimited(tokens: Seq<MatcherTokenModel>) -> bool {
    forall|k: int|
        0 <= k < tokens.len() && (#[trigger] tokens[k]) is Capture
            && !tokens[k]->Capture_0.is_single() && k + 1 < tokens.len() ==> tokens[k + 1] is Exact
}

/// The parser yields tokens in which every capture over more than one section
/// is followed by a literal that is not empty, or by nothing but the end
/// marker.
pub proof fn lemma_parsed_multi_captures_are_followed(s: Seq<char>, from: int, state: StateModel)
    requires
        0 <= from <= s.len(),
        state.is_consistent(),
        !(state is End),
        parse_from(s, from, state) is Ok,
    ensures
        multi_captures_are_followed(parse_from(s, from, state)->Ok_0),
        state matches StateModel::Path { prev_token } && emits_multi(prev_token) ==> begin_solid(
            parse_from(s, from, state)->Ok_0,
        ),
    decreases s.len() - from,
{
    let tokens = parse_from(s, from, state)->Ok_0;
    if from < s.len() {
        lemma_next_token_advances(s, from, state);
        let (token, end) = next_token(s, from, state)->Ok_0;
        lemma_successor_is_consistent(state, token);
        lemma_run_end(s, from, CharClass::Literal);
        if token is End {
            assert(tokens =~= seq![token]);
        } else {
            let next = state.successor(token);
            lemma_parsed_multi_captures_are_followed(s, end, next);
            let rest = parse_from(s, end, next)->Ok_0;
            assert(tokens =~= seq![token] + rest);
            assert(tokens.skip(1) =~= rest);
            assert forall|i: int| 0 <= i < tokens.len() && emits_multi(
                #[trigger] tokens[i],
            ) implies begin_solid(tokens.skip(i + 1)) by {
                if i > 0 {
                    assert(tokens[i] == rest[i - 1]);
                    assert(tokens.skip(i + 1) =~= rest.skip(i));
                }
            }
        }
    } else {
        assert(tokens =~= Seq::empty());
    }
}

/// Where every capture over more than one section is followed by solid
/// tokens, the optimizer gives every such capture a literal to stop at, unless
/// the capture is the last token. And where the tokens begin solid, or text is
/// open in front of them, what the optimizer gives begins with a literal.
pub proof fn lemma_optimize_is_delimited(tokens: Seq<TokenModel>, run: Seq<char>)
    requires
        multi_captures_are_followed(tokens),
    ensures
        is_delimited(optimize(tokens, run)),
        run.len() > 0 || begin_solid(tokens) ==> optimize(tokens, run).len() == 0 || optimize(
            tokens,
            run,
        )[0] is Exact,
    decreases tokens.len(),
{
    if tokens.len() > 0 {
        let rest = tokens.drop_first();
        assert forall|i: int| 0 <= i < rest.len() && emits_multi(
            #[trigger] rest[i],
        ) implies begin_solid(rest.skip(i + 1)) by {
            assert(rest[i] == tokens[i + 1]);
            assert(tokens.skip(i + 2) =~= rest.skip(i + 1));
        }
        assert(tokens.skip(1) =~= rest);
        match tokens[0] {
            TokenModel::Capture(capture) => {
                lemma_optimize_is_delimited(rest, Seq::empty());
                lemma_delimited_after_capture(
                    flushed(run),
                    capture,
                    optimize(rest, Seq::empty()),
                );
            },
            TokenModel::QueryCapture { ident, capture_or_match } => match capture_or_match {
                CaptureOrExactModel::Exact(value) => {
                    lemma_optimize_is_delimited(rest, run + ident + seq!['='] + value);
                },
                CaptureOrExactModel::Capture(capture) => {
                    lemma_optimize_is_delimited(rest, Seq::empty());
                    lemma_delimited_after_capture(
                        flushed(run + ident + seq!['=']),
                        capture,
                        optimize(rest, Seq::empty()),
                    );
                },
            },
            TokenModel::End => {
                lemma_optimize_is_delimited(rest, run);
                if tokens.len() == 1 {
                    assert(rest =~= Seq::empty());
                }
            },
            literal => {
                lemma_optimize_is_delimited(rest, run + literal.text());
            },
        }
    }
}

/// A capture in front of delimited tokens that are empty or begin with a
/// literal leaves the whole delimited, whatever literal stands before it.
proof fn lemma_delimited_after_capture(
    head: Seq<MatcherTokenModel>,
    capture: crate::token::CaptureModel,
    rest: Seq<MatcherTokenModel>,
)
    requires
        is_delimited(rest),
        forall|k: int| 0 <= k < head.len() ==> (#[trigger] head[k]) is Exact,
        !capture.is_single() ==> rest.len() == 0 || rest[0] is Exact,
    ensures
        is_delimited(head + seq![MatcherTokenModel::Capture(capture)] + rest),
{
    let front = head + seq![MatcherTokenModel::Capture(capture)];
    let all = front + rest;
    assert forall|k: int|
        0 <= k < all.len() && (#[trigger] all[k]) is Capture && !all[k]->Capture_0.is_single() && k
            + 1 < all.len() implies all[k + 1] is Exact by {
        if k >= front.len() {
            assert(all[k] == rest[k - front.len()]);
            assert(all[k + 1] == rest[k + 1 - front.len()]);
        } else if k == front.len() - 1 {
            assert(all[k + 1] == rest[0]);
        } else {
            assert(all[k] == head[k]);
        }
    }
}

/// The tokens of every compiled pattern are well formed: no literal is
/// empty, no two literals are adjacent, and every capture over more than one
/// section is the last token or is followed by the literal at which it stops.
pub proof fn lemma_compiled_is_well_formed(pattern: Seq<char>)
    requires
        compile_model(pattern) is Ok,
    ensures
        is_merged(compile_model(pattern)->Ok_0),
        is_delimited(compile_model(pattern)->Ok_0),
{
    let tokens = parse_model(pattern)->Ok_0;
    lemma_parsed_multi_captures_are_followed(pattern, 0, StateModel::Start);
    lemma_optimize_is_delimited(tokens, Seq::empty());
    lemma_optimize_is_merged(tokens, Seq::empty());
}

} // verus!
