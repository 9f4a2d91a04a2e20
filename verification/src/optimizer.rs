//! Folds the tokens of a pattern into the tokens that a matcher works with.
//!
//! Runs of literal tokens are merged into one `Exact` token each, captures
//! stay as they are, and a query pair becomes the literal `key=` followed by
//! its value.
use crate::parser::{parse, parse_model};
use crate::token::{
    token_models, CaptureModel, CaptureOrExact, CaptureOrExactModel, CaptureVariant, ErrorModel,
    ParserError, RouteParserToken, TokenModel,
};
use vstd::prelude::*;

verus! {

/// Model of a [`MatcherToken`].
pub enum MatcherTokenModel {
    Exact(Seq<char>),
    Capture(CaptureModel),
}

/// Tokens used to determine how to match and capture sections from a route.
#[derive(Debug, PartialEq)]
pub enum MatcherToken {
    /// Literal text: a run of section-related tokens condensed into one.
    Exact(String),
    /// Capture section.
    Capture(CaptureVariant),
}

impl View for MatcherToken {
    type V = MatcherTokenModel;

    open spec fn view(&self) -> MatcherTokenModel {
        match self {
            MatcherToken::Exact(s) => MatcherTokenModel::Exact(s@),
            MatcherToken::Capture(c) => MatcherTokenModel::Capture(c@),
        }
    }
}

impl Clone for MatcherToken {
    fn clone(&self) -> (r: Self)
        ensures
            r@ == self@,
    {
        match self {
            MatcherToken::Exact(s) => MatcherToken::Exact(s.clone()),
            MatcherToken::Capture(c) => MatcherToken::Capture(c.clone()),
        }
    }
}

/// The views of a sequence of matcher tokens, in order.
pub open spec fn matcher_models(tokens: Seq<MatcherToken>) -> Seq<MatcherTokenModel> {
    tokens.map_values(|t: MatcherToken| t@)
}

/// What a run of literal text leaves behind when it is closed: one `Exact`
/// token, or nothing if the run is empty.
pub open spec fn flushed(run: Seq<char>) -> Seq<MatcherTokenModel> {
    if run.len() > 0 {
        seq![MatcherTokenModel::Exact(run)]
    } else {
        Seq::empty()
    }
}

/// The matcher tokens for `tokens`, given the literal text `run` that stands
/// before them and is not yet closed.
///
/// A literal token adds its text to the run. A capture closes the run and
/// follows it. A query pair adds `key=` to the run, and then its value as a
/// literal or as a capture would. The end marker adds nothing.
pub open spec fn optimize(tokens: Seq<TokenModel>, run: Seq<char>) -> Seq<MatcherTokenModel>
    decreases tokens.len(),
{
    if tokens.len() == 0 {
        flushed(run)
    } else {
        let rest = tokens.drop_first();
        match tokens[0] {
            TokenModel::Capture(capture) => flushed(run) + seq![
                MatcherTokenModel::Capture(capture),
            ] + optimize(rest, Seq::empty()),
            TokenModel::QueryCapture { ident, capture_or_match } => match capture_or_match {
                CaptureOrExactModel::Exact(value) => optimize(rest, run + ident + seq!['='] + value),
                CaptureOrExactModel::Capture(capture) => flushed(run + ident + seq!['=']) + seq![
                    MatcherTokenModel::Capture(capture),
                ] + optimize(rest, Seq::empty()),
            },
            TokenModel::End => optimize(rest, run),
            literal => optimize(rest, run + literal.text()),
        }
    }
}

/// The matcher tokens for the tokens of a whole pattern.
pub open spec fn convert_model(tokens: Seq<TokenModel>) -> Seq<MatcherTokenModel> {
    optimize(tokens, Seq::empty())
}

/// What compiling the pattern `s` gives: its matcher tokens, or what is left of
/// `s` where reading failed, and why.
pub open spec fn compile_model(s: Seq<char>) -> Result<
    Seq<MatcherTokenModel>,
    (Seq<char>, ErrorModel),
> {
    match parse_model(s) {
        Ok(tokens) => Ok(convert_model(tokens)),
        Err(e) => Err(e),
    }
}

/// Whether no `Exact` token is empty and none is followed by another `Exact`.
pub open spec fn is_merged(tokens: Seq<MatcherTokenModel>) -> bool {
    forall|k: int|
        0 <= k < tokens.len() && #[trigger] tokens[k] is Exact ==> tokens[k]->Exact_0.len() > 0
            && (k + 1 < tokens.len() ==> tokens[k + 1] is Capture)
}

/// Closing the run in front of merged tokens that begin with a capture, or are
/// empty, leaves the whole merged.
proof fn lemma_merged_after_capture(
    run: Seq<char>,
    capture: CaptureModel,
    rest: Seq<MatcherTokenModel>,
)
    requires
        is_merged(rest),
    ensures
        is_merged(flushed(run) + seq![MatcherTokenModel::Capture(capture)] + rest),
{
    let head = flushed(run) + seq![MatcherTokenModel::Capture(capture)];
    let all = head + rest;
    assert forall|k: int| 0 <= k < all.len() && #[trigger] all[k] is Exact implies all[k]->Exact_0.len()
        > 0 && (k + 1 < all.len() ==> all[k + 1] is Capture) by {
        if k >= head.len() {
            assert(all[k] == rest[k - head.len()]);
            if k + 1 < all.len() {
                assert(all[k + 1] == rest[k + 1 - head.len()]);
            }
        }
    }
}

/// The optimizer merges: whatever the tokens and the open run, no `Exact` of
/// its result is empty, and no two `Exact` tokens are adjacent.
pub proof fn lemma_optimize_is_merged(tokens: Seq<TokenModel>, run: Seq<char>)
    ensures
        is_merged(optimize(tokens, run)),
    decreases tokens.len(),
{
    if tokens.len() > 0 {
        let rest = tokens.drop_first();
        match tokens[0] {
            TokenModel::Capture(capture) => {
                lemma_optimize_is_merged(rest, Seq::empty());
                lemma_merged_after_capture(run, capture, optimize(rest, Seq::empty()));
            },
            TokenModel::QueryCapture { ident, capture_or_match } => match capture_or_match {
                CaptureOrExactModel::Exact(value) => {
                    lemma_optimize_is_merged(rest, run + ident + seq!['='] + value);
                },
                CaptureOrExactModel::Capture(capture) => {
                    lemma_optimize_is_merged(rest, Seq::empty());
                    lemma_merged_after_capture(
                        run + ident + seq!['='],
                        capture,
                        optimize(rest, Seq::empty()),
                    );
                },
            },
            TokenModel::End => {
                lemma_optimize_is_merged(rest, run);
            },
            literal => {
                lemma_optimize_is_merged(rest, run + literal.text());
            },
        }
    }
}

/// Closes the run: appends it to `out` as one `Exact` token unless it is empty.
fn flush(out: &mut Vec<MatcherToken>, run: String)
    ensures
        matcher_models(final(out)@) == matcher_models(old(out)@) + flushed(run@),
{
    let ghost before = matcher_models(out@);
    if run.as_str().unicode_len() > 0 {
        out.push(MatcherToken::Exact(run));
        assert(matcher_models(out@) =~= before + flushed(run@));
    } else {
        assert(matcher_models(out@) =~= before + flushed(run@));
    }
}

/// Converts a slice of `RouteParserToken` into a `Vec` of `MatcherToken`.
pub fn convert_tokens(tokens: &[RouteParserToken]) -> (new_tokens: Vec<MatcherToken>)
    ensures
        matcher_models(new_tokens@) == convert_model(token_models(tokens@)),
        is_merged(matcher_models(new_tokens@)),
{
    let ghost all = token_models(tokens@);
    let mut new_tokens: Vec<MatcherToken> = Vec::new();
    let mut run = String::new();
    let mut at: usize = 0;
    proof {
        assert(all.skip(0) =~= all);
        assert(matcher_models(new_tokens@) + optimize(all, run@) =~= optimize(all, run@));
    }
    while at < tokens.len()
        invariant
            all == token_models(tokens@),
            at <= tokens.len(),
            convert_model(all) == matcher_models(new_tokens@) + optimize(all.skip(at as int), run@),
        decreases tokens.len() - at,
    {
        let ghost before = matcher_models(new_tokens@);
        let ghost open = run@;
        let ghost rest = all.skip(at + 1);
        proof {
            reveal_strlit("=");
            assert("="@ =~= seq!['=']);
            assert(all.skip(at as int).drop_first() =~= rest);
            assert(all.skip(at as int)[0] == tokens@[at as int]@);
        }
        match &tokens[at] {
            RouteParserToken::Capture(cap) => {
                flush(&mut new_tokens, run);
                let ghost closed = matcher_models(new_tokens@);
                new_tokens.push(MatcherToken::Capture(cap.clone()));
                run = String::new();
                proof {
                    let tail = optimize(rest, Seq::empty());
                    assert(matcher_models(new_tokens@) =~= closed.push(
                        MatcherTokenModel::Capture(cap@),
                    ));
                    assert(matcher_models(new_tokens@) + tail =~= before + (flushed(open) + seq![
                        MatcherTokenModel::Capture(cap@),
                    ] + tail));
                }
            },
            RouteParserToken::QueryCapture { ident, capture_or_match } => {
                run.append(ident.as_str());
                run.append("=");
                match capture_or_match {
                    CaptureOrExact::Exact(s) => {
                        run.append(s.as_str());
                    },
                    CaptureOrExact::Capture(cap) => {
                        let ghost keyed = run@;
                        flush(&mut new_tokens, run);
                        let ghost closed = matcher_models(new_tokens@);
                        new_tokens.push(MatcherToken::Capture(cap.clone()));
                        run = String::new();
                        proof {
                            let tail = optimize(rest, Seq::empty());
                            assert(keyed == open + ident@ + seq!['=']);
                            assert(matcher_models(new_tokens@) =~= closed.push(
                                MatcherTokenModel::Capture(cap@),
                            ));
                            assert(matcher_models(new_tokens@) + tail =~= before + (flushed(keyed)
                                + seq![MatcherTokenModel::Capture(cap@)] + tail));
                        }
                    },
                }
            },
            RouteParserToken::End => {},
            literal => {
                run.append(literal.as_str());
            },
        }
        at += 1;
    }
    proof {
        assert(all.skip(at as int) =~= Seq::<TokenModel>::empty());
        lemma_optimize_is_merged(all, Seq::empty());
    }
    flush(&mut new_tokens, run);
    new_tokens
}

/// Parse the provided pattern and then optimize the tokens.
///
/// The result is a function of the pattern alone: compiling a pattern again
/// gives the same tokens.
pub fn parse_str_and_optimize_tokens(i: &str) -> (r: Result<
    Vec<MatcherToken>,
    (&str, ParserError),
>)
    ensures
        match r {
            Ok(tokens) => compile_model(i@) == Ok::<_, (Seq<char>, ErrorModel)>(
                matcher_models(tokens@),
            ) && is_merged(matcher_models(tokens@)),
            Err((rest, e)) => compile_model(i@) == Err::<Seq<MatcherTokenModel>, _>((rest@, e@)),
        },
{
    match parse(i) {
        Ok(tokens) => Ok(convert_tokens(tokens.as_slice())),
        Err(e) => Err(e),
    }
}

} // verus!
