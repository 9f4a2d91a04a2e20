//! What holds of every match.
use crate::chars::{lemma_run_end, lemma_run_end_unique, run_end, CharClass};
use crate::matcher::{capture_end, match_from, match_model, sections_end, MatcherSettings};
use crate::optimizer::MatcherTokenModel;
use crate::token::CaptureModel;
use crate::util::{
    chars_agree, delimiters_model, first_alternative, first_stop, lemma_first_alternative,
    lemma_first_stop, starts_with_at,
};
use vstd::prelude::*;

verus! {

/// Whether every token is a literal.
pub open spec fn all_exact(tokens: Seq<MatcherTokenModel>) -> bool {
    forall|k: int| 0 <= k < tokens.len() ==> (#[trigger] tokens[k]) is Exact
}

/// The text of a sequence of literal tokens, one after the other.
pub open spec fn rendering(tokens: Seq<MatcherTokenModel>) -> Seq<char>
    decreases tokens.len(),
{
    if tokens.len() == 0 {
        Seq::empty()
    } else {
        tokens[0]->Exact_0 + rendering(tokens.drop_first())
    }
}

/// Whether `text` stands in `input` at `at`, character for character, and
/// `input` ends with it.
pub open spec fn ends_like(input: Seq<char>, at: int, text: Seq<char>, case_insensitive: bool)
    -> bool {
    starts_with_at(input, at, text, case_insensitive) && at + text.len() == input.len()
}

/// Literal tokens match every input that is their text, character for
/// character: with regard to case where the settings say so, and regardless of
/// case otherwise. Nothing is captured and nothing is left over.
pub proof fn lemma_exact_only_matches_like(
    tokens: Seq<MatcherTokenModel>,
    input: Seq<char>,
    at: int,
    settings: MatcherSettings,
)
    requires
        all_exact(tokens),
        ends_like(input, at, rendering(tokens), settings.case_insensitive),
    ensures
        match_from(tokens, input, at, settings) == Ok::<_, int>(
            (Seq::<(Seq<char>, Seq<char>)>::empty(), input.len() as int),
        ),
    decreases tokens.len(),
{
    if tokens.len() > 0 {
        let text = tokens[0]->Exact_0;
        let following = tokens.drop_first();
        let whole = rendering(tokens);
        assert(tokens[0] is Exact);
        assert forall|k: int| 0 <= k < following.len() implies (#[trigger] following[k]) is Exact by {
            assert(following[k] == tokens[k + 1]);
        }
        assert forall|k: int| 0 <= k < text.len() implies chars_agree(
            #[trigger] input[at + k],
            text[k],
            settings.case_insensitive,
        ) by {
            assert(whole[k] == text[k]);
        }
        assert forall|k: int| 0 <= k < rendering(following).len() implies chars_agree(
            #[trigger] input[at + text.len() + k],
            rendering(following)[k],
            settings.case_insensitive,
        ) by {
            assert(whole[text.len() + k] == rendering(following)[k]);
            assert(chars_agree(
                input[at + (text.len() + k)],
                whole[text.len() + k],
                settings.case_insensitive,
            ));
        }
        lemma_exact_only_matches_like(following, input, at + text.len(), settings);
    }
}

/// A pattern without captures matches its own literal text, with empty
/// captures and nothing left over, whatever the settings.
pub proof fn lemma_exact_only_matches(tokens: Seq<MatcherTokenModel>, settings: MatcherSettings)
    requires
        all_exact(tokens),
    ensures
        match_model(tokens, rendering(tokens), settings) == Ok::<_, int>(
            (Seq::<(Seq<char>, Seq<char>)>::empty(), rendering(tokens).len() as int),
        ),
{
    let text = rendering(tokens);
    assert forall|k: int| 0 <= k < text.len() implies chars_agree(
        #[trigger] text[0 + k],
        text[k],
        settings.case_insensitive,
    ) by {}
    lemma_exact_only_matches_like(tokens, text, 0, settings);
}

/// Where literal tokens match, the input is their text up to the place where
/// the match ended, character for character under the settings, and nothing
/// is captured. So a match that cares about case refuses every input that
/// differs from the text, be it in case only.
pub proof fn lemma_exact_only_match_is_text(
    tokens: Seq<MatcherTokenModel>,
    input: Seq<char>,
    at: int,
    settings: MatcherSettings,
)
    requires
        all_exact(tokens),
        0 <= at <= input.len(),
        match_from(tokens, input, at, settings) is Ok,
    ensures
        match_from(tokens, input, at, settings)->Ok_0 == (
            Seq::<(Seq<char>, Seq<char>)>::empty(),
            at + rendering(tokens).len(),
        ),
        starts_with_at(input, at, rendering(tokens), settings.case_insensitive),
        settings.complete ==> at + rendering(tokens).len() == input.len(),
        !settings.case_insensitive ==> input.subrange(at, at + rendering(tokens).len())
            == rendering(tokens),
    decreases tokens.len(),
{
    let whole = rendering(tokens);
    if tokens.len() > 0 {
        let text = tokens[0]->Exact_0;
        let following = tokens.drop_first();
        assert(tokens[0] is Exact);
        assert forall|k: int| 0 <= k < following.len() implies (#[trigger] following[k]) is Exact by {
            assert(following[k] == tokens[k + 1]);
        }
        lemma_exact_only_match_is_text(following, input, at + text.len(), settings);
        assert forall|k: int| 0 <= k < whole.len() implies chars_agree(
            #[trigger] input[at + k],
            whole[k],
            settings.case_insensitive,
        ) by {
            if k >= text.len() {
                assert(whole[k] == rendering(following)[k - text.len()]);
                assert(chars_agree(
                    input[at + text.len() + (k - text.len())],
                    rendering(following)[k - text.len()],
                    settings.case_insensitive,
                ));
            } else {
                assert(whole[k] == text[k]);
            }
        }
    }
    if !settings.case_insensitive {
        assert forall|k: int| 0 <= k < whole.len() implies input[at + k] == whole[k] by {
            assert(chars_agree(input[at + k], whole[k], false));
        }
        assert(input.subrange(at, at + whole.len()) =~= whole);
    }
}

/// Whether a text is one section: not empty and without `/`.
pub open spec fn is_section(text: Seq<char>) -> bool {
    text.len() > 0 && forall|i: int| 0 <= i < text.len() ==> #[trigger] text[i] != '/'
}

/// The parts, joined by `/`.
pub open spec fn joined(parts: Seq<Seq<char>>) -> Seq<char>
    decreases parts.len(),
{
    if parts.len() == 0 {
        Seq::empty()
    } else if parts.len() == 1 {
        parts[0]
    } else {
        parts[0] + seq!['/'] + joined(parts.drop_first())
    }
}

/// What a `Named` capture takes is never empty and never crosses a `/`; and
/// it is the longest such text: it ends at the end of the input or before a
/// `/` (or, if no token follows, before `?` or `#`).
pub proof fn lemma_named_capture(
    input: Seq<char>,
    at: int,
    name: Seq<char>,
    following: Seq<MatcherTokenModel>,
    complete: bool,
)
    requires
        0 <= at <= input.len(),
    ensures
        match capture_end(input, at, CaptureModel::Named(name), following, complete) {
            Some(end) => at < end <= input.len() && is_section(input.subrange(at, end)) && (end
                == input.len() || input[end] == '/' || (following.len() == 0 && (input[end] == '?'
                || input[end] == '#'))),
            None => at == input.len() || input[at] == '/' || (following.len() == 0 && (input[at]
                == '?' || input[at] == '#')),
        },
{
    let class = if following.len() == 0 {
        CharClass::LastSection
    } else {
        CharClass::Section
    };
    lemma_run_end(input, at, class);
    let end = run_end(input, at, class);
    if end > at {
        let text = input.subrange(at, end);
        assert forall|i: int| 0 <= i < text.len() implies #[trigger] text[i] != '/' by {
            assert(class.holds(input[at + i]));
        }
    }
}

/// The sections that a capture of `count` sections takes at `at`.
pub open spec fn sections_at(input: Seq<char>, at: int, count: nat) -> Seq<Seq<char>>
    decreases count,
{
    if count == 0 {
        Seq::empty()
    } else {
        let end = run_end(input, at, CharClass::Section);
        seq![input.subrange(at, end)] + sections_at(input, end + 1, (count - 1) as nat)
    }
}

/// What a capture of `count` sections takes is exactly `count` sections
/// joined by `/`, and it ends at the end of the input or before a `/`.
pub proof fn lemma_sections_taken(input: Seq<char>, at: int, count: nat)
    requires
        0 <= at <= input.len(),
        sections_end(input, at, count) is Some,
    ensures
        ({
            let end = sections_end(input, at, count)->Some_0;
            let parts = sections_at(input, at, count);
            &&& at <= end <= input.len()
            &&& parts.len() == count
            &&& forall|k: int| 0 <= k < parts.len() ==> is_section(#[trigger] parts[k])
            &&& input.subrange(at, end) == joined(parts)
            &&& count > 0 ==> end == input.len() || input[end] == '/'
        }),
    decreases count,
{
    if count > 0 {
        lemma_run_end(input, at, CharClass::Section);
        let first_end = run_end(input, at, CharClass::Section);
        let first = input.subrange(at, first_end);
        assert forall|i: int| 0 <= i < first.len() implies #[trigger] first[i] != '/' by {
            assert(CharClass::Section.holds(input[at + i]));
        }
        let parts = sections_at(input, at, count);
        let rest = sections_at(input, first_end + 1, (count - 1) as nat);
        if count == 1 {
            assert(rest =~= Seq::empty());
            assert(parts =~= seq![first]);
        } else {
            lemma_sections_taken(input, first_end + 1, (count - 1) as nat);
            let end = sections_end(input, at, count)->Some_0;
            assert(parts.drop_first() =~= rest);
            assert forall|k: int| 0 <= k < parts.len() implies is_section(#[trigger] parts[k]) by {
                if k > 0 {
                    assert(parts[k] == rest[k - 1]);
                }
            }
            assert(input.subrange(at, end) =~= first + seq!['/'] + input.subrange(
                first_end + 1,
                end,
            ));
        }
    } else {
        assert(input.subrange(at, at) =~= Seq::empty());
    }
}

/// Where `count` sections joined by `/` stand at `at`, and then the input
/// ends or a `/` follows, a capture of `count` sections takes exactly them.
pub proof fn lemma_sections_found(input: Seq<char>, at: int, parts: Seq<Seq<char>>)
    requires
        0 <= at,
        at + joined(parts).len() <= input.len(),
        forall|k: int| 0 <= k < parts.len() ==> is_section(#[trigger] parts[k]),
        input.subrange(at, at + joined(parts).len()) == joined(parts),
        at + joined(parts).len() == input.len() || input[at + joined(parts).len()] == '/',
    ensures
        sections_end(input, at, parts.len()) == Some(at + joined(parts).len()),
    decreases parts.len(),
{
    if parts.len() > 0 {
        let text = joined(parts);
        let first = parts[0];
        assert(is_section(first));
        assert forall|i: int| at <= i < at + first.len() implies CharClass::Section.holds(
            #[trigger] input[i],
        ) by {
            assert(input[i] == input.subrange(at, at + text.len())[i - at]);
            assert(text[i - at] == first[i - at]);
        }
        if parts.len() == 1 {
            lemma_run_end_unique(input, at, at + first.len(), CharClass::Section);
        } else {
            let rest = parts.drop_first();
            assert(text[first.len() as int] == '/');
            assert(input[at + first.len()] == input.subrange(at, at + text.len())[
                first.len() as int
            ]);
            lemma_run_end_unique(input, at, at + first.len(), CharClass::Section);
            assert forall|k: int| 0 <= k < rest.len() implies is_section(#[trigger] rest[k]) by {
                assert(rest[k] == parts[k + 1]);
            }
            assert(input.subrange(at + first.len() + 1, at + text.len()) =~= joined(rest)) by {
                assert forall|i: int| 0 <= i < joined(rest).len() implies input[at + first.len() + 1
                    + i] == joined(rest)[i] by {
                    assert(input[at + first.len() + 1 + i] == input.subrange(at, at + text.len())[
                        first.len() + 1 + i
                    ]);
                    assert(text[first.len() + 1 + i] == joined(rest)[i]);
                }
            }
            lemma_sections_found(input, at + first.len() + 1, rest);
        }
    }
}

/// A capture that finds `count` sections finds every smaller number of
/// sections too: where fewer than `count` sections stand, it fails.
pub proof fn lemma_sections_fewer(input: Seq<char>, at: int, count: nat, fewer: nat)
    requires
        fewer <= count,
        sections_end(input, at, count) is Some,
    ensures
        sections_end(input, at, fewer) is Some,
    decreases count,
{
    if fewer > 1 {
        let end = run_end(input, at, CharClass::Section);
        lemma_sections_fewer(input, end + 1, (count - 1) as nat, (fewer - 1) as nat);
    }
}

/// A `ManyNamed` capture that is followed by the literal `stop` takes the
/// text up to the first place at which `stop` stands: `stop` stands where the
/// capture ends, and nowhere before. It fails only in a complete match in
/// which `stop` stands nowhere; in an open match it then takes all that is
/// left. With no token after it, it takes all that is left.
pub proof fn lemma_many_capture(
    input: Seq<char>,
    at: int,
    name: Seq<char>,
    following: Seq<MatcherTokenModel>,
    complete: bool,
)
    requires
        0 <= at <= input.len(),
    ensures
        following.len() == 0 ==> capture_end(
            input,
            at,
            CaptureModel::ManyNamed(name),
            following,
            complete,
        ) == Some(input.len() as int),
        following.len() > 0 && following[0] is Exact ==> ({
            let stop = following[0]->Exact_0;
            let stands_somewhere = exists|q: int|
                at <= q <= input.len() && starts_with_at(input, q, stop, false);
            match capture_end(input, at, CaptureModel::ManyNamed(name), following, complete) {
                Some(end) => at <= end <= input.len() && if stands_somewhere {
                    starts_with_at(input, end, stop, false) && forall|q: int|
                        at <= q < end ==> !starts_with_at(input, q, stop, false)
                } else {
                    !complete && end == input.len()
                },
                None => complete && !stands_somewhere,
            }
        }),
{
    if following.len() > 0 && following[0] is Exact {
        let stop = following[0]->Exact_0;
        let stops = delimiters_model(following);
        assert(stops[0] == stop);
        lemma_first_stop(input, at, stops);
        assert forall|q: int| #![auto] first_alternative(input, q, stops) is Some
            <==> starts_with_at(input, q, stop, false) by {
            lemma_first_alternative(input, q, stops);
        }
        match first_stop(input, at, stops) {
            Some(p) => {
                assert(starts_with_at(input, p, stop, false));
            },
            None => {},
        }
    }
}

/// The captures among `tokens`, in order.
pub open spec fn captures_in(tokens: Seq<MatcherTokenModel>) -> Seq<CaptureModel>
    decreases tokens.len(),
{
    if tokens.len() == 0 {
        Seq::empty()
    } else {
        match tokens[0] {
            MatcherTokenModel::Capture(capture) => seq![capture] + captures_in(tokens.drop_first()),
            MatcherTokenModel::Exact(_) => captures_in(tokens.drop_first()),
        }
    }
}

/// Whether `text` is something that `capture` can take: one section for a
/// `Named` capture, its number of sections joined by `/` for a `NumberedNamed`
/// capture, anything for a `ManyNamed` capture.
pub open spec fn fits(capture: CaptureModel, text: Seq<char>) -> bool {
    match capture {
        CaptureModel::Named(_) => is_section(text),
        CaptureModel::ManyNamed(_) => true,
        CaptureModel::NumberedNamed { sections, .. } => exists|parts: Seq<Seq<char>>|
            #![trigger joined(parts)]
            parts.len() == sections && text == joined(parts) && forall|k: int|
                0 <= k < parts.len() ==> is_section(#[trigger] parts[k]),
    }
}

/// What a capture takes lies within the input and fits the capture.
pub proof fn lemma_capture_fits(
    input: Seq<char>,
    at: int,
    capture: CaptureModel,
    following: Seq<MatcherTokenModel>,
    complete: bool,
)
    requires
        0 <= at <= input.len(),
        capture_end(input, at, capture, following, complete) is Some,
    ensures
        at <= capture_end(input, at, capture, following, complete)->Some_0 <= input.len(),
        fits(
            capture,
            input.subrange(at, capture_end(input, at, capture, following, complete)->Some_0),
        ),
{
    crate::matcher::lemma_capture_end_bounds(input, at, capture, following, complete);
    match capture {
        CaptureModel::Named(name) => {
            lemma_named_capture(input, at, name, following, complete);
        },
        CaptureModel::ManyNamed(_) => {},
        CaptureModel::NumberedNamed { sections, .. } => {
            lemma_sections_taken(input, at, sections);
            assert(sections_at(input, at, sections).len() == sections);
            assert(fits(capture, joined(sections_at(input, at, sections))));
        },
    }
}

/// In every successful match there is one captured pair for each capture of
/// the pattern, in the order of the pattern; each pair carries the name of its
/// capture and a text that fits it. So what a `Named` capture took is never
/// empty and holds no `/`, and what a `NumberedNamed` capture took is exactly
/// its number of sections. The match ends within the input, and a complete
/// match ends at its end.
pub proof fn lemma_match_captures(
    tokens: Seq<MatcherTokenModel>,
    input: Seq<char>,
    at: int,
    settings: MatcherSettings,
)
    requires
        0 <= at <= input.len(),
        match_from(tokens, input, at, settings) is Ok,
    ensures
        ({
            let (pairs, last) = match_from(tokens, input, at, settings)->Ok_0;
            let captures = captures_in(tokens);
            &&& pairs.len() == captures.len()
            &&& at <= last <= input.len()
            &&& settings.complete ==> last == input.len()
            &&& forall|j: int|
                0 <= j < pairs.len() ==> (#[trigger] pairs[j]).0 == captures[j].name() && fits(
                    captures[j],
                    pairs[j].1,
                )
        }),
    decreases tokens.len(),
{
    if tokens.len() > 0 {
        let following = tokens.drop_first();
        match tokens[0] {
            MatcherTokenModel::Exact(text) => {
                lemma_match_captures(following, input, at + text.len(), settings);
            },
            MatcherTokenModel::Capture(capture) => {
                let end = capture_end(input, at, capture, following, settings.complete)->Some_0;
                lemma_capture_fits(input, at, capture, following, settings.complete);
                lemma_match_captures(following, input, end, settings);
                let (pairs, last) = match_from(tokens, input, at, settings)->Ok_0;
                let (more, _) = match_from(following, input, end, settings)->Ok_0;
                let captures = captures_in(tokens);
                let later = captures_in(following);
                assert forall|j: int| 0 <= j < pairs.len() implies (#[trigger] pairs[j]).0
                    == captures[j].name() && fits(captures[j], pairs[j].1) by {
                    if j > 0 {
                        assert(pairs[j] == more[j - 1]);
                        assert(captures[j] == later[j - 1]);
                    }
                }
            },
        }
    }
}

} // verus!
