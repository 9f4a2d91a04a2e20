//! Matches route strings against the tokens of a compiled pattern.
//!
//! Matching goes through the tokens once, from left to right, against what is
//! left of the route. A literal must stand at the front of what is left. A
//! capture takes as much as its kind allows; a capture over many sections looks
//! one token ahead to find the literal at which it stops.
use crate::captures::{pairs_map, Captures};
use crate::chars::{chars_of, lemma_run_end, run_end, scan_run, CharClass};
use crate::optimizer::{
    compile_model, convert_tokens, is_merged, matcher_models, parse_str_and_optimize_tokens,
    MatcherToken, MatcherTokenModel,
};
use crate::parser::{rest_of, same_end, text_of};
use crate::token::{CaptureModel, CaptureVariant, ErrorModel, ParserError, RouteParserToken};
use crate::util::{
    delimiters_model, first_stop, next_delimiters, starts_with_at, stop_at, tag_at, texts,
};
use vstd::prelude::*;
use vstd::slice::slice_subrange;

verus! {

/// Settings used for the matcher.
#[derive(Debug, PartialEq, Eq, Clone, Copy)]
pub struct MatcherSettings {
    /// A matcher must consume all of the input to succeed.
    pub complete: bool,
    /// All literal matches do not care about case.
    pub case_insensitive: bool,
}

impl Default for MatcherSettings {
    fn default() -> (r: Self)
        ensures
            r.complete,
            !r.case_insensitive,
    {
        MatcherSettings { complete: true, case_insensitive: false }
    }
}

/// A match that failed, with the position in the route, counted in
/// characters, of what did not match: the start of the literal or capture
/// that failed, or of the input that was left over.
#[derive(Debug, PartialEq, Eq, Clone, Copy)]
pub struct MatchFailure {
    pub offset: usize,
}

/// Where `count` sections that start at `at` end, if there are that many: a
/// section is a run of characters other than `/` that is not empty, and each
/// section but the last is followed by one `/`.
pub open spec fn sections_end(input: Seq<char>, at: int, count: nat) -> Option<int>
    decreases count,
{
    if count == 0 {
        Some(at)
    } else {
        let end = run_end(input, at, CharClass::Section);
        if end <= at {
            None
        } else if count == 1 {
            Some(end)
        } else if end < input.len() {
            sections_end(input, end + 1, (count - 1) as nat)
        } else {
            None
        }
    }
}

/// Where the text that `capture` takes at `at` ends, given the tokens that
/// follow the capture, or `None` if the capture fails there.
///
/// A `Named` capture takes the longest run without `/`, or without `/`, `?`
/// and `#` if no token follows; the run must not be empty. A `ManyNamed`
/// capture takes everything up to the first place where the literal that
/// follows it stands, letter for letter whatever the settings say of case; if
/// no literal follows it, it takes all that is left; if the literal stands
/// nowhere, it fails in a complete match and takes all that is left otherwise.
/// A `NumberedNamed` capture takes its number of sections.
pub open spec fn capture_end(
    input: Seq<char>,
    at: int,
    capture: CaptureModel,
    following: Seq<MatcherTokenModel>,
    complete: bool,
) -> Option<int> {
    match capture {
        CaptureModel::Named(_) => {
            let end = run_end(
                input,
                at,
                if following.len() == 0 {
                    CharClass::LastSection
                } else {
                    CharClass::Section
                },
            );
            if end > at {
                Some(end)
            } else {
                None
            }
        },
        CaptureModel::ManyNamed(_) => {
            let stops = delimiters_model(following);
            if stops.len() == 0 {
                Some(input.len() as int)
            } else {
                match first_stop(input, at, stops) {
                    Some(p) => Some(p),
                    None => if complete {
                        None
                    } else {
                        Some(input.len() as int)
                    },
                }
            }
        },
        CaptureModel::NumberedNamed { sections, .. } => sections_end(input, at, sections),
    }
}

/// The outcome of matching `tokens` against `input` from position `at` on:
/// the captured pairs of name and text in the order of the tokens, and the
/// position at which matching ended; or the position at which it failed.
pub open spec fn match_from(
    tokens: Seq<MatcherTokenModel>,
    input: Seq<char>,
    at: int,
    settings: MatcherSettings,
) -> Result<(Seq<(Seq<char>, Seq<char>)>, int), int>
    decreases tokens.len(),
{
    if tokens.len() == 0 {
        if settings.complete && at < input.len() {
            Err(at)
        } else {
            Ok((Seq::empty(), at))
        }
    } else {
        let following = tokens.drop_first();
        match tokens[0] {
            MatcherTokenModel::Exact(text) => {
                if starts_with_at(input, at, text, settings.case_insensitive) {
                    match_from(following, input, at + text.len(), settings)
                } else {
                    Err(at)
                }
            },
            MatcherTokenModel::Capture(capture) => {
                match capture_end(input, at, capture, following, settings.complete) {
                    None => Err(at),
                    Some(end) => match match_from(following, input, end, settings) {
                        Ok((captures, last)) => Ok(
                            (seq![(capture.name(), input.subrange(at, end))] + captures, last),
                        ),
                        Err(e) => Err(e),
                    },
                }
            },
        }
    }
}

/// The outcome of matching `tokens` against the whole of `input`.
pub open spec fn match_model(
    tokens: Seq<MatcherTokenModel>,
    input: Seq<char>,
    settings: MatcherSettings,
) -> Result<(Seq<(Seq<char>, Seq<char>)>, int), int> {
    match_from(tokens, input, 0, settings)
}

/// A capture ends within the input, at or after the place where it began.
pub proof fn lemma_capture_end_bounds(
    input: Seq<char>,
    at: int,
    capture: CaptureModel,
    following: Seq<MatcherTokenModel>,
    complete: bool,
)
    requires
        0 <= at <= input.len(),
    ensures
        capture_end(input, at, capture, following, complete) matches Some(end) ==> at <= end
            <= input.len(),
{
    lemma_run_end(input, at, CharClass::Section);
    lemma_run_end(input, at, CharClass::LastSection);
    crate::util::lemma_first_stop(input, at, delimiters_model(following));
    if let CaptureModel::NumberedNamed { sections, .. } = capture {
        lemma_sections_end_bounds(input, at, sections);
    }
}

/// Sections end within the input, at or after the place where they began.
pub proof fn lemma_sections_end_bounds(input: Seq<char>, at: int, count: nat)
    requires
        0 <= at <= input.len(),
    ensures
        sections_end(input, at, count) matches Some(end) ==> at <= end <= input.len(),
    decreases count,
{
    lemma_run_end(input, at, CharClass::Section);
    let end = run_end(input, at, CharClass::Section);
    if count > 1 && at < end < input.len() {
        lemma_sections_end_bounds(input, end + 1, (count - 1) as nat);
    }
}

/// The names and texts of captured pairs, as sequences of characters.
pub open spec fn pair_models(pairs: Seq<(&str, String)>) -> Seq<(Seq<char>, Seq<char>)> {
    pairs.map_values(|p: (&str, String)| (p.0@, p.1@))
}

/// The outcome of matching on after the pairs `before` were captured.
pub open spec fn after_captures(
    before: Seq<(Seq<char>, Seq<char>)>,
    rest: Result<(Seq<(Seq<char>, Seq<char>)>, int), int>,
) -> Result<(Seq<(Seq<char>, Seq<char>)>, int), int> {
    match rest {
        Ok((captures, last)) => Ok((before + captures, last)),
        Err(e) => Err(e),
    }
}

/// Finds where `count` sections that start at `at` end.
pub(crate) fn sections_at(chars: &Vec<char>, at: usize, count: usize) -> (r: Option<usize>)
    requires
        at <= chars.len(),
    ensures
        same_end(r, sections_end(chars@, at as int, count as nat)),
        r matches Some(end) ==> at <= end <= chars.len(),
{
    let mut left: usize = count;
    let mut from: usize = at;
    while left > 0
        invariant
            at <= from <= chars.len(),
            sections_end(chars@, at as int, count as nat) == sections_end(
                chars@,
                from as int,
                left as nat,
            ),
        decreases left,
    {
        let end = scan_run(chars, from, CharClass::Section);
        if end <= from {
            return None;
        }
        if left == 1 {
            return Some(end);
        }
        if end >= chars.len() {
            return None;
        }
        from = end + 1;
        left -= 1;
    }
    Some(from)
}

/// Finds where the text that `capture` takes at `at` ends, given the tokens
/// that follow the capture.
pub(crate) fn capture_at(
    chars: &Vec<char>,
    at: usize,
    capture: &CaptureVariant,
    following: &[MatcherToken],
    complete: bool,
) -> (r: Option<usize>)
    requires
        at <= chars.len(),
    ensures
        same_end(
            r,
            capture_end(chars@, at as int, capture@, matcher_models(following@), complete),
        ),
        r matches Some(end) ==> at <= end <= chars.len(),
{
    proof {
        lemma_capture_end_bounds(chars@, at as int, capture@, matcher_models(following@), complete);
    }
    match capture {
        CaptureVariant::Named(_) => {
            let class = if following.len() == 0 {
                CharClass::LastSection
            } else {
                CharClass::Section
            };
            let end = scan_run(chars, at, class);
            if end > at {
                Some(end)
            } else {
                None
            }
        },
        CaptureVariant::ManyNamed(_) => {
            let delimiters = next_delimiters(following);
            if delimiters.len() == 0 {
                return Some(chars.len());
            }
            let stops = texts(&delimiters);
            match stop_at(chars, at, &stops) {
                Some(p) => Some(p),
                None => if complete {
                    None
                } else {
                    Some(chars.len())
                },
            }
        },
        CaptureVariant::NumberedNamed { sections, .. } => sections_at(chars, at, *sections),
    }
}

/// Attempts to match routes against the tokens of a pattern, and captures the
/// sections that the pattern names.
#[derive(Debug, PartialEq)]
pub struct RouteMatcher {
    /// Tokens used to determine how the matcher will match a route string.
    pub tokens: Vec<MatcherToken>,
    /// Settings
    pub settings: MatcherSettings,
}

impl Clone for RouteMatcher {
    fn clone(&self) -> (r: Self)
        ensures
            matcher_models(r.tokens@) == matcher_models(self.tokens@),
            r.settings == self.settings,
    {
        let mut tokens: Vec<MatcherToken> = Vec::new();
        let mut k: usize = 0;
        while k < self.tokens.len()
            invariant
                k <= self.tokens.len(),
                tokens.len() == k,
                forall|j: int| 0 <= j < k ==> tokens@[j]@ == self.tokens@[j]@,
            decreases self.tokens.len() - k,
        {
            tokens.push(self.tokens[k].clone());
            k += 1;
        }
        assert(matcher_models(tokens@) =~= matcher_models(self.tokens@));
        RouteMatcher { tokens, settings: self.settings }
    }
}

/// The names of the captures among `tokens`, each once, in the order in which
/// they first occur.
pub open spec fn unique_names(tokens: Seq<MatcherTokenModel>) -> Seq<Seq<char>>
    decreases tokens.len(),
{
    if tokens.len() == 0 {
        Seq::empty()
    } else {
        let before = unique_names(tokens.drop_last());
        match tokens.last() {
            MatcherTokenModel::Capture(capture) if !before.contains(capture.name()) => before.push(
                capture.name(),
            ),
            _ => before,
        }
    }
}

/// Whether `name` is the name of one of the captures among `tokens`.
pub open spec fn is_capture_name(tokens: Seq<MatcherTokenModel>, name: Seq<char>) -> bool {
    exists|k: int|
        0 <= k < tokens.len() && (#[trigger] tokens[k]) is Capture && tokens[k]->Capture_0.name()
            == name
}

/// The unique names are the names of the captures, as a set: a name is
/// among them if and only if a capture has it, and none is there twice.
pub proof fn lemma_unique_names(tokens: Seq<MatcherTokenModel>)
    ensures
        forall|name: Seq<char>| #[trigger]
            unique_names(tokens).contains(name) <==> is_capture_name(tokens, name),
        unique_names(tokens).no_duplicates(),
    decreases tokens.len(),
{
    if tokens.len() > 0 {
        let front = tokens.drop_last();
        let before = unique_names(front);
        let names = unique_names(tokens);
        lemma_unique_names(front);
        assert forall|name: Seq<char>| #[trigger]
            names.contains(name) <==> is_capture_name(tokens, name) by {
            if is_capture_name(front, name) {
                let k = choose|k: int|
                    0 <= k < front.len() && (#[trigger] front[k]) is Capture
                        && front[k]->Capture_0.name() == name;
                assert(tokens[k] == front[k]);
            }
            if is_capture_name(tokens, name) {
                let k = choose|k: int|
                    0 <= k < tokens.len() && (#[trigger] tokens[k]) is Capture
                        && tokens[k]->Capture_0.name() == name;
                if k < front.len() {
                    assert(front[k] == tokens[k]);
                }
            }
            if tokens.last() is Capture {
                let last = tokens.last()->Capture_0.name();
                assert(tokens[tokens.len() - 1] is Capture);
                if !before.contains(last) {
                    assert(names == before.push(last));
                    assert(names[before.len() as int] == last);
                    if names.contains(name) {
                        let j = choose|j: int| 0 <= j < names.len() && names[j] == name;
                        if j < before.len() {
                            assert(before[j] == name);
                        }
                    }
                    if before.contains(name) {
                        let j = choose|j: int| 0 <= j < before.len() && before[j] == name;
                        assert(names[j] == name);
                    }
                }
            }
        }
    }
}

/// The characters of each name, in order.
pub open spec fn name_models(names: Seq<&str>) -> Seq<Seq<char>> {
    names.map_values(|name: &str| name@)
}

impl RouteMatcher {
    /// Attempt to create a `RouteMatcher` from a pattern, with the default
    /// settings: a complete match that cares about case.
    pub fn try_from(i: &str) -> (r: Result<Self, (&str, ParserError)>)
        ensures
            match r {
                Ok(matcher) => compile_model(i@) == Ok::<_, (Seq<char>, ErrorModel)>(
                    matcher_models(matcher.tokens@),
                ) && is_merged(matcher_models(matcher.tokens@)) && matcher.settings.complete
                    && !matcher.settings.case_insensitive,
                Err((rest, e)) => compile_model(i@) == Err::<Seq<MatcherTokenModel>, _>(
                    (rest@, e@),
                ),
            },
    {
        let settings = MatcherSettings::default();
        Self::new(i, settings)
    }

    /// Creates a new matcher with settings.
    pub fn new(i: &str, settings: MatcherSettings) -> (r: Result<Self, (&str, ParserError)>)
        ensures
            match r {
                Ok(matcher) => compile_model(i@) == Ok::<_, (Seq<char>, ErrorModel)>(
                    matcher_models(matcher.tokens@),
                ) && is_merged(matcher_models(matcher.tokens@)) && matcher.settings == settings,
                Err((rest, e)) => compile_model(i@) == Err::<Seq<MatcherTokenModel>, _>(
                    (rest@, e@),
                ),
            },
    {
        match parse_str_and_optimize_tokens(i) {
            Ok(tokens) => Ok(RouteMatcher { tokens, settings }),
            Err(e) => Err(e),
        }
    }

    /// Creates a matcher with the default settings from tokens that were
    /// parsed already.
    pub fn from_tokens(tokens: &[RouteParserToken]) -> (r: Self)
        ensures
            matcher_models(r.tokens@) == crate::optimizer::convert_model(
                crate::token::token_models(tokens@),
            ),
            is_merged(matcher_models(r.tokens@)),
            r.settings.complete,
            !r.settings.case_insensitive,
    {
        RouteMatcher { tokens: convert_tokens(tokens), settings: MatcherSettings::default() }
    }

    /// Match a route string, collecting the results into a vector of pairs of
    /// name and captured text, in the order of the captures in the pattern.
    ///
    /// On success returns what is left of the route after the match, which is
    /// empty if the match is complete, and the pairs.
    pub fn capture_route_into_vec<'a, 'b>(&'b self, i: &'a str) -> (r: Result<
        (&'a str, Vec<(&'b str, String)>),
        MatchFailure,
    >)
        ensures
            match r {
                Ok((rest, captures)) => match_model(matcher_models(self.tokens@), i@, self.settings)
                    matches Ok((pairs, last)) && pairs == pair_models(captures@) && 0 <= last
                    <= i@.len() && rest@ == i@.subrange(last, i@.len() as int),
                Err(failure) => match_model(matcher_models(self.tokens@), i@, self.settings)
                    == Err::<(Seq<(Seq<char>, Seq<char>)>, int), _>(failure.offset as int),
            },
    {
        let chars = chars_of(i);
        let ghost all = matcher_models(self.tokens@);
        let mut captures: Vec<(&'b str, String)> = Vec::new();
        let mut at: usize = 0;
        let mut k: usize = 0;
        proof {
            assert(all.skip(0) =~= all);
            let rest = match_from(all, i@, 0, self.settings);
            if let Ok((more, last)) = rest {
                assert(pair_models(captures@) + more =~= more);
            }
        }
        while k < self.tokens.len()
            invariant
                chars@ == i@,
                all == matcher_models(self.tokens@),
                k <= self.tokens.len(),
                at <= chars.len(),
                match_from(all, i@, 0, self.settings) == after_captures(
                    pair_models(captures@),
                    match_from(all.skip(k as int), i@, at as int, self.settings),
                ),
            decreases self.tokens.len() - k,
        {
            let following = slice_subrange(self.tokens.as_slice(), k + 1, self.tokens.len());
            let ghost before = pair_models(captures@);
            proof {
                assert(all.skip(k as int).drop_first() =~= all.skip(k + 1));
                assert(matcher_models(following@) =~= all.skip(k + 1));
                assert(all.skip(k as int)[0] == self.tokens@[k as int]@);
            }
            match &self.tokens[k] {
                MatcherToken::Exact(text) => {
                    let wanted = chars_of(text.as_str());
                    if !tag_at(&chars, at, &wanted, self.settings.case_insensitive) {
                        return Err(MatchFailure { offset: at });
                    }
                    at = at + wanted.len();
                },
                MatcherToken::Capture(capture) => {
                    let end = match capture_at(
                        &chars,
                        at,
                        capture,
                        following,
                        self.settings.complete,
                    ) {
                        Some(end) => end,
                        None => { return Err(MatchFailure { offset: at }); },
                    };
                    captures.push((capture.name().as_str(), text_of(i, at, end)));
                    proof {
                        let pair = (capture@.name(), i@.subrange(at as int, end as int));
                        assert(pair_models(captures@) =~= before.push(pair));
                        let rest = match_from(all.skip(k + 1), i@, end as int, self.settings);
                        if let Ok((more, last)) = rest {
                            assert(before + (seq![pair] + more) =~= before.push(pair) + more);
                        }
                    }
                    at = end;
                },
            }
            k += 1;
        }
        proof {
            assert(all.skip(k as int) =~= Seq::<MatcherTokenModel>::empty());
            assert(pair_models(captures@) + Seq::<(Seq<char>, Seq<char>)>::empty() =~= pair_models(
                captures@,
            ));
        }
        if self.settings.complete && at < chars.len() {
            return Err(MatchFailure { offset: at });
        }
        Ok((rest_of(i, &chars, at), captures))
    }

    /// Match a route string, collecting the results into a map from name to
    /// captured text. Where a name occurs twice in the pattern, the text of the
    /// later capture stays.
    ///
    /// On success returns what is left of the route after the match, which is
    /// empty if the match is complete, and the map.
    pub fn capture_route_into_map<'a>(&self, i: &'a str) -> (r: Result<
        (&'a str, Captures),
        MatchFailure,
    >)
        ensures
            match r {
                Ok((rest, captures)) => match_model(matcher_models(self.tokens@), i@, self.settings)
                    matches Ok((pairs, last)) && captures@ == pairs_map(pairs) && 0 <= last
                    <= i@.len() && rest@ == i@.subrange(last, i@.len() as int),
                Err(failure) => match_model(matcher_models(self.tokens@), i@, self.settings)
                    == Err::<(Seq<(Seq<char>, Seq<char>)>, int), _>(failure.offset as int),
            },
    {
        let (rest, pairs) = match self.capture_route_into_vec(i) {
            Ok(matched) => matched,
            Err(failure) => { return Err(failure); },
        };
        let ghost all = pair_models(pairs@);
        let mut captures = Captures::new();
        let mut k: usize = 0;
        assert(all.take(0) =~= Seq::empty());
        while k < pairs.len()
            invariant
                k <= pairs.len(),
                all == pair_models(pairs@),
                captures@ == pairs_map(all.take(k as int)),
            decreases pairs.len() - k,
        {
            proof {
                assert(all.take(k + 1).drop_last() =~= all.take(k as int));
                assert(all.take(k + 1).last() == (pairs@[k as int].0@, pairs@[k as int].1@));
            }
            captures.insert(String::from_str(pairs[k].0), pairs[k].1.clone());
            k += 1;
        }
        assert(all.take(k as int) =~= all);
        Ok((rest, captures))
    }

    /// Gets all names that will be captured, each once, in the order in which
    /// they first occur in the pattern.
    ///
    /// This is useful in determining if a given structure can be populated by
    /// this matcher before a concrete route is given.
    pub fn capture_names(&self) -> (names: Vec<&str>)
        ensures
            name_models(names@) == unique_names(matcher_models(self.tokens@)),
            forall|name: Seq<char>| #[trigger]
                name_models(names@).contains(name) <==> is_capture_name(
                    matcher_models(self.tokens@),
                    name,
                ),
            name_models(names@).no_duplicates(),
    {
        let ghost all = matcher_models(self.tokens@);
        let mut names: Vec<&str> = Vec::new();
        let mut k: usize = 0;
        assert(name_models(names@) =~= unique_names(all.take(0)));
        while k < self.tokens.len()
            invariant
                k <= self.tokens.len(),
                all == matcher_models(self.tokens@),
                name_models(names@) == unique_names(all.take(k as int)),
            decreases self.tokens.len() - k,
        {
            let ghost before = name_models(names@);
            proof {
                assert(all.take(k + 1).drop_last() =~= all.take(k as int));
                assert(all.take(k + 1).last() == self.tokens@[k as int]@);
            }
            if let MatcherToken::Capture(capture) = &self.tokens[k] {
                let name = capture.name().as_str();
                let mut known = false;
                let mut j: usize = 0;
                while j < names.len()
                    invariant
                        j <= names.len(),
                        before == name_models(names@),
                        known <==> before.take(j as int).contains(name@),
                    decreases names.len() - j,
                {
                    proof {
                        let longer = before.take(j + 1);
                        assert(longer.drop_last() =~= before.take(j as int));
                        assert(longer.last() == names@[j as int]@);
                        if before.take(j as int).contains(name@) {
                            let i = choose|i: int|
                                0 <= i < before.take(j as int).len() && before.take(j as int)[i]
                                    == name@;
                            assert(longer[i] == name@);
                        }
                        if longer.contains(name@) {
                            let i = choose|i: int| 0 <= i < longer.len() && longer[i] == name@;
                            if i < j {
                                assert(before.take(j as int)[i] == name@);
                            }
                        }
                    }
                    if crate::chars::same_text(names[j], name) {
                        known = true;
                    }
                    j += 1;
                }
                assert(before.take(j as int) =~= before);
                if !known {
                    names.push(name);
                    assert(name_models(names@) =~= before.push(name@));
                }
            }
            k += 1;
        }
        proof {
            assert(all.take(k as int) =~= all);
            lemma_unique_names(all);
        }
        names
    }
}

} // verus!
