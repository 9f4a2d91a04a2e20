//! Reads a route pattern into tokens.
//!
//! The grammar is stated over the characters of the pattern and positions in
//! it: each reader says which token, if any, stands at a position and where it
//! ends. [`parse`] reads token after token under the control of the grammar's
//! state machine.
use crate::chars::{
    chars_of, decimal_value, is_digit, lemma_run_end, read_decimal, run_end, scan_run, CharClass,
};
use crate::state::{lemma_successor_is_consistent, ParserState, StateModel};
use crate::token::{
    token_models, CaptureModel, CaptureOrExact, CaptureOrExactModel, CaptureVariant, ErrorModel,
    ParserError, RouteParserToken, TokenModel,
};
use vstd::prelude::*;

verus! {

/// Whether the character `c` stands at position `at` of `s`.
pub open spec fn has_char(s: Seq<char>, at: int, c: char) -> bool {
    0 <= at < s.len() && s[at] == c
}

/// Where the identifier that starts at `from` ends, if one starts there: an
/// identifier is a run of identifier characters that is not empty and does not
/// begin with a digit.
pub open spec fn ident_end(s: Seq<char>, from: int) -> Option<int> {
    let end = run_end(s, from, CharClass::Ident);
    if end > from && !is_digit(s[from]) {
        Some(end)
    } else {
        None
    }
}

/// Where the literal run that starts at `from` ends, if it is not empty.
pub open spec fn literal_end(s: Seq<char>, from: int) -> Option<int> {
    let end = run_end(s, from, CharClass::Literal);
    if end > from {
        Some(end)
    } else {
        None
    }
}

/// The capture written at `from`, without its braces, and where it ends:
/// `name`, `*:name` or `N:name`, where `N` is a decimal number that fits a
/// `usize`.
pub open spec fn capture_body(s: Seq<char>, from: int) -> Option<(CaptureModel, int)> {
    if has_char(s, from, '*') {
        match ident_end(s, from + 2) {
            Some(end) if has_char(s, from + 1, ':') => Some(
                (CaptureModel::ManyNamed(s.subrange(from + 2, end)), end),
            ),
            _ => None,
        }
    } else if 0 <= from < s.len() && is_digit(s[from]) {
        let colon = run_end(s, from, CharClass::Digit);
        let sections = decimal_value(s.subrange(from, colon));
        match ident_end(s, colon + 1) {
            Some(end) if has_char(s, colon, ':') && sections <= usize::MAX => Some(
                (CaptureModel::NumberedNamed { sections, name: s.subrange(colon + 1, end) }, end),
            ),
            _ => None,
        }
    } else {
        match ident_end(s, from) {
            Some(end) => Some((CaptureModel::Named(s.subrange(from, end)), end)),
            None => None,
        }
    }
}

/// The capture written between braces at `from`, and where it ends.
pub open spec fn braced_capture(s: Seq<char>, from: int) -> Option<(CaptureModel, int)> {
    match capture_body(s, from + 1) {
        Some((capture, end)) if has_char(s, from, '{') && has_char(s, end, '}') => Some(
            (capture, end + 1),
        ),
        _ => None,
    }
}

/// The value of a query pair at `from`: a braced capture of a single section,
/// or a literal run.
pub open spec fn query_value(s: Seq<char>, from: int) -> Option<(CaptureOrExactModel, int)> {
    if has_char(s, from, '{') {
        match braced_capture(s, from) {
            Some((capture, end)) if capture.is_single() => Some(
                (CaptureOrExactModel::Capture(capture), end),
            ),
            _ => None,
        }
    } else {
        match literal_end(s, from) {
            Some(end) => Some((CaptureOrExactModel::Exact(s.subrange(from, end)), end)),
            None => None,
        }
    }
}

/// The query pair `key=value` at `from`, and where it ends.
pub open spec fn query_pair(s: Seq<char>, from: int) -> Option<(TokenModel, int)> {
    match ident_end(s, from) {
        Some(equals) if has_char(s, equals, '=') => match query_value(s, equals + 1) {
            Some((value, end)) => Some(
                (
                    TokenModel::QueryCapture {
                        ident: s.subrange(from, equals),
                        capture_or_match: value,
                    },
                    end,
                ),
            ),
            None => None,
        },
        _ => None,
    }
}

/// The token at `from` outside a query pair, and where it ends: a structural
/// marker, a braced capture, or the longest literal run.
pub open spec fn plain_token(s: Seq<char>, from: int) -> Option<(TokenModel, int)> {
    if !(0 <= from < s.len()) {
        None
    } else if s[from] == '/' {
        Some((TokenModel::Separator, from + 1))
    } else if s[from] == '?' {
        Some((TokenModel::QueryBegin, from + 1))
    } else if s[from] == '&' {
        Some((TokenModel::QuerySeparator, from + 1))
    } else if s[from] == '#' {
        Some((TokenModel::FragmentBegin, from + 1))
    } else if s[from] == '!' {
        Some((TokenModel::End, from + 1))
    } else if s[from] == '{' {
        match braced_capture(s, from) {
            Some((capture, end)) => Some((TokenModel::Capture(capture), end)),
            None => None,
        }
    } else {
        match literal_end(s, from) {
            Some(end) => Some((TokenModel::Exact(s.subrange(from, end)), end)),
            None => None,
        }
    }
}

/// The next token of `s` at `from` in the given grammar state, and where it
/// ends. A token is read as the state asks, and accepted only if the state
/// machine permits it; otherwise the error lists what the state expects.
pub open spec fn next_token(s: Seq<char>, from: int, state: StateModel) -> Result<
    (TokenModel, int),
    ErrorModel,
> {
    if state is End {
        Err(ErrorModel::TokensAfterEndToken)
    } else if !state.is_consistent() {
        Err(ErrorModel::InvalidState)
    } else {
        let read = if state.expects_query_pair() {
            query_pair(s, from)
        } else {
            plain_token(s, from)
        };
        match read {
            Some((token, end)) if state.permits(token) => Ok((token, end)),
            _ => Err(ErrorModel::ExpectedOneOf(state.expected())),
        }
    }
}

/// Every token takes up at least one character and ends within `s`.
pub proof fn lemma_next_token_advances(s: Seq<char>, from: int, state: StateModel)
    requires
        0 <= from <= s.len(),
    ensures
        next_token(s, from, state) matches Ok((_, end)) ==> from < end <= s.len(),
{
    lemma_run_end(s, from, CharClass::Ident);
    lemma_run_end(s, from, CharClass::Literal);
    if from < s.len() {
        lemma_run_end(s, from + 1, CharClass::Ident);
        lemma_run_end(s, from, CharClass::Digit);
        let colon = run_end(s, from + 1, CharClass::Digit);
        lemma_run_end(s, from + 1, CharClass::Digit);
        if colon < s.len() {
            lemma_run_end(s, colon + 1, CharClass::Ident);
        }
    }
    if from + 3 <= s.len() {
        lemma_run_end(s, from + 3, CharClass::Ident);
    }
    let equals = run_end(s, from, CharClass::Ident);
    if equals < s.len() {
        lemma_run_end(s, equals + 1, CharClass::Literal);
        if equals + 2 <= s.len() {
            lemma_run_end(s, equals + 2, CharClass::Ident);
        }
    }
}

/// The tokens of `s` from `from` on, read in the given state, or the position
/// at which reading failed and why.
///
/// The pattern may end where the state permits the end. The explicit end
/// marker ends it at once: anything after the marker is an error.
pub open spec fn parse_from(s: Seq<char>, from: int, state: StateModel) -> Result<
    Seq<TokenModel>,
    (int, ErrorModel),
>
    decreases s.len() - from,
{
    if !(0 <= from < s.len()) {
        if state.transition(TokenModel::End) is Ok {
            Ok(Seq::empty())
        } else {
            Err((from, ErrorModel::ExpectedOneOf(state.expected())))
        }
    } else {
        match next_token(s, from, state) {
            Err(e) => Err((from, e)),
            Ok((token, end)) => {
                if token is End {
                    if end >= s.len() {
                        Ok(seq![token])
                    } else {
                        Err((end, ErrorModel::TokensAfterEndToken))
                    }
                } else {
                    proof {
                        lemma_next_token_advances(s, from, state);
                    }
                    match parse_from(s, end, state.successor(token)) {
                        Ok(rest) => Ok(seq![token] + rest),
                        Err(e) => Err(e),
                    }
                }
            },
        }
    }
}

/// The tokens of the pattern `s`, or what is left of `s` where reading failed,
/// and why.
pub open spec fn parse_model(s: Seq<char>) -> Result<Seq<TokenModel>, (Seq<char>, ErrorModel)> {
    match parse_from(s, 0, StateModel::Start) {
        Ok(tokens) => Ok(tokens),
        Err((at, e)) => Err((s.subrange(at, s.len() as int), e)),
    }
}

/// The characters `from..to` of `i`, as a `String`.
pub(crate) fn text_of(i: &str, from: usize, to: usize) -> (r: String)
    requires
        from <= to <= i@.len(),
    ensures
        r@ == i@.subrange(from as int, to as int),
{
    String::from_str(i.substring_char(from, to))
}

/// What is left of `i` from position `from` on.
pub(crate) fn rest_of<'a>(i: &'a str, chars: &Vec<char>, from: usize) -> (r: &'a str)
    requires
        chars@ == i@,
        from <= i@.len(),
    ensures
        r@ == i@.subrange(from as int, i@.len() as int),
{
    i.substring_char(from, chars.len())
}

/// Whether an `Option` of a machine position is the given `Option` of a
/// position.
pub open spec fn same_end(r: Option<usize>, model: Option<int>) -> bool {
    match r {
        Some(end) => model == Some(end as int),
        None => model is None,
    }
}

/// Scans the identifier that starts at `from`.
pub(crate) fn rust_ident(chars: &Vec<char>, from: usize) -> (r: Option<usize>)
    requires
        from <= chars.len(),
    ensures
        same_end(r, ident_end(chars@, from as int)),
        r matches Some(end) ==> from < end <= chars.len(),
{
    let end = scan_run(chars, from, CharClass::Ident);
    if end > from && !CharClass::Digit.contains(chars[from]) {
        Some(end)
    } else {
        None
    }
}

/// Scans the literal run that starts at `from`.
pub(crate) fn exact_impl(chars: &Vec<char>, from: usize) -> (r: Option<usize>)
    requires
        from <= chars.len(),
    ensures
        same_end(r, literal_end(chars@, from as int)),
        r matches Some(end) ==> from < end <= chars.len(),
{
    let end = scan_run(chars, from, CharClass::Literal);
    if end > from {
        Some(end)
    } else {
        None
    }
}

/// Whether the character `c` stands at position `at`.
pub(crate) fn char_at(chars: &Vec<char>, at: usize, c: char) -> (b: bool)
    ensures
        b == has_char(chars@, at as int, c),
{
    at < chars.len() && chars[at] == c
}

/// Whether an `Option` of an executable value and a position is the given
/// `Option` of a model and a position.
pub open spec fn same_read<T: View>(r: Option<(T, usize)>, model: Option<(T::V, int)>) -> bool {
    match r {
        Some((value, end)) => model == Some((value@, end as int)),
        None => model is None,
    }
}

/// Reads a capture without its braces: `name`, `*:name` or `N:name`.
pub(crate) fn capture_impl(i: &str, chars: &Vec<char>, from: usize) -> (r: Option<(CaptureVariant, usize)>)
    requires
        chars@ == i@,
        from <= chars.len(),
    ensures
        same_read(r, capture_body(chars@, from as int)),
        r matches Some((_, end)) ==> from < end <= chars.len(),
{
    if char_at(chars, from, '*') {
        if !char_at(chars, from + 1, ':') {
            return None;
        }
        match rust_ident(chars, from + 2) {
            Some(end) => Some((CaptureVariant::ManyNamed(text_of(i, from + 2, end)), end)),
            None => None,
        }
    } else if from < chars.len() && CharClass::Digit.contains(chars[from]) {
        let colon = scan_run(chars, from, CharClass::Digit);
        proof {
            lemma_run_end(chars@, from as int, CharClass::Digit);
        }
        if !char_at(chars, colon, ':') {
            return None;
        }
        let sections = match read_decimal(chars, from, colon) {
            Some(sections) => sections,
            None => { return None; },
        };
        match rust_ident(chars, colon + 1) {
            Some(end) => Some(
                (
                    CaptureVariant::NumberedNamed {
                        sections,
                        name: text_of(i, colon + 1, end),
                    },
                    end,
                ),
            ),
            None => None,
        }
    } else {
        match rust_ident(chars, from) {
            Some(end) => Some((CaptureVariant::Named(text_of(i, from, end)), end)),
            None => None,
        }
    }
}

/// Reads a capture between braces.
pub(crate) fn capture(i: &str, chars: &Vec<char>, from: usize) -> (r: Option<(CaptureVariant, usize)>)
    requires
        chars@ == i@,
        from <= chars.len(),
    ensures
        same_read(r, braced_capture(chars@, from as int)),
        r matches Some((_, end)) ==> from < end <= chars.len(),
{
    if !char_at(chars, from, '{') {
        return None;
    }
    match capture_impl(i, chars, from + 1) {
        Some((variant, end)) => {
            if char_at(chars, end, '}') {
                Some((variant, end + 1))
            } else {
                None
            }
        },
        None => None,
    }
}

/// Reads the value of a query pair: a braced capture of a single section, or a
/// literal run.
pub(crate) fn cap_or_exact(i: &str, chars: &Vec<char>, from: usize) -> (r: Option<
    (CaptureOrExact, usize),
>)
    requires
        chars@ == i@,
        from <= chars.len(),
    ensures
        same_read(r, query_value(chars@, from as int)),
        r matches Some((_, end)) ==> from < end <= chars.len(),
{
    if char_at(chars, from, '{') {
        match capture(i, chars, from) {
            Some((CaptureVariant::Named(name), end)) => Some(
                (CaptureOrExact::Capture(CaptureVariant::Named(name)), end),
            ),
            _ => None,
        }
    } else {
        match exact_impl(chars, from) {
            Some(end) => Some((CaptureOrExact::Exact(text_of(i, from, end)), end)),
            None => None,
        }
    }
}

/// Reads a query pair `key=value`.
pub(crate) fn query_capture_impl(i: &str, chars: &Vec<char>, from: usize) -> (r: Option<
    (RouteParserToken, usize),
>)
    requires
        chars@ == i@,
        from <= chars.len(),
    ensures
        same_read(r, query_pair(chars@, from as int)),
        r matches Some((_, end)) ==> from < end <= chars.len(),
{
    let equals = match rust_ident(chars, from) {
        Some(equals) => equals,
        None => { return None; },
    };
    if !char_at(chars, equals, '=') {
        return None;
    }
    match cap_or_exact(i, chars, equals + 1) {
        Some((capture_or_match, end)) => Some(
            (
                RouteParserToken::QueryCapture {
                    ident: text_of(i, from, equals),
                    capture_or_match,
                },
                end,
            ),
        ),
        None => None,
    }
}

/// Reads the token at `from` outside a query pair.
pub(crate) fn plain_token_impl(i: &str, chars: &Vec<char>, from: usize) -> (r: Option<
    (RouteParserToken, usize),
>)
    requires
        chars@ == i@,
        from <= chars.len(),
    ensures
        same_read(r, plain_token(chars@, from as int)),
        r matches Some((_, end)) ==> from < end <= chars.len(),
{
    if from >= chars.len() {
        return None;
    }
    let c = chars[from];
    if c == '/' {
        Some((RouteParserToken::Separator, from + 1))
    } else if c == '?' {
        Some((RouteParserToken::QueryBegin, from + 1))
    } else if c == '&' {
        Some((RouteParserToken::QuerySeparator, from + 1))
    } else if c == '#' {
        Some((RouteParserToken::FragmentBegin, from + 1))
    } else if c == '!' {
        Some((RouteParserToken::End, from + 1))
    } else if c == '{' {
        match capture(i, chars, from) {
            Some((variant, end)) => Some((RouteParserToken::Capture(variant), end)),
            None => None,
        }
    } else {
        match exact_impl(chars, from) {
            Some(end) => Some((RouteParserToken::Exact(text_of(i, from, end)), end)),
            None => None,
        }
    }
}

/// Reads the next token of the pattern at `from` in the given grammar state.
///
/// Returns the token and the position after it, or the reason why no token
/// that the state permits stands there.
pub(crate) fn parse_impl(i: &str, chars: &Vec<char>, from: usize, state: &ParserState) -> (r: Result<
    (RouteParserToken, usize),
    ParserError,
>)
    requires
        chars@ == i@,
        from <= chars.len(),
    ensures
        match r {
            Ok((token, end)) => next_token(i@, from as int, state@) == Ok::<_, ErrorModel>(
                (token@, end as int),
            ) && from < end <= chars.len(),
            Err(e) => next_token(i@, from as int, state@) == Err::<(TokenModel, int), _>(e@),
        },
{
    match state {
        ParserState::End => { return Err(ParserError::TokensAfterEndToken); },
        ParserState::Start => {},
        _ => {
            // A state whose last token fits its region either lets the
            // pattern end or waits for a query pair.
            if !state.permits_end() && !state.expects_query_pair() {
                return Err(ParserError::InvalidState);
            }
        },
    }
    let read = if state.expects_query_pair() {
        query_capture_impl(i, chars, from)
    } else {
        plain_token_impl(i, chars, from)
    };
    match read {
        Some((token, end)) => {
            if state.permits(&token) {
                Ok((token, end))
            } else {
                Err(ParserError::ExpectedOneOf(state.expected()))
            }
        },
        None => Err(ParserError::ExpectedOneOf(state.expected())),
    }
}

/// The result of reading on after the tokens `before`.
pub open spec fn after(before: Seq<TokenModel>, rest: Result<Seq<TokenModel>, (int, ErrorModel)>)
    -> Result<Seq<TokenModel>, (int, ErrorModel)> {
    match rest {
        Ok(tokens) => Ok(before + tokens),
        Err(e) => Err(e),
    }
}

/// Parses a route pattern into its tokens.
///
/// On failure returns what is left of the pattern at the point of failure,
/// together with the error.
pub fn parse(i: &str) -> (r: Result<Vec<RouteParserToken>, (&str, ParserError)>)
    ensures
        match r {
            Ok(tokens) => parse_model(i@) == Ok::<_, (Seq<char>, ErrorModel)>(
                token_models(tokens@),
            ),
            Err((rest, e)) => parse_model(i@) == Err::<Seq<TokenModel>, _>((rest@, e@)),
        },
{
    let chars = chars_of(i);
    let mut tokens: Vec<RouteParserToken> = Vec::new();
    let mut state = ParserState::Start;
    let mut from: usize = 0;
    assert(token_models(tokens@) + Seq::<TokenModel>::empty() =~= Seq::<TokenModel>::empty());
    loop
        invariant
            chars@ == i@,
            from <= chars.len(),
            state@.is_consistent(),
            !(state@ is End),
            parse_from(i@, 0, StateModel::Start) == after(
                token_models(tokens@),
                parse_from(i@, from as int, state@),
            ),
        decreases chars.len() - from,
    {
        if from >= chars.len() {
            if state.permits_end() {
                assert(token_models(tokens@) + Seq::<TokenModel>::empty() =~= token_models(
                    tokens@,
                ));
                return Ok(tokens);
            } else {
                return Err((rest_of(i, &chars, from), ParserError::ExpectedOneOf(state.expected())));
            }
        }
        let (token, end) = match parse_impl(i, &chars, from, &state) {
            Ok(read) => read,
            Err(e) => { return Err((rest_of(i, &chars, from), e)); },
        };
        let ghost before = token_models(tokens@);
        proof {
            lemma_successor_is_consistent(state@, token@);
        }
        let next = match state.transition(token.clone()) {
            Ok(next) => next,
            Err(e) => { return Err((rest_of(i, &chars, end), e)); },
        };
        tokens.push(token);
        assert(token_models(tokens@) =~= before.push(token@));
        if let ParserState::End = next {
            if end >= chars.len() {
                assert(before + seq![token@] =~= before.push(token@));
                return Ok(tokens);
            } else {
                return Err((rest_of(i, &chars, end), ParserError::TokensAfterEndToken));
            }
        }
        proof {
            let rest = parse_from(i@, end as int, next@);
            if let Ok(more) = rest {
                assert(before + (seq![token@] + more) =~= before.push(token@) + more);
            }
        }
        state = next;
        from = end;
    }
}

/// Takes an identifier off the front of `i`: returns what follows it, and the
/// identifier. An identifier holds no whitespace and no reserved character, is
/// not empty and does not begin with a digit.
pub fn valid_ident_characters<'a>(i: &'a str) -> (r: Option<(&'a str, &'a str)>)
    ensures
        match r {
            Some((rest, ident)) => ident_end(i@, 0) matches Some(end) && ident@ == i@.subrange(0, end)
                && rest@ == i@.subrange(end, i@.len() as int),
            None => ident_end(i@, 0) is None,
        },
{
    let chars = chars_of(i);
    match rust_ident(&chars, 0) {
        Some(end) => Some((rest_of(i, &chars, end), i.substring_char(0, end))),
        None => None,
    }
}

/// Takes a literal run off the front of `i`: returns what follows it, and the
/// run. A literal run holds none of the structural characters and is not empty.
pub fn valid_exact_match_characters<'a>(i: &'a str) -> (r: Option<(&'a str, &'a str)>)
    ensures
        match r {
            Some((rest, run)) => literal_end(i@, 0) matches Some(end) && run@ == i@.subrange(0, end)
                && rest@ == i@.subrange(end, i@.len() as int),
            None => literal_end(i@, 0) is None,
        },
{
    let chars = chars_of(i);
    match exact_impl(&chars, 0) {
        Some(end) => Some((rest_of(i, &chars, end), i.substring_char(0, end))),
        None => None,
    }
}

/// Takes a literal run off the front of `i` as an `Exact` token: returns what
/// follows it, and the token.
pub fn match_exact<'a>(i: &'a str) -> (r: Option<(&'a str, RouteParserToken)>)
    ensures
        match r {
            Some((rest, token)) => literal_end(i@, 0) matches Some(end) && token@
                == TokenModel::Exact(i@.subrange(0, end)) && rest@ == i@.subrange(
                end,
                i@.len() as int,
            ),
            None => literal_end(i@, 0) is None,
        },
{
    match valid_exact_match_characters(i) {
        Some((rest, run)) => Some((rest, RouteParserToken::Exact(String::from_str(run)))),
        None => None,
    }
}

/// Takes a query pair `key=value` off the front of `i`: returns what follows
/// it, and the token.
pub fn query_capture<'a>(i: &'a str) -> (r: Option<(&'a str, RouteParserToken)>)
    ensures
        match r {
            Some((rest, token)) => query_pair(i@, 0) matches Some((model, end)) && token@ == model
                && rest@ == i@.subrange(end, i@.len() as int),
            None => query_pair(i@, 0) is None,
        },
{
    let chars = chars_of(i);
    match query_capture_impl(i, &chars, 0) {
        Some((token, end)) => Some((rest_of(i, &chars, end), token)),
        None => None,
    }
}

} // verus!
