//! What holds of every pattern.
use crate::chars::{lemma_run_end, lemma_run_end_unique, run_end, CharClass};
use crate::parser::{
    braced_capture, capture_body, has_char, ident_end, lemma_next_token_advances, literal_end,
    next_token, parse_from, parse_model, plain_token, query_value,
};
use crate::state::{lemma_successor_is_consistent, StateModel};
use crate::token::{ErrorModel, TokenModel};
use vstd::prelude::*;

verus! {

/// A run that ends before the end of the text ends at the same place when
/// the text goes on.
pub proof fn lemma_run_end_longer(s: Seq<char>, more: Seq<char>, from: int, class: CharClass)
    requires
        0 <= from <= s.len(),
        run_end(s, from, class) < s.len(),
    ensures
        run_end(s + more, from, class) == run_end(s, from, class),
{
    let end = run_end(s, from, class);
    let longer = s + more;
    lemma_run_end(s, from, class);
    assert forall|i: int| from <= i < end implies class.holds(#[trigger] longer[i]) by {
        assert(longer[i] == s[i]);
    }
    assert(longer[end] == s[end]);
    lemma_run_end_unique(longer, from, end, class);
}

/// An identifier that ends before the end of the text is read the same when
/// the text goes on.
pub proof fn lemma_ident_end_longer(s: Seq<char>, more: Seq<char>, from: int)
    requires
        0 <= from <= s.len(),
        ident_end(s, from) matches Some(end) && end < s.len(),
    ensures
        ident_end(s + more, from) == ident_end(s, from),
{
    lemma_run_end_longer(s, more, from, CharClass::Ident);
    lemma_run_end(s, from, CharClass::Ident);
    assert((s + more)[from] == s[from]);
}

/// A literal run that ends before the end of the text is read the same when
/// the text goes on.
pub proof fn lemma_literal_end_longer(s: Seq<char>, more: Seq<char>, from: int)
    requires
        0 <= from <= s.len(),
        literal_end(s, from) matches Some(end) && end < s.len(),
    ensures
        literal_end(s + more, from) == literal_end(s, from),
{
    lemma_run_end_longer(s, more, from, CharClass::Literal);
}

/// A capture that ends before the end of the text is read the same when the
/// text goes on.
pub proof fn lemma_capture_body_longer(s: Seq<char>, more: Seq<char>, from: int)
    requires
        0 <= from <= s.len(),
        capture_body(s, from) matches Some((_, end)) && end < s.len(),
    ensures
        capture_body(s + more, from) == capture_body(s, from),
{
    let longer = s + more;
    assert(longer[from] == s[from]);
    if has_char(s, from, '*') {
        assert(longer[from + 1] == s[from + 1]);
        lemma_ident_end_longer(s, more, from + 2);
        let end = ident_end(s, from + 2)->Some_0;
        lemma_run_end(s, from + 2, CharClass::Ident);
        assert(longer.subrange(from + 2, end) =~= s.subrange(from + 2, end));
    } else if crate::chars::is_digit(s[from]) {
        let colon = run_end(s, from, CharClass::Digit);
        lemma_run_end(s, from, CharClass::Digit);
        lemma_run_end_longer(s, more, from, CharClass::Digit);
        assert(longer[colon] == s[colon]);
        lemma_ident_end_longer(s, more, colon + 1);
        let end = ident_end(s, colon + 1)->Some_0;
        lemma_run_end(s, colon + 1, CharClass::Ident);
        assert(longer.subrange(from, colon) =~= s.subrange(from, colon));
        assert(longer.subrange(colon + 1, end) =~= s.subrange(colon + 1, end));
    } else {
        lemma_ident_end_longer(s, more, from);
        let end = ident_end(s, from)->Some_0;
        lemma_run_end(s, from, CharClass::Ident);
        assert(longer.subrange(from, end) =~= s.subrange(from, end));
    }
}

/// A braced capture that stands in the text is read the same when the text
/// goes on.
pub proof fn lemma_braced_capture_longer(s: Seq<char>, more: Seq<char>, from: int)
    requires
        0 <= from <= s.len(),
        braced_capture(s, from) is Some,
    ensures
        braced_capture(s + more, from) == braced_capture(s, from),
{
    let longer = s + more;
    let end = capture_body(s, from + 1)->Some_0.1;
    assert(longer[from] == s[from]);
    lemma_capture_body_longer(s, more, from + 1);
    assert(longer[end] == s[end]);
}

/// The value of a query pair that ends before the end of the text is read
/// the same when the text goes on.
pub proof fn lemma_query_value_longer(s: Seq<char>, more: Seq<char>, from: int)
    requires
        0 <= from <= s.len(),
        query_value(s, from) matches Some((_, end)) && end < s.len(),
    ensures
        query_value(s + more, from) == query_value(s, from),
{
    let longer = s + more;
    if has_char(s, from, '{') {
        assert(longer[from] == s[from]);
        lemma_braced_capture_longer(s, more, from);
    } else {
        lemma_run_end(s, from, CharClass::Literal);
        assert(longer[from] == s[from]);
        lemma_literal_end_longer(s, more, from);
        let end = literal_end(s, from)->Some_0;
        assert(longer.subrange(from, end) =~= s.subrange(from, end));
    }
}

/// A token that ends before the end of the text is read the same when the
/// text goes on.
pub proof fn lemma_next_token_longer(s: Seq<char>, more: Seq<char>, from: int, state: StateModel)
    requires
        0 <= from <= s.len(),
        next_token(s, from, state) matches Ok((_, end)) && end < s.len(),
    ensures
        next_token(s + more, from, state) == next_token(s, from, state),
{
    let longer = s + more;
    lemma_next_token_advances(s, from, state);
    assert(longer[from] == s[from]);
    if state.expects_query_pair() {
        let equals = ident_end(s, from)->Some_0;
        lemma_run_end(s, from, CharClass::Ident);
        lemma_ident_end_longer(s, more, from);
        assert(longer[equals] == s[equals]);
        lemma_query_value_longer(s, more, equals + 1);
        assert(longer.subrange(from, equals) =~= s.subrange(from, equals));
    } else if s[from] == '{' {
        lemma_braced_capture_longer(s, more, from);
    } else if plain_token(s, from)->Some_0.0 is Exact {
        lemma_literal_end_longer(s, more, from);
        let end = literal_end(s, from)->Some_0;
        assert(longer.subrange(from, end) =~= s.subrange(from, end));
    }
}

/// Where reading `s` from `from` ends with the end marker, reading `s`
/// followed by more text fails right after the marker.
pub proof fn lemma_parse_from_after_end(
    s: Seq<char>,
    more: Seq<char>,
    from: int,
    state: StateModel,
)
    requires
        0 <= from <= s.len(),
        more.len() > 0,
        state.is_consistent(),
        parse_from(s, from, state) matches Ok(tokens) && tokens.len() > 0 && tokens.last() is End,
    ensures
        parse_from(s + more, from, state) == Err::<Seq<TokenModel>, _>(
            (s.len() as int, ErrorModel::TokensAfterEndToken),
        ),
    decreases s.len() - from,
{
    let longer = s + more;
    let (token, end) = next_token(s, from, state)->Ok_0;
    lemma_next_token_advances(s, from, state);
    if token is End {
        assert(end == s.len());
        assert(longer[from] == s[from]);
        assert(plain_token(s, from) == Some((token, end)));
        assert(plain_token(longer, from) == Some((token, end)));
    } else {
        let next = state.successor(token);
        let rest = parse_from(s, end, next)->Ok_0;
        let tokens = parse_from(s, from, state)->Ok_0;
        assert(tokens == seq![token] + rest);
        if rest.len() == 0 {
            assert(tokens.last() == token);
        }
        assert(tokens.last() == rest.last());
        lemma_next_token_longer(s, more, from, state);
        lemma_successor_is_consistent(state, token);
        lemma_parse_from_after_end(s, more, end, next);
    }
}

/// Tokens after the end marker always fail: where a pattern ends with the end
/// marker, the same pattern followed by any text is refused with
/// `TokensAfterEndToken`, and the text that was added is what is left over.
pub proof fn lemma_tokens_after_end(pattern: Seq<char>, more: Seq<char>)
    requires
        more.len() > 0,
        parse_model(pattern) matches Ok(tokens) && tokens.len() > 0 && tokens.last() is End,
    ensures
        parse_model(pattern + more) == Err::<Seq<TokenModel>, _>(
            (more, ErrorModel::TokensAfterEndToken),
        ),
{
    lemma_parse_from_after_end(pattern, more, 0, StateModel::Start);
    assert((pattern + more).subrange(pattern.len() as int, (pattern + more).len() as int)
        =~= more);
}

/// Whether the state machine accepts `tokens` one after the other, starting
/// in `state`.
pub open spec fn accepts(state: StateModel, tokens: Seq<TokenModel>) -> bool
    decreases tokens.len(),
{
    tokens.len() == 0 || (state.transition(tokens[0]) is Ok && accepts(
        state.successor(tokens[0]),
        tokens.drop_first(),
    ))
}

/// The state machine is authoritative: the parser yields only tokens that the
/// machine accepts in their order, and it fails only for want of an expected
/// token or because text follows the end marker. The other errors of the
/// machine never come out of parsing.
pub proof fn lemma_parse_from_obeys_machine(s: Seq<char>, from: int, state: StateModel)
    requires
        0 <= from <= s.len(),
        state.is_consistent(),
        !(state is End),
    ensures
        match parse_from(s, from, state) {
            Ok(tokens) => accepts(state, tokens),
            Err((at, e)) => from <= at <= s.len() && (e is ExpectedOneOf
                || e is TokensAfterEndToken),
        },
    decreases s.len() - from,
{
    if from < s.len() {
        lemma_next_token_advances(s, from, state);
        if let Ok((token, end)) = next_token(s, from, state) {
            lemma_successor_is_consistent(state, token);
            let next = state.successor(token);
            assert(state.transition(token) is Ok);
            if token is End {
                if end >= s.len() {
                    let tokens = seq![token];
                    assert(tokens.drop_first() =~= Seq::<TokenModel>::empty());
                    assert(accepts(next, tokens.drop_first()));
                    assert(accepts(state, tokens));
                }
            } else {
                lemma_parse_from_obeys_machine(s, end, next);
                if let Ok(rest) = parse_from(s, end, next) {
                    let tokens = seq![token] + rest;
                    assert(tokens.drop_first() =~= rest);
                    assert(tokens[0] == token);
                    assert(accepts(state, tokens));
                }
            }
        }
    } else {
        assert(accepts(state, Seq::<TokenModel>::empty()));
    }
}

/// Of a whole pattern: its tokens are accepted by the state machine from the
/// start state on, and a pattern is refused only with `ExpectedOneOf` or
/// `TokensAfterEndToken`.
pub proof fn lemma_parse_obeys_machine(pattern: Seq<char>)
    ensures
        match parse_model(pattern) {
            Ok(tokens) => accepts(StateModel::Start, tokens),
            Err((_, e)) => e is ExpectedOneOf || e is TokensAfterEndToken,
        },
{
    lemma_parse_from_obeys_machine(pattern, 0, StateModel::Start);
}

} // verus!
