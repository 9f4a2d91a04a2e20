//! The steps that matching is made of: comparing literal text with or without
//! regard to case, trying alternatives, and searching forward for a delimiter.
use crate::chars::{chars_of, same_chars};
use crate::optimizer::{MatcherToken, MatcherTokenModel};
use crate::parser::rest_of;
use vstd::prelude::*;

verus! {

/// The lowercase mapping of a character, as the standard library defines it.
pub uninterp spec fn lowercase_of(c: char) -> Seq<char>;

/// Calls `char::to_lowercase` of the standard library, which yields the
/// lowercase mapping of the character as one or more characters, and collects
/// what it yields. The contract gives that mapping its name and claims nothing
/// else of it.
#[verifier::external_body]
fn to_lowercase(c: char) -> (r: Vec<char>)
    ensures
        r@ == lowercase_of(c),
{
    c.to_lowercase().collect()
}

/// Whether two characters count as the same: with regard to case they must be
/// equal, without it their lowercase mappings must be.
pub open spec fn chars_agree(a: char, b: char, case_insensitive: bool) -> bool {
    if case_insensitive {
        lowercase_of(a) == lowercase_of(b)
    } else {
        a == b
    }
}

/// Whether `text` stands in `input` at position `at`.
pub open spec fn starts_with_at(
    input: Seq<char>,
    at: int,
    text: Seq<char>,
    case_insensitive: bool,
) -> bool {
    0 <= at && at + text.len() <= input.len() && forall|k: int|
        0 <= k < text.len() ==> chars_agree(#[trigger] input[at + k], text[k], case_insensitive)
}

/// The first of `alternatives`, in their order, that stands in `input` at
/// `at`, compared with regard to case.
pub open spec fn first_alternative(input: Seq<char>, at: int, alternatives: Seq<Seq<char>>)
    -> Option<int>
    decreases alternatives.len(),
{
    if alternatives.len() == 0 {
        None
    } else if starts_with_at(input, at, alternatives[0], false) {
        Some(0)
    } else {
        match first_alternative(input, at, alternatives.drop_first()) {
            Some(j) => Some(j + 1),
            None => None,
        }
    }
}

/// What `first_alternative` means: the alternative it names stands at `at`
/// and none before it does; it names none only if none stands there.
pub proof fn lemma_first_alternative(input: Seq<char>, at: int, alternatives: Seq<Seq<char>>)
    ensures
        match first_alternative(input, at, alternatives) {
            Some(j) => 0 <= j < alternatives.len() && starts_with_at(
                input,
                at,
                alternatives[j],
                false,
            ) && forall|k: int|
                0 <= k < j ==> !starts_with_at(input, at, #[trigger] alternatives[k], false),
            None => forall|k: int|
                0 <= k < alternatives.len() ==> !starts_with_at(
                    input,
                    at,
                    #[trigger] alternatives[k],
                    false,
                ),
        },
    decreases alternatives.len(),
{
    if alternatives.len() > 0 && !starts_with_at(input, at, alternatives[0], false) {
        let rest = alternatives.drop_first();
        lemma_first_alternative(input, at, rest);
        match first_alternative(input, at, rest) {
            Some(j) => {
                assert forall|k: int| 0 <= k < j + 1 implies !starts_with_at(
                    input,
                    at,
                    #[trigger] alternatives[k],
                    false,
                ) by {
                    if k > 0 {
                        assert(alternatives[k] == rest[k - 1]);
                    }
                }
            },
            None => {
                assert forall|k: int| 0 <= k < alternatives.len() implies !starts_with_at(
                    input,
                    at,
                    #[trigger] alternatives[k],
                    false,
                ) by {
                    if k > 0 {
                        assert(alternatives[k] == rest[k - 1]);
                    }
                }
            },
        }
    }
}

/// The first position at or after `at` at which one of `stops` stands in
/// `input`, compared with regard to case.
pub open spec fn first_stop(input: Seq<char>, at: int, stops: Seq<Seq<char>>) -> Option<int>
    decreases input.len() - at,
{
    if at > input.len() {
        None
    } else if first_alternative(input, at, stops) is Some {
        Some(at)
    } else if at == input.len() {
        None
    } else {
        first_stop(input, at + 1, stops)
    }
}

/// What `first_stop` means: one of the stops stands at the position it names
/// and none stands at an earlier position from `at` on; it names none only if
/// no stop stands anywhere from `at` on.
pub proof fn lemma_first_stop(input: Seq<char>, at: int, stops: Seq<Seq<char>>)
    requires
        0 <= at,
    ensures
        match first_stop(input, at, stops) {
            Some(p) => at <= p <= input.len() && first_alternative(input, p, stops) is Some
                && forall|q: int| at <= q < p ==> first_alternative(input, q, stops) is None,
            None => forall|q: int| at <= q <= input.len() ==> first_alternative(input, q, stops) is None,
        },
    decreases input.len() - at,
{
    if at < input.len() && first_alternative(input, at, stops) is None {
        lemma_first_stop(input, at + 1, stops);
    }
}

/// The characters of each row, in order.
pub open spec fn rows_of(rows: Seq<Vec<char>>) -> Seq<Seq<char>> {
    rows.map_values(|row: Vec<char>| row@)
}

/// The characters of each string, in order.
pub open spec fn texts_of(strings: Seq<String>) -> Seq<Seq<char>> {
    strings.map_values(|s: String| s@)
}

/// The literal texts at which a capture that is followed by `tokens` may
/// stop: the text of the first token if that is an `Exact`, and none otherwise.
pub open spec fn delimiters_model(tokens: Seq<MatcherTokenModel>) -> Seq<Seq<char>> {
    if tokens.len() > 0 && tokens[0] is Exact {
        seq![tokens[0]->Exact_0]
    } else {
        Seq::empty()
    }
}

/// Whether two characters count as the same.
pub fn agree(a: char, b: char, case_insensitive: bool) -> (r: bool)
    ensures
        r == chars_agree(a, b, case_insensitive),
{
    if a == b {
        true
    } else if case_insensitive {
        let x = to_lowercase(a);
        let y = to_lowercase(b);
        same_chars(&x, &y)
    } else {
        false
    }
}

/// Whether `text` stands in `chars` at position `at`.
pub fn tag_at(chars: &Vec<char>, at: usize, text: &Vec<char>, case_insensitive: bool) -> (r: bool)
    ensures
        r == starts_with_at(chars@, at as int, text@, case_insensitive),
{
    if at > chars.len() || text.len() > chars.len() - at {
        return false;
    }
    let mut k: usize = 0;
    while k < text.len()
        invariant
            at + text.len() <= chars.len(),
            k <= text.len(),
            forall|j: int|
                0 <= j < k ==> chars_agree(#[trigger] chars@[at + j], text@[j], case_insensitive),
        decreases text.len() - k,
    {
        if !agree(chars[at + k], text[k], case_insensitive) {
            return false;
        }
        k += 1;
    }
    true
}

/// The index of the first of `alternatives` that stands in `chars` at `at`.
pub fn alternative_at(chars: &Vec<char>, at: usize, alternatives: &Vec<Vec<char>>) -> (r: Option<
    usize,
>)
    ensures
        match r {
            Some(j) => first_alternative(chars@, at as int, rows_of(alternatives@)) == Some(
                j as int,
            ) && j < alternatives.len(),
            None => first_alternative(chars@, at as int, rows_of(alternatives@)) is None,
        },
{
    let ghost all = rows_of(alternatives@);
    let mut j: usize = 0;
    while j < alternatives.len()
        invariant
            j <= alternatives.len(),
            all == rows_of(alternatives@),
            all.len() == alternatives.len(),
            forall|k: int| 0 <= k < j ==> !starts_with_at(chars@, at as int, #[trigger] all[k], false),
        decreases alternatives.len() - j,
    {
        assert(all[j as int] == alternatives@[j as int]@);
        if tag_at(chars, at, &alternatives[j], false) {
            proof {
                lemma_first_alternative(chars@, at as int, all);
            }
            return Some(j);
        }
        j += 1;
    }
    proof {
        lemma_first_alternative(chars@, at as int, all);
    }
    None
}

/// The first position at or after `at` at which one of `stops` stands.
pub fn stop_at(chars: &Vec<char>, at: usize, stops: &Vec<Vec<char>>) -> (r: Option<usize>)
    ensures
        match r {
            Some(p) => first_stop(chars@, at as int, rows_of(stops@)) == Some(p as int) && at
                <= p <= chars.len(),
            None => first_stop(chars@, at as int, rows_of(stops@)) is None,
        },
{
    if at > chars.len() {
        return None;
    }
    let mut p: usize = at;
    loop
        invariant
            at <= p <= chars.len(),
            first_stop(chars@, at as int, rows_of(stops@)) == first_stop(
                chars@,
                p as int,
                rows_of(stops@),
            ),
        decreases chars.len() - p,
    {
        if alternative_at(chars, p, stops).is_some() {
            return Some(p);
        }
        if p == chars.len() {
            return None;
        }
        p += 1;
    }
}

/// The characters of each string.
pub fn texts(strings: &Vec<String>) -> (r: Vec<Vec<char>>)
    ensures
        rows_of(r@) == texts_of(strings@),
{
    let mut r: Vec<Vec<char>> = Vec::new();
    let mut k: usize = 0;
    while k < strings.len()
        invariant
            k <= strings.len(),
            r.len() == k,
            forall|j: int| 0 <= j < k ==> r@[j]@ == strings@[j]@,
        decreases strings.len() - k,
    {
        r.push(chars_of(strings[k].as_str()));
        k += 1;
    }
    assert(rows_of(r@) =~= texts_of(strings@));
    r
}

/// Takes `text` off the front of `i`, with regard to case if `is_sensitive`
/// and without it otherwise: returns what follows, and the part of `i` that was
/// taken. Returns `None` if and only if `text` does not stand at the front.
pub fn tag_possibly_case_sensitive<'a>(text: &str, is_sensitive: bool, i: &'a str) -> (r: Option<
    (&'a str, &'a str),
>)
    ensures
        r is Some <==> starts_with_at(i@, 0, text@, !is_sensitive),
        r matches Some((rest, taken)) ==> taken@ == i@.subrange(0, text@.len() as int) && rest@
            == i@.subrange(text@.len() as int, i@.len() as int),
{
    let chars = chars_of(i);
    let wanted = chars_of(text);
    if tag_at(&chars, 0, &wanted, !is_sensitive) {
        Some((rest_of(i, &chars, wanted.len()), i.substring_char(0, wanted.len())))
    } else {
        None
    }
}

/// Takes the first of `alternatives`, in their order, that stands at the front
/// of `i`: returns what follows, and the part of `i` that was taken. Returns
/// `None` if and only if none of them stands there.
pub fn alternative<'a>(alternatives: &Vec<String>, i: &'a str) -> (r: Option<(&'a str, &'a str)>)
    ensures
        match r {
            Some((rest, taken)) => first_alternative(i@, 0, texts_of(alternatives@)) matches Some(j)
                && taken@ == texts_of(alternatives@)[j] && taken@ == i@.subrange(
                0,
                taken@.len() as int,
            ) && rest@ == i@.subrange(taken@.len() as int, i@.len() as int),
            None => first_alternative(i@, 0, texts_of(alternatives@)) is None,
        },
{
    let chars = chars_of(i);
    let wanted = texts(alternatives);
    match alternative_at(&chars, 0, &wanted) {
        Some(j) => {
            let len = wanted[j].len();
            proof {
                lemma_first_alternative(i@, 0, texts_of(alternatives@));
                assert(wanted@[j as int]@ == texts_of(alternatives@)[j as int]);
                assert forall|k: int| 0 <= k < len implies i@[k] == wanted@[j as int]@[k] by {
                    assert(chars_agree(i@[0 + k], wanted@[j as int]@[k], false));
                }
                assert(i@.subrange(0, len as int) =~= wanted@[j as int]@);
            }
            Some((rest_of(i, &chars, len), i.substring_char(0, len)))
        },
        None => None,
    }
}

/// Consumes `i` up to the first position at which one of `stops` stands:
/// returns what is left from that position on, and what was consumed. Returns
/// `None` if and only if none of the stops stands anywhere in `i`.
pub fn consume_until<'a>(stops: &Vec<String>, i: &'a str) -> (r: Option<(&'a str, String)>)
    ensures
        match r {
            Some((rest, consumed)) => first_stop(i@, 0, texts_of(stops@)) matches Some(p)
                && consumed@ == i@.subrange(0, p) && rest@ == i@.subrange(p, i@.len() as int),
            None => first_stop(i@, 0, texts_of(stops@)) is None,
        },
{
    let chars = chars_of(i);
    let wanted = texts(stops);
    match stop_at(&chars, 0, &wanted) {
        Some(p) => Some((rest_of(i, &chars, p), String::from_str(i.substring_char(0, p)))),
        None => None,
    }
}

/// The literal texts at which a capture that is followed by `tokens` may
/// stop: the text of the first token if that is an `Exact`, and none otherwise.
pub fn next_delimiters(tokens: &[MatcherToken]) -> (r: Vec<String>)
    ensures
        texts_of(r@) == delimiters_model(crate::optimizer::matcher_models(tokens@)),
{
    let mut r: Vec<String> = Vec::new();
    if tokens.len() > 0 {
        match &tokens[0] {
            MatcherToken::Exact(sequence) => {
                r.push(sequence.clone());
            },
            _ => {},
        }
    }
    assert(texts_of(r@) =~= delimiters_model(crate::optimizer::matcher_models(tokens@)));
    r
}

} // verus!
