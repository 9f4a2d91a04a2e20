use yew_router::parser::{
    match_exact, parse, query_capture, valid_exact_match_characters, valid_ident_characters,
};
use yew_router::{CaptureOrExact, CaptureVariant, ParserError, RouteParserToken};

fn exact(s: &str) -> RouteParserToken {
    RouteParserToken::Exact(s.to_string())
}

fn named(s: &str) -> RouteParserToken {
    RouteParserToken::Capture(CaptureVariant::Named(s.to_string()))
}

#[test]
fn rejects_invalid_ident() {
    assert!(valid_ident_characters("+-lorem").is_none(), "Should reject at +");
}

#[test]
fn accepts_valid_ident() {
    assert_eq!(valid_ident_characters("Lorem"), Some(("", "Lorem")));
}

#[test]
fn ident_stops_at_reserved_character() {
    assert_eq!(valid_ident_characters("lorem}ipsum"), Some(("}ipsum", "lorem")));
    assert_eq!(valid_ident_characters("lo rem"), Some((" rem", "lo")));
    assert_eq!(valid_ident_characters("a1=b"), Some(("=b", "a1")));
}

#[test]
fn ident_may_not_start_with_digit_or_be_empty() {
    assert!(valid_ident_characters("1abc").is_none());
    assert!(valid_ident_characters("").is_none());
    assert!(valid_ident_characters("{x}").is_none());
}

#[test]
fn exact_match_characters_stop_at_structural_characters() {
    assert_eq!(valid_exact_match_characters("lorem/ipsum"), Some(("/ipsum", "lorem")));
    assert_eq!(valid_exact_match_characters("a b.c-d!e"), Some(("!e", "a b.c-d")));
    assert!(valid_exact_match_characters("/lorem").is_none());
    assert!(valid_exact_match_characters("").is_none());
    for c in ["/", "?", "&", "#", "=", "{", "}", "!"] {
        assert!(valid_exact_match_characters(c).is_none());
    }
}

#[test]
fn match_exact_gives_exact_token() {
    assert_eq!(match_exact("lorem?x"), Some(("?x", exact("lorem"))));
    assert!(match_exact("?x").is_none());
}

#[test]
fn query_section() {
    let (rest, token) = query_capture("lorem=ipsum").expect("should parse");
    assert_eq!(rest, "");
    assert_eq!(
        token,
        RouteParserToken::QueryCapture {
            ident: "lorem".to_string(),
            capture_or_match: CaptureOrExact::Exact("ipsum".to_string()),
        }
    );
}

#[test]
fn query_section_with_capture() {
    let (rest, token) = query_capture("lorem={ipsum}&x=y").expect("should parse");
    assert_eq!(rest, "&x=y");
    assert_eq!(
        token,
        RouteParserToken::QueryCapture {
            ident: "lorem".to_string(),
            capture_or_match: CaptureOrExact::Capture(CaptureVariant::Named("ipsum".to_string())),
        }
    );
}

#[test]
fn query_section_refuses_multi_section_capture_and_missing_parts() {
    assert!(query_capture("lorem={*:ipsum}").is_none());
    assert!(query_capture("lorem={2:ipsum}").is_none());
    assert!(query_capture("lorem=").is_none());
    assert!(query_capture("=ipsum").is_none());
    assert!(query_capture("lorem").is_none());
    assert!(query_capture("lorem={ipsum").is_none());
}

#[test]
fn basic() {
    assert_eq!(parse("/").expect("should parse"), vec![RouteParserToken::Separator]);
}

#[test]
fn basic1() {
    assert_eq!(
        parse("/hello").expect("should parse"),
        vec![RouteParserToken::Separator, exact("hello")]
    );
}

#[test]
fn basic2() {
    assert_eq!(
        parse("/lorem/ipsum").expect("should parse"),
        vec![
            RouteParserToken::Separator,
            exact("lorem"),
            RouteParserToken::Separator,
            exact("ipsum")
        ]
    );
}

#[test]
fn basic3() {
    assert_eq!(
        parse("/lorem/{ipsum}").expect("should parse"),
        vec![
            RouteParserToken::Separator,
            exact("lorem"),
            RouteParserToken::Separator,
            named("ipsum")
        ]
    );
}

#[test]
fn basic4() {
    assert_eq!(
        parse("/lorem/{*:ipsum}").expect("should parse"),
        vec![
            RouteParserToken::Separator,
            exact("lorem"),
            RouteParserToken::Separator,
            RouteParserToken::Capture(CaptureVariant::ManyNamed("ipsum".to_string()))
        ]
    );
}

#[test]
fn basic5() {
    assert_eq!(
        parse("/lorem/{5:ipsum}").expect("should parse"),
        vec![
            RouteParserToken::Separator,
            exact("lorem"),
            RouteParserToken::Separator,
            RouteParserToken::Capture(CaptureVariant::NumberedNamed {
                sections: 5,
                name: "ipsum".to_string()
            })
        ]
    );
}

#[test]
fn basic6() {
    assert_eq!(
        parse("/lorem?ipsum=dolor").expect("should parse"),
        vec![
            RouteParserToken::Separator,
            exact("lorem"),
            RouteParserToken::QueryBegin,
            RouteParserToken::QueryCapture {
                ident: "ipsum".to_string(),
                capture_or_match: CaptureOrExact::Exact("dolor".to_string())
            }
        ]
    );
}

#[test]
fn basic7() {
    assert_eq!(
        parse("/lorem/?ipsum=dolor").expect("should parse"),
        vec![
            RouteParserToken::Separator,
            exact("lorem"),
            RouteParserToken::Separator,
            RouteParserToken::QueryBegin,
            RouteParserToken::QueryCapture {
                ident: "ipsum".to_string(),
                capture_or_match: CaptureOrExact::Exact("dolor".to_string())
            }
        ]
    );
}

#[test]
fn basic8() {
    assert_eq!(
        parse("?lorem=ipsum").expect("should parse"),
        vec![
            RouteParserToken::QueryBegin,
            RouteParserToken::QueryCapture {
                ident: "lorem".to_string(),
                capture_or_match: CaptureOrExact::Exact("ipsum".to_string())
            }
        ]
    );
}

#[test]
fn basic9() {
    assert_eq!(
        parse("?lorem={ipsum}").expect("should parse"),
        vec![
            RouteParserToken::QueryBegin,
            RouteParserToken::QueryCapture {
                ident: "lorem".to_string(),
                capture_or_match: CaptureOrExact::Capture(CaptureVariant::Named(
                    "ipsum".to_string()
                ))
            }
        ]
    );
}

#[test]
fn basic10() {
    assert_eq!(
        parse("?lorem=ipsum&dolor=sit").expect("should parse"),
        vec![
            RouteParserToken::QueryBegin,
            RouteParserToken::QueryCapture {
                ident: "lorem".to_string(),
                capture_or_match: CaptureOrExact::Exact("ipsum".to_string())
            },
            RouteParserToken::QuerySeparator,
            RouteParserToken::QueryCapture {
                ident: "dolor".to_string(),
                capture_or_match: CaptureOrExact::Exact("sit".to_string())
            }
        ]
    );
}

#[test]
fn basic11() {
    assert_eq!(
        parse("?lorem=ipsum#dolor").expect("should parse"),
        vec![
            RouteParserToken::QueryBegin,
            RouteParserToken::QueryCapture {
                ident: "lorem".to_string(),
                capture_or_match: CaptureOrExact::Exact("ipsum".to_string())
            },
            RouteParserToken::FragmentBegin,
            exact("dolor")
        ]
    );
}

#[test]
fn basic12() {
    assert_eq!(
        parse("?lorem=ipsum#dolor{sit}").expect("should parse"),
        vec![
            RouteParserToken::QueryBegin,
            RouteParserToken::QueryCapture {
                ident: "lorem".to_string(),
                capture_or_match: CaptureOrExact::Exact("ipsum".to_string())
            },
            RouteParserToken::FragmentBegin,
            exact("dolor"),
            named("sit")
        ]
    );
}

#[test]
fn basic13() {
    assert_eq!(
        parse("?lorem=ipsum#{dolor}").expect("should parse"),
        vec![
            RouteParserToken::QueryBegin,
            RouteParserToken::QueryCapture {
                ident: "lorem".to_string(),
                capture_or_match: CaptureOrExact::Exact("ipsum".to_string())
            },
            RouteParserToken::FragmentBegin,
            named("dolor")
        ]
    );
}

#[test]
fn pattern_may_start_with_multi_section_capture() {
    assert_eq!(
        parse("{*:all}").expect("should parse"),
        vec![RouteParserToken::Capture(CaptureVariant::ManyNamed("all".to_string()))]
    );
    assert_eq!(
        parse("{2:two}/x").expect("should parse"),
        vec![
            RouteParserToken::Capture(CaptureVariant::NumberedNamed {
                sections: 2,
                name: "two".to_string()
            }),
            RouteParserToken::Separator,
            exact("x")
        ]
    );
}

fn expected_at_start() -> Vec<RouteParserToken> {
    vec![
        RouteParserToken::Separator,
        RouteParserToken::QueryBegin,
        RouteParserToken::FragmentBegin,
        RouteParserToken::Capture(CaptureVariant::ManyNamed(String::new())),
        RouteParserToken::Capture(CaptureVariant::NumberedNamed {
            sections: 0,
            name: String::new(),
        }),
    ]
}

#[test]
fn pattern_may_not_start_with_literal_or_single_capture() {
    assert_eq!(parse("hello"), Err(("hello", ParserError::ExpectedOneOf(expected_at_start()))));
    assert_eq!(parse("{id}"), Err(("{id}", ParserError::ExpectedOneOf(expected_at_start()))));
    assert_eq!(parse(""), Err(("", ParserError::ExpectedOneOf(expected_at_start()))));
    assert_eq!(parse("!"), Err(("!", ParserError::ExpectedOneOf(expected_at_start()))));
}

#[test]
fn identifier_starting_with_digit_is_refused() {
    let (rest, error) = parse("/a/{1abc}").expect_err("should not parse");
    assert_eq!(rest, "{1abc}");
    assert_eq!(
        error,
        ParserError::ExpectedOneOf(vec![
            exact(""),
            named(""),
            RouteParserToken::Capture(CaptureVariant::ManyNamed(String::new())),
            RouteParserToken::Capture(CaptureVariant::NumberedNamed {
                sections: 0,
                name: String::new()
            }),
            RouteParserToken::QueryBegin,
            RouteParserToken::FragmentBegin,
            RouteParserToken::End,
        ])
    );
}

#[test]
fn tokens_after_end_marker_are_refused() {
    assert_eq!(parse("/a!b"), Err(("b", ParserError::TokensAfterEndToken)));
    assert_eq!(parse("/a!/"), Err(("/", ParserError::TokensAfterEndToken)));
    assert_eq!(parse("/!!"), Err(("!", ParserError::TokensAfterEndToken)));
    assert_eq!(parse("?a=b!#c"), Err(("#c", ParserError::TokensAfterEndToken)));
}

#[test]
fn end_marker_ends_the_pattern() {
    assert_eq!(
        parse("/a!").expect("should parse"),
        vec![RouteParserToken::Separator, exact("a"), RouteParserToken::End]
    );
    assert_eq!(
        parse("/a#!").expect("should parse"),
        vec![
            RouteParserToken::Separator,
            exact("a"),
            RouteParserToken::FragmentBegin,
            RouteParserToken::End
        ]
    );
}

#[test]
fn premature_end_is_refused() {
    let pair = RouteParserToken::QueryCapture {
        ident: String::new(),
        capture_or_match: CaptureOrExact::Capture(CaptureVariant::Named(String::new())),
    };
    assert_eq!(parse("/a?"), Err(("", ParserError::ExpectedOneOf(vec![pair.clone()]))));
    assert_eq!(parse("?a=b&"), Err(("", ParserError::ExpectedOneOf(vec![pair]))));
}

#[test]
fn double_separator_and_adjacent_path_captures_are_refused() {
    assert!(matches!(parse("//"), Err(("/", ParserError::ExpectedOneOf(_)))));
    assert!(matches!(parse("/{a}{b}"), Err(("{b}", ParserError::ExpectedOneOf(_)))));
    assert!(matches!(parse("/a&b=c"), Err(("&b=c", ParserError::ExpectedOneOf(_)))));
}

#[test]
fn fragment_takes_literals_and_single_captures_only() {
    assert_eq!(
        parse("#{a}{b}").expect("should parse"),
        vec![RouteParserToken::FragmentBegin, named("a"), named("b")]
    );
    let expected = vec![exact(""), named(""), RouteParserToken::End];
    assert_eq!(
        parse("#{*:a}"),
        Err(("{*:a}", ParserError::ExpectedOneOf(expected.clone())))
    );
    assert_eq!(parse("#a/b"), Err(("/b", ParserError::ExpectedOneOf(expected))));
}

#[test]
fn malformed_captures_are_refused() {
    assert!(matches!(parse("/{}"), Err(("{}", ParserError::ExpectedOneOf(_)))));
    assert!(matches!(parse("/{a"), Err(("{a", ParserError::ExpectedOneOf(_)))));
    assert!(matches!(parse("/{*a}"), Err(("{*a}", ParserError::ExpectedOneOf(_)))));
    assert!(matches!(parse("/{2a}"), Err(("{2a}", ParserError::ExpectedOneOf(_)))));
    assert!(matches!(parse("/{2:}"), Err(("{2:}", ParserError::ExpectedOneOf(_)))));
    assert!(matches!(
        parse("/{99999999999999999999999999999999999999999:a}"),
        Err((_, ParserError::ExpectedOneOf(_)))
    ));
}

#[test]
fn section_count_is_read_as_decimal() {
    assert_eq!(
        parse("/{007:a}").expect("should parse"),
        vec![
            RouteParserToken::Separator,
            RouteParserToken::Capture(CaptureVariant::NumberedNamed {
                sections: 7,
                name: "a".to_string()
            })
        ]
    );
    assert_eq!(
        parse("/{120:a}").expect("should parse"),
        vec![
            RouteParserToken::Separator,
            RouteParserToken::Capture(CaptureVariant::NumberedNamed {
                sections: 120,
                name: "a".to_string()
            })
        ]
    );
}

#[test]
fn pattern_of_other_scripts_is_read_by_characters() {
    assert_eq!(
        parse("/größe/{名前}").expect("should parse"),
        vec![
            RouteParserToken::Separator,
            exact("größe"),
            RouteParserToken::Separator,
            named("名前")
        ]
    );
    assert_eq!(parse("/é!ü"), Err(("ü", ParserError::TokensAfterEndToken)));
}
