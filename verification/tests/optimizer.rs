use yew_router::{
    convert_tokens, parse_str_and_optimize_tokens, CaptureOrExact, CaptureVariant, MatcherToken,
    ParserError, RouteParserToken,
};

fn exact(s: &str) -> MatcherToken {
    MatcherToken::Exact(s.to_string())
}

fn named(s: &str) -> MatcherToken {
    MatcherToken::Capture(CaptureVariant::Named(s.to_string()))
}

#[test]
fn literal_tokens_have_their_text() {
    assert_eq!(RouteParserToken::Separator.as_str(), "/");
    assert_eq!(RouteParserToken::QueryBegin.as_str(), "?");
    assert_eq!(RouteParserToken::QuerySeparator.as_str(), "&");
    assert_eq!(RouteParserToken::FragmentBegin.as_str(), "#");
    assert_eq!(RouteParserToken::Exact("lorem".to_string()).as_str(), "lorem");
}

#[test]
fn optimize_capture_all() {
    let tokens = vec![RouteParserToken::Capture(CaptureVariant::ManyNamed("lorem".to_string()))];
    let optimized = convert_tokens(&tokens);
    let expected = vec![MatcherToken::Capture(CaptureVariant::ManyNamed("lorem".to_string()))];
    assert_eq!(expected, optimized);
}

#[test]
fn optimize_capture_everything_after_initial_slash() {
    let tokens = vec![
        RouteParserToken::Separator,
        RouteParserToken::Capture(CaptureVariant::ManyNamed("lorem".to_string())),
    ];
    let optimized = convert_tokens(&tokens);
    let expected = vec![
        exact("/"),
        MatcherToken::Capture(CaptureVariant::ManyNamed("lorem".to_string())),
    ];
    assert_eq!(expected, optimized);
}

#[test]
fn optimize_query_capture() {
    let tokens = vec![
        RouteParserToken::QueryBegin,
        RouteParserToken::QueryCapture {
            ident: "lorem".to_string(),
            capture_or_match: CaptureOrExact::Capture(CaptureVariant::Named("lorem".to_string())),
        },
    ];
    let optimized = convert_tokens(&tokens);
    let expected = vec![exact("?lorem="), named("lorem")];
    assert_eq!(expected, optimized);
}

#[test]
fn literal_query_pair_stays_in_the_run() {
    let tokens = vec![
        RouteParserToken::Separator,
        RouteParserToken::Exact("a".to_string()),
        RouteParserToken::QueryBegin,
        RouteParserToken::QueryCapture {
            ident: "k".to_string(),
            capture_or_match: CaptureOrExact::Exact("v".to_string()),
        },
        RouteParserToken::QuerySeparator,
        RouteParserToken::QueryCapture {
            ident: "l".to_string(),
            capture_or_match: CaptureOrExact::Exact("w".to_string()),
        },
        RouteParserToken::FragmentBegin,
        RouteParserToken::Exact("f".to_string()),
    ];
    assert_eq!(convert_tokens(&tokens), vec![exact("/a?k=v&l=w#f")]);
}

#[test]
fn empty_run_gives_no_token() {
    assert_eq!(convert_tokens(&[]), Vec::<MatcherToken>::new());
    let tokens = vec![
        RouteParserToken::FragmentBegin,
        RouteParserToken::Capture(CaptureVariant::Named("a".to_string())),
        RouteParserToken::Capture(CaptureVariant::Named("b".to_string())),
        RouteParserToken::Exact(String::new()),
    ];
    assert_eq!(convert_tokens(&tokens), vec![exact("#"), named("a"), named("b")]);
}

#[test]
fn end_marker_gives_no_token() {
    let tokens = vec![
        RouteParserToken::Separator,
        RouteParserToken::Capture(CaptureVariant::Named("a".to_string())),
        RouteParserToken::End,
    ];
    assert_eq!(convert_tokens(&tokens), vec![exact("/"), named("a")]);
    assert_eq!(
        parse_str_and_optimize_tokens("/a/{b}!").expect("should compile"),
        vec![exact("/a/"), named("b")]
    );
}

#[test]
fn compiled_tokens_never_hold_two_adjacent_literals() {
    for pattern in [
        "/a/b/c",
        "/a/{b}/c/{2:d}?e=f&g={h}#i{j}k",
        "{*:a}/b?c=d",
        "/x{y}z/{w}",
    ] {
        let tokens = parse_str_and_optimize_tokens(pattern).expect("should compile");
        for pair in tokens.windows(2) {
            assert!(!matches!(pair, [MatcherToken::Exact(_), MatcherToken::Exact(_)]));
        }
        for token in &tokens {
            assert_ne!(token, &exact(""));
        }
    }
}

#[test]
fn compiling_twice_gives_the_same_tokens() {
    for pattern in ["/a/{b}/c/{2:d}?e=f&g={h}#i{j}k", "/", "{*:a}"] {
        assert_eq!(
            parse_str_and_optimize_tokens(pattern),
            parse_str_and_optimize_tokens(pattern)
        );
    }
    assert_eq!(parse_str_and_optimize_tokens("/a!b"), parse_str_and_optimize_tokens("/a!b"));
}

#[test]
fn compile_mixed_pattern() {
    assert_eq!(
        parse_str_and_optimize_tokens("/a/{b}/c/{2:d}?e=f&g={h}#i{j}k").expect("should compile"),
        vec![
            exact("/a/"),
            named("b"),
            exact("/c/"),
            MatcherToken::Capture(CaptureVariant::NumberedNamed {
                sections: 2,
                name: "d".to_string()
            }),
            exact("?e=f&g="),
            named("h"),
            exact("#i"),
            named("j"),
            exact("k"),
        ]
    );
}

#[test]
fn compile_error_is_the_parse_error() {
    assert_eq!(
        parse_str_and_optimize_tokens("/a!b"),
        Err(("b", ParserError::TokensAfterEndToken))
    );
    assert!(matches!(
        parse_str_and_optimize_tokens("/a/{1abc}"),
        Err(("{1abc}", ParserError::ExpectedOneOf(_)))
    ));
}

#[test]
fn multi_section_captures_are_followed_by_a_literal_or_nothing() {
    for pattern in [
        "{*:a}",
        "{*:a}/b",
        "/{*:a}/b/{2:c}?d={e}",
        "/{3:a}#{b}{c}",
        "/x{*:y}z/{w}!",
        "/{2:a}!",
    ] {
        let tokens = parse_str_and_optimize_tokens(pattern).expect("should compile");
        for pair in tokens.windows(2) {
            match &pair[0] {
                MatcherToken::Capture(CaptureVariant::ManyNamed(_))
                | MatcherToken::Capture(CaptureVariant::NumberedNamed { .. }) => {
                    assert!(matches!(pair[1], MatcherToken::Exact(_)), "in {}", pattern);
                }
                _ => {}
            }
        }
    }
}
