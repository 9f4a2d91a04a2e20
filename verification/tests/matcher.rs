use yew_router::{
    CaptureVariant, MatchFailure, MatcherSettings, MatcherToken, ParserError, RouteMatcher,
    RouteParserToken,
};

fn matcher(pattern: &str) -> RouteMatcher {
    RouteMatcher::try_from(pattern).expect("pattern should compile")
}

fn matcher_with(pattern: &str, complete: bool, case_insensitive: bool) -> RouteMatcher {
    RouteMatcher::new(pattern, MatcherSettings { complete, case_insensitive })
        .expect("pattern should compile")
}

fn pairs(items: &[(&'static str, &str)]) -> Vec<(&'static str, String)> {
    items.iter().map(|(k, v)| (*k, v.to_string())).collect()
}

#[test]
fn basic_separator() {
    let tokens = vec![RouteParserToken::Separator];
    let path_matcher = RouteMatcher::from_tokens(&tokens);
    path_matcher.capture_route_into_map("/").expect("should parse");
}

#[test]
fn multiple_tokens() {
    let tokens = vec![
        RouteParserToken::Separator,
        RouteParserToken::Exact("lorem".to_string()),
        RouteParserToken::Separator,
    ];

    let path_matcher = RouteMatcher::from_tokens(&tokens);
    path_matcher.capture_route_into_map("/lorem/").expect("should parse");
}

#[test]
fn simple_capture() {
    let tokens = vec![
        RouteParserToken::Separator,
        RouteParserToken::Capture(CaptureVariant::Named("lorem".to_string())),
        RouteParserToken::Separator,
    ];
    let path_matcher = RouteMatcher::from_tokens(&tokens);
    let (_, matches) = path_matcher.capture_route_into_map("/ipsum/").expect("should parse");
    assert_eq!(matches.get("lorem"), Some(&"ipsum".to_string()))
}

#[test]
fn simple_capture_with_no_trailing_separator() {
    let tokens = vec![
        RouteParserToken::Separator,
        RouteParserToken::Capture(CaptureVariant::Named("lorem".to_string())),
    ];
    let path_matcher = RouteMatcher::from_tokens(&tokens);
    let (_, matches) = path_matcher.capture_route_into_map("/ipsum").expect("should parse");
    assert_eq!(matches.get("lorem"), Some(&"ipsum".to_string()))
}

#[test]
fn match_with_trailing_match_any() {
    let tokens = vec![
        RouteParserToken::Separator,
        RouteParserToken::Exact("a".to_string()),
        RouteParserToken::Separator,
        RouteParserToken::Capture(CaptureVariant::ManyNamed("any".to_string())),
    ];
    let path_matcher = RouteMatcher::from_tokens(&tokens);
    let (_, _matches) = path_matcher.capture_route_into_map("/a/").expect("should parse");
}

#[test]
fn match_n() {
    let tokens = vec![
        RouteParserToken::Separator,
        RouteParserToken::Capture(CaptureVariant::NumberedNamed {
            sections: 3,
            name: "n".to_string(),
        }),
        RouteParserToken::Separator,
        RouteParserToken::Exact("a".to_string()),
    ];
    let path_matcher = RouteMatcher::from_tokens(&tokens);
    let (_, _matches) = path_matcher
        .capture_route_into_map("/garbage1/garbage2/garbage3/a")
        .expect("should parse");
}

#[test]
fn match_n_no_overrun() {
    let tokens = vec![
        RouteParserToken::Separator,
        RouteParserToken::Capture(CaptureVariant::NumberedNamed {
            sections: 3,
            name: "n".to_string(),
        }),
    ];
    let path_matcher = RouteMatcher::from_tokens(&tokens);
    let (s, _matches) = path_matcher
        .capture_route_into_map("/garbage1/garbage2/garbage3")
        .expect("should parse");
    assert_eq!(s.len(), 0)
}

#[test]
fn match_n_named() {
    let tokens = vec![
        RouteParserToken::Separator,
        RouteParserToken::Capture(CaptureVariant::NumberedNamed {
            sections: 3,
            name: "captured".to_string(),
        }),
        RouteParserToken::Separator,
        RouteParserToken::Exact("a".to_string()),
    ];
    let path_matcher = RouteMatcher::from_tokens(&tokens);
    let (_, matches) = path_matcher
        .capture_route_into_map("/garbage1/garbage2/garbage3/a")
        .expect("should parse");
    assert_eq!(
        matches.get("captured"),
        Some(&"garbage1/garbage2/garbage3".to_string())
    )
}

#[test]
fn match_many() {
    let tokens = vec![
        RouteParserToken::Separator,
        RouteParserToken::Capture(CaptureVariant::ManyNamed("many".to_string())),
        RouteParserToken::Separator,
        RouteParserToken::Exact("a".to_string()),
    ];
    let path_matcher = RouteMatcher::from_tokens(&tokens);
    let (_, _matches) = path_matcher
        .capture_route_into_map("/garbage1/garbage2/garbage3/a")
        .expect("should parse");
}

#[test]
fn match_many_named() {
    let tokens = vec![
        RouteParserToken::Separator,
        RouteParserToken::Capture(CaptureVariant::ManyNamed("captured".to_string())),
        RouteParserToken::Separator,
        RouteParserToken::Exact("a".to_string()),
    ];
    let path_matcher = RouteMatcher::from_tokens(&tokens);
    let (_, matches) = path_matcher
        .capture_route_into_map("/garbage1/garbage2/garbage3/a")
        .expect("should parse");
    assert_eq!(
        matches.get("captured"),
        Some(&"garbage1/garbage2/garbage3".to_string())
    )
}

#[test]
fn default_settings_are_complete_and_case_sensitive() {
    assert_eq!(
        MatcherSettings::default(),
        MatcherSettings { complete: true, case_insensitive: false }
    );
    assert_eq!(matcher("/a").settings, MatcherSettings::default());
}

#[test]
fn construction_fails_with_the_parse_error() {
    assert_eq!(
        RouteMatcher::try_from("/a!b"),
        Err(("b", ParserError::TokensAfterEndToken))
    );
    assert!(matches!(
        RouteMatcher::new("a", MatcherSettings::default()),
        Err(("a", ParserError::ExpectedOneOf(_)))
    ));
}

#[test]
fn user_pattern_captures_id() {
    let m = matcher("/user/{id}");
    let (rest, captures) = m.capture_route_into_map("/user/42").expect("should match");
    assert_eq!(rest, "");
    assert_eq!(captures.get("id"), Some(&"42".to_string()));
    assert!(!captures.contains_key("user"));
    assert!(!captures.is_empty());
    assert_eq!(
        m.capture_route_into_vec("/user/42"),
        Ok(("", pairs(&[("id", "42")])))
    );
}

#[test]
fn many_capture_without_following_token_takes_all_that_is_left() {
    let m = matcher("/a{*:rest}");
    assert_eq!(
        m.capture_route_into_vec("/a/b/c"),
        Ok(("", pairs(&[("rest", "/b/c")])))
    );
    assert_eq!(m.capture_route_into_vec("/a"), Ok(("", pairs(&[("rest", "")]))));
    let open = matcher_with("/a{*:rest}", false, false);
    assert_eq!(
        open.capture_route_into_vec("/a/b?c#d"),
        Ok(("", pairs(&[("rest", "/b?c#d")])))
    );
}

#[test]
fn numbered_capture_takes_its_sections() {
    let m = matcher("/fixed/{2:seg}/tail");
    assert_eq!(
        m.capture_route_into_vec("/fixed/x/y/tail"),
        Ok(("", pairs(&[("seg", "x/y")])))
    );
    // Two sections are there, but then the literal is not.
    assert_eq!(
        m.capture_route_into_vec("/fixed/x/tail"),
        Err(MatchFailure { offset: 13 })
    );
    assert_eq!(
        m.capture_route_into_vec("/fixed/x"),
        Err(MatchFailure { offset: 7 })
    );
    assert_eq!(
        m.capture_route_into_vec("/fixed/x//tail"),
        Err(MatchFailure { offset: 7 })
    );
    assert_eq!(
        m.capture_route_into_vec("/fixed//y/tail"),
        Err(MatchFailure { offset: 7 })
    );
}

#[test]
fn numbered_capture_with_more_sections_than_asked_takes_exactly_its_number() {
    let m = matcher_with("/{2:seg}", false, false);
    assert_eq!(
        m.capture_route_into_vec("/x/y/z/w"),
        Ok(("/z/w", pairs(&[("seg", "x/y")])))
    );
    assert_eq!(m.capture_route_into_vec("/x/y"), Ok(("", pairs(&[("seg", "x/y")]))));
    assert_eq!(m.capture_route_into_vec("/x"), Err(MatchFailure { offset: 1 }));
    assert_eq!(m.capture_route_into_vec("/x/"), Err(MatchFailure { offset: 1 }));
}

#[test]
fn numbered_capture_of_zero_sections_takes_nothing() {
    let m = matcher("/{0:none}/a");
    assert_eq!(m.capture_route_into_vec("//a"), Ok(("", pairs(&[("none", "")]))));
}

#[test]
fn query_capture_matches() {
    let m = matcher("?q={term}");
    assert_eq!(
        m.capture_route_into_vec("?q=hello"),
        Ok(("", pairs(&[("term", "hello")])))
    );
    assert_eq!(m.tokens, vec![
        MatcherToken::Exact("?q=".to_string()),
        MatcherToken::Capture(CaptureVariant::Named("term".to_string())),
    ]);
}

#[test]
fn complete_match_refuses_unconsumed_input() {
    let m = matcher("/a/b");
    assert_eq!(m.capture_route_into_vec("/a/b"), Ok(("", pairs(&[]))));
    assert_eq!(
        m.capture_route_into_vec("/a/b/extra"),
        Err(MatchFailure { offset: 4 })
    );
    assert!(m.capture_route_into_map("/a/b/extra").is_err());
    let open = matcher_with("/a/b", false, false);
    assert_eq!(open.capture_route_into_vec("/a/b/extra"), Ok(("/extra", pairs(&[]))));
    let (rest, captures) = open.capture_route_into_map("/a/b/extra").expect("should match");
    assert_eq!(rest, "/extra");
    assert!(captures.is_empty());
}

#[test]
fn literal_only_pattern_matches_its_own_text() {
    for pattern in ["/", "/a/b", "/lorem/ipsum?dolor=sit&amet=x#frag", "#f", "?a=b"] {
        let m = matcher(pattern);
        assert_eq!(m.capture_route_into_vec(pattern), Ok(("", pairs(&[]))));
    }
    let m = matcher("/a/b!");
    assert_eq!(m.tokens, vec![MatcherToken::Exact("/a/b".to_string())]);
    assert_eq!(m.capture_route_into_vec("/a/b"), Ok(("", pairs(&[]))));
}

#[test]
fn case_insensitive_matching() {
    let folded = matcher_with("/a/b", true, true);
    assert_eq!(folded.capture_route_into_vec("/A/b"), Ok(("", pairs(&[]))));
    assert_eq!(folded.capture_route_into_vec("/a/B"), Ok(("", pairs(&[]))));
    assert_eq!(folded.capture_route_into_vec("/a/b"), Ok(("", pairs(&[]))));
    let exact = matcher_with("/a/b", true, false);
    assert_eq!(exact.capture_route_into_vec("/A/b"), Err(MatchFailure { offset: 0 }));
    assert_eq!(exact.capture_route_into_vec("/a/B"), Err(MatchFailure { offset: 0 }));
    assert_eq!(exact.capture_route_into_vec("/a/b"), Ok(("", pairs(&[]))));
}

#[test]
fn named_capture_is_never_empty_and_never_crosses_a_separator() {
    let m = matcher("/{x}/end");
    assert_eq!(m.capture_route_into_vec("//end"), Err(MatchFailure { offset: 1 }));
    assert_eq!(
        m.capture_route_into_vec("/a/b/end"),
        Err(MatchFailure { offset: 2 })
    );
    assert_eq!(m.capture_route_into_vec("/ab/end"), Ok(("", pairs(&[("x", "ab")]))));
    let last = matcher_with("/{x}", false, false);
    assert_eq!(last.capture_route_into_vec("/"), Err(MatchFailure { offset: 1 }));
    assert_eq!(last.capture_route_into_vec("/ab/c"), Ok(("/c", pairs(&[("x", "ab")]))));
    assert_eq!(last.capture_route_into_vec("/ab?c"), Ok(("?c", pairs(&[("x", "ab")]))));
    assert_eq!(last.capture_route_into_vec("/ab#c"), Ok(("#c", pairs(&[("x", "ab")]))));
}

#[test]
fn named_capture_before_a_literal_runs_to_the_next_separator() {
    let m = matcher("/{x}?k=v");
    assert_eq!(m.capture_route_into_vec("/ab?k=v"), Err(MatchFailure { offset: 7 }));
    let m = matcher("/{x}/k");
    assert_eq!(m.capture_route_into_vec("/a?b/k"), Ok(("", pairs(&[("x", "a?b")]))));
}

#[test]
fn many_capture_stops_at_first_occurrence_of_the_following_literal() {
    let m = matcher_with("/{*:x}/a", false, false);
    assert_eq!(
        m.capture_route_into_vec("/foo/abc/a"),
        Ok(("bc/a", pairs(&[("x", "foo")])))
    );
    assert_eq!(
        m.capture_route_into_vec("/p/q/a"),
        Ok(("", pairs(&[("x", "p/q")])))
    );
    assert_eq!(m.capture_route_into_vec("//a"), Ok(("", pairs(&[("x", "")]))));
    // The literal stands nowhere: an open match takes all that is left, and
    // then fails on the literal itself.
    assert_eq!(m.capture_route_into_vec("/foo"), Err(MatchFailure { offset: 4 }));
    let complete = matcher("/{*:x}/a");
    assert_eq!(complete.capture_route_into_vec("/foo"), Err(MatchFailure { offset: 1 }));
    assert_eq!(
        complete.capture_route_into_vec("/foo/abc/a"),
        Err(MatchFailure { offset: 6 })
    );
}

#[test]
fn many_capture_looks_for_its_delimiter_with_regard_to_case() {
    let m = matcher_with("/{*:x}/End", true, true);
    assert_eq!(m.capture_route_into_vec("/a/End"), Ok(("", pairs(&[("x", "a")]))));
    assert_eq!(m.capture_route_into_vec("/a/end"), Err(MatchFailure { offset: 1 }));
}

#[test]
fn many_capture_followed_by_a_capture_takes_all_that_is_left() {
    let m = RouteMatcher {
        tokens: vec![
            MatcherToken::Capture(CaptureVariant::ManyNamed("all".to_string())),
            MatcherToken::Capture(CaptureVariant::ManyNamed("none".to_string())),
        ],
        settings: MatcherSettings::default(),
    };
    assert_eq!(
        m.capture_route_into_vec("/a/b"),
        Ok(("", pairs(&[("all", "/a/b"), ("none", "")])))
    );
}

#[test]
fn later_capture_of_a_name_overwrites_the_earlier_one_in_the_map() {
    let m = matcher("/{x}/{x}");
    assert_eq!(
        m.capture_route_into_vec("/a/b"),
        Ok(("", pairs(&[("x", "a"), ("x", "b")])))
    );
    let (_, captures) = m.capture_route_into_map("/a/b").expect("should match");
    assert_eq!(captures.get("x"), Some(&"b".to_string()));
}

#[test]
fn capture_names_lists_each_name_once_in_pattern_order() {
    assert_eq!(
        matcher("/{a}/{2:b}/x/{*:c}?k={d}#{e}").capture_names(),
        vec!["a", "b", "c", "d", "e"]
    );
    assert_eq!(matcher("/{x}/{y}/{x}").capture_names(), vec!["x", "y"]);
    assert_eq!(matcher("/a/b").capture_names(), Vec::<&str>::new());
}

#[test]
fn full_pattern_with_query_and_fragment() {
    let m = matcher("/user/{id}/posts?sort={field}#{section}");
    assert_eq!(m.tokens, vec![
        MatcherToken::Exact("/user/".to_string()),
        MatcherToken::Capture(CaptureVariant::Named("id".to_string())),
        MatcherToken::Exact("/posts?sort=".to_string()),
        MatcherToken::Capture(CaptureVariant::Named("field".to_string())),
        MatcherToken::Exact("#".to_string()),
        MatcherToken::Capture(CaptureVariant::Named("section".to_string())),
    ]);
    assert_eq!(
        m.capture_route_into_vec("/user/7/posts?sort=x"),
        Err(MatchFailure { offset: 20 })
    );
}

#[test]
fn failure_offsets_count_characters() {
    let m = matcher("/größe/{x}/ü");
    assert_eq!(m.capture_route_into_vec("/größe/a/ü"), Ok(("", pairs(&[("x", "a")]))));
    assert_eq!(m.capture_route_into_vec("/größe/a/u"), Err(MatchFailure { offset: 8 }));
}

#[test]
fn matcher_can_be_cloned_and_reused() {
    let m = matcher("/{x}");
    let copy = m.clone();
    assert_eq!(m, copy);
    assert_eq!(copy.capture_route_into_vec("/a"), Ok(("", pairs(&[("x", "a")]))));
    assert_eq!(m.capture_route_into_vec("/b"), Ok(("", pairs(&[("x", "b")]))));
}
