use yew_router::util::{
    agree, alternative, consume_until, next_delimiters, tag_possibly_case_sensitive,
};
use yew_router::{CaptureVariant, MatcherToken};

fn strings(items: &[&str]) -> Vec<String> {
    items.iter().map(|s| s.to_string()).collect()
}

#[test]
fn consume_until_simple() {
    let parsed = consume_until(&strings(&["z"]), "abcz").expect("Should parse");
    assert_eq!(parsed, ("z", "abc".to_string()))
}

#[test]
fn consume_until_fail() {
    let parsed = consume_until(&strings(&["z"]), "abc");
    assert_eq!(parsed, None)
}

#[test]
fn alternative_simple() {
    let parsed = alternative(&strings(&["c", "d", "abc"]), "abcz").expect("Should parse");
    assert_eq!(parsed, ("z", "abc"))
}

#[test]
fn alternative_and_consume_until() {
    let parsed =
        consume_until(&strings(&["c", "d", "abc"]), "first_stuff_abc").expect("should parse");
    assert_eq!(parsed, ("abc", "first_stuff_".to_string()))
}

#[test]
fn case_sensitive() {
    tag_possibly_case_sensitive("lorem", true, "lorem").expect("Should match");
    assert!(tag_possibly_case_sensitive("lorem", true, "LoReM").is_none(), "Should not match");
}

#[test]
fn case_insensitive() {
    tag_possibly_case_sensitive("lorem", false, "lorem").expect("Should match");
    tag_possibly_case_sensitive("lorem", false, "LoREm").expect("Should match");
}

#[test]
fn tag_returns_rest_and_what_was_taken_from_the_input() {
    assert_eq!(
        tag_possibly_case_sensitive("lorem", false, "LoREm/ipsum"),
        Some(("/ipsum", "LoREm"))
    );
    assert_eq!(tag_possibly_case_sensitive("lorem", true, "lorem"), Some(("", "lorem")));
    assert_eq!(tag_possibly_case_sensitive("", true, "lorem"), Some(("lorem", "")));
    assert_eq!(tag_possibly_case_sensitive("lorem", true, "lore"), None);
    assert_eq!(tag_possibly_case_sensitive("lorem", false, "lorex"), None);
}

#[test]
fn case_is_folded_by_lowercase_mapping() {
    assert!(agree('A', 'a', true));
    assert!(agree('a', 'A', true));
    assert!(agree('É', 'é', true));
    assert!(!agree('A', 'a', false));
    assert!(!agree('a', 'b', true));
    assert!(agree('/', '/', false));
    assert_eq!(tag_possibly_case_sensitive("straße", false, "STRAßE!"), Some(("!", "STRAßE")));
}

#[test]
fn alternative_takes_the_first_that_matches_in_list_order() {
    assert_eq!(alternative(&strings(&["a", "ab"]), "abc"), Some(("bc", "a")));
    assert_eq!(alternative(&strings(&["ab", "a"]), "abc"), Some(("c", "ab")));
    assert_eq!(alternative(&strings(&["x", "y"]), "abc"), None);
    assert_eq!(alternative(&strings(&[]), "abc"), None);
    assert_eq!(alternative(&strings(&["ABC"]), "abc"), None);
}

#[test]
fn consume_until_stops_at_the_first_position() {
    assert_eq!(
        consume_until(&strings(&["/a"]), "x/ab/a"),
        Some(("/ab/a", "x".to_string()))
    );
    assert_eq!(consume_until(&strings(&["x"]), "xyz"), Some(("xyz", String::new())));
    assert_eq!(consume_until(&strings(&[""]), "xyz"), Some(("xyz", String::new())));
    assert_eq!(consume_until(&strings(&["z"]), "xyz"), Some(("z", "xy".to_string())));
    assert_eq!(consume_until(&strings(&[]), "xyz"), None);
    assert_eq!(consume_until(&strings(&["Z"]), "xyz"), None);
}

#[test]
fn next_delimiters_gives_the_literal_that_follows() {
    let tokens = vec![
        MatcherToken::Exact("/a".to_string()),
        MatcherToken::Capture(CaptureVariant::Named("x".to_string())),
    ];
    assert_eq!(next_delimiters(&tokens), vec!["/a".to_string()]);
    assert_eq!(next_delimiters(&tokens[1..]), Vec::<String>::new());
    assert_eq!(next_delimiters(&tokens[2..]), Vec::<String>::new());
}
