use yew_router::dispatch::{first_match, Rendered, Routing, RoutingAction, RoutingMsg};
use yew_router::switch::field_from_captures;
use yew_router::{Captures, RouteMatcher};

fn matchers(patterns: &[&str]) -> Vec<RouteMatcher> {
    patterns
        .iter()
        .map(|p| RouteMatcher::try_from(p).expect("pattern should compile"))
        .collect()
}

#[test]
fn first_match_goes_by_the_order_of_the_patterns() {
    let routes = matchers(&["/a", "/{x}", "/a/{y}", "/{*:all}"]);
    assert_eq!(first_match(&routes, "/a"), Some(0));
    assert_eq!(first_match(&routes, "/b"), Some(1));
    assert_eq!(first_match(&routes, "/a/b"), Some(2));
    assert_eq!(first_match(&routes, "/b/c"), Some(3));
    assert_eq!(first_match(&routes, "b"), None);
    assert_eq!(first_match(&[], "/a"), None);
    let reversed = matchers(&["/{*:all}", "/a"]);
    assert_eq!(first_match(&reversed, "/a"), Some(0));
}

#[test]
fn new_router_has_no_route() {
    let router = Routing::new(matchers(&["/a"]), false);
    assert_eq!(router.route, "");
    assert!(!router.routing_succeeded);
    assert!(!router.has_page_not_found);
    assert_eq!(router.resolve_child(), None);
    assert_eq!(router.view(), Rendered::Empty);
}

#[test]
fn setting_a_route_that_resolves() {
    let mut router = Routing::new(matchers(&["/a", "/b/{id}"]), false);
    assert_eq!(
        router.update(RoutingMsg::SetRoute("/b/7".to_string())),
        (true, RoutingAction::Nothing)
    );
    assert!(router.routing_succeeded);
    assert_eq!(router.route, "/b/7");
    assert!(router.can_resolve_child());
    assert_eq!(router.resolve_child(), Some(1));
    assert_eq!(router.view(), Rendered::Child(1));
}

#[test]
fn setting_a_route_that_does_not_resolve_reports_failure() {
    let mut router = Routing::new(matchers(&["/a"]), false);
    assert_eq!(
        router.update(RoutingMsg::SetRoute("/zzz".to_string())),
        (true, RoutingAction::SendRoutingFailure)
    );
    assert!(!router.routing_succeeded);
    assert!(!router.can_resolve_child());
    assert_eq!(router.view(), Rendered::Empty);
    assert_eq!(
        router.update(RoutingMsg::SendRoutingFailure),
        (false, RoutingAction::SendRoutingFailure)
    );
}

#[test]
fn router_with_page_not_found_listens_instead_of_reporting() {
    let mut router = Routing::new(matchers(&["/a"]), true);
    assert_eq!(
        router.update(RoutingMsg::SetRoute("/zzz".to_string())),
        (true, RoutingAction::Nothing)
    );
    assert_eq!(router.view(), Rendered::PageNotFound);
    assert_eq!(router.update(RoutingMsg::SendRoutingFailure), (false, RoutingAction::Nothing));
    assert_eq!(router.update(RoutingMsg::SetRoute("/a".to_string())), (true, RoutingAction::Nothing));
    assert_eq!(router.view(), Rendered::Child(0));
    assert_eq!(
        router.update(RoutingMsg::ReceiveRoutingFailure),
        (false, RoutingAction::Nothing)
    );
    assert!(!router.routing_succeeded);
    assert_eq!(router.route, "/a");
    assert_eq!(router.resolve_child(), None);
    assert_eq!(router.view(), Rendered::PageNotFound);
}

#[test]
fn no_op_changes_nothing() {
    let mut router = Routing::new(matchers(&["/a"]), false);
    router.update(RoutingMsg::SetRoute("/a".to_string()));
    assert_eq!(router.update(RoutingMsg::NoOp), (false, RoutingAction::Nothing));
    assert!(router.routing_succeeded);
    assert_eq!(router.route, "/a");
}

#[test]
fn field_is_read_from_the_capture_of_its_name() {
    let matcher = RouteMatcher::try_from("/capture/number/{num}/{word}").expect("should compile");
    let (_, captures) =
        matcher.capture_route_into_map("/capture/number/22/lorem").expect("should match");
    assert_eq!(
        field_from_captures::<usize, u8>(&captures, "num", Some(3)),
        (Some(22), Some(3))
    );
    assert_eq!(
        field_from_captures::<String, u8>(&captures, "word", None),
        (Some("lorem".to_string()), None)
    );
    assert_eq!(field_from_captures::<usize, u8>(&captures, "word", Some(3)), (None, Some(3)));
    assert_eq!(field_from_captures::<usize, u8>(&captures, "absent", Some(3)), (None, Some(3)));
}

#[test]
fn captures_keep_the_later_text_of_a_name() {
    let mut captures = Captures::new();
    assert!(captures.is_empty());
    assert_eq!(captures.get("a"), None);
    captures.insert("a".to_string(), "1".to_string());
    captures.insert("b".to_string(), "2".to_string());
    captures.insert("a".to_string(), "3".to_string());
    assert_eq!(captures.get("a"), Some(&"3".to_string()));
    assert_eq!(captures.get("b"), Some(&"2".to_string()));
    assert!(captures.contains_key("b"));
    assert!(!captures.contains_key("c"));
    assert!(!captures.is_empty());
}
