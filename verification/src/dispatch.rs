//! The decisions of a router that holds several patterns: which pattern a
//! route goes to, and what the router does when the route changes.
//!
//! Nothing is rendered or sent here. The caller performs what these functions
//! decide, and reports back what happened as the next message.
use crate::matcher::{match_model, RouteMatcher};
use crate::optimizer::matcher_models;
use vstd::prelude::*;

verus! {

/// Whether the matcher matches the route.
pub open spec fn matches(matcher: RouteMatcher, route: Seq<char>) -> bool {
    match_model(matcher_models(matcher.tokens@), route, matcher.settings) is Ok
}

/// Whether the first `n` matchers all fail to match the route.
pub open spec fn none_matches(matchers: Seq<RouteMatcher>, n: int, route: Seq<char>) -> bool {
    forall|j: int| 0 <= j < n && j < matchers.len() ==> !matches(#[trigger] matchers[j], route)
}

/// The first of the matchers, in their order, that matches the route.
pub open spec fn first_match_model(matchers: Seq<RouteMatcher>, route: Seq<char>) -> Option<int> {
    if exists|i: int| is_first_match(matchers, route, i) {
        Some(choose|i: int| is_first_match(matchers, route, i))
    } else {
        None
    }
}

/// Whether the matcher at `i` matches the route and none before it does.
pub open spec fn is_first_match(matchers: Seq<RouteMatcher>, route: Seq<char>, i: int) -> bool {
    0 <= i < matchers.len() && matches(matchers[i], route) && none_matches(matchers, i, route)
}

/// There is at most one first match.
pub proof fn lemma_first_match_is_unique(
    matchers: Seq<RouteMatcher>,
    route: Seq<char>,
    i: int,
    j: int,
)
    requires
        is_first_match(matchers, route, i),
        is_first_match(matchers, route, j),
    ensures
        i == j,
{
    if i < j {
        assert(!matches(matchers[i], route));
    } else if j < i {
        assert(!matches(matchers[j], route));
    }
}

/// Finds the first of the matchers, in their order, that matches the route.
/// Competing patterns are not weighed against each other: the order in which
/// they were given decides.
pub fn first_match(matchers: &[RouteMatcher], route: &str) -> (r: Option<usize>)
    ensures
        match r {
            Some(i) => first_match_model(matchers@, route@) == Some(i as int) && is_first_match(
                matchers@,
                route@,
                i as int,
            ),
            None => first_match_model(matchers@, route@) is None && none_matches(
                matchers@,
                matchers@.len() as int,
                route@,
            ),
        },
{
    let mut i: usize = 0;
    while i < matchers.len()
        invariant
            i <= matchers.len(),
            none_matches(matchers@, i as int, route@),
        decreases matchers.len() - i,
    {
        if matchers[i].capture_route_into_vec(route).is_ok() {
            proof {
                assert(is_first_match(matchers@, route@, i as int));
                let chosen = choose|k: int| is_first_match(matchers@, route@, k);
                lemma_first_match_is_unique(matchers@, route@, i as int, chosen);
            }
            return Some(i);
        }
        i += 1;
    }
    proof {
        assert forall|k: int| !is_first_match(matchers@, route@, k) by {
            if 0 <= k < matchers@.len() {
                assert(!matches(matchers@[k], route@));
            }
        }
    }
    None
}

/// What a router is told.
#[derive(Debug, PartialEq, Eq)]
pub enum RoutingMsg {
    /// The route has changed to the given one.
    SetRoute(String),
    /// This router could not resolve its route and has to say so.
    SendRoutingFailure,
    /// Another router could not resolve its route.
    ReceiveRoutingFailure,
    /// Nothing happened.
    NoOp,
}

/// What a router has to do after a message.
#[derive(Debug, PartialEq, Eq, Clone, Copy)]
pub enum RoutingAction {
    /// Nothing.
    Nothing,
    /// Tell the other routers that routing failed here.
    SendRoutingFailure,
}

/// What a router shows.
#[derive(Debug, PartialEq, Eq, Clone, Copy)]
pub enum Rendered {
    /// The child that belongs to the pattern with this index.
    Child(usize),
    /// The page for routes that nothing matches.
    PageNotFound,
    /// Nothing.
    Empty,
}

/// The state of a router: its patterns in the order in which they are tried,
/// the current route, and whether the route was resolved.
#[derive(Debug)]
pub struct Routing {
    /// The patterns, one for each child.
    pub routes: Vec<RouteMatcher>,
    /// The current route.
    pub route: String,
    /// Whether one of the patterns matched the current route when it was set.
    pub routing_succeeded: bool,
    /// Whether this router has a page for routes that nothing matches. A
    /// router that has one listens for the failures of others; one that has
    /// none reports its own.
    pub has_page_not_found: bool,
}

impl Routing {
    /// A router without a route, which may or may not match any pattern.
    pub fn new(routes: Vec<RouteMatcher>, has_page_not_found: bool) -> (r: Self)
        ensures
            r.routes == routes,
            r.route@ == Seq::<char>::empty(),
            !r.routing_succeeded,
            r.has_page_not_found == has_page_not_found,
    {
        Routing { routes, route: String::new(), routing_succeeded: false, has_page_not_found }
    }

    /// Whether one of the patterns matches the current route.
    pub fn can_resolve_child(&self) -> (r: bool)
        ensures
            r == (first_match_model(self.routes@, self.route@) is Some),
    {
        first_match(self.routes.as_slice(), self.route.as_str()).is_some()
    }

    /// Determines which child to render based on the current route: the
    /// first whose pattern matches. If routing did not succeed, or none of the
    /// patterns matches, there is none.
    pub fn resolve_child(&self) -> (r: Option<usize>)
        ensures
            match r {
                Some(i) => self.routing_succeeded && first_match_model(self.routes@, self.route@)
                    == Some(i as int),
                None => !self.routing_succeeded || first_match_model(self.routes@, self.route@)
                    is None,
            },
    {
        if self.routing_succeeded {
            first_match(self.routes.as_slice(), self.route.as_str())
        } else {
            None
        }
    }

    /// Takes in a message. Returns whether the router has to be rendered
    /// again, and what it has to do.
    ///
    /// A new route is stored, and routing succeeds if and only if one of the
    /// patterns matches it; if none does, a router without a page for
    /// unmatched routes reports the failure. A failure that another router
    /// reports makes routing fail here.
    pub fn update(&mut self, msg: RoutingMsg) -> (r: (bool, RoutingAction))
        ensures
            final(self).routes == old(self).routes,
            final(self).has_page_not_found == old(self).has_page_not_found,
            match msg {
                RoutingMsg::SetRoute(route) => {
                    &&& final(self).route == route
                    &&& final(self).routing_succeeded == (first_match_model(
                        old(self).routes@,
                        route@,
                    ) is Some)
                    &&& r.0
                    &&& r.1 == if !final(self).routing_succeeded && !old(self).has_page_not_found {
                        RoutingAction::SendRoutingFailure
                    } else {
                        RoutingAction::Nothing
                    }
                },
                RoutingMsg::SendRoutingFailure => {
                    &&& final(self).route == old(self).route
                    &&& final(self).routing_succeeded == old(self).routing_succeeded
                    &&& !r.0
                    &&& r.1 == if old(self).has_page_not_found {
                        RoutingAction::Nothing
                    } else {
                        RoutingAction::SendRoutingFailure
                    }
                },
                RoutingMsg::ReceiveRoutingFailure => {
                    &&& final(self).route == old(self).route
                    &&& !final(self).routing_succeeded
                    &&& !r.0
                    &&& r.1 == RoutingAction::Nothing
                },
                RoutingMsg::NoOp => {
                    &&& final(self).route == old(self).route
                    &&& final(self).routing_succeeded == old(self).routing_succeeded
                    &&& !r.0
                    &&& r.1 == RoutingAction::Nothing
                },
            },
    {
        match msg {
            RoutingMsg::SetRoute(route) => {
                self.route = route;
                if self.can_resolve_child() {
                    self.routing_succeeded = true;
                    (true, RoutingAction::Nothing)
                } else {
                    self.routing_succeeded = false;
                    (true, self.failure_report())
                }
            },
            RoutingMsg::SendRoutingFailure => (false, self.failure_report()),
            RoutingMsg::ReceiveRoutingFailure => {
                self.routing_succeeded = false;
                (false, RoutingAction::Nothing)
            },
            RoutingMsg::NoOp => (false, RoutingAction::Nothing),
        }
    }

    /// What this router does about a failure of its own: it reports it, unless
    /// it has a page for unmatched routes.
    fn failure_report(&self) -> (r: RoutingAction)
        ensures
            r == if self.has_page_not_found {
                RoutingAction::Nothing
            } else {
                RoutingAction::SendRoutingFailure
            },
    {
        if self.has_page_not_found {
            RoutingAction::Nothing
        } else {
            RoutingAction::SendRoutingFailure
        }
    }

    /// What the router shows: the child that the route resolves to; else the
    /// page for unmatched routes, if there is one; else nothing.
    pub fn view(&self) -> (r: Rendered)
        ensures
            r == if self.routing_succeeded && first_match_model(self.routes@, self.route@) is Some {
                Rendered::Child(first_match_model(self.routes@, self.route@)->Some_0 as usize)
            } else if self.has_page_not_found {
                Rendered::PageNotFound
            } else {
                Rendered::Empty
            },
    {
        match self.resolve_child() {
            Some(child) => Rendered::Child(child),
            None => if self.has_page_not_found {
                Rendered::PageNotFound
            } else {
                Rendered::Empty
            },
        }
    }
}

} // verus!
