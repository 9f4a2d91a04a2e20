//! The grammar of a route pattern as a finite-state machine.
//!
//! A pattern has four regions: the path, the first query pair, the later query
//! pairs and the fragment. A state names the region and the last token that was
//! accepted in it; together they decide which token may come next.
use crate::token::{
    token_models, CaptureModel, CaptureOrExact, CaptureOrExactModel, CaptureVariant, ErrorModel,
    ParserError, RouteParserToken, TokenModel,
};
use vstd::prelude::*;

verus! {

/// Model of a [`ParserState`].
pub enum StateModel {
    Start,
    Path { prev_token: TokenModel },
    FirstQuery { prev_token: TokenModel },
    NthQuery { prev_token: TokenModel },
    Fragment { prev_token: TokenModel },
    End,
}

/// Whether two tokens are of one kind: the same variant and, for captures, the
/// same variant of capture.
pub open spec fn same_kind(a: TokenModel, b: TokenModel) -> bool {
    match (a, b) {
        (TokenModel::Separator, TokenModel::Separator) => true,
        (TokenModel::Exact(_), TokenModel::Exact(_)) => true,
        (TokenModel::Capture(x), TokenModel::Capture(y)) => (x is Named && y is Named) || (x
            is ManyNamed && y is ManyNamed) || (x is NumberedNamed && y is NumberedNamed),
        (TokenModel::QueryBegin, TokenModel::QueryBegin) => true,
        (TokenModel::QuerySeparator, TokenModel::QuerySeparator) => true,
        (TokenModel::QueryCapture { .. }, TokenModel::QueryCapture { .. }) => true,
        (TokenModel::FragmentBegin, TokenModel::FragmentBegin) => true,
        (TokenModel::End, TokenModel::End) => true,
        _ => false,
    }
}

impl StateModel {
    /// Whether the last token is one that can have led into the region.
    pub open spec fn is_consistent(self) -> bool {
        match self {
            StateModel::Start => true,
            StateModel::Path { prev_token } => prev_token is Separator || prev_token is Exact
                || prev_token is Capture,
            StateModel::FirstQuery { prev_token } => prev_token is QueryBegin
                || prev_token is QueryCapture,
            StateModel::NthQuery { prev_token } => prev_token is QuerySeparator
                || prev_token is QueryCapture,
            StateModel::Fragment { prev_token } => prev_token is FragmentBegin
                || prev_token is Exact || prev_token is Capture,
            StateModel::End => true,
        }
    }

    /// Whether a query pair, and nothing else, must come next.
    pub open spec fn expects_query_pair(self) -> bool {
        match self {
            StateModel::FirstQuery { prev_token } => prev_token is QueryBegin,
            StateModel::NthQuery { prev_token } => prev_token is QuerySeparator,
            _ => false,
        }
    }

    /// The transition table: whether `token` may follow in this state.
    pub open spec fn permits(self, token: TokenModel) -> bool {
        match self {
            StateModel::Start => token is Separator || token is QueryBegin || token is FragmentBegin
                || (token is Capture && !token->Capture_0.is_single()),
            StateModel::Path { prev_token } => token is QueryBegin || token is FragmentBegin
                || token is End || (token is Separator && !(prev_token is Separator)) || (token
                is Exact && !(prev_token is Exact)) || (token is Capture && !(prev_token
                is Capture)),
            StateModel::FirstQuery { .. } | StateModel::NthQuery { .. } => if self.expects_query_pair() {
                token is QueryCapture
            } else {
                token is QuerySeparator || token is FragmentBegin || token is End
            },
            StateModel::Fragment { .. } => token is Exact || token is End || (token is Capture
                && token->Capture_0.is_single()),
            StateModel::End => false,
        }
    }

    /// The state that accepting `token` leads to.
    pub open spec fn successor(self, token: TokenModel) -> StateModel {
        match token {
            TokenModel::End => StateModel::End,
            TokenModel::QueryBegin => StateModel::FirstQuery { prev_token: token },
            TokenModel::QuerySeparator => StateModel::NthQuery { prev_token: token },
            TokenModel::FragmentBegin => StateModel::Fragment { prev_token: token },
            TokenModel::QueryCapture { .. } => if self is FirstQuery {
                StateModel::FirstQuery { prev_token: token }
            } else {
                StateModel::NthQuery { prev_token: token }
            },
            _ => if self is Fragment {
                StateModel::Fragment { prev_token: token }
            } else {
                StateModel::Path { prev_token: token }
            },
        }
    }

    /// What the machine answers to `token`: the next state, or why the token
    /// is refused.
    pub open spec fn transition(self, token: TokenModel) -> Result<StateModel, ErrorModel> {
        if self is End {
            Err(ErrorModel::TokensAfterEndToken)
        } else if !self.is_consistent() {
            Err(ErrorModel::InvalidState)
        } else if self.permits(token) {
            Ok(self.successor(token))
        } else {
            Err(ErrorModel::NotAllowedStateTransition)
        }
    }

    /// One sample of each kind of token that may follow in this state, in the
    /// order in which the kinds are reported.
    pub open spec fn expected(self) -> Seq<TokenModel> {
        let exact = TokenModel::Exact(Seq::empty());
        let named = TokenModel::Capture(CaptureModel::Named(Seq::empty()));
        let many = TokenModel::Capture(CaptureModel::ManyNamed(Seq::empty()));
        let numbered = TokenModel::Capture(
            CaptureModel::NumberedNamed { sections: 0, name: Seq::empty() },
        );
        let pair = TokenModel::QueryCapture {
            ident: Seq::empty(),
            capture_or_match: CaptureOrExactModel::Capture(CaptureModel::Named(Seq::empty())),
        };
        match self {
            StateModel::Start => seq![
                TokenModel::Separator,
                TokenModel::QueryBegin,
                TokenModel::FragmentBegin,
                many,
                numbered,
            ],
            StateModel::Path { prev_token } => if prev_token is Separator {
                seq![
                    exact,
                    named,
                    many,
                    numbered,
                    TokenModel::QueryBegin,
                    TokenModel::FragmentBegin,
                    TokenModel::End,
                ]
            } else if prev_token is Exact {
                seq![
                    TokenModel::Separator,
                    named,
                    many,
                    numbered,
                    TokenModel::QueryBegin,
                    TokenModel::FragmentBegin,
                    TokenModel::End,
                ]
            } else {
                seq![
                    TokenModel::Separator,
                    exact,
                    TokenModel::QueryBegin,
                    TokenModel::FragmentBegin,
                    TokenModel::End,
                ]
            },
            StateModel::FirstQuery { .. } | StateModel::NthQuery { .. } => if self.expects_query_pair() {
                seq![pair]
            } else {
                seq![TokenModel::QuerySeparator, TokenModel::FragmentBegin, TokenModel::End]
            },
            StateModel::Fragment { .. } => seq![exact, named, TokenModel::End],
            StateModel::End => Seq::empty(),
        }
    }
}

/// The expected tokens are the transition table written out: in a consistent
/// state that is not the end, a token is permitted if and only if the state's
/// list of expected tokens holds one of its kind.
pub proof fn lemma_expected_is_permitted(state: StateModel, token: TokenModel)
    requires
        state.is_consistent(),
    ensures
        state.permits(token) <==> exists|i: int|
            0 <= i < state.expected().len() && same_kind(#[trigger] state.expected()[i], token),
{
    let e = state.expected();
    if state.permits(token) {
        assert(exists|i: int| 0 <= i < e.len() && same_kind(#[trigger] e[i], token)) by {
            if e.len() > 0 && same_kind(e[0], token) {
            } else if e.len() > 1 && same_kind(e[1], token) {
            } else if e.len() > 2 && same_kind(e[2], token) {
            } else if e.len() > 3 && same_kind(e[3], token) {
            } else if e.len() > 4 && same_kind(e[4], token) {
            } else if e.len() > 5 && same_kind(e[5], token) {
            } else {
                assert(e.len() > 6 && same_kind(e[6], token));
            }
        }
    }
}

/// A token that is accepted leads to a consistent state, and only the end
/// marker leads to the end.
pub proof fn lemma_successor_is_consistent(state: StateModel, token: TokenModel)
    requires
        state.is_consistent(),
        state.permits(token),
    ensures
        state.successor(token).is_consistent(),
        state.successor(token) is End <==> token is End,
        !(state.successor(token) is Start),
{
}

/// The states of the grammar, each with the last token that was accepted.
#[derive(Debug, PartialEq)]
pub enum ParserState {
    /// Nothing has been read.
    Start,
    /// In the path.
    Path { prev_token: RouteParserToken },
    /// In the first pair of the query.
    FirstQuery { prev_token: RouteParserToken },
    /// In a later pair of the query.
    NthQuery { prev_token: RouteParserToken },
    /// In the fragment.
    Fragment { prev_token: RouteParserToken },
    /// The pattern has ended.
    End,
}

impl View for ParserState {
    type V = StateModel;

    open spec fn view(&self) -> StateModel {
        match self {
            ParserState::Start => StateModel::Start,
            ParserState::Path { prev_token } => StateModel::Path { prev_token: prev_token@ },
            ParserState::FirstQuery { prev_token } => StateModel::FirstQuery {
                prev_token: prev_token@,
            },
            ParserState::NthQuery { prev_token } => StateModel::NthQuery { prev_token: prev_token@ },
            ParserState::Fragment { prev_token } => StateModel::Fragment { prev_token: prev_token@ },
            ParserState::End => StateModel::End,
        }
    }
}

impl ParserState {
    /// Whether a query pair, and nothing else, must come next.
    pub fn expects_query_pair(&self) -> (b: bool)
        ensures
            b == self@.expects_query_pair(),
    {
        match self {
            ParserState::FirstQuery { prev_token: RouteParserToken::QueryBegin } => true,
            ParserState::NthQuery { prev_token: RouteParserToken::QuerySeparator } => true,
            _ => false,
        }
    }

    /// Whether the pattern may end in this state.
    pub fn permits_end(&self) -> (b: bool)
        ensures
            b == (self@.transition(TokenModel::End) is Ok),
    {
        match self {
            ParserState::Path { prev_token } => match prev_token {
                RouteParserToken::Separator
                | RouteParserToken::Exact(_)
                | RouteParserToken::Capture(_) => true,
                _ => false,
            },
            ParserState::FirstQuery { prev_token } | ParserState::NthQuery { prev_token } => {
                match prev_token {
                    RouteParserToken::QueryCapture { .. } => true,
                    _ => false,
                }
            },
            ParserState::Fragment { prev_token } => match prev_token {
                RouteParserToken::FragmentBegin
                | RouteParserToken::Exact(_)
                | RouteParserToken::Capture(_) => true,
                _ => false,
            },
            _ => false,
        }
    }

    /// Whether `token` may follow in this state.
    pub fn permits(&self, token: &RouteParserToken) -> (b: bool)
        ensures
            b == (self@.transition(token@) is Ok),
    {
        match self {
            ParserState::Start => match token {
                RouteParserToken::Separator
                | RouteParserToken::QueryBegin
                | RouteParserToken::FragmentBegin
                | RouteParserToken::Capture(CaptureVariant::ManyNamed(_))
                | RouteParserToken::Capture(CaptureVariant::NumberedNamed { .. }) => true,
                _ => false,
            },
            ParserState::Path { prev_token } => match (prev_token, token) {
                (RouteParserToken::Separator, RouteParserToken::Exact(_))
                | (RouteParserToken::Separator, RouteParserToken::Capture(_))
                | (RouteParserToken::Exact(_), RouteParserToken::Separator)
                | (RouteParserToken::Exact(_), RouteParserToken::Capture(_))
                | (RouteParserToken::Capture(_), RouteParserToken::Separator)
                | (RouteParserToken::Capture(_), RouteParserToken::Exact(_)) => true,
                (_, RouteParserToken::QueryBegin)
                | (_, RouteParserToken::FragmentBegin)
                | (_, RouteParserToken::End) => self.permits_end(),
                _ => false,
            },
            ParserState::FirstQuery { .. } | ParserState::NthQuery { .. } => match token {
                RouteParserToken::QueryCapture { .. } => self.expects_query_pair(),
                RouteParserToken::QuerySeparator
                | RouteParserToken::FragmentBegin
                | RouteParserToken::End => self.permits_end(),
                _ => false,
            },
            ParserState::Fragment { .. } => match token {
                RouteParserToken::Exact(_)
                | RouteParserToken::Capture(CaptureVariant::Named(_))
                | RouteParserToken::End => self.permits_end(),
                _ => false,
            },
            ParserState::End => false,
        }
    }

    /// Given a new token, transition to a new state.
    ///
    /// The new state holds the token, so that it need not know from which state
    /// it was reached. This function is the graph of valid state transitions.
    pub fn transition(self, token: RouteParserToken) -> (r: Result<ParserState, ParserError>)
        ensures
            r is Ok <==> self@.transition(token@) is Ok,
            r matches Ok(next) ==> next@ == self@.transition(token@)->Ok_0,
            r matches Err(e) ==> e@ == self@.transition(token@)->Err_0,
    {
        match self {
            ParserState::Start => match token {
                RouteParserToken::Separator => Ok(ParserState::Path { prev_token: token }),
                RouteParserToken::Capture(CaptureVariant::Named(_)) => Err(
                    ParserError::NotAllowedStateTransition,
                ),
                RouteParserToken::Capture(_) => Ok(ParserState::Path { prev_token: token }),
                RouteParserToken::QueryBegin => Ok(ParserState::FirstQuery { prev_token: token }),
                RouteParserToken::FragmentBegin => Ok(ParserState::Fragment { prev_token: token }),
                _ => Err(ParserError::NotAllowedStateTransition),
            },
            ParserState::Path { prev_token } => match prev_token {
                RouteParserToken::Separator => match token {
                    RouteParserToken::Exact(_) | RouteParserToken::Capture(_) => Ok(
                        ParserState::Path { prev_token: token },
                    ),
                    RouteParserToken::QueryBegin => Ok(
                        ParserState::FirstQuery { prev_token: token },
                    ),
                    RouteParserToken::FragmentBegin => Ok(
                        ParserState::Fragment { prev_token: token },
                    ),
                    RouteParserToken::End => Ok(ParserState::End),
                    _ => Err(ParserError::NotAllowedStateTransition),
                },
                RouteParserToken::Exact(_) => match token {
                    RouteParserToken::Separator | RouteParserToken::Capture(_) => Ok(
                        ParserState::Path { prev_token: token },
                    ),
                    RouteParserToken::QueryBegin => Ok(
                        ParserState::FirstQuery { prev_token: token },
                    ),
                    RouteParserToken::FragmentBegin => Ok(
                        ParserState::Fragment { prev_token: token },
                    ),
                    RouteParserToken::End => Ok(ParserState::End),
                    _ => Err(ParserError::NotAllowedStateTransition),
                },
                RouteParserToken::Capture(_) => match token {
                    RouteParserToken::Separator | RouteParserToken::Exact(_) => Ok(
                        ParserState::Path { prev_token: token },
                    ),
                    RouteParserToken::QueryBegin => Ok(
                        ParserState::FirstQuery { prev_token: token },
                    ),
                    RouteParserToken::FragmentBegin => Ok(
                        ParserState::Fragment { prev_token: token },
                    ),
                    RouteParserToken::End => Ok(ParserState::End),
                    _ => Err(ParserError::NotAllowedStateTransition),
                },
                _ => Err(ParserError::InvalidState),
            },
            ParserState::FirstQuery { prev_token } => match prev_token {
                RouteParserToken::QueryBegin => match token {
                    RouteParserToken::QueryCapture { .. } => Ok(
                        ParserState::FirstQuery { prev_token: token },
                    ),
                    _ => Err(ParserError::NotAllowedStateTransition),
                },
                RouteParserToken::QueryCapture { .. } => match token {
                    RouteParserToken::QuerySeparator => Ok(
                        ParserState::NthQuery { prev_token: token },
                    ),
                    RouteParserToken::FragmentBegin => Ok(
                        ParserState::Fragment { prev_token: token },
                    ),
                    RouteParserToken::End => Ok(ParserState::End),
                    _ => Err(ParserError::NotAllowedStateTransition),
                },
                _ => Err(ParserError::InvalidState),
            },
            ParserState::NthQuery { prev_token } => match prev_token {
                RouteParserToken::QuerySeparator => match token {
                    RouteParserToken::QueryCapture { .. } => Ok(
                        ParserState::NthQuery { prev_token: token },
                    ),
                    _ => Err(ParserError::NotAllowedStateTransition),
                },
                RouteParserToken::QueryCapture { .. } => match token {
                    RouteParserToken::QuerySeparator => Ok(
                        ParserState::NthQuery { prev_token: token },
                    ),
                    RouteParserToken::FragmentBegin => Ok(
                        ParserState::Fragment { prev_token: token },
                    ),
                    RouteParserToken::End => Ok(ParserState::End),
                    _ => Err(ParserError::NotAllowedStateTransition),
                },
                _ => Err(ParserError::InvalidState),
            },
            ParserState::Fragment { prev_token } => match prev_token {
                RouteParserToken::FragmentBegin
                | RouteParserToken::Exact(_)
                | RouteParserToken::Capture(_) => match token {
                    RouteParserToken::Exact(_)
                    | RouteParserToken::Capture(CaptureVariant::Named(_)) => Ok(
                        ParserState::Fragment { prev_token: token },
                    ),
                    RouteParserToken::End => Ok(ParserState::End),
                    _ => Err(ParserError::NotAllowedStateTransition),
                },
                _ => Err(ParserError::InvalidState),
            },
            ParserState::End => Err(ParserError::TokensAfterEndToken),
        }
    }

    /// One sample of each kind of token that may follow in this state.
    pub fn expected(&self) -> (tokens: Vec<RouteParserToken>)
        ensures
            token_models(tokens@) == self@.expected(),
    {
        let mut tokens: Vec<RouteParserToken> = Vec::new();
        match self {
            ParserState::Start => {
                tokens.push(RouteParserToken::Separator);
                tokens.push(RouteParserToken::QueryBegin);
                tokens.push(RouteParserToken::FragmentBegin);
                tokens.push(RouteParserToken::Capture(CaptureVariant::ManyNamed(String::new())));
                tokens.push(
                    RouteParserToken::Capture(
                        CaptureVariant::NumberedNamed { sections: 0, name: String::new() },
                    ),
                );
            },
            ParserState::Path { prev_token } => {
                match prev_token {
                    RouteParserToken::Separator => {
                        tokens.push(RouteParserToken::Exact(String::new()));
                    },
                    RouteParserToken::Exact(_) => {
                        tokens.push(RouteParserToken::Separator);
                    },
                    _ => {
                        tokens.push(RouteParserToken::Separator);
                        tokens.push(RouteParserToken::Exact(String::new()));
                    },
                }
                match prev_token {
                    RouteParserToken::Separator | RouteParserToken::Exact(_) => {
                        tokens.push(
                            RouteParserToken::Capture(CaptureVariant::Named(String::new())),
                        );
                        tokens.push(
                            RouteParserToken::Capture(CaptureVariant::ManyNamed(String::new())),
                        );
                        tokens.push(
                            RouteParserToken::Capture(
                                CaptureVariant::NumberedNamed { sections: 0, name: String::new() },
                            ),
                        );
                    },
                    _ => {},
                }
                tokens.push(RouteParserToken::QueryBegin);
                tokens.push(RouteParserToken::FragmentBegin);
                tokens.push(RouteParserToken::End);
            },
            ParserState::FirstQuery { .. } | ParserState::NthQuery { .. } => {
                if self.expects_query_pair() {
                    tokens.push(
                        RouteParserToken::QueryCapture {
                            ident: String::new(),
                            capture_or_match: CaptureOrExact::Capture(
                                CaptureVariant::Named(String::new()),
                            ),
                        },
                    );
                } else {
                    tokens.push(RouteParserToken::QuerySeparator);
                    tokens.push(RouteParserToken::FragmentBegin);
                    tokens.push(RouteParserToken::End);
                }
            },
            ParserState::Fragment { .. } => {
                tokens.push(RouteParserToken::Exact(String::new()));
                tokens.push(RouteParserToken::Capture(CaptureVariant::Named(String::new())));
                tokens.push(RouteParserToken::End);
            },
            ParserState::End => {},
        }
        assert(token_models(tokens@) =~= self@.expected());
        tokens
    }
}

} // verus!
