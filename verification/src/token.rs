//! The tokens of a route pattern, the errors of its grammar, and their
//! mathematical models.
//!
//! Every executable type here owns its text as `String`. Its view replaces each
//! `String` by the sequence of its characters, so that contracts can speak of
//! tokens as plain values.
use vstd::prelude::*;

verus! {

/// Model of a [`CaptureVariant`].
pub enum CaptureModel {
    Named(Seq<char>),
    ManyNamed(Seq<char>),
    NumberedNamed { sections: nat, name: Seq<char> },
}

impl CaptureModel {
    /// The key under which the captured text is stored.
    pub open spec fn name(self) -> Seq<char> {
        match self {
            CaptureModel::Named(name) => name,
            CaptureModel::ManyNamed(name) => name,
            CaptureModel::NumberedNamed { name, .. } => name,
        }
    }

    /// True of the one variant that captures a single section.
    pub open spec fn is_single(self) -> bool {
        self is Named
    }
}

/// Model of a [`CaptureOrExact`].
pub enum CaptureOrExactModel {
    Exact(Seq<char>),
    Capture(CaptureModel),
}

/// Model of a [`RouteParserToken`].
pub enum TokenModel {
    Separator,
    Exact(Seq<char>),
    Capture(CaptureModel),
    QueryBegin,
    QuerySeparator,
    QueryCapture { ident: Seq<char>, capture_or_match: CaptureOrExactModel },
    FragmentBegin,
    End,
}

impl TokenModel {
    /// True of the tokens that stand for literal text: the structural markers
    /// and `Exact`.
    pub open spec fn is_literal(self) -> bool {
        self is Separator || self is Exact || self is QueryBegin || self is QuerySeparator
            || self is FragmentBegin
    }

    /// The text a literal token stands for. Other tokens have no text of their
    /// own and give the empty sequence.
    pub open spec fn text(self) -> Seq<char> {
        match self {
            TokenModel::Separator => seq!['/'],
            TokenModel::Exact(s) => s,
            TokenModel::QueryBegin => seq!['?'],
            TokenModel::QuerySeparator => seq!['&'],
            TokenModel::FragmentBegin => seq!['#'],
            _ => Seq::empty(),
        }
    }
}

/// Model of a [`ParserError`].
pub enum ErrorModel {
    InvalidState,
    NotAllowedStateTransition,
    TokensAfterEndToken,
    ExpectedOneOf(Seq<TokenModel>),
}

/// Token representing various types of captures.
#[derive(Debug, PartialEq)]
pub enum CaptureVariant {
    /// `{name}` - captures a section and stores it under the given name.
    Named(String),
    /// `{*:name}` - captures over many sections and stores them under the given name.
    ManyNamed(String),
    /// `{2:name}` - captures a fixed number of sections under the given name.
    NumberedNamed {
        /// Number of sections to match.
        sections: usize,
        /// The key under which the captured text is stored.
        name: String,
    },
}

impl View for CaptureVariant {
    type V = CaptureModel;

    open spec fn view(&self) -> CaptureModel {
        match self {
            CaptureVariant::Named(name) => CaptureModel::Named(name@),
            CaptureVariant::ManyNamed(name) => CaptureModel::ManyNamed(name@),
            CaptureVariant::NumberedNamed { sections, name } => CaptureModel::NumberedNamed {
                sections: *sections as nat,
                name: name@,
            },
        }
    }
}

impl Clone for CaptureVariant {
    fn clone(&self) -> (r: Self)
        ensures
            r@ == self@,
    {
        match self {
            CaptureVariant::Named(name) => CaptureVariant::Named(name.clone()),
            CaptureVariant::ManyNamed(name) => CaptureVariant::ManyNamed(name.clone()),
            CaptureVariant::NumberedNamed { sections, name } => CaptureVariant::NumberedNamed {
                sections: *sections,
                name: name.clone(),
            },
        }
    }
}

impl CaptureVariant {
    /// The key under which the captured text is stored.
    pub fn name(&self) -> (r: &String)
        ensures
            r@ == self@.name(),
    {
        match self {
            CaptureVariant::Named(name) => name,
            CaptureVariant::ManyNamed(name) => name,
            CaptureVariant::NumberedNamed { name, .. } => name,
        }
    }
}

/// Either a capture, or an exact match.
#[derive(Debug, PartialEq)]
pub enum CaptureOrExact {
    /// Match a specific string.
    Exact(String),
    /// Match a capture variant.
    Capture(CaptureVariant),
}

impl View for CaptureOrExact {
    type V = CaptureOrExactModel;

    open spec fn view(&self) -> CaptureOrExactModel {
        match self {
            CaptureOrExact::Exact(s) => CaptureOrExactModel::Exact(s@),
            CaptureOrExact::Capture(c) => CaptureOrExactModel::Capture(c@),
        }
    }
}

impl Clone for CaptureOrExact {
    fn clone(&self) -> (r: Self)
        ensures
            r@ == self@,
    {
        match self {
            CaptureOrExact::Exact(s) => CaptureOrExact::Exact(s.clone()),
            CaptureOrExact::Capture(c) => CaptureOrExact::Capture(c.clone()),
        }
    }
}

/// One token of a route pattern.
#[derive(Debug, PartialEq)]
pub enum RouteParserToken {
    /// Match `/`.
    Separator,
    /// Match a specific string.
    Exact(String),
    /// Match `{_}`. See [`CaptureVariant`] for more.
    Capture(CaptureVariant),
    /// Match `?`.
    QueryBegin,
    /// Match `&`.
    QuerySeparator,
    /// Match `x=y`.
    QueryCapture {
        /// Identifier
        ident: String,
        /// Capture or match
        capture_or_match: CaptureOrExact,
    },
    /// Match `#`.
    FragmentBegin,
    /// Match `!`.
    End,
}

impl View for RouteParserToken {
    type V = TokenModel;

    open spec fn view(&self) -> TokenModel {
        match self {
            RouteParserToken::Separator => TokenModel::Separator,
            RouteParserToken::Exact(s) => TokenModel::Exact(s@),
            RouteParserToken::Capture(c) => TokenModel::Capture(c@),
            RouteParserToken::QueryBegin => TokenModel::QueryBegin,
            RouteParserToken::QuerySeparator => TokenModel::QuerySeparator,
            RouteParserToken::QueryCapture { ident, capture_or_match } => TokenModel::QueryCapture {
                ident: ident@,
                capture_or_match: capture_or_match@,
            },
            RouteParserToken::FragmentBegin => TokenModel::FragmentBegin,
            RouteParserToken::End => TokenModel::End,
        }
    }
}

impl Clone for RouteParserToken {
    fn clone(&self) -> (r: Self)
        ensures
            r@ == self@,
    {
        match self {
            RouteParserToken::Separator => RouteParserToken::Separator,
            RouteParserToken::Exact(s) => RouteParserToken::Exact(s.clone()),
            RouteParserToken::Capture(c) => RouteParserToken::Capture(c.clone()),
            RouteParserToken::QueryBegin => RouteParserToken::QueryBegin,
            RouteParserToken::QuerySeparator => RouteParserToken::QuerySeparator,
            RouteParserToken::QueryCapture { ident, capture_or_match } => {
                RouteParserToken::QueryCapture {
                    ident: ident.clone(),
                    capture_or_match: capture_or_match.clone(),
                }
            },
            RouteParserToken::FragmentBegin => RouteParserToken::FragmentBegin,
            RouteParserToken::End => RouteParserToken::End,
        }
    }
}

impl RouteParserToken {
    /// The text that a literal token stands for: `/`, `?`, `&`, `#`, or the
    /// string of an `Exact`.
    pub fn as_str(&self) -> (r: &str)
        requires
            self@.is_literal(),
        ensures
            r@ == self@.text(),
    {
        proof {
            reveal_strlit("/");
            reveal_strlit("?");
            reveal_strlit("&");
            reveal_strlit("#");
        }
        match self {
            RouteParserToken::Separator => {
                assert("/"@ =~= seq!['/']);
                "/"
            },
            RouteParserToken::Exact(literal) => literal.as_str(),
            RouteParserToken::QueryBegin => {
                assert("?"@ =~= seq!['?']);
                "?"
            },
            RouteParserToken::QuerySeparator => {
                assert("&"@ =~= seq!['&']);
                "&"
            },
            _ => {
                assert("#"@ =~= seq!['#']);
                "#"
            },
        }
    }
}

/// The views of a sequence of tokens, in order.
pub open spec fn token_models(tokens: Seq<RouteParserToken>) -> Seq<TokenModel> {
    tokens.map_values(|t: RouteParserToken| t@)
}

/// Why a pattern was refused.
#[derive(Debug, PartialEq)]
pub enum ParserError {
    /// A grammar state holds a token that cannot have led to it.
    InvalidState,
    /// The token is not a legal successor in the current grammar state.
    NotAllowedStateTransition,
    /// Input remained after the explicit end marker.
    TokensAfterEndToken,
    /// No token could be read; carries one sample of each kind of token that
    /// would have been legal.
    ExpectedOneOf(Vec<RouteParserToken>),
}

impl View for ParserError {
    type V = ErrorModel;

    open spec fn view(&self) -> ErrorModel {
        match self {
            ParserError::InvalidState => ErrorModel::InvalidState,
            ParserError::NotAllowedStateTransition => ErrorModel::NotAllowedStateTransition,
            ParserError::TokensAfterEndToken => ErrorModel::TokensAfterEndToken,
            ParserError::ExpectedOneOf(tokens) => ErrorModel::ExpectedOneOf(token_models(tokens@)),
        }
    }
}

} // verus!
