//! Compiles route patterns such as `/user/{id}/posts?sort={field}` into
//! tokens, and matches concrete route strings against them.
pub mod captures;
pub mod chars;
pub mod compile_lemmas;
pub mod digits;
pub mod dispatch;
pub mod matcher;
pub mod matcher_lemmas;
pub mod optimizer;
pub mod parser;
pub mod parser_lemmas;
pub mod state;
pub mod switch;
pub mod token;
pub mod util;

pub use captures::Captures;
pub use matcher::{MatchFailure, MatcherSettings, RouteMatcher};
pub use optimizer::{convert_tokens, parse_str_and_optimize_tokens, MatcherToken};
pub use parser::parse;
pub use state::ParserState;
pub use token::{CaptureOrExact, CaptureVariant, ParserError, RouteParserToken};
