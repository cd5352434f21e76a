use vstd::prelude::*;

use super::lexer::{Location, TokenKind};

verus! {

/// Why a token sequence could not be parsed.
#[derive(Debug, Clone, Copy, PartialEq, Eq, Structural)]
pub enum SyntaxError {
    /// The tokens ran out where one more was needed.
    UnexpectedEof,
    /// A token of kind `token` stood where it does not fit.
    UnexpectedToken { token: TokenKind, location: Location },
    /// A `[` of an array type, at `location`, was not followed by `]`.
    UnmatchedBrackets { location: Location },
}

} // verus!
