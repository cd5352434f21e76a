use vstd::prelude::*;

use super::lexer::Location;

verus! {

/// A node of the syntax tree together with the place where it starts.
#[derive(Debug, PartialEq)]
pub struct Spanned<T> {
    pub target: T,
    pub location: Location,
}

} // verus!
