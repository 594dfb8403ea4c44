//! What the library reports to its callers.

use vstd::prelude::*;

verus! {

/// The one failure that the library raises: a token that names no paste.
/// Callers answer it as "not found".
#[derive(Clone, Copy, Debug, PartialEq, Eq, Structural)]
pub enum Error {
    /// The token is not the token of any key.
    InvalidId,
}

impl Error {
    /// The text shown for the error.
    pub fn message(&self) -> (text: String)
        ensures
            text@ == "invalid id"@,
    {
        "invalid id".to_owned()
    }
}

} // verus!
