//! Error taxonomy of the reader core.

use vstd::prelude::*;
use vstd::string::StringExecFns;

verus! {

/// The error type for all operations of the reader core.
///
/// Interactive failures (search, chapter open) abort the transition that
/// raised them; failures inside background workers are recorded per page
/// index and never block the rest of the chapter.
#[derive(Clone, Copy, Debug, PartialEq, Eq, Structural)]
pub enum YomuError {
    /// A network request could not be completed.
    Network,
    /// The remote API answered with a non-success HTTP status.
    Api(u16),
    /// The remote handed back data that fails local validation
    /// (an insecure base URL, an oversized payload).
    Validation,
    /// Raw bytes could not be decoded into a bitmap.
    Decode,
    /// The terminal graphics backend rejected a protocol build.
    Build,
    /// A navigation step was invalid, such as opening a chapter
    /// whose manifest lists no pages.
    State,
}

impl YomuError {
    /// A short human-readable description of the error.
    pub fn message(&self) -> (r: String)
        ensures
            *self is Network ==> r@ == "network error"@,
            *self is Api ==> r@ == "api error"@,
            *self is Validation ==> r@ == "validation error"@,
            *self is Decode ==> r@ == "image decode error"@,
            *self is Build ==> r@ == "protocol build error"@,
            *self is State ==> r@ == "invalid navigation"@,
    {
        match self {
            YomuError::Network => String::from_str("network error"),
            YomuError::Api(_) => String::from_str("api error"),
            YomuError::Validation => String::from_str("validation error"),
            YomuError::Decode => String::from_str("image decode error"),
            YomuError::Build => String::from_str("protocol build error"),
            YomuError::State => String::from_str("invalid navigation"),
        }
    }
}

} // verus!
