//! The ways in which resolving a chapter's pages can fail.

use vstd::prelude::*;

verus! {

/// Why no page list could be produced. Each kind ends the whole resolution:
/// no partial list is ever returned beside it.
#[derive(Clone, Copy, Debug, PartialEq, Eq, Structural)]
pub enum ResolveError {
    /// The chapter markup holds no usable token: the site's layout changed or
    /// the request was blocked.
    ParseError,
    /// The decoding service could not be reached or did not answer with
    /// success.
    NetworkError,
    /// The decoding service answered, but not with a complete manifest.
    DecodeError,
}

} // verus!
