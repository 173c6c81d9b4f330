//! Finding the chapter token in a chapter page's markup.
//!
//! The site sets the token in an inline script, as an assignment of a quoted
//! value to a fixed name. The assignment is found with a regular expression;
//! what the expression matches is the `regex` crate's business, and the
//! contracts here name that result rather than restate it.

use crate::error::ResolveError;
use crate::text::{contains, contains_text};
use vstd::prelude::*;

verus! {

/// The name that the site assigns the token to.
pub const TOKEN_MARKER: &'static str = "C_DATA";

/// The assignment, as a regular expression: the marker, `=`, and the value in
/// single quotes, with optional white space round the `=`. The value is a run
/// of characters that are not white space.
pub const TOKEN_PATTERN: &'static str = r"C_DATA\s*=\s*'(?<base_data>\S*)'";

/// The group of `TOKEN_PATTERN` that holds the value.
pub const TOKEN_GROUP: &'static str = "base_data";

/// `regex::Error`: why a pattern was not accepted. It is carried, never read.
#[verifier::external_type_specification]
#[verifier::external_body]
pub struct ExRegexError(regex::Error);

/// Whether `regex::Regex::new` accepts `pattern`.
pub uninterp spec fn pattern_compiles(pattern: Seq<char>) -> bool;

/// What the group named `group` holds in the first match of `pattern` in
/// `haystack`, as `regex::Regex::captures` finds it: nothing if the pattern
/// matches nowhere, or has no such group, or the group took no part.
pub uninterp spec fn first_capture(
    pattern: Seq<char>,
    group: Seq<char>,
    haystack: Seq<char>,
) -> Option<Seq<char>>;

/// Compiles `pattern` with `regex::Regex::new`, searches `haystack` with
/// `Regex::captures` and reads the group called `group` with
/// `Captures::name`. The contract claims that the pattern alone decides
/// whether compiling fails, that the three texts decide what is found, and
/// that what is found is a piece of the haystack, as `Match::as_str` hands it
/// out.
#[verifier::external_body]
fn capture_named(pattern: &str, group: &str, haystack: &str) -> (r: Result<
    Option<String>,
    regex::Error,
>)
    ensures
        r is Ok <==> pattern_compiles(pattern@),
        r matches Ok(Some(found)) ==> first_capture(pattern@, group@, haystack@) == Some(found@)
            && contains(haystack@, found@),
        r matches Ok(None) ==> first_capture(pattern@, group@, haystack@) is None,
{
    let compiled = regex::Regex::new(pattern)?;
    match compiled.captures(haystack) {
        Some(groups) => match groups.name(group) {
            Some(found) => Ok(Some(found.as_str().to_owned())),
            None => Ok(None),
        },
        None => Ok(None),
    }
}

/// The token that a captured value gives: the value itself, unless there is
/// none or it is empty.
pub open spec fn token_of(capture: Option<Seq<char>>) -> Result<Seq<char>, ResolveError> {
    match capture {
        Some(value) => if value.len() > 0 {
            Ok(value)
        } else {
            Err(ResolveError::ParseError)
        },
        None => Err(ResolveError::ParseError),
    }
}

/// The token in `markup`: the value of the first assignment to the marker
/// that the pattern matches. Markup that does not even hold the marker has
/// none, whatever the pattern would say.
pub open spec fn token_in(markup: Seq<char>) -> Result<Seq<char>, ResolveError> {
    if contains(markup, TOKEN_MARKER@) && pattern_compiles(TOKEN_PATTERN@) {
        token_of(first_capture(TOKEN_PATTERN@, TOKEN_GROUP@, markup))
    } else {
        Err(ResolveError::ParseError)
    }
}

/// Accepts a captured value as the chapter token, or rejects it with a parse
/// error if nothing was captured or the value is empty.
pub fn token_from_capture(capture: Option<String>) -> (r: Result<String, ResolveError>)
    ensures
        match r {
            Ok(token) => capture is Some && token@ == capture->0@ && token@.len() > 0,
            Err(e) => e == ResolveError::ParseError && (capture is None || capture->0@.len() == 0),
        },
{
    match capture {
        Some(value) => {
            if value.as_str().is_empty() {
                Err(ResolveError::ParseError)
            } else {
                Ok(value)
            }
        },
        None => Err(ResolveError::ParseError),
    }
}

/// Extracts the chapter token from a chapter page's markup. The token is
/// returned as it stands in the markup; markup without the marker, without a
/// matching assignment, or with an empty value is a parse error.
pub fn extract_token(markup: &str) -> (r: Result<String, ResolveError>)
    ensures
        match r {
            Ok(token) => token_in(markup@) == Ok::<Seq<char>, ResolveError>(token@)
                && token@.len() > 0 && contains(markup@, token@),
            Err(e) => e == ResolveError::ParseError && token_in(markup@) == Err::<
                Seq<char>,
                ResolveError,
            >(e),
        },
{
    if !contains_text(markup, TOKEN_MARKER) {
        return Err(ResolveError::ParseError);
    }
    match capture_named(TOKEN_PATTERN, TOKEN_GROUP, markup) {
        Ok(capture) => token_from_capture(capture),
        Err(_) => Err(ResolveError::ParseError),
    }
}

/// Markup that does not hold the marker gives a parse error, and so no
/// request to the decoding service is ever built from it.
pub proof fn markup_without_marker_has_no_token(markup: Seq<char>)
    requires
        !contains(markup, TOKEN_MARKER@),
    ensures
        token_in(markup) == Err::<Seq<char>, ResolveError>(ResolveError::ParseError),
{
}

} // verus!
