//! Resolution of possibly-relative links against an absolute base URL.
//!
//! The `url` crate does the actual parsing and joining; this module gives its
//! two operations names that contracts can speak about, working on plain
//! strings only.

use vstd::prelude::*;

verus! {

/// How URL parsing classifies a string.
#[derive(Clone, Copy, Debug, PartialEq, Eq, Structural)]
pub enum UrlClass {
    /// The string parses as an absolute URL on its own.
    Absolute,
    /// Parsing fails only because the string is a relative reference
    /// lacking a base.
    Relative,
    /// Parsing fails for any other reason.
    Invalid,
}

/// How `url::Url::parse` classifies `s`; the result depends on the
/// characters alone.
pub uninterp spec fn url_parse_class(s: Seq<char>) -> UrlClass;

/// The URL that standard base+relative resolution yields for the base string
/// `base` and the reference `reference`, serialized; `None` when `base` does
/// not parse as an absolute URL or the resolution fails. The result depends
/// on the two strings alone.
pub uninterp spec fn url_join_of(base: Seq<char>, reference: Seq<char>) -> Option<Seq<char>>;

/// Relies on `url::Url::parse`: it returns `Ok` exactly on absolute URLs and
/// `ParseError::RelativeUrlWithoutBase` exactly on relative references.
#[verifier::external_body]
pub(crate) fn classify_url(s: &str) -> (c: UrlClass)
    ensures
        c == url_parse_class(s@),
{
    match url::Url::parse(s) {
        Ok(_) => UrlClass::Absolute,
        Err(url::ParseError::RelativeUrlWithoutBase) => UrlClass::Relative,
        Err(_) => UrlClass::Invalid,
    }
}

/// Relies on `url::Url::join`, with `url::Url::parse` for the base: standard
/// base+relative URL resolution, returned in serialized form.
#[verifier::external_body]
pub(crate) fn join_url(base: &str, reference: &str) -> (r: Option<String>)
    ensures
        (match r {
            Some(joined) => url_join_of(base@, reference@) == Some(joined@),
            None => url_join_of(base@, reference@) is None,
        }),
{
    match url::Url::parse(base) {
        Ok(b) => match b.join(reference) {
            Ok(u) => Some(u.as_str().to_owned()),
            Err(_) => None,
        },
        Err(_) => None,
    }
}

} // verus!
