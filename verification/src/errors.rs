//! The error taxonomy: parse failures, unresolvable links, and the
//! per-feed pipeline failures built from them.

use vstd::prelude::*;

verus! {

/// The two feed formats a document may be parsed as.
#[derive(Clone, Copy, Debug, PartialEq, Eq, Structural)]
pub enum FeedFormat {
    Rss,
    Atom,
}

/// Why a document could not be turned into a `Feed`.
///
/// A format mismatch on the first attempt is not an error by itself: it
/// triggers the fallback parse. Only a document that is malformed within the
/// attempted format, or that fails under both formats, is reported.
#[derive(Debug)]
pub enum ParseError {
    /// The document was recognized as `format` but is broken inside it.
    Malformed { format: FeedFormat, cause: String },
    /// The document is not RSS, and the Atom fallback failed as well.
    BothFormatsFailed { cause: String },
}

/// Why an item link could not be resolved to an absolute URL.
#[derive(Clone, Copy, Debug, PartialEq, Eq, Structural)]
pub enum UrlError {
    /// The link is neither absolute nor a relative reference.
    Invalid,
    /// The link is relative but joining it to the feed base failed.
    JoinFailed,
}

/// Why a feed run stopped before all items were handled.
#[derive(Clone, Copy, Debug, PartialEq, Eq, Structural)]
pub enum PipelineError {
    /// An item carries no link at all; it can never become a submission.
    MissingLink,
    /// An item link could not be resolved against the feed base.
    Url(UrlError),
    /// The feed's own base URL is not an absolute URL.
    InvalidBaseUrl,
    /// The external submission client reported a failure.
    SubmissionFailed,
}

} // verus!
