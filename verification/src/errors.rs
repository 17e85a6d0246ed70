//! The error taxonomy of the library: every failure is a typed value handed
//! back to the caller; nothing is swallowed.
use crate::chapter::Chapter;
use vstd::prelude::*;

verus! {

/// An error a backend or the dispatcher may return.
#[derive(Debug)]
pub enum BackendError {
    /// No registered backend claims the given URL.
    NoMatchingBackendFound(String),
    /// Transport-level failure (DNS, TLS, connection reset), described by the
    /// driver.
    NetworkError(String),
    /// The upstream returned a non-success, non-rate-limit status, or rate
    /// limiting exhausted the retry budget.
    RequestFailed {
        /// What was being fetched and why it failed.
        message: String,
        /// The HTTP status code of the last response.
        status: u16,
        /// The body of the last response, as a diagnostic.
        body: String,
    },
    /// An expected structural element of a page is missing: the scraping
    /// rules have gone stale.
    ParseError(String),
    /// A timestamp failed to parse.
    DateParseError(String),
    /// The chapter position is outside `1..=chapter_count()`.
    UnknownChapter(usize),
    /// An operation needed a field the chapter lacks, with the offending
    /// chapter attached.
    MissingChapterInformation {
        /// Why the chapter was rejected.
        msg: String,
        /// The chapter the issue originated from.
        chapter: Box<Chapter>,
    },
}

} // verus!
