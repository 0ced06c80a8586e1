//! Failure taxonomy of the signing and verification stages.

use vstd::prelude::*;

verus! {

/// Mathematical image of an [`Error`], with message text as character
/// sequences.
pub enum ErrorView {
    /// A body chunk could not be read while materializing.
    BodyOperation(Seq<char>),
    /// A recomputed digest did not match the value carried by the header.
    HashMismatch { expected: Seq<char>, got: Seq<char> },
    /// The wrapped downstream stage failed.
    InnerService(Seq<char>),
    /// A digest value was invalid.
    InvalidDigest,
    /// A digest header entry was malformed.
    InvalidDigestHeader,
    /// A computed header value could not be represented as header text.
    InvalidHeaderValue,
    /// The inbound request carried no digest header.
    MissingHeader,
    /// The header value was not readable as text.
    ToStr,
    /// An algorithm name was unknown, disabled, or not hashable.
    UnsupportedDigest,
}

/// Error type of the signer and verifier stages.
#[derive(Clone, Debug, PartialEq)]
#[non_exhaustive]
pub enum Error {
    /// Body operation returned an error; the message describes it.
    BodyOperation(String),
    /// Hash mismatched.
    HashMismatch {
        /// Hash carried by the header entry.
        expected: String,
        /// Hash recomputed over the materialized body.
        got: String,
    },
    /// Inner service returned an error; the message describes it.
    InnerService(String),
    /// Invalid digest.
    InvalidDigest,
    /// Invalid digest header.
    InvalidDigestHeader,
    /// Invalid header value.
    InvalidHeaderValue,
    /// Missing digest header.
    MissingHeader,
    /// The header value could not be read as text.
    ToStr,
    /// Unsupported digest.
    UnsupportedDigest,
}

impl View for Error {
    type V = ErrorView;

    open spec fn view(&self) -> ErrorView {
        match self {
            Error::BodyOperation(m) => ErrorView::BodyOperation(m@),
            Error::HashMismatch { expected, got } => ErrorView::HashMismatch {
                expected: expected@,
                got: got@,
            },
            Error::InnerService(m) => ErrorView::InnerService(m@),
            Error::InvalidDigest => ErrorView::InvalidDigest,
            Error::InvalidDigestHeader => ErrorView::InvalidDigestHeader,
            Error::InvalidHeaderValue => ErrorView::InvalidHeaderValue,
            Error::MissingHeader => ErrorView::MissingHeader,
            Error::ToStr => ErrorView::ToStr,
            Error::UnsupportedDigest => ErrorView::UnsupportedDigest,
        }
    }
}

} // verus!
