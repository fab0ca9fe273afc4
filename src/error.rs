//! What can go wrong while reading a magnet link.

use serde_urlencoded::de::Error as DecodeError;
use vstd::prelude::*;

verus! {

#[verifier::external_type_specification]
#[verifier::external_body]
pub struct ExDecodeError(DecodeError);

/// Why a magnet link, one of its fields or a topic was refused.
#[derive(Debug, PartialEq)]
pub enum Error {
    /// The text does not begin with `magnet:?`.
    InvalidScheme,
    /// A field whose value has a grammar of its own (`xl`) did not follow
    /// it: the key and the value as given.
    InvalidField(String, String),
    /// An exact topic that is not a recognised URN.
    InvalidTopic(String),
    /// The query string could not be decoded; the decoder's own diagnostic.
    UrlEncode(DecodeError),
}

/// An [`Error`] as plain values; the decoder's diagnostic is left out.
pub enum ErrorView {
    InvalidScheme,
    InvalidField(Seq<char>, Seq<char>),
    InvalidTopic(Seq<char>),
    UrlEncode,
}

impl View for Error {
    type V = ErrorView;

    open spec fn view(&self) -> ErrorView {
        match self {
            Error::InvalidScheme => ErrorView::InvalidScheme,
            Error::InvalidField(k, v) => ErrorView::InvalidField(k@, v@),
            Error::InvalidTopic(d) => ErrorView::InvalidTopic(d@),
            Error::UrlEncode(_) => ErrorView::UrlEncode,
        }
    }
}

} // verus!
