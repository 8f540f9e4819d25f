//! Why a byte sequence is not a message.

use vstd::prelude::*;

verus! {

/// An enumeration of errors that can occur while a message is deserialized.
#[derive(Debug, PartialEq, Eq)]
pub enum DeserializationError {
    /// There are fewer than the necessary number of bytes: the number that was
    /// expected, and the number that was found.
    UnexpectedByteCount(usize, usize),
    /// The bytes of a string are no valid UTF-8.
    InvalidString { bytes: Vec<u8> },
    /// A value could not be converted from its raw parts.
    InvalidValue(String),
}

/// What a `DeserializationError` says.
pub enum ErrorView {
    UnexpectedByteCount(nat, nat),
    InvalidString { bytes: Seq<u8> },
    InvalidValue(Seq<char>),
}

impl View for DeserializationError {
    type V = ErrorView;

    open spec fn view(&self) -> ErrorView {
        match self {
            DeserializationError::UnexpectedByteCount(expected, found) =>
                ErrorView::UnexpectedByteCount(*expected as nat, *found as nat),
            DeserializationError::InvalidString { bytes } => ErrorView::InvalidString {
                bytes: bytes@,
            },
            DeserializationError::InvalidValue(text) => ErrorView::InvalidValue(text@),
        }
    }
}

} // verus!
