//! What becomes of what is read from a connection, case by case.

use crate::bytes::lemma_widths;
use crate::error::DeserializationError;
use crate::message::DeviceUpdateMessage;
use crate::message_laws::lemma_number_of_digits;
use crate::stream::{stream_thread_name, StreamAction, StreamState};
use vstd::arithmetic::power::pow;
use vstd::prelude::*;

verus! {

/// What is said of an error is what it holds.
pub proof fn lemma_error_says_its_fields(error: DeserializationError)
    ensures
        match error {
            DeserializationError::UnexpectedByteCount(expected, found) => error@
                is UnexpectedByteCount && error@->UnexpectedByteCount_0 == expected
                && error@->UnexpectedByteCount_1 == found,
            DeserializationError::InvalidString { bytes } => error@ is InvalidString
                && error@->bytes == bytes@,
            DeserializationError::InvalidValue(text) => error@ is InvalidValue
                && error@->InvalidValue_0 == text@,
        },
{
}

/// For a size as many bytes are read as a `usize` has, and for a message as many as its size
/// says.
pub proof fn lemma_wanted(state: StreamState, n: usize)
    requires
        call_ensures(StreamState::wanted, (&state,), n),
    ensures
        match state {
            StreamState::Size => n == usize::BITS / 8,
            StreamState::Body { size } => n == size,
        },
{
}

/// A failed read ends the connection, and nothing is handed to the server.
pub proof fn lemma_failed_read(state: StreamState, next: (Option<StreamState>, StreamAction))
    requires
        call_ensures(StreamState::advance, (state, None::<Vec<u8>>), next),
    ensures
        next.0 is None,
        match state {
            StreamState::Size => next.1 is SizeUnreadable,
            StreamState::Body { .. } => next.1 is BodyUnreadable,
        },
{
    assert(next.1@ is SizeUnreadable || next.1@ is BodyUnreadable);
}

/// A size that is not zero is followed by a message of that size, and a size of zero by the
/// next size. The bytes of a size are its digits to the base 256, the lowest first.
pub proof fn lemma_size_read(
    bytes: Vec<u8>,
    size: usize,
    next: (Option<StreamState>, StreamAction),
)
    requires
        call_ensures(StreamState::advance, (StreamState::Size, Some(bytes)), next),
        bytes@.len() == usize::BITS / 8,
        forall|i: int|
            0 <= i < bytes@.len() ==> (#[trigger] bytes@[i]) as int == (size as int / pow(
                256,
                i as nat,
            )) % 256,
    ensures
        size == 0 ==> next.0 == Some(StreamState::Size) && next.1 is EmptyMessage,
        size > 0 ==> next.0 == Some(StreamState::Body { size }) && next.1 is AwaitBody,
{
    lemma_widths();
    lemma_number_of_digits(bytes@, size as nat);
    assert(next.1@ is EmptyMessage || next.1@ is AwaitBody);
}

/// What is read as a message is handed to the server where it is one and rejected with the
/// error where it is none. Either way the next size is read after it.
pub proof fn lemma_body_read(
    size: usize,
    bytes: Vec<u8>,
    r: Result<DeviceUpdateMessage, DeserializationError>,
    next: (Option<StreamState>, StreamAction),
)
    requires
        call_ensures(StreamState::advance, (StreamState::Body { size }, Some(bytes)), next),
        call_ensures(<DeviceUpdateMessage as TryFrom<Vec<u8>>>::try_from, (bytes,), r),
    ensures
        next.0 == Some(StreamState::Size),
        match r {
            Ok(message) => next.1 matches StreamAction::Deliver(delivered) && delivered@
                == message@,
            Err(error) => next.1 matches StreamAction::Reject(reported) && reported@ == error@,
        },
{
    assert(next.1@ is Deliver || next.1@ is Reject);
}

/// The thread of a connection is named after the peer.
pub proof fn lemma_thread_name(peer: &str, name: String)
    requires
        call_ensures(stream_thread_name, (peer,), name),
    ensures
        name@ == "HeimdallStreamThread-"@ + peer@,
{
}

} // verus!
