//! One connection to the server: what is read from it, and what becomes of that.

use crate::bytes::{
    le_bytes, le_value, lemma_le_bytes_len, lemma_le_value_of_le_bytes, lemma_widths, size_width,
    usize_from_le_bytes,
};
use crate::error::{DeserializationError, ErrorView};
use crate::message::{body, decoded, frame, DeviceUpdateMessage, MessageView};
use crate::roundtrip::{lemma_body_len, lemma_message_is_read_back, representable};
use vstd::prelude::*;
use vstd::string::StringExecFns;

verus! {

/// What is to be read next from a connection.
#[derive(Copy, Clone, Debug, PartialEq, Eq, Structural)]
pub enum StreamState {
    /// The size of a message.
    Size,
    /// A message of this size.
    Body { size: usize },
}

/// What becomes of what was read from a connection.
#[derive(Debug, PartialEq, Eq)]
pub enum StreamAction {
    /// A message of the size that was read is to follow.
    AwaitBody,
    /// The size that was read is zero, so no message follows it.
    EmptyMessage,
    /// No size could be read.
    SizeUnreadable,
    /// No message could be read.
    BodyUnreadable,
    /// A message is to be handed to the server.
    Deliver(DeviceUpdateMessage),
    /// What was read is no message.
    Reject(DeserializationError),
}

/// What a `StreamAction` says.
pub enum ActionView {
    AwaitBody,
    EmptyMessage,
    SizeUnreadable,
    BodyUnreadable,
    Deliver(MessageView),
    Reject(ErrorView),
}

impl View for StreamAction {
    type V = ActionView;

    open spec fn view(&self) -> ActionView {
        match self {
            StreamAction::AwaitBody => ActionView::AwaitBody,
            StreamAction::EmptyMessage => ActionView::EmptyMessage,
            StreamAction::SizeUnreadable => ActionView::SizeUnreadable,
            StreamAction::BodyUnreadable => ActionView::BodyUnreadable,
            StreamAction::Deliver(message) => ActionView::Deliver(message@),
            StreamAction::Reject(error) => ActionView::Reject(error@),
        }
    }
}

/// How many bytes are to be read next.
pub open spec fn bytes_wanted(state: StreamState) -> nat {
    match state {
        StreamState::Size => size_width(),
        StreamState::Body { size } => size as nat,
    }
}

/// What is to be read after `read`, if anything, and what becomes of `read`; `None` is a
/// failed read. Only a failed read ends the connection.
pub open spec fn stepped(state: StreamState, read: Option<Seq<u8>>) -> (
    Option<StreamState>,
    ActionView,
) {
    match (state, read) {
        (StreamState::Size, None) => (None, ActionView::SizeUnreadable),
        (StreamState::Size, Some(bytes)) => if le_value(bytes) == 0 {
            (Some(StreamState::Size), ActionView::EmptyMessage)
        } else {
            (Some(StreamState::Body { size: le_value(bytes) as usize }), ActionView::AwaitBody)
        },
        (StreamState::Body { .. }, None) => (None, ActionView::BodyUnreadable),
        (StreamState::Body { .. }, Some(bytes)) => (
            Some(StreamState::Size),
            match decoded(bytes) {
                Ok(message) => ActionView::Deliver(message),
                Err(error) => ActionView::Reject(error),
            },
        ),
    }
}

/// The view of what a read gave.
pub open spec fn read_view(read: Option<Vec<u8>>) -> Option<Seq<u8>> {
    match read {
        Some(bytes) => Some(bytes@),
        None => None,
    }
}

impl StreamState {
    /// How many bytes are to be read next.
    pub fn wanted(&self) -> (n: usize)
        ensures
            n == bytes_wanted(*self),
    {
        match self {
            StreamState::Size => (usize::BITS / 8) as usize,
            StreamState::Body { size } => *size,
        }
    }

    /// What is to be read after `read`, if anything, and what becomes of `read`: all the
    /// bytes that were wanted, or `None` where reading them failed.
    pub fn advance(self, read: Option<Vec<u8>>) -> (next: (Option<StreamState>, StreamAction))
        requires
            read matches Some(bytes) ==> bytes@.len() == bytes_wanted(self),
        ensures
            (next.0, next.1@) == stepped(self, read_view(read)),
    {
        match self {
            StreamState::Size => match read {
                None => (None, StreamAction::SizeUnreadable),
                Some(bytes) => {
                    let size = usize_from_le_bytes(&bytes);
                    if size == 0 {
                        (Some(StreamState::Size), StreamAction::EmptyMessage)
                    } else {
                        (Some(StreamState::Body { size }), StreamAction::AwaitBody)
                    }
                },
            },
            StreamState::Body { .. } => match read {
                None => (None, StreamAction::BodyUnreadable),
                Some(bytes) => match DeviceUpdateMessage::try_from(bytes) {
                    Ok(message) => (Some(StreamState::Size), StreamAction::Deliver(message)),
                    Err(error) => (Some(StreamState::Size), StreamAction::Reject(error)),
                },
            },
        }
    }
}

/// The name of the thread that reads from the connection of this peer.
pub fn stream_thread_name(peer: &str) -> (name: String)
    ensures
        name@ == "HeimdallStreamThread-"@ + peer@,
{
    let mut name = "HeimdallStreamThread-".to_owned();
    name.append(peer);
    name
}

/// The message that an action hands to the server.
pub open spec fn delivered(action: ActionView) -> Seq<MessageView> {
    match action {
        ActionView::Deliver(message) => seq![message],
        _ => Seq::empty(),
    }
}

/// The messages that are handed to the server of a connection over which `input` comes and
/// then nothing more.
pub open spec fn deliveries(state: StreamState, input: Seq<u8>) -> Seq<MessageView>
    decreases input.len(),
{
    let n = bytes_wanted(state);
    if n == 0 || input.len() < n {
        delivered(stepped(state, None).1)
    } else {
        let (next, action) = stepped(state, Some(input.take(n as int)));
        delivered(action) + match next {
            Some(next) => deliveries(next, input.skip(n as int)),
            None => Seq::empty(),
        }
    }
}

/// Messages as they are sent, one after the other.
pub open spec fn frames(messages: Seq<MessageView>) -> Seq<u8>
    decreases messages.len(),
{
    if messages.len() == 0 {
        Seq::empty()
    } else {
        frame(messages[0]) + frames(messages.drop_first())
    }
}

/// After a size that is not zero, that many bytes are read as a message.
proof fn lemma_sized_input(bytes: Seq<u8>, rest: Seq<u8>)
    requires
        0 < bytes.len() <= usize::MAX,
    ensures
        deliveries(StreamState::Size, le_bytes(bytes.len(), size_width()) + bytes + rest)
            == delivered(stepped(StreamState::Body { size: bytes.len() as usize }, Some(bytes)).1)
            + deliveries(StreamState::Size, rest),
{
    broadcast use lemma_le_bytes_len;

    lemma_widths();
    let size = le_bytes(bytes.len(), size_width());
    lemma_le_value_of_le_bytes(bytes.len(), size_width());
    let input = size + bytes + rest;
    let tail = bytes + rest;
    assert(input.take(size.len() as int) =~= size);
    assert(input.skip(size.len() as int) =~= tail);
    assert(tail.take(bytes.len() as int) =~= bytes);
    assert(tail.skip(bytes.len() as int) =~= rest);
    let state = StreamState::Body { size: bytes.len() as usize };
    assert(stepped(StreamState::Size, Some(size)) == (Some(state), ActionView::AwaitBody));
    assert(deliveries(StreamState::Size, input) =~= deliveries(state, tail));
}

/// The messages that a peer sends are handed to the server, all of them, each once and in
/// the order in which they were sent.
pub proof fn lemma_messages_are_delivered(messages: Seq<MessageView>, rest: Seq<u8>)
    requires
        forall|i: int| 0 <= i < messages.len() ==> representable(#[trigger] messages[i]),
    ensures
        deliveries(StreamState::Size, frames(messages) + rest) == messages + deliveries(
            StreamState::Size,
            rest,
        ),
    decreases messages.len(),
{
    if messages.len() == 0 {
        assert(frames(messages) + rest =~= rest);
        assert(messages + deliveries(StreamState::Size, rest) =~= deliveries(
            StreamState::Size,
            rest,
        ));
    } else {
        let m = messages[0];
        let later = messages.drop_first();
        assert forall|i: int| 0 <= i < later.len() implies representable(#[trigger] later[i]) by {
            assert(later[i] == messages[i + 1]);
        }
        lemma_messages_are_delivered(later, rest);
        lemma_body_len(m);
        lemma_sized_input(body(m), frames(later) + rest);
        lemma_message_is_read_back(m, Seq::empty());
        assert(body(m) + Seq::empty() =~= body(m));
        assert(frames(messages) + rest =~= frame(m) + (frames(later) + rest));
        assert(seq![m] + (later + deliveries(StreamState::Size, rest)) =~= messages + deliveries(
            StreamState::Size,
            rest,
        ));
    }
}

/// Bytes that come later take back no message that was handed to the server before.
pub proof fn lemma_later_bytes_retract_nothing(state: StreamState, input: Seq<u8>, later: Seq<u8>)
    ensures
        deliveries(state, input).is_prefix_of(deliveries(state, input + later)),
    decreases input.len(),
{
    let n = bytes_wanted(state) as int;
    if 0 < n <= input.len() {
        let all = input + later;
        assert(all.take(n) =~= input.take(n));
        assert(all.skip(n) =~= input.skip(n) + later);
        let (next, action) = stepped(state, Some(input.take(n)));
        if let Some(next) = next {
            lemma_later_bytes_retract_nothing(next, input.skip(n), later);
        }
    }
}

/// Bytes of some size that are no message are passed over, and what follows is read as if
/// they had not come.
pub proof fn lemma_garbage_is_passed_over(garbage: Seq<u8>, rest: Seq<u8>)
    requires
        0 < garbage.len() <= usize::MAX,
        decoded(garbage) is Err,
    ensures
        deliveries(StreamState::Size, le_bytes(garbage.len(), size_width()) + garbage + rest)
            == deliveries(StreamState::Size, rest),
{
    lemma_sized_input(garbage, rest);
    assert(Seq::<MessageView>::empty() + deliveries(StreamState::Size, rest) =~= deliveries(
        StreamState::Size,
        rest,
    ));
}

/// A size of zero is passed over, and what follows is read as if it had not come.
pub proof fn lemma_empty_message_is_passed_over(rest: Seq<u8>)
    ensures
        deliveries(StreamState::Size, le_bytes(0, size_width()) + rest) == deliveries(
            StreamState::Size,
            rest,
        ),
{
    broadcast use lemma_le_bytes_len;

    lemma_widths();
    let size = le_bytes(0, size_width());
    lemma_le_value_of_le_bytes(0, size_width());
    let input = size + rest;
    assert(input.take(size.len() as int) =~= size);
    assert(input.skip(size.len() as int) =~= rest);
    assert(deliveries(StreamState::Size, input) =~= deliveries(StreamState::Size, rest));
}

/// Of a message that is cut off nothing is handed to the server.
pub proof fn lemma_cut_off_message_is_not_delivered(m: MessageView, len: int)
    requires
        representable(m),
        0 <= len < frame(m).len(),
    ensures
        deliveries(StreamState::Size, frame(m).take(len)) == Seq::<MessageView>::empty(),
{
    broadcast use lemma_le_bytes_len;

    lemma_widths();
    let input = frame(m).take(len);
    let size = le_bytes(body(m).len(), size_width());
    lemma_le_value_of_le_bytes(body(m).len(), size_width());
    lemma_body_len(m);
    if len >= size.len() {
        assert(input.take(size.len() as int) =~= size);
        let state = StreamState::Body { size: body(m).len() as usize };
        assert(stepped(StreamState::Size, Some(size)) == (Some(state), ActionView::AwaitBody));
        assert(deliveries(state, input.skip(size.len() as int)) =~= Seq::<MessageView>::empty());
    }
}

} // verus!
