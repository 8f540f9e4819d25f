//! The channels of `crossbeam_channel` over which messages come in and listeners are told of
//! the devices.

use crate::device::{state_view, DeviceView, HeimdallState};
use crate::message::{DeviceUpdateMessage, MessageView};
use crate::server::messages_view;
use crossbeam_channel::{Receiver, Sender};
use vstd::prelude::*;

verus! {

/// The sending half of a channel.
#[verifier::external_type_specification]
#[verifier::external_body]
#[verifier::reject_recursive_types(T)]
pub struct ExSender<T>(crossbeam_channel::Sender<T>);

/// The receiving half of a channel.
#[verifier::external_type_specification]
#[verifier::external_body]
#[verifier::reject_recursive_types(T)]
pub struct ExReceiver<T>(crossbeam_channel::Receiver<T>);

/// What has been handed to `send` through this handle, in order, and of each whether the
/// channel took it.
pub uninterp spec fn handed_over(sender: Sender<HeimdallState>) -> Seq<(Seq<DeviceView>, bool)>;

/// The channel that this handle sends to.
pub uninterp spec fn target(sender: Sender<HeimdallState>) -> int;

/// The channel that this handle receives from.
pub uninterp spec fn source(receiver: Receiver<HeimdallState>) -> int;

/// The answers that `is_empty` has given through this handle, in order.
pub uninterp spec fn found_empty(receiver: Receiver<DeviceUpdateMessage>) -> Seq<bool>;

/// What each `try_iter` through this handle has taken from the channel, in order.
pub uninterp spec fn drained(receiver: Receiver<DeviceUpdateMessage>) -> Seq<Seq<MessageView>>;

/// `crossbeam_channel::unbounded`: the two halves of one new channel, to which nothing has
/// been handed over. No handle that was there before, such as `others`, sends to it.
#[verifier::external_body]
pub(crate) fn unbounded(others: &Vec<Sender<HeimdallState>>) -> (halves: (
    Sender<HeimdallState>,
    Receiver<HeimdallState>,
))
    ensures
        handed_over(halves.0) == Seq::<(Seq<DeviceView>, bool)>::empty(),
        target(halves.0) == source(halves.1),
        forall|i: int|
            0 <= i < others@.len() ==> target(#[trigger] others@[i]) != target(halves.0),
{
    let _ = others;
    crossbeam_channel::unbounded()
}

/// `crossbeam_channel::Sender::send`: hands a state to the channel, and says whether the
/// channel took it. It does so while there is a receiving half of the channel, such as
/// `held` where that is given; otherwise the answer rests with whoever holds the receiving
/// half, and is left open.
#[verifier::external_body]
pub(crate) fn send(
    sender: &mut Sender<HeimdallState>,
    state: HeimdallState,
    held: Option<&Receiver<HeimdallState>>,
) -> (taken: bool)
    ensures
        held matches Some(receiver) ==> source(*receiver) == target(*old(sender)) ==> taken,
        handed_over(*final(sender)) == handed_over(*old(sender)).push((state_view(state@), taken)),
        target(*final(sender)) == target(*old(sender)),
{
    let _ = held;
    sender.send(state).is_ok()
}

/// `crossbeam_channel::Receiver::is_empty`: whether nothing waits in the channel. That
/// rests with whoever holds the sending half, so which answer comes is left open; it takes
/// nothing from the channel.
#[verifier::external_body]
pub(crate) fn is_empty(receiver: &mut Receiver<DeviceUpdateMessage>) -> (empty: bool)
    ensures
        found_empty(*final(receiver)) == found_empty(*old(receiver)).push(empty),
        drained(*final(receiver)) == drained(*old(receiver)),
{
    receiver.is_empty()
}

/// `crossbeam_channel::Receiver::try_iter`: takes what waits in the channel, oldest first,
/// and hands out all of it. What that is rests with whoever holds the sending half, and is
/// left open. It returns once it has found the channel empty.
#[verifier::external_body]
pub(crate) fn take_waiting(receiver: &mut Receiver<DeviceUpdateMessage>) -> (batch: Vec<
    DeviceUpdateMessage,
>)
    ensures
        found_empty(*final(receiver)) == found_empty(*old(receiver)),
        drained(*final(receiver)) == drained(*old(receiver)).push(messages_view(batch@)),
{
    receiver.try_iter().collect()
}

} // verus!
