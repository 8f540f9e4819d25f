//! What goes over the connections of a device that sends one message after the other, where
//! any of them may fail.

use crate::client::{begun, greeting, lemma_frames_join, run, UpdateOutcome};
use crate::message::{frame, MessageView};
use crate::roundtrip::representable;
use crate::stream::{
    deliveries, frames, lemma_cut_off_message_is_not_delivered, lemma_messages_are_delivered,
    StreamState,
};
use vstd::prelude::*;

verus! {

/// A message that is to be sent, which of the things to be done for it are done and which
/// fail, and how many bytes are written when writing fails.
pub struct Call {
    pub message: MessageView,
    pub replies: Seq<bool>,
    pub cut: int,
}

/// How a call ends.
pub open spec fn outcome(connected: bool, device_name: Seq<char>, call: Call) -> Option<
    UpdateOutcome,
> {
    run(begun(connected, device_name, call.message), call.replies, call.cut).1
}

/// What a call writes.
pub open spec fn written(connected: bool, device_name: Seq<char>, call: Call) -> Seq<u8> {
    run(begun(connected, device_name, call.message), call.replies, call.cut).0
}

/// The call comes to an end, and where writing fails not all is written.
pub open spec fn possible(connected: bool, device_name: Seq<char>, call: Call) -> bool {
    match outcome(connected, device_name, call) {
        Some(UpdateOutcome::Sent) => true,
        Some(UpdateOutcome::ConnectFailed) => true,
        Some(UpdateOutcome::CreateFailed) => 0 <= call.cut < frame(greeting(device_name)).len(),
        Some(UpdateOutcome::UpdateFailed) => 0 <= call.cut < frame(call.message).len(),
        None => false,
    }
}

/// Whether there is a connection after these calls, of a device that began without one.
pub open spec fn connected_after(device_name: Seq<char>, calls: Seq<Call>) -> bool
    decreases calls.len(),
{
    calls.len() > 0 && outcome(
        connected_after(device_name, calls.drop_last()),
        device_name,
        calls.last(),
    ) == Some(UpdateOutcome::Sent)
}

/// Each of the calls is possible where it stands.
pub open spec fn all_possible(device_name: Seq<char>, calls: Seq<Call>) -> bool
    decreases calls.len(),
{
    calls.len() > 0 ==> {
        &&& all_possible(device_name, calls.drop_last())
        &&& possible(connected_after(device_name, calls.drop_last()), device_name, calls.last())
    }
}

/// The calls of each connection that was opened, of a device that began without one. A call
/// that could open no connection belongs to none.
pub open spec fn by_connection(device_name: Seq<char>, calls: Seq<Call>) -> Seq<Seq<Call>>
    decreases calls.len(),
{
    if calls.len() == 0 {
        Seq::empty()
    } else {
        let before = by_connection(device_name, calls.drop_last());
        let call = calls.last();
        if connected_after(device_name, calls.drop_last()) {
            before.drop_last().push(before.last().push(call))
        } else if outcome(false, device_name, call) == Some(UpdateOutcome::ConnectFailed) {
            before
        } else {
            before.push(seq![call])
        }
    }
}

/// The calls can be those of one connection: the first opens it, and it is given up with the
/// first failure.
pub open spec fn one_connection(device_name: Seq<char>, calls: Seq<Call>) -> bool {
    &&& calls.len() > 0
    &&& forall|i: int|
        0 <= i < calls.len() ==> possible(i > 0, device_name, #[trigger] calls[i])
    &&& forall|i: int|
        0 <= i < calls.len() - 1 ==> outcome(i > 0, device_name, #[trigger] calls[i]) == Some(
            UpdateOutcome::Sent,
        )
    &&& outcome(false, device_name, calls[0]) != Some(UpdateOutcome::ConnectFailed)
}

/// How the last of the calls of one connection ends.
pub open spec fn ending(device_name: Seq<char>, calls: Seq<Call>) -> Option<UpdateOutcome> {
    outcome(calls.len() > 1, device_name, calls.last())
}

/// What the calls of one connection write, one after the other.
pub open spec fn carried_by(device_name: Seq<char>, calls: Seq<Call>) -> Seq<u8>
    decreases calls.len(),
{
    if calls.len() == 0 {
        Seq::empty()
    } else {
        carried_by(device_name, calls.drop_last()) + written(
            calls.len() > 1,
            device_name,
            calls.last(),
        )
    }
}

/// The messages of these calls.
pub open spec fn messages(calls: Seq<Call>) -> Seq<MessageView> {
    calls.map_values(|call: Call| call.message)
}

/// The messages that the calls of one connection sent: all of them, or all but the last.
pub open spec fn reports(device_name: Seq<char>, calls: Seq<Call>) -> Seq<MessageView> {
    if ending(device_name, calls) == Some(UpdateOutcome::Sent) {
        messages(calls)
    } else {
        messages(calls.drop_last())
    }
}

/// What the calls of one connection wrote whole: the greeting, unless that failed, and then
/// the messages that were sent.
pub open spec fn whole(device_name: Seq<char>, calls: Seq<Call>) -> Seq<MessageView> {
    if ending(device_name, calls) == Some(UpdateOutcome::CreateFailed) {
        Seq::empty()
    } else {
        seq![greeting(device_name)] + reports(device_name, calls)
    }
}

/// What the calls of one connection wrote of a message that was not written whole.
pub open spec fn remnant(device_name: Seq<char>, calls: Seq<Call>) -> Seq<u8> {
    match ending(device_name, calls) {
        Some(UpdateOutcome::CreateFailed) => frame(greeting(device_name)).take(calls.last().cut),
        Some(UpdateOutcome::UpdateFailed) => frame(calls.last().message).take(calls.last().cut),
        _ => Seq::empty(),
    }
}

/// The messages of the calls that ended well, of a device that began without a connection.
pub open spec fn sent(device_name: Seq<char>, calls: Seq<Call>) -> Seq<MessageView>
    decreases calls.len(),
{
    if calls.len() == 0 {
        Seq::empty()
    } else {
        let before = sent(device_name, calls.drop_last());
        if connected_after(device_name, calls) {
            before.push(calls.last().message)
        } else {
            before
        }
    }
}

/// What one call writes, by how it ends.
proof fn lemma_written(connected: bool, device_name: Seq<char>, call: Call)
    requires
        possible(connected, device_name, call),
    ensures
        ({
            let wrote = written(connected, device_name, call);
            let hello = if connected {
                Seq::empty()
            } else {
                frame(greeting(device_name))
            };
            match outcome(connected, device_name, call)->0 {
                UpdateOutcome::Sent => wrote == hello + frame(call.message),
                UpdateOutcome::ConnectFailed => !connected && wrote == Seq::<u8>::empty(),
                UpdateOutcome::CreateFailed => !connected && wrote == frame(
                    greeting(device_name),
                ).take(call.cut),
                UpdateOutcome::UpdateFailed => wrote == hello + frame(call.message).take(call.cut),
            }
        }),
{
    reveal_with_fuel(run, 4);
    let message = frame(call.message);
    let hello = frame(greeting(device_name));
    let none = Seq::<u8>::empty();
    assert(message + none =~= message);
    assert(none + message =~= message);
    assert(none + message.take(call.cut) =~= message.take(call.cut));
    assert(hello.take(call.cut) + none =~= hello.take(call.cut));
    assert(message.take(call.cut) + none =~= message.take(call.cut));
}

/// What one connection carries, whatever fails: the messages that were written whole, the
/// greeting first, and then what was written of the one with which it was given up.
pub proof fn lemma_carried_by_one_connection(device_name: Seq<char>, calls: Seq<Call>)
    requires
        one_connection(device_name, calls),
    ensures
        carried_by(device_name, calls) == frames(whole(device_name, calls)) + remnant(
            device_name,
            calls,
        ),
    decreases calls.len(),
{
    let hello = seq![greeting(device_name)];
    let call = calls.last();
    let before = calls.drop_last();
    assert(possible(calls.len() > 1, device_name, calls[calls.len() - 1]));
    lemma_written(calls.len() > 1, device_name, call);
    lemma_frame_alone(greeting(device_name));
    lemma_frame_alone(call.message);
    assert(messages(calls) =~= messages(before).push(call.message));
    lemma_frames_join(hello + messages(before), seq![call.message]);
    assert(hello + messages(before) + seq![call.message] =~= hello + messages(calls));
    if calls.len() == 1 {
        assert(carried_by(device_name, before) =~= Seq::<u8>::empty());
        assert(hello + messages(before) =~= hello);
        assert(frames(Seq::<MessageView>::empty()) =~= Seq::<u8>::empty());
    } else {
        assert forall|i: int| 0 <= i < before.len() implies possible(
            i > 0,
            device_name,
            #[trigger] before[i],
        ) && outcome(i > 0, device_name, before[i]) == Some(UpdateOutcome::Sent) by {
            assert(calls[i] == before[i]);
        }
        lemma_carried_by_one_connection(device_name, before);
        assert(ending(device_name, before) == Some(UpdateOutcome::Sent)) by {
            assert(before[before.len() - 1] == before.last());
        }
    }
    assert(carried_by(device_name, calls) =~= frames(whole(device_name, calls)) + remnant(
        device_name,
        calls,
    ));
}

/// One message alone is sent as its frame.
proof fn lemma_frame_alone(m: MessageView)
    ensures
        frames(seq![m]) == frame(m),
{
    reveal_with_fuel(frames, 2);
    assert(seq![m].drop_first() =~= Seq::<MessageView>::empty());
    assert(frames(seq![m]) =~= frame(m));
}

/// The server is handed what a connection carried whole, and nothing else, whatever fails.
pub proof fn lemma_server_is_handed_what_is_whole(device_name: Seq<char>, calls: Seq<Call>)
    requires
        one_connection(device_name, calls),
        representable(greeting(device_name)),
        forall|i: int| 0 <= i < calls.len() ==> representable((#[trigger] calls[i]).message),
    ensures
        deliveries(StreamState::Size, carried_by(device_name, calls)) == whole(device_name, calls),
{
    let all = whole(device_name, calls);
    let rest = remnant(device_name, calls);
    lemma_carried_by_one_connection(device_name, calls);
    assert forall|i: int| 0 <= i < all.len() implies representable(#[trigger] all[i]) by {
        if i > 0 {
            assert(all[i] == calls[i - 1].message);
        }
    }
    lemma_messages_are_delivered(all, rest);
    let last = calls[calls.len() - 1];
    assert(possible(calls.len() > 1, device_name, last));
    assert(deliveries(StreamState::Size, rest) == Seq::<MessageView>::empty()) by {
        match ending(device_name, calls) {
            Some(UpdateOutcome::CreateFailed) => {
                lemma_cut_off_message_is_not_delivered(greeting(device_name), last.cut);
            },
            Some(UpdateOutcome::UpdateFailed) => {
                lemma_cut_off_message_is_not_delivered(last.message, last.cut);
            },
            _ => {
                crate::bytes::lemma_widths();
            },
        }
    }
    assert(all + Seq::<MessageView>::empty() =~= all);
}

/// A connection is used until something fails on it, and given up then: there is at most one
/// at a time, and it is the one that was opened last.
pub proof fn lemma_connection_is_used_until_a_failure(device_name: Seq<char>, calls: Seq<Call>)
    requires
        all_possible(device_name, calls),
    ensures
        forall|c: int|
            0 <= c < by_connection(device_name, calls).len() ==> one_connection(
                device_name,
                #[trigger] by_connection(device_name, calls)[c],
            ),
        forall|c: int|
            0 <= c < by_connection(device_name, calls).len() - 1 ==> ending(
                device_name,
                #[trigger] by_connection(device_name, calls)[c],
            ) != Some(UpdateOutcome::Sent),
        connected_after(device_name, calls) <==> by_connection(device_name, calls).len() > 0
            && ending(device_name, by_connection(device_name, calls).last()) == Some(
            UpdateOutcome::Sent,
        ),
    decreases calls.len(),
{
    if calls.len() > 0 {
        let earlier = calls.drop_last();
        let before = by_connection(device_name, earlier);
        let call = calls.last();
        lemma_connection_is_used_until_a_failure(device_name, earlier);
        if connected_after(device_name, earlier) {
            let used = before.last();
            assert(one_connection(device_name, before[before.len() - 1]));
            assert(used[used.len() - 1] == used.last());
            assert forall|i: int| 0 <= i < used.push(call).len() implies possible(
                i > 0,
                device_name,
                #[trigger] used.push(call)[i],
            ) by {
                if i < used.len() {
                    assert(used.push(call)[i] == used[i]);
                }
            }
            assert forall|i: int| 0 <= i < used.push(call).len() - 1 implies outcome(
                i > 0,
                device_name,
                #[trigger] used.push(call)[i],
            ) == Some(UpdateOutcome::Sent) by {
                assert(used.push(call)[i] == used[i]);
            }
            assert(used.push(call)[0] == used[0]);
            assert(one_connection(device_name, used.push(call)));
        } else if outcome(false, device_name, call) != Some(UpdateOutcome::ConnectFailed) {
            assert(one_connection(device_name, seq![call]));
        }
    }
}

/// The messages that the connections carry whole are, greetings apart, those of the calls
/// that ended well, each once and in the order of the calls.
pub proof fn lemma_connections_carry_what_is_sent(device_name: Seq<char>, calls: Seq<Call>)
    requires
        all_possible(device_name, calls),
    ensures
        by_connection(device_name, calls).map_values(
            |c: Seq<Call>| reports(device_name, c),
        ).flatten_alt() == sent(device_name, calls),
    decreases calls.len(),
{
    let reported = |c: Seq<Call>| reports(device_name, c);
    let after = by_connection(device_name, calls);
    if calls.len() > 0 {
        let earlier = calls.drop_last();
        let before = by_connection(device_name, earlier);
        let call = calls.last();
        lemma_connections_carry_what_is_sent(device_name, earlier);
        lemma_connection_is_used_until_a_failure(device_name, earlier);
        if connected_after(device_name, earlier) {
            let used = before.last();
            assert(one_connection(device_name, before[before.len() - 1]));
            assert(used.push(call).drop_last() =~= used);
            assert(messages(used.push(call)) =~= messages(used).push(call.message));
            assert(after.map_values(reported).drop_last() =~= before.map_values(
                reported,
            ).drop_last());
            assert(after.map_values(reported).flatten_alt() =~= sent(device_name, calls));
        } else if outcome(false, device_name, call) != Some(UpdateOutcome::ConnectFailed) {
            assert(messages(seq![call]) =~= seq![call.message]);
            assert(messages(seq![call].drop_last()) =~= Seq::<MessageView>::empty());
            assert(after.map_values(reported).drop_last() =~= before.map_values(reported));
            assert(after.map_values(reported).flatten_alt() =~= sent(device_name, calls));
        }
    } else {
        assert(after.map_values(reported) =~= Seq::<Seq<MessageView>>::empty());
    }
}

} // verus!
