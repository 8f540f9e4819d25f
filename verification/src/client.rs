//! How a device reports to the server: over a connection that is opened when it is needed,
//! and on which the device first says that it is there.

use crate::device::{new_device, DeviceView};
use crate::message::{frame, ConnectionType, DeviceUpdateMessage, MessageView};
use crate::roundtrip::representable;
use crate::server::{updated, updated_by_all};
use crate::server_laws::lemma_announced_then_reported;
use crate::stream::{deliveries, frames, lemma_messages_are_delivered, StreamState};
use vstd::prelude::*;

verus! {

/// How many milliseconds a device waits for a connection to the server.
pub const DELAY_MS: u64 = 1500;

/// What is left to be done of sending one message.
#[derive(Debug, PartialEq, Eq)]
pub enum UpdateJob {
    /// A connection is being opened, over which the device is to say that it is there and
    /// then to send the message.
    Connecting { device_name: String, message: DeviceUpdateMessage },
    /// The device is saying that it is there, and is then to send the message.
    Greeting { message: DeviceUpdateMessage },
    /// The message is being sent.
    Reporting,
}

/// How sending one message ended.
#[derive(Copy, Clone, Debug, PartialEq, Eq, Structural)]
pub enum UpdateOutcome {
    /// The message was sent.
    Sent,
    /// No connection could be opened.
    ConnectFailed,
    /// The device could not say that it is there.
    CreateFailed,
    /// The message could not be sent.
    UpdateFailed,
}

/// What is to be done next of sending one message.
#[derive(Debug, PartialEq, Eq)]
pub enum UpdateStep {
    /// A connection is to be opened.
    Connect(UpdateJob),
    /// These bytes are to be written to the connection.
    Write(UpdateJob, Vec<u8>),
    /// Nothing.
    Finished(UpdateOutcome),
}

/// What an `UpdateJob` says.
pub enum JobView {
    Connecting { device_name: Seq<char>, message: MessageView },
    Greeting { message: MessageView },
    Reporting,
}

/// What an `UpdateStep` says.
pub enum StepView {
    Connect(JobView),
    Write(JobView, Seq<u8>),
    Finished(UpdateOutcome),
}

impl View for UpdateJob {
    type V = JobView;

    open spec fn view(&self) -> JobView {
        match self {
            UpdateJob::Connecting { device_name, message } => JobView::Connecting {
                device_name: device_name@,
                message: message@,
            },
            UpdateJob::Greeting { message } => JobView::Greeting { message: message@ },
            UpdateJob::Reporting => JobView::Reporting,
        }
    }
}

impl View for UpdateStep {
    type V = StepView;

    open spec fn view(&self) -> StepView {
        match self {
            UpdateStep::Connect(job) => StepView::Connect(job@),
            UpdateStep::Write(job, bytes) => StepView::Write(job@, bytes@),
            UpdateStep::Finished(outcome) => StepView::Finished(*outcome),
        }
    }
}

/// What a device says when a connection is new: that it is there, without a wire.
pub open spec fn greeting(device_name: Seq<char>) -> MessageView {
    MessageView::Create { name: device_name, connection: ConnectionType::Wireless }
}

/// What is to be done first of sending a message.
pub open spec fn begun(connected: bool, device_name: Seq<char>, message: MessageView) -> StepView {
    if connected {
        StepView::Write(JobView::Reporting, frame(message))
    } else {
        StepView::Connect(JobView::Connecting { device_name, message })
    }
}

/// What is to be done next, now that the last thing to do was done or has failed.
pub open spec fn continued(job: JobView, done: bool) -> StepView {
    match job {
        JobView::Connecting { device_name, message } => if done {
            StepView::Write(JobView::Greeting { message }, frame(greeting(device_name)))
        } else {
            StepView::Finished(UpdateOutcome::ConnectFailed)
        },
        JobView::Greeting { message } => if done {
            StepView::Write(JobView::Reporting, frame(message))
        } else {
            StepView::Finished(UpdateOutcome::CreateFailed)
        },
        JobView::Reporting => if done {
            StepView::Finished(UpdateOutcome::Sent)
        } else {
            StepView::Finished(UpdateOutcome::UpdateFailed)
        },
    }
}

/// What is to be done first of sending a message, over the connection that is there or over
/// a new one.
pub fn send_update(connected: bool, device_name: &String, message: DeviceUpdateMessage) -> (step:
    UpdateStep)
    ensures
        step@ == begun(connected, device_name@, message@),
{
    if connected {
        UpdateStep::Write(UpdateJob::Reporting, message.into())
    } else {
        UpdateStep::Connect(UpdateJob::Connecting { device_name: device_name.clone(), message })
    }
}

impl UpdateJob {
    /// What is to be done next, now that the last thing to do was done or has failed.
    pub fn advance(self, done: bool) -> (step: UpdateStep)
        ensures
            step@ == continued(self@, done),
    {
        match self {
            UpdateJob::Connecting { device_name, message } => {
                if done {
                    let greeting = DeviceUpdateMessage::Create {
                        name: device_name,
                        connection: ConnectionType::Wireless,
                    };
                    UpdateStep::Write(UpdateJob::Greeting { message }, greeting.into())
                } else {
                    UpdateStep::Finished(UpdateOutcome::ConnectFailed)
                }
            },
            UpdateJob::Greeting { message } => {
                if done {
                    UpdateStep::Write(UpdateJob::Reporting, message.into())
                } else {
                    UpdateStep::Finished(UpdateOutcome::CreateFailed)
                }
            },
            UpdateJob::Reporting => {
                if done {
                    UpdateStep::Finished(UpdateOutcome::Sent)
                } else {
                    UpdateStep::Finished(UpdateOutcome::UpdateFailed)
                }
            },
        }
    }
}

impl UpdateOutcome {
    /// Whether there is a connection afterwards. One on which anything failed is given up.
    pub fn connected(&self) -> (kept: bool)
        ensures
            kept == (*self is Sent),
    {
        match self {
            UpdateOutcome::Sent => true,
            _ => false,
        }
    }
}

/// What is written to the connection from this step on, where each thing to do is done or
/// fails as `replies` says, and how it ends. Of what is to be written when writing fails,
/// the first `cut` bytes are.
pub open spec fn run(step: StepView, replies: Seq<bool>, cut: int) -> (
    Seq<u8>,
    Option<UpdateOutcome>,
)
    decreases replies.len(),
{
    match step {
        StepView::Finished(outcome) => (Seq::empty(), Some(outcome)),
        StepView::Connect(job) => if replies.len() == 0 {
            (Seq::empty(), None)
        } else {
            run(continued(job, replies[0]), replies.drop_first(), cut)
        },
        StepView::Write(job, bytes) => if replies.len() == 0 {
            (Seq::empty(), None)
        } else {
            let (later, outcome) = run(continued(job, replies[0]), replies.drop_first(), cut);
            (
                if replies[0] {
                    bytes + later
                } else {
                    bytes.take(cut) + later
                },
                outcome,
            )
        },
    }
}

/// Nothing fails.
pub open spec fn all_done(n: nat) -> Seq<bool> {
    Seq::new(n, |i: int| true)
}

/// A message is sent exactly where nothing fails: three things are to be done without a
/// connection, and one with it.
pub proof fn lemma_sent_where_nothing_fails(
    connected: bool,
    device_name: Seq<char>,
    message: MessageView,
    replies: Seq<bool>,
    cut: int,
)
    requires
        replies.len() == if connected {
            1nat
        } else {
            3nat
        },
    ensures
        run(begun(connected, device_name, message), replies, cut).1 is Some,
        run(begun(connected, device_name, message), replies, cut).1 == Some(UpdateOutcome::Sent)
            <==> replies == all_done(replies.len()),
{
    reveal_with_fuel(run, 4);
    assert(replies =~= all_done(replies.len()) <==> forall|i: int|
        0 <= i < replies.len() ==> #[trigger] replies[i]);
    if !connected {
        assert(replies.drop_first()[0] == replies[1]);
        assert(replies.drop_first().drop_first()[0] == replies[2]);
    }
}

/// Nothing is written where there is no connection and none can be opened.
pub proof fn lemma_nothing_is_written_without_connection(
    device_name: Seq<char>,
    message: MessageView,
    replies: Seq<bool>,
    cut: int,
)
    requires
        replies.len() > 0,
        !replies[0],
    ensures
        run(begun(false, device_name, message), replies, cut) == (
            Seq::<u8>::empty(),
            Some(UpdateOutcome::ConnectFailed),
        ),
{
    reveal_with_fuel(run, 2);
}

/// What is written where nothing fails: the message alone over a connection that is there,
/// and over a new one the greeting before it.
pub proof fn lemma_written_where_nothing_fails(
    device_name: Seq<char>,
    message: MessageView,
    cut: int,
)
    ensures
        run(begun(true, device_name, message), all_done(1), cut) == (
            frames(seq![message]),
            Some(UpdateOutcome::Sent),
        ),
        run(begun(false, device_name, message), all_done(3), cut) == (
            frames(seq![greeting(device_name), message]),
            Some(UpdateOutcome::Sent),
        ),
{
    reveal_with_fuel(run, 4);
    reveal_with_fuel(frames, 3);
    assert(seq![greeting(device_name), message].drop_first() =~= seq![message]);
    assert(seq![message].drop_first() =~= Seq::<MessageView>::empty());
    assert(run(begun(true, device_name, message), all_done(1), cut).0 =~= frames(seq![message]));
    assert(all_done(3).drop_first() =~= all_done(2));
    assert(all_done(2).drop_first() =~= all_done(1));
    assert(all_done(1).drop_first() =~= all_done(0));
    assert(run(begun(false, device_name, message), all_done(3), cut).0 =~= frames(
        seq![greeting(device_name), message],
    ));
}

/// What is written over one connection, from the time it is new, by sending these messages
/// one after the other without a failure.
pub open spec fn carried(device_name: Seq<char>, messages: Seq<MessageView>) -> Seq<u8>
    decreases messages.len(),
{
    if messages.len() == 0 {
        Seq::empty()
    } else if messages.len() == 1 {
        run(begun(false, device_name, messages[0]), all_done(3), 0).0
    } else {
        carried(device_name, messages.drop_last()) + run(
            begun(true, device_name, messages.last()),
            all_done(1),
            0,
        ).0
    }
}

/// Messages are sent one after the other as they would be in two parts.
pub proof fn lemma_frames_join(first: Seq<MessageView>, second: Seq<MessageView>)
    ensures
        frames(first + second) == frames(first) + frames(second),
    decreases first.len(),
{
    if first.len() == 0 {
        assert(first + second =~= second);
        assert(frames(first) + frames(second) =~= frames(second));
    } else {
        lemma_frames_join(first.drop_first(), second);
        assert((first + second).drop_first() =~= first.drop_first() + second);
        assert(frames(first + second) =~= frames(first) + frames(second));
    }
}

/// Every connection carries the greeting first, and then the messages in their order.
pub proof fn lemma_connection_begins_with_greeting(
    device_name: Seq<char>,
    messages: Seq<MessageView>,
)
    requires
        messages.len() > 0,
    ensures
        carried(device_name, messages) == frames(seq![greeting(device_name)] + messages),
    decreases messages.len(),
{
    if messages.len() == 1 {
        lemma_written_where_nothing_fails(device_name, messages[0], 0);
        assert(seq![greeting(device_name)] + messages =~= seq![greeting(device_name), messages[0]]);
    } else {
        let before = messages.drop_last();
        lemma_connection_begins_with_greeting(device_name, before);
        lemma_written_where_nothing_fails(device_name, messages.last(), 0);
        lemma_frames_join(seq![greeting(device_name)] + before, seq![messages.last()]);
        assert(seq![greeting(device_name)] + before + seq![messages.last()] =~= seq![
            greeting(device_name),
        ] + messages);
    }
}

/// What a device sends over a connection reaches the server: the server is handed the
/// greeting, and then the messages in their order.
pub proof fn lemma_server_is_handed_what_is_sent(device_name: Seq<char>, messages: Seq<MessageView>)
    requires
        messages.len() > 0,
        representable(greeting(device_name)),
        forall|i: int| 0 <= i < messages.len() ==> representable(#[trigger] messages[i]),
    ensures
        deliveries(StreamState::Size, carried(device_name, messages)) == seq![greeting(device_name)]
            + messages,
{
    lemma_connection_begins_with_greeting(device_name, messages);
    let all = seq![greeting(device_name)] + messages;
    assert forall|i: int| 0 <= i < all.len() implies representable(#[trigger] all[i]) by {
        if i > 0 {
            assert(all[i] == messages[i - 1]);
        }
    }
    lemma_messages_are_delivered(all, Seq::empty());
    assert(frames(all) + Seq::empty() =~= frames(all));
    assert(all + deliveries(StreamState::Size, Seq::empty()) =~= all) by {
        crate::bytes::lemma_widths();
    }
}

/// Once a device has reported over a connection, the server knows of it, without a wire and
/// with the figures that it reported last, whatever the server knew before.
pub proof fn lemma_server_learns_of_device(
    devices: Map<Seq<char>, DeviceView>,
    device_name: Seq<char>,
    messages: Seq<MessageView>,
)
    requires
        messages.len() > 0,
        representable(greeting(device_name)),
        forall|i: int|
            0 <= i < messages.len() ==> representable(#[trigger] messages[i])
                && messages[i] is CpuMem && messages[i]->CpuMem_name == device_name,
    ensures
        updated_by_all(devices, deliveries(StreamState::Size, carried(device_name, messages)))
            == devices.insert(
            device_name,
            DeviceView {
                cpu_usage: messages.last()->cpu,
                mem_usage: messages.last()->mem,
                ..new_device(device_name, ConnectionType::Wireless)
            },
        ),
{
    lemma_server_is_handed_what_is_sent(device_name, messages);
    lemma_figures_of_reports(devices, device_name, messages);
}

proof fn lemma_figures_of_reports(
    devices: Map<Seq<char>, DeviceView>,
    device_name: Seq<char>,
    messages: Seq<MessageView>,
)
    requires
        messages.len() > 0,
        forall|i: int|
            0 <= i < messages.len() ==> #[trigger] messages[i] is CpuMem
                && messages[i]->CpuMem_name == device_name,
    ensures
        updated_by_all(devices, seq![greeting(device_name)] + messages) == devices.insert(
            device_name,
            DeviceView {
                cpu_usage: messages.last()->cpu,
                mem_usage: messages.last()->mem,
                ..new_device(device_name, ConnectionType::Wireless)
            },
        ),
    decreases messages.len(),
{
    let all = seq![greeting(device_name)] + messages;
    let last = messages.last();
    assert(last is CpuMem && last->CpuMem_name == device_name) by {
        assert(messages[messages.len() - 1] is CpuMem);
    }
    if messages.len() == 1 {
        lemma_announced_then_reported(
            devices,
            device_name,
            ConnectionType::Wireless,
            last->cpu,
            last->mem,
        );
        assert(all =~= seq![greeting(device_name), last]);
    } else {
        let before = messages.drop_last();
        assert forall|i: int| 0 <= i < before.len() implies #[trigger] before[i] is CpuMem
            && before[i]->CpuMem_name == device_name by {
            assert(messages[i] == before[i]);
        }
        lemma_figures_of_reports(devices, device_name, before);
        assert(all.drop_last() =~= seq![greeting(device_name)] + before);
        let known = updated_by_all(devices, all.drop_last());
        assert(updated(known, last) =~= devices.insert(
            device_name,
            DeviceView {
                cpu_usage: last->cpu,
                mem_usage: last->mem,
                ..new_device(device_name, ConnectionType::Wireless)
            },
        ));
    }
}

} // verus!
