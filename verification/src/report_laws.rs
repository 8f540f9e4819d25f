//! What a device does to report, step by step, and what the server makes of it.

use crate::client::{
    carried, greeting, lemma_server_is_handed_what_is_sent, lemma_server_learns_of_device,
    send_update, UpdateJob, UpdateOutcome, UpdateStep,
};
use crate::device::{DeviceStatus, DeviceView};
use crate::message::{ConnectionType, DeviceUpdateMessage, MessageView};
use crate::message_laws::lemma_announcement_is_written;
use crate::roundtrip::{lemma_body_len, representable};
use crate::server::updated_by_all;
use crate::stream::{deliveries, StreamState};
use vstd::prelude::*;
use vstd::utf8::encode_utf8;

verus! {

/// What is said of what is left to be done is what it holds.
pub proof fn lemma_job_says_its_fields(job: UpdateJob)
    ensures
        match job {
            UpdateJob::Connecting { device_name, message } => job@ is Connecting
                && job@->device_name == device_name@ && job@->Connecting_message == message@,
            UpdateJob::Greeting { message } => job@ is Greeting && job@->Greeting_message
                == message@,
            UpdateJob::Reporting => job@ is Reporting,
        },
{
}

/// What is said of a step is what it holds.
pub proof fn lemma_step_says_its_fields(step: UpdateStep)
    ensures
        match step {
            UpdateStep::Connect(job) => step@ is Connect && step@->Connect_0 == job@,
            UpdateStep::Write(job, bytes) => step@ is Write && step@->Write_0 == job@
                && step@->Write_1 == bytes@,
            UpdateStep::Finished(outcome) => step@ is Finished && step@->Finished_0 == outcome,
        },
{
}

/// Over a connection that is there, the message itself is written, and nothing else is left
/// to be done then.
pub proof fn lemma_report_over_connection(
    device_name: String,
    message: DeviceUpdateMessage,
    step: UpdateStep,
    bytes: Vec<u8>,
)
    requires
        call_ensures(send_update, (true, &device_name, message), step),
        call_ensures(<Vec<u8> as From<DeviceUpdateMessage>>::from, (message,), bytes),
    ensures
        step matches UpdateStep::Write(UpdateJob::Reporting, written) && written@ == bytes@,
{
    lemma_step_says_its_fields(step);
    if let UpdateStep::Write(job, _) = step {
        lemma_job_says_its_fields(job);
    }
}

/// Without a connection one is opened first, for the same device and the same message.
pub proof fn lemma_report_without_connection(
    device_name: String,
    message: DeviceUpdateMessage,
    step: UpdateStep,
)
    requires
        call_ensures(send_update, (false, &device_name, message), step),
    ensures
        step matches UpdateStep::Connect(UpdateJob::Connecting { device_name: d, message: m }) && d@
            == device_name@ && m@ == message@,
{
    lemma_step_says_its_fields(step);
    if let UpdateStep::Connect(job) = step {
        lemma_job_says_its_fields(job);
    }
}

/// Over a new connection the device first says that it is there, under its name and without
/// a wire, whatever its name is; the message is still to follow. On the wire that is message
/// type 0, the name, and connection type 2.
pub proof fn lemma_new_connection_is_greeted(
    device_name: String,
    message: DeviceUpdateMessage,
    step: UpdateStep,
    announcement: DeviceUpdateMessage,
    bytes: Vec<u8>,
)
    requires
        call_ensures(
            UpdateJob::advance,
            (UpdateJob::Connecting { device_name, message }, true),
            step,
        ),
        announcement == (DeviceUpdateMessage::Create {
            name: device_name,
            connection: ConnectionType::Wireless,
        }),
        call_ensures(<Vec<u8> as From<DeviceUpdateMessage>>::from, (announcement,), bytes),
    ensures
        step matches UpdateStep::Write(UpdateJob::Greeting { message: m }, written) && {
            let w = (usize::BITS / 8) as int;
            let b = written@;
            &&& m@ == message@
            &&& b == bytes@
            &&& b.subrange(w, w + 8) == seq![0u8, 0u8, 0u8, 0u8, 0u8, 0u8, 0u8, 0u8]
            &&& b.subrange(w + 8 + w, b.len() - 8) == encode_utf8(device_name@)
            &&& b.skip(b.len() - 8) == seq![2u8, 0u8, 0u8, 0u8, 0u8, 0u8, 0u8, 0u8]
        },
{
    lemma_step_says_its_fields(step);
    if let UpdateStep::Write(job, _) = step {
        lemma_job_says_its_fields(job);
    }
    lemma_announcement_is_written(device_name, ConnectionType::Wireless, announcement, bytes);
}

/// Once the device has said that it is there, the message is written, and nothing else is
/// left to be done then.
pub proof fn lemma_greeting_is_followed_by_report(
    message: DeviceUpdateMessage,
    step: UpdateStep,
    bytes: Vec<u8>,
)
    requires
        call_ensures(UpdateJob::advance, (UpdateJob::Greeting { message }, true), step),
        call_ensures(<Vec<u8> as From<DeviceUpdateMessage>>::from, (message,), bytes),
    ensures
        step matches UpdateStep::Write(UpdateJob::Reporting, written) && written@ == bytes@,
{
    lemma_step_says_its_fields(step);
    if let UpdateStep::Write(job, _) = step {
        lemma_job_says_its_fields(job);
    }
}

/// Once the message is written, it is sent.
pub proof fn lemma_report_is_sent(step: UpdateStep)
    requires
        call_ensures(UpdateJob::advance, (UpdateJob::Reporting, true), step),
    ensures
        step == UpdateStep::Finished(UpdateOutcome::Sent),
{
    lemma_step_says_its_fields(step);
}

/// Any failure ends the report at once, and the outcome says what failed.
pub proof fn lemma_failure_ends_report(job: UpdateJob, step: UpdateStep)
    requires
        call_ensures(UpdateJob::advance, (job, false), step),
    ensures
        step == UpdateStep::Finished(
            match job {
                UpdateJob::Connecting { .. } => UpdateOutcome::ConnectFailed,
                UpdateJob::Greeting { .. } => UpdateOutcome::CreateFailed,
                UpdateJob::Reporting => UpdateOutcome::UpdateFailed,
            },
        ),
{
    lemma_step_says_its_fields(step);
    lemma_job_says_its_fields(job);
}

/// A connection is kept where the message was sent, and given up after any failure.
pub proof fn lemma_connection_is_kept(outcome: UpdateOutcome, kept: bool)
    requires
        call_ensures(UpdateOutcome::connected, (&outcome,), kept),
    ensures
        match outcome {
            UpdateOutcome::Sent => kept,
            UpdateOutcome::ConnectFailed => !kept,
            UpdateOutcome::CreateFailed => !kept,
            UpdateOutcome::UpdateFailed => !kept,
        },
{
}

/// The first message that the server is handed of a new connection says that the device is
/// there, under its name and without a wire. The messages follow in their order.
pub proof fn lemma_first_delivery_is_announcement(
    device_name: Seq<char>,
    messages: Seq<MessageView>,
)
    requires
        messages.len() > 0,
        16 + usize::BITS / 8 + encode_utf8(device_name).len() <= usize::MAX,
        forall|i: int|
            0 <= i < messages.len() ==> 16 + usize::BITS / 8 + encode_utf8(
                match #[trigger] messages[i] {
                    MessageView::Create { name, .. } => name,
                    MessageView::CpuMem { name, .. } => name,
                },
            ).len() <= usize::MAX,
    ensures
        deliveries(StreamState::Size, carried(device_name, messages)).len() == messages.len() + 1,
        deliveries(StreamState::Size, carried(device_name, messages))[0] == (MessageView::Create {
            name: device_name,
            connection: ConnectionType::Wireless,
        }),
        deliveries(StreamState::Size, carried(device_name, messages)).skip(1) == messages,
{
    lemma_body_len(greeting(device_name));
    assert forall|i: int| 0 <= i < messages.len() implies representable(#[trigger] messages[i]) by {
        lemma_body_len(messages[i]);
    }
    lemma_server_is_handed_what_is_sent(device_name, messages);
    assert((seq![greeting(device_name)] + messages).skip(1) =~= messages);
}

/// Once a device has reported over a new connection, the server knows it by its name, without
/// a wire, taking part, without capabilities and with the figures that it reported last,
/// whatever the server knew of it before. Of other devices the server knows what it knew.
pub proof fn lemma_reported_device_is_known(
    devices: Map<Seq<char>, DeviceView>,
    device_name: Seq<char>,
    messages: Seq<MessageView>,
)
    requires
        messages.len() > 0,
        16 + usize::BITS / 8 + encode_utf8(device_name).len() <= usize::MAX,
        forall|i: int|
            0 <= i < messages.len() ==> #[trigger] messages[i] is CpuMem
                && messages[i]->CpuMem_name == device_name,
    ensures
        ({
            let known = updated_by_all(
                devices,
                deliveries(StreamState::Size, carried(device_name, messages)),
            );
            &&& known.contains_key(device_name)
            &&& known[device_name].name == device_name
            &&& known[device_name].connection == ConnectionType::Wireless
            &&& known[device_name].status == DeviceStatus::Enabled
            &&& known[device_name].capabilities == Seq::<(Seq<char>, bool)>::empty()
            &&& known[device_name].cpu_usage == messages.last()->cpu
            &&& known[device_name].mem_usage == messages.last()->mem
            &&& forall|name: Seq<char>|
                name != device_name ==> (#[trigger] known.contains_key(name)
                    == devices.contains_key(name)) && (devices.contains_key(name) ==> known[name]
                    == devices[name])
        }),
{
    lemma_body_len(greeting(device_name));
    assert forall|i: int| 0 <= i < messages.len() implies representable(#[trigger] messages[i])
        && messages[i] is CpuMem && messages[i]->CpuMem_name == device_name by {
        lemma_body_len(messages[i]);
    }
    lemma_server_learns_of_device(devices, device_name, messages);
}

} // verus!
