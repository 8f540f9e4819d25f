//! What holds of the devices of a local server whatever messages come.

use crate::history::{self, about, lemma_all_batches_join, lemma_told_of_each, told_of};
use crate::local::{
    named_rightly, published, told, updated_by_all, updating, DeviceView, HeimdallServer, MessageView,
};
use crate::local_channel::handed_over;
use crate::registry::{lemma_listed_once, lists};
use vstd::prelude::*;

verus! {

/// The device that a message is about.
pub open spec fn subject(m: MessageView) -> Seq<char> {
    match m {
        MessageView::CpuMem { name, .. } => name,
    }
}

/// The messages about one device, in their order.
pub open spec fn messages_about(messages: Seq<MessageView>, name: Seq<char>) -> Seq<MessageView> {
    about(messages, |m: MessageView| subject(m), name)
}

/// What the server knows of a device is what the device reported last; of a device that did
/// not report it knows what it knew before.
pub proof fn lemma_last_report_stands(
    devices: Map<Seq<char>, DeviceView>,
    messages: Seq<MessageView>,
    name: Seq<char>,
)
    ensures
        match last_report(messages, name) {
            Some(report) => updated_by_all(devices, messages).contains_key(name)
                && updated_by_all(devices, messages)[name] == report,
            None => updated_by_all(devices, messages).contains_key(name) == devices.contains_key(name)
                && (devices.contains_key(name) ==> updated_by_all(devices, messages)[name]
                == devices[name]),
        },
    decreases messages.len(),
{
    if messages.len() > 0 {
        lemma_last_report_stands(devices, messages.drop_last(), name);
    }
}

/// The last of the messages about this device, as what is then known of the device.
pub open spec fn last_report(messages: Seq<MessageView>, name: Seq<char>) -> Option<DeviceView>
    decreases messages.len(),
{
    if messages.len() == 0 {
        None
    } else {
        match messages.last() {
            MessageView::CpuMem { name: about, cpu, mem } => if about == name {
                Some(DeviceView { name, cpu_usage: cpu, mem_usage: mem })
            } else {
                last_report(messages.drop_last(), name)
            },
        }
    }
}

/// It makes no difference how messages are split into batches.
pub proof fn lemma_batches_join(
    devices: Map<Seq<char>, DeviceView>,
    first: Seq<MessageView>,
    second: Seq<MessageView>,
)
    ensures
        updated_by_all(devices, first + second) == updated_by_all(
            updated_by_all(devices, first),
            second,
        ),
{
    history::lemma_batches_join(updating(), devices, first, second);
}

/// Messages leave the same devices in every order that keeps those about each device in theirs.
pub proof fn lemma_own_order_decides(
    devices: Map<Seq<char>, DeviceView>,
    first: Seq<MessageView>,
    second: Seq<MessageView>,
)
    requires
        forall|name: Seq<char>| #[trigger]
            messages_about(first, name) == messages_about(second, name),
    ensures
        updated_by_all(devices, first) == updated_by_all(devices, second),
{
    let subject = |m: MessageView| subject(m);
    assert forall|name: Seq<char>| #[trigger]
        about(first, subject, name) == about(second, subject, name) by {
        assert(messages_about(first, name) == messages_about(second, name));
    }
    history::lemma_own_order_decides(updating(), subject, devices, first, second);
}

/// Devices stay known by their own names.
pub proof fn lemma_names_stay_right(devices: Map<Seq<char>, DeviceView>, messages: Seq<MessageView>)
    requires
        named_rightly(devices),
    ensures
        named_rightly(updated_by_all(devices, messages)),
    decreases messages.len(),
{
    if messages.len() > 0 {
        lemma_names_stay_right(devices, messages.drop_last());
    }
}

/// A listener is told of every device exactly once, and of nothing else.
pub proof fn lemma_told_of_each_device_once(
    state: Seq<DeviceView>,
    devices: Map<Seq<char>, DeviceView>,
)
    requires
        named_rightly(devices),
        lists(state, devices),
    ensures
        state.len() == devices.dom().len(),
        forall|name: Seq<char>| #[trigger]
            devices.contains_key(name) ==> state.contains(devices[name]),
        forall|i: int|
            0 <= i < state.len() ==> devices.contains_key((#[trigger] state[i]).name)
                && devices[state[i].name] == state[i],
        forall|i: int, j: int|
            0 <= i < j < state.len() ==> (#[trigger] state[i]).name != (#[trigger] state[j]).name,
{
    lemma_listed_once(state, devices, |device: DeviceView| device.name);
}

/// A listener is told once for each batch that the server takes in, of all the devices that
/// the batch leaves, after all that it was told before. The devices are then those that the
/// messages of all batches leave.
pub proof fn lemma_listener_is_told_of_each_batch(
    servers: Seq<HeimdallServer>,
    batches: Seq<Seq<MessageView>>,
    refused: Seq<nat>,
    i: int,
)
    requires
        servers.len() == batches.len() + 1,
        refused.len() == batches.len(),
        forall|k: int|
            0 <= k < batches.len() ==> published(
                servers[k],
                #[trigger] batches[k],
                servers[k + 1],
                refused[k],
            ),
        0 <= i < servers[0].senders().len(),
    ensures
        servers.last().senders().len() == servers[0].senders().len(),
        servers.last().devices() == updated_by_all(servers[0].devices(), batches.flatten_alt()),
        ({
            let earlier = handed_over(servers[0].senders()[i]);
            let all = handed_over(servers.last().senders()[i]);
            &&& all.len() == earlier.len() + batches.len()
            &&& earlier.is_prefix_of(all)
            &&& forall|k: int|
                0 <= k < batches.len() ==> lists(
                    (#[trigger] all[earlier.len() + k]).0,
                    servers[k + 1].devices(),
                )
        }),
{
    let logs = Seq::new(
        servers.len(),
        |k: int| servers[k].senders().map_values(|sender| handed_over(sender)),
    );
    let tables = Seq::new(servers.len(), |k: int| servers[k].devices());
    assert forall|k: int| 0 < k < logs.len() implies (#[trigger] logs[k]).len() == logs[k
        - 1].len() by {
        assert(published(servers[k - 1], batches[k - 1], servers[k], refused[k - 1]));
    }
    assert forall|k: int, j: int| 0 < k < logs.len() && 0 <= j < logs[k].len() implies told_of(
        logs[k - 1][j],
        #[trigger] logs[k][j],
        tables[k],
    ) by {
        assert(published(servers[k - 1], batches[k - 1], servers[k], refused[k - 1]));
        let state = choose|state: Seq<DeviceView>| #[trigger]
            lists(state, servers[k].devices()) && forall|j: int|
                0 <= j < servers[k].senders().len() ==> told(
                    servers[k - 1].senders()[j],
                    #[trigger] servers[k].senders()[j],
                    state,
                );
        assert(told(servers[k - 1].senders()[j], servers[k].senders()[j], state));
    }
    lemma_told_of_each(logs, tables, i);
    assert forall|k: int| 0 <= k < batches.len() implies lists(
        (#[trigger] handed_over(servers.last().senders()[i])[handed_over(
            servers[0].senders()[i],
        ).len() + k]).0,
        servers[k + 1].devices(),
    ) by {
        assert(tables[k + 1] == servers[k + 1].devices());
    }
    assert forall|k: int| 0 <= k < batches.len() implies tables[k + 1] == (
    #[trigger] batches[k]).fold_left(tables[k], updating()) by {
        assert(published(servers[k], batches[k], servers[k + 1], refused[k]));
    }
    lemma_all_batches_join(updating(), tables, batches);
}

} // verus!
