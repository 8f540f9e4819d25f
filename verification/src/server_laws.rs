//! What holds of the devices whatever messages come.

use crate::channel::handed_over;
use crate::device::{new_device, DeviceView};
use crate::history::{self, about, lemma_all_batches_join, lemma_told_of_each, told_of};
use crate::message::{ConnectionType, MessageView};
use crate::registry::{lemma_listed_once, lists};
use crate::server::{named_rightly, published, told, updated, updated_by_all, updating, HeimdallServer};
use vstd::prelude::*;

verus! {

/// The device that a message is about.
pub open spec fn subject(m: MessageView) -> Seq<char> {
    match m {
        MessageView::Create { name, .. } => name,
        MessageView::CpuMem { name, .. } => name,
    }
}

/// The messages about one device, in their order.
pub open spec fn messages_about(messages: Seq<MessageView>, name: Seq<char>) -> Seq<MessageView> {
    about(messages, |m: MessageView| subject(m), name)
}

/// It makes no difference how messages are split into batches.
pub proof fn lemma_batches_join(
    devices: Map<Seq<char>, DeviceView>,
    first: Seq<MessageView>,
    second: Seq<MessageView>,
)
    ensures
        updated_by_all(devices, first + second) == updated_by_all(
            updated_by_all(devices, first),
            second,
        ),
{
    history::lemma_batches_join(updating(), devices, first, second);
}

/// No message makes the server forget a device.
pub proof fn lemma_devices_stay(devices: Map<Seq<char>, DeviceView>, messages: Seq<MessageView>)
    ensures
        devices.dom().subset_of(updated_by_all(devices, messages).dom()),
    decreases messages.len(),
{
    if messages.len() > 0 {
        lemma_devices_stay(devices, messages.drop_last());
    }
}

/// The server knows of a device only where it knew of it before or where a message said that
/// the device has come up.
pub proof fn lemma_devices_are_announced(
    devices: Map<Seq<char>, DeviceView>,
    messages: Seq<MessageView>,
    name: Seq<char>,
)
    requires
        updated_by_all(devices, messages).contains_key(name),
    ensures
        devices.contains_key(name) || exists|i: int|
            0 <= i < messages.len() && #[trigger] messages[i] is Create && subject(messages[i])
                == name,
    decreases messages.len(),
{
    if messages.len() > 0 {
        let m = messages.last();
        if m is Create && subject(m) == name {
            assert(messages[messages.len() - 1] is Create);
        } else {
            let before = messages.drop_last();
            lemma_devices_are_announced(devices, before, name);
            if !devices.contains_key(name) {
                let i = choose|i: int|
                    0 <= i < before.len() && #[trigger] before[i] is Create && subject(before[i])
                        == name;
                assert(messages[i] is Create);
            }
        }
    }
}

/// What the server knows of a device is changed only by messages about that device.
pub proof fn lemma_other_devices_are_kept(
    devices: Map<Seq<char>, DeviceView>,
    messages: Seq<MessageView>,
    name: Seq<char>,
)
    requires
        forall|i: int| 0 <= i < messages.len() ==> subject(#[trigger] messages[i]) != name,
    ensures
        updated_by_all(devices, messages).contains_key(name) == devices.contains_key(name),
        updated_by_all(devices, messages)[name] == devices[name] || !devices.contains_key(name),
    decreases messages.len(),
{
    if messages.len() > 0 {
        let before = messages.drop_last();
        assert forall|i: int| 0 <= i < before.len() implies subject(#[trigger] before[i]) != name by {
            assert(messages[i] == before[i]);
        }
        lemma_other_devices_are_kept(devices, before, name);
    }
}

/// Figures of a device that the server does not know of change nothing.
pub proof fn lemma_unknown_figures_are_ignored(
    devices: Map<Seq<char>, DeviceView>,
    name: Seq<char>,
    cpu: u32,
    mem: u32,
)
    requires
        !devices.contains_key(name),
    ensures
        updated(devices, MessageView::CpuMem { name, cpu, mem }) == devices,
{
}

/// A message that comes twice in a row changes no more than once.
pub proof fn lemma_repeated_message(devices: Map<Seq<char>, DeviceView>, m: MessageView)
    ensures
        updated(updated(devices, m), m) == updated(devices, m),
{
    assert(updated(updated(devices, m), m) =~= updated(devices, m));
}

/// Messages about different devices may come in either order.
pub proof fn lemma_messages_commute(
    devices: Map<Seq<char>, DeviceView>,
    a: MessageView,
    b: MessageView,
)
    requires
        subject(a) != subject(b),
    ensures
        updated(updated(devices, a), b) == updated(updated(devices, b), a),
{
    assert(updated(updated(devices, a), b) =~= updated(updated(devices, b), a));
}

/// Messages leave the same devices in every order that keeps those about each device in theirs.
pub proof fn lemma_own_order_decides(
    devices: Map<Seq<char>, DeviceView>,
    first: Seq<MessageView>,
    second: Seq<MessageView>,
)
    requires
        forall|name: Seq<char>| #[trigger]
            messages_about(first, name) == messages_about(second, name),
    ensures
        updated_by_all(devices, first) == updated_by_all(devices, second),
{
    let subject = |m: MessageView| subject(m);
    assert forall|name: Seq<char>| #[trigger]
        about(first, subject, name) == about(second, subject, name) by {
        assert(messages_about(first, name) == messages_about(second, name));
    }
    history::lemma_own_order_decides(updating(), subject, devices, first, second);
}

/// A device that comes up and then reports is known with the figures that it reported,
/// whatever was known of it before.
pub proof fn lemma_announced_then_reported(
    devices: Map<Seq<char>, DeviceView>,
    name: Seq<char>,
    connection: ConnectionType,
    cpu: u32,
    mem: u32,
)
    ensures
        updated_by_all(
            devices,
            seq![
                MessageView::Create { name, connection },
                MessageView::CpuMem { name, cpu, mem },
            ],
        ) == devices.insert(
            name,
            DeviceView { cpu_usage: cpu, mem_usage: mem, ..new_device(name, connection) },
        ),
{
    let up = MessageView::Create { name, connection };
    let report = MessageView::CpuMem { name, cpu, mem };
    reveal_with_fuel(Seq::fold_left, 3);
    assert(seq![up, report].drop_last() =~= seq![up]);
    assert(seq![up].drop_last() =~= Seq::<MessageView>::empty());
    assert(updated(updated(devices, up), report) =~= devices.insert(
        name,
        DeviceView { cpu_usage: cpu, mem_usage: mem, ..new_device(name, connection) },
    ));
}

/// Of a known device the last report stands, and a report changes nothing but the figures.
pub proof fn lemma_last_report_stands(
    devices: Map<Seq<char>, DeviceView>,
    messages: Seq<MessageView>,
    name: Seq<char>,
    cpu: u32,
    mem: u32,
)
    requires
        updated_by_all(devices, messages).contains_key(name),
    ensures
        updated_by_all(devices, messages.push(MessageView::CpuMem { name, cpu, mem }))[name]
            == (DeviceView {
            cpu_usage: cpu,
            mem_usage: mem,
            ..updated_by_all(devices, messages)[name]
        }),
{
    let all = messages.push(MessageView::CpuMem { name, cpu, mem });
    assert(all.drop_last() =~= messages);
}

/// Devices stay known by their own names.
pub proof fn lemma_names_stay_right(devices: Map<Seq<char>, DeviceView>, messages: Seq<MessageView>)
    requires
        named_rightly(devices),
    ensures
        named_rightly(updated_by_all(devices, messages)),
    decreases messages.len(),
{
    if messages.len() > 0 {
        lemma_names_stay_right(devices, messages.drop_last());
    }
}

/// Once the server has been started it knows of the router, whatever messages come.
pub proof fn lemma_router_stays(messages: Seq<MessageView>)
    ensures
        updated_by_all(
            map!["Router"@ => new_device("Router"@, ConnectionType::Origin)],
            messages,
        ).contains_key("Router"@),
{
    let devices = map!["Router"@ => new_device("Router"@, ConnectionType::Origin)];
    lemma_devices_stay(devices, messages);
    assert(devices.dom().contains("Router"@));
}

/// A listener is told of every device exactly once, and of nothing else.
pub proof fn lemma_told_of_each_device_once(
    state: Seq<DeviceView>,
    devices: Map<Seq<char>, DeviceView>,
)
    requires
        named_rightly(devices),
        lists(state, devices),
    ensures
        state.len() == devices.dom().len(),
        forall|name: Seq<char>| #[trigger]
            devices.contains_key(name) ==> state.contains(devices[name]),
        forall|i: int|
            0 <= i < state.len() ==> devices.contains_key((#[trigger] state[i]).name)
                && devices[state[i].name] == state[i],
        forall|i: int, j: int|
            0 <= i < j < state.len() ==> (#[trigger] state[i]).name != (#[trigger] state[j]).name,
{
    lemma_listed_once(state, devices, |device: DeviceView| device.name);
}

/// A listener is told once for each batch that the server takes in, of all the devices that
/// the batch leaves, after all that it was told before. The devices are then those that the
/// messages of all batches leave.
pub proof fn lemma_listener_is_told_of_each_batch(
    servers: Seq<HeimdallServer>,
    batches: Seq<Seq<MessageView>>,
    refused: Seq<nat>,
    i: int,
)
    requires
        servers.len() == batches.len() + 1,
        refused.len() == batches.len(),
        forall|k: int|
            0 <= k < batches.len() ==> published(
                servers[k],
                #[trigger] batches[k],
                servers[k + 1],
                refused[k],
            ),
        0 <= i < servers[0].senders().len(),
    ensures
        servers.last().senders().len() == servers[0].senders().len(),
        servers.last().devices() == updated_by_all(servers[0].devices(), batches.flatten_alt()),
        ({
            let earlier = handed_over(servers[0].senders()[i]);
            let all = handed_over(servers.last().senders()[i]);
            &&& all.len() == earlier.len() + batches.len()
            &&& earlier.is_prefix_of(all)
            &&& forall|k: int|
                0 <= k < batches.len() ==> lists(
                    (#[trigger] all[earlier.len() + k]).0,
                    servers[k + 1].devices(),
                )
        }),
{
    let logs = Seq::new(
        servers.len(),
        |k: int| servers[k].senders().map_values(|sender| handed_over(sender)),
    );
    let tables = Seq::new(servers.len(), |k: int| servers[k].devices());
    assert forall|k: int| 0 < k < logs.len() implies (#[trigger] logs[k]).len() == logs[k
        - 1].len() by {
        assert(published(servers[k - 1], batches[k - 1], servers[k], refused[k - 1]));
    }
    assert forall|k: int, j: int| 0 < k < logs.len() && 0 <= j < logs[k].len() implies told_of(
        logs[k - 1][j],
        #[trigger] logs[k][j],
        tables[k],
    ) by {
        assert(published(servers[k - 1], batches[k - 1], servers[k], refused[k - 1]));
        let state = choose|state: Seq<DeviceView>| #[trigger]
            lists(state, servers[k].devices()) && forall|j: int|
                0 <= j < servers[k].senders().len() ==> told(
                    servers[k - 1].senders()[j],
                    #[trigger] servers[k].senders()[j],
                    state,
                );
        assert(told(servers[k - 1].senders()[j], servers[k].senders()[j], state));
    }
    lemma_told_of_each(logs, tables, i);
    assert forall|k: int| 0 <= k < batches.len() implies lists(
        (#[trigger] handed_over(servers.last().senders()[i])[handed_over(
            servers[0].senders()[i],
        ).len() + k]).0,
        servers[k + 1].devices(),
    ) by {
        assert(tables[k + 1] == servers[k + 1].devices());
    }
    assert forall|k: int| 0 <= k < batches.len() implies tables[k + 1] == (
    #[trigger] batches[k]).fold_left(tables[k], updating()) by {
        assert(published(servers[k], batches[k], servers[k + 1], refused[k]));
    }
    lemma_all_batches_join(updating(), tables, batches);
}

} // verus!
