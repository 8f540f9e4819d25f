//! What each call of the server does, entry by entry and listener by listener.

use crate::channel::{drained, found_empty, handed_over, source, target};
use crate::device::{state_view, DeviceStatus, DeviceView, HeimdallState};
use crate::device_laws::lemma_device_says_its_fields;
use crate::history;
use crate::message::{ConnectionType, DeviceUpdateMessage, MessageView};
use crate::registry::{lemma_listed_once, lists};
use crate::server::{
    messages_view, published, refusals, told, updated, updated_by_all, updating, HeimdallServer,
};
use crossbeam_channel::{Receiver, Sender};
use vstd::prelude::*;

verus! {

/// A device that comes up is known from then on by its name, with the connection that it
/// told, taking part, without capabilities and with both figures zero, whatever was known of
/// it before. Nothing else changes.
pub proof fn lemma_announcement_makes_new(
    devices: Map<Seq<char>, DeviceView>,
    name: Seq<char>,
    connection: ConnectionType,
)
    ensures
        ({
            let after = updated(devices, MessageView::Create { name, connection });
            &&& after.contains_key(name)
            &&& after[name].name == name
            &&& after[name].connection == connection
            &&& after[name].status == DeviceStatus::Enabled
            &&& after[name].capabilities == Seq::<(Seq<char>, bool)>::empty()
            &&& after[name].cpu_usage == 0
            &&& after[name].mem_usage == 0
            &&& forall|other: Seq<char>|
                other != name ==> (#[trigger] after.contains_key(other) == devices.contains_key(
                    other,
                )) && (devices.contains_key(other) ==> after[other] == devices[other])
        }),
{
}

/// The figures of a known device become those that it reports, and nothing else changes.
pub proof fn lemma_report_changes_figures(
    devices: Map<Seq<char>, DeviceView>,
    name: Seq<char>,
    cpu: u32,
    mem: u32,
)
    requires
        devices.contains_key(name),
    ensures
        ({
            let after = updated(devices, MessageView::CpuMem { name, cpu, mem });
            &&& after.contains_key(name)
            &&& after[name].cpu_usage == cpu
            &&& after[name].mem_usage == mem
            &&& after[name].name == devices[name].name
            &&& after[name].connection == devices[name].connection
            &&& after[name].status == devices[name].status
            &&& after[name].capabilities == devices[name].capabilities
            &&& forall|other: Seq<char>|
                other != name ==> (#[trigger] after.contains_key(other) == devices.contains_key(
                    other,
                )) && (devices.contains_key(other) ==> after[other] == devices[other])
        }),
{
}

/// A call that takes in the announcement of a device makes the device new, and leaves the
/// other devices and the listeners as they were.
pub proof fn lemma_apply_announcement(
    server: &mut HeimdallServer,
    name: String,
    connection: ConnectionType,
)
    requires
        call_ensures(
            HeimdallServer::apply,
            (server, DeviceUpdateMessage::Create { name, connection }),
            (),
        ),
    ensures
        ({
            let before = old(server).devices();
            let after = final(server).devices();
            &&& after.contains_key(name@)
            &&& after[name@].name == name@
            &&& after[name@].connection == connection
            &&& after[name@].status == DeviceStatus::Enabled
            &&& after[name@].capabilities == Seq::<(Seq<char>, bool)>::empty()
            &&& after[name@].cpu_usage == 0
            &&& after[name@].mem_usage == 0
            &&& forall|other: Seq<char>|
                other != name@ ==> (#[trigger] after.contains_key(other) == before.contains_key(
                    other,
                )) && (before.contains_key(other) ==> after[other] == before[other])
            &&& final(server).senders() == old(server).senders()
        }),
{
}

/// A call that takes in the figures of a device sets them where the device is known, and does
/// nothing where it is not. It leaves the rest of the device, the other devices and the
/// listeners as they were.
pub proof fn lemma_apply_report(server: &mut HeimdallServer, name: String, cpu: u32, mem: u32)
    requires
        call_ensures(
            HeimdallServer::apply,
            (server, DeviceUpdateMessage::CpuMem { name, cpu, mem }),
            (),
        ),
    ensures
        ({
            let before = old(server).devices();
            let after = final(server).devices();
            &&& after.contains_key(name@) == before.contains_key(name@)
            &&& before.contains_key(name@) ==> {
                &&& after[name@].cpu_usage == cpu
                &&& after[name@].mem_usage == mem
                &&& after[name@].name == before[name@].name
                &&& after[name@].connection == before[name@].connection
                &&& after[name@].status == before[name@].status
                &&& after[name@].capabilities == before[name@].capabilities
            }
            &&& forall|other: Seq<char>|
                other != name@ ==> (#[trigger] after.contains_key(other) == before.contains_key(
                    other,
                )) && (before.contains_key(other) ==> after[other] == before[other])
            &&& final(server).senders() == old(server).senders()
        }),
{
}

/// A device that comes up, for the first time or again, is listed next as a new one.
pub proof fn lemma_announced_device_is_listed(
    server: &mut HeimdallServer,
    name: String,
    connection: ConnectionType,
    state: HeimdallState,
)
    requires
        call_ensures(
            HeimdallServer::apply,
            (server, DeviceUpdateMessage::Create { name, connection }),
            (),
        ),
        call_ensures(HeimdallServer::snapshot, (&*final(server),), state),
    ensures
        exists|i: int|
            0 <= i < state@.len() && (#[trigger] state@[i]).name@ == name@ && state@[i].connection
                == connection && state@[i].status == DeviceStatus::Enabled
                && state@[i].capabilities@.len() == 0 && state@[i].cpu_usage == 0
                && state@[i].mem_usage == 0,
{
    lemma_snapshot(*final(server), state);
    lemma_apply_announcement(server, name, connection);
    let i = choose|i: int| 0 <= i < state@.len() && (#[trigger] state@[i]).name@ == name@;
    lemma_device_says_its_fields(state@[i]);
    assert(state@[i].name@ == name@);
}

/// A server that has been started knows of the router, which is its origin, taking part,
/// without capabilities and with both figures zero, and of nothing else. Its listeners are
/// as they were.
pub proof fn lemma_start(server: &mut HeimdallServer)
    requires
        call_ensures(HeimdallServer::start, (server,), ()),
    ensures
        ({
            let after = final(server).devices();
            &&& forall|name: Seq<char>| #[trigger]
                after.contains_key(name) <==> name == "Router"@
            &&& after["Router"@].name == "Router"@
            &&& after["Router"@].connection == ConnectionType::Origin
            &&& after["Router"@].status == DeviceStatus::Enabled
            &&& after["Router"@].capabilities == Seq::<(Seq<char>, bool)>::empty()
            &&& after["Router"@].cpu_usage == 0
            &&& after["Router"@].mem_usage == 0
            &&& final(server).senders() == old(server).senders()
        }),
{
}

/// A new server knows of no device and has no listener.
pub proof fn lemma_new_server(server: HeimdallServer)
    requires
        call_ensures(HeimdallServer::new, (), server) || call_ensures(
            <HeimdallServer as Default>::default,
            (),
            server,
        ),
    ensures
        forall|name: Seq<char>| !#[trigger] server.devices().contains_key(name),
        server.senders().len() == 0,
{
}

/// Messages are taken in one after the other, the first of them first: `states` begins with
/// the devices before them, and each of its members is what one message leaves of the one
/// before.
pub proof fn lemma_messages_in_their_order(
    states: Seq<Map<Seq<char>, DeviceView>>,
    messages: Seq<MessageView>,
)
    requires
        states.len() == messages.len() + 1,
        forall|i: int|
            0 <= i < messages.len() ==> states[i + 1] == updated(states[i], #[trigger] messages[i]),
    ensures
        updated_by_all(states[0], messages) == states.last(),
{
    history::lemma_messages_in_their_order(updating(), states, messages);
}

/// What is said of a list of devices is what each of them says, in their order.
pub proof fn lemma_state_says_each_device(state: HeimdallState)
    ensures
        state_view(state@).len() == state@.len(),
        forall|i: int| 0 <= i < state@.len() ==> #[trigger] state_view(state@)[i] == state@[i]@,
{
}

/// What is said of a list of messages is what each of them says, in their order.
pub proof fn lemma_batch_says_each_message(batch: Seq<DeviceUpdateMessage>)
    ensures
        messages_view(batch).len() == batch.len(),
        forall|i: int| 0 <= i < batch.len() ==> #[trigger] messages_view(batch)[i] == batch[i]@,
{
}

/// Every device is known by its own name, and no two listeners share a channel.
pub proof fn lemma_names_and_channels(server: HeimdallServer)
    requires
        server.wf(),
    ensures
        forall|name: Seq<char>| #[trigger]
            server.devices().contains_key(name) ==> server.devices()[name].name == name,
        forall|i: int, j: int|
            0 <= i < j < server.senders().len() ==> target(#[trigger] server.senders()[i])
                != target(#[trigger] server.senders()[j]),
{
    server.lemma_named_rightly();
    server.lemma_own_channels();
}

/// The devices that are listed are those that the server knows of, each once and with what
/// the server knows of it.
pub proof fn lemma_snapshot(server: HeimdallServer, state: HeimdallState)
    requires
        server.wf(),
        call_ensures(HeimdallServer::snapshot, (&server,), state),
    ensures
        state@.len() == server.devices().dom().len(),
        forall|i: int|
            0 <= i < state@.len() ==> {
                let device = #[trigger] state@[i];
                let known = server.devices()[device.name@];
                &&& server.devices().contains_key(device.name@)
                &&& known.name == device.name@
                &&& known.connection == device.connection
                &&& known.status == device.status
                &&& known.capabilities.len() == device.capabilities@.len()
                &&& forall|k: int|
                    0 <= k < device.capabilities@.len() ==> (#[trigger] known.capabilities[k]).0
                        == device.capabilities@[k].0@ && known.capabilities[k].1
                        == device.capabilities@[k].1
                &&& known.cpu_usage == device.cpu_usage
                &&& known.mem_usage == device.mem_usage
            },
        forall|name: Seq<char>| #[trigger]
            server.devices().contains_key(name) ==> exists|i: int|
                0 <= i < state@.len() && (#[trigger] state@[i]).name@ == name,
        forall|i: int, j: int|
            0 <= i < j < state@.len() ==> (#[trigger] state@[i]).name@ != (
            #[trigger] state@[j]).name@,
{
    let said = Seq::new(state@.len(), |i: int| state@[i]@);
    server.lemma_named_rightly();
    lemma_listed_once(said, server.devices(), |device: DeviceView| device.name);
    assert forall|i: int| 0 <= i < state@.len() implies (#[trigger] state@[i])@ == said[i]
        && state@[i]@.name == state@[i].name@ by {}
    assert forall|name: Seq<char>| #[trigger] server.devices().contains_key(name) implies exists|
        i: int,
    | 0 <= i < state@.len() && (#[trigger] state@[i]).name@ == name by {
        assert(said.contains(server.devices()[name]));
        let i = choose|i: int| 0 <= i < said.len() && said[i] == server.devices()[name];
        assert(state@[i].name@ == name);
    }
    assert forall|i: int, j: int| 0 <= i < j < state@.len() implies (#[trigger] state@[i]).name@ != (
    #[trigger] state@[j]).name@ by {
        assert(said[i].name != said[j].name);
    }
}

/// Those listeners are counted that did not take what was handed to them last.
pub proof fn lemma_refusals_are_counted(senders: Seq<Sender<HeimdallState>>)
    ensures
        refusals(senders) == senders.filter(
            |sender: Sender<HeimdallState>| !handed_over(sender).last().1,
        ).len(),
    decreases senders.len(),
{
    reveal(Seq::filter);
    if senders.len() > 0 {
        lemma_refusals_are_counted(senders.drop_last());
    }
}

/// Once messages have been taken in, every listener has been told once more, over the channel
/// over which it was told before and after all that it was told before. All are told the
/// same: every device that is known then, each once, and nothing else. Those that did not
/// take it are counted.
pub proof fn lemma_published(
    before: HeimdallServer,
    batch: Seq<MessageView>,
    after: HeimdallServer,
    refused: nat,
)
    requires
        published(before, batch, after, refused),
        after.wf(),
    ensures
        after.devices() == updated_by_all(before.devices(), batch),
        after.senders().len() == before.senders().len(),
        forall|i: int|
            0 <= i < after.senders().len() ==> {
                let sender = #[trigger] after.senders()[i];
                let said = handed_over(sender).last().0;
                &&& target(sender) == target(before.senders()[i])
                &&& handed_over(sender).len() == handed_over(before.senders()[i]).len() + 1
                &&& handed_over(sender).drop_last() == handed_over(before.senders()[i])
                &&& said.len() == after.devices().dom().len()
                &&& forall|name: Seq<char>| #[trigger]
                    after.devices().contains_key(name) ==> said.contains(after.devices()[name])
                &&& forall|k: int|
                    0 <= k < said.len() ==> after.devices().contains_key((#[trigger] said[k]).name)
                        && after.devices()[said[k].name] == said[k]
                &&& said == handed_over(after.senders()[0]).last().0
            },
        refused == after.senders().filter(
            |sender: Sender<HeimdallState>| !handed_over(sender).last().1,
        ).len(),
{
    lemma_refusals_are_counted(after.senders());
    after.lemma_named_rightly();
    let state = choose|state: Seq<DeviceView>| #[trigger]
        lists(state, after.devices()) && forall|i: int|
            0 <= i < after.senders().len() ==> told(
                before.senders()[i],
                #[trigger] after.senders()[i],
                state,
            );
    lemma_listed_once(state, after.devices(), |device: DeviceView| device.name);
    assert forall|i: int| 0 <= i < after.senders().len() implies handed_over(
        #[trigger] after.senders()[i],
    ).last().0 == state && handed_over(after.senders()[i]).drop_last() == handed_over(
        before.senders()[i],
    ) && handed_over(after.senders()[i]).len() == handed_over(before.senders()[i]).len() + 1
        && target(after.senders()[i]) == target(before.senders()[i]) by {
        assert(told(before.senders()[i], after.senders()[i], state));
        let taken = choose|taken: bool|
            handed_over(after.senders()[i]) == #[trigger] handed_over(before.senders()[i]).push(
                (state, taken),
            );
        assert(handed_over(before.senders()[i]).push((state, taken)).drop_last() =~= handed_over(
            before.senders()[i],
        ));
    }
}

/// A batch is taken in message by message, the first of them first, and then every listener
/// is told once of all that is known. `states` begins with the devices before the batch, and
/// each of its members is what one message leaves of the one before.
pub proof fn lemma_publish(
    server: &mut HeimdallServer,
    batch: Vec<DeviceUpdateMessage>,
    states: Seq<Map<Seq<char>, DeviceView>>,
    refused: usize,
)
    requires
        call_ensures(HeimdallServer::publish, (server, batch), refused),
        states.len() == batch@.len() + 1,
        states[0] == old(server).devices(),
        forall|i: int|
            0 <= i < batch@.len() ==> states[i + 1] == updated(
                states[i],
                (#[trigger] batch@[i])@,
            ),
    ensures
        final(server).devices() == states.last(),
        final(server).senders().len() == old(server).senders().len(),
        forall|i: int|
            0 <= i < final(server).senders().len() ==> {
                let sender = #[trigger] final(server).senders()[i];
                let said = handed_over(sender).last().0;
                &&& target(sender) == target(old(server).senders()[i])
                &&& handed_over(sender).len() == handed_over(old(server).senders()[i]).len() + 1
                &&& handed_over(sender).drop_last() == handed_over(old(server).senders()[i])
                &&& said.len() == states.last().dom().len()
                &&& forall|name: Seq<char>| #[trigger]
                    states.last().contains_key(name) ==> said.contains(states.last()[name])
            },
        refused == final(server).senders().filter(
            |sender: Sender<HeimdallState>| !handed_over(sender).last().1,
        ).len(),
{
    let messages = Seq::new(batch@.len(), |i: int| batch@[i]@);
    assert(messages =~= messages_view(batch@));
    assert forall|i: int| 0 <= i < messages.len() implies states[i + 1] == updated(
        states[i],
        #[trigger] messages[i],
    ) by {
        assert(messages[i] == batch@[i]@);
    }
    lemma_messages_in_their_order(states, messages);
    lemma_published(*old(server), messages, *final(server), refused as nat);
}

/// The channel is asked once whether it is empty. If it is, nothing is done. If not, it is
/// drained once, what it held is taken in message by message, the first of them first, and
/// every listener is told once of all that is known then.
pub proof fn lemma_receive(
    server: &mut HeimdallServer,
    receiver: &mut Receiver<DeviceUpdateMessage>,
    states: Seq<Map<Seq<char>, DeviceView>>,
    refused: Option<usize>,
)
    requires
        call_ensures(HeimdallServer::receive, (server, receiver), refused),
        refused is Some ==> {
            &&& states.len() == drained(*final(receiver)).last().len() + 1
            &&& states[0] == old(server).devices()
            &&& forall|i: int|
                0 <= i < drained(*final(receiver)).last().len() ==> states[i + 1] == updated(
                    states[i],
                    #[trigger] drained(*final(receiver)).last()[i],
                )
        },
    ensures
        found_empty(*final(receiver)).len() == found_empty(*old(receiver)).len() + 1,
        found_empty(*final(receiver)).drop_last() == found_empty(*old(receiver)),
        found_empty(*final(receiver)).last() <==> refused is None,
        refused is None ==> *final(server) == *old(server) && drained(*final(receiver)) == drained(
            *old(receiver),
        ),
        refused is Some ==> {
            &&& drained(*final(receiver)).len() == drained(*old(receiver)).len() + 1
            &&& drained(*final(receiver)).drop_last() == drained(*old(receiver))
            &&& final(server).devices() == states.last()
            &&& final(server).senders().len() == old(server).senders().len()
            &&& forall|i: int|
                0 <= i < final(server).senders().len() ==> {
                    let sender = #[trigger] final(server).senders()[i];
                    let said = handed_over(sender).last().0;
                    &&& target(sender) == target(old(server).senders()[i])
                    &&& handed_over(sender).drop_last() == handed_over(old(server).senders()[i])
                    &&& handed_over(sender).len() == handed_over(old(server).senders()[i]).len()
                        + 1
                    &&& said.len() == states.last().dom().len()
                    &&& forall|name: Seq<char>| #[trigger]
                        states.last().contains_key(name) ==> said.contains(states.last()[name])
                }
            &&& refused->0 == final(server).senders().filter(
                |sender: Sender<HeimdallState>| !handed_over(sender).last().1,
            ).len()
        },
{
    assert(found_empty(*old(receiver)).push(refused is None).drop_last() =~= found_empty(
        *old(receiver),
    ));
    if let Some(n) = refused {
        let messages = drained(*final(receiver)).last();
        lemma_messages_in_their_order(states, messages);
        lemma_published(*old(server), messages, *final(server), n as nat);
    }
}

/// A new listener gets a channel of its own, over which it is told at once of every device
/// that is known, each once. The devices and the other listeners stay as they were.
pub proof fn lemma_add_listener(server: &mut HeimdallServer, receiver: Receiver<HeimdallState>)
    requires
        call_ensures(HeimdallServer::add_listener, (server,), receiver),
    ensures
        ({
            let before = old(server).senders();
            let after = final(server).senders();
            let devices = old(server).devices();
            let said = handed_over(after.last());
            &&& final(server).devices() == devices
            &&& after.len() == before.len() + 1
            &&& forall|i: int| 0 <= i < before.len() ==> #[trigger] after[i] == before[i]
            &&& forall|i: int|
                0 <= i < before.len() ==> target(#[trigger] before[i]) != source(receiver)
            &&& target(after.last()) == source(receiver)
            &&& said.len() == 1
            &&& said[0].1
            &&& said[0].0.len() == devices.dom().len()
            &&& forall|name: Seq<char>| #[trigger]
                devices.contains_key(name) ==> said[0].0.contains(devices[name])
            &&& forall|k: int|
                0 <= k < said[0].0.len() ==> devices.contains_key((#[trigger] said[0].0[k]).name)
                    && devices[said[0].0[k].name] == said[0].0[k]
        }),
{
    let before = old(server).senders();
    let after = final(server).senders();
    final(server).lemma_named_rightly();
    lemma_listed_once(
        handed_over(after.last())[0].0,
        final(server).devices(),
        |device: DeviceView| device.name,
    );
    assert forall|i: int| 0 <= i < before.len() implies #[trigger] after[i] == before[i] by {
        assert(after.drop_last()[i] == before[i]);
    }
}

} // verus!
