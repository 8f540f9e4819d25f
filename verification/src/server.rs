//! The server: the devices it knows of, and the listeners it tells.

use crate::channel::{
    drained, found_empty, handed_over, is_empty, send, source, take_waiting, target, unbounded,
};
use crate::device::{clone_state, new_device, state_view, Device, DeviceView, HeimdallState};
use crate::message::{ConnectionType, DeviceUpdateMessage, MessageView};
use crate::registry::{listed_as, lists, Registry};
use crossbeam_channel::{Receiver, Sender};
use vstd::prelude::*;

verus! {

/// The port that the server listens on.
pub const HEIMDALL_PORT: u16 = 4064;

/// The devices that a message leaves, of those that were known before it. A device that
/// comes up is known from then on, as a new one; figures of a device that is not known are
/// of no account.
pub open spec fn updated(devices: Map<Seq<char>, DeviceView>, m: MessageView) -> Map<
    Seq<char>,
    DeviceView,
> {
    match m {
        MessageView::Create { name, connection } => devices.insert(
            name,
            new_device(name, connection),
        ),
        MessageView::CpuMem { name, cpu, mem } => if devices.contains_key(name) {
            devices.insert(
                name,
                DeviceView { cpu_usage: cpu, mem_usage: mem, ..devices[name] },
            )
        } else {
            devices
        },
    }
}

/// The devices that several messages leave, the first of them first.
pub open spec fn updated_by_all(
    devices: Map<Seq<char>, DeviceView>,
    messages: Seq<MessageView>,
) -> Map<Seq<char>, DeviceView> {
    messages.fold_left(devices, updating())
}

/// What a message does to the devices, as a function.
pub open spec fn updating() -> spec_fn(Map<Seq<char>, DeviceView>, MessageView) -> Map<
    Seq<char>,
    DeviceView,
> {
    |devices: Map<Seq<char>, DeviceView>, m: MessageView| updated(devices, m)
}

/// What a list of messages says.
pub open spec fn messages_view(messages: Seq<DeviceUpdateMessage>) -> Seq<MessageView> {
    Seq::new(messages.len(), |i: int| messages[i]@)
}

/// How many of these handles had the last state refused that was handed to them.
pub open spec fn refusals(senders: Seq<Sender<HeimdallState>>) -> nat
    decreases senders.len(),
{
    if senders.len() == 0 {
        0
    } else {
        refusals(senders.drop_last()) + if handed_over(senders.last()).last().1 {
            0nat
        } else {
            1nat
        }
    }
}

/// No two of these handles send to the same channel.
pub open spec fn own_channels(senders: Seq<Sender<HeimdallState>>) -> bool {
    forall|i: int, j: int|
        0 <= i < j < senders.len() ==> target(#[trigger] senders[i]) != target(
            #[trigger] senders[j],
        )
}

/// `after` is the handle `before` once `state` has been handed to it, and nothing else.
pub open spec fn told(
    before: Sender<HeimdallState>,
    after: Sender<HeimdallState>,
    state: Seq<DeviceView>,
) -> bool {
    &&& target(after) == target(before)
    &&& exists|taken: bool|
        handed_over(after) == #[trigger] handed_over(before).push((state, taken))
}

/// The devices that the server knows of, and the listeners that it tells of each change.
pub struct HeimdallServer {
    state: Registry<Device>,
    state_senders: Vec<Sender<HeimdallState>>,
}

impl HeimdallServer {
    /// The devices that the server knows of, by name.
    pub closed spec fn devices(&self) -> Map<Seq<char>, DeviceView> {
        self.state@.map_values(|device: Device| device@)
    }

    /// The handles through which the listeners are told, the oldest first.
    pub closed spec fn senders(&self) -> Seq<Sender<HeimdallState>> {
        self.state_senders@
    }

    /// Every device is known by its own name, and every listener has a channel of its own.
    pub closed spec fn wf(&self) -> bool {
        &&& self.state.wf()
        &&& named_rightly(self.devices())
        &&& own_channels(self.senders())
    }

    /// Every device is known by its own name.
    pub proof fn lemma_named_rightly(&self)
        requires
            self.wf(),
        ensures
            named_rightly(self.devices()),
    {
    }

    /// Every listener has a channel of its own: what one is told no other takes away.
    pub proof fn lemma_own_channels(&self)
        requires
            self.wf(),
        ensures
            own_channels(self.senders()),
    {
    }
}

/// Every device is known by its own name.
pub open spec fn named_rightly(devices: Map<Seq<char>, DeviceView>) -> bool {
    forall|name: Seq<char>| #[trigger]
        devices.contains_key(name) ==> devices[name].name == name
}

/// `after` is the server `before` once it has taken in `batch` and told every listener:
/// the same devices, all of them and each once, to each listener. `refused` listeners are
/// gone.
pub open spec fn published(
    before: HeimdallServer,
    batch: Seq<MessageView>,
    after: HeimdallServer,
    refused: nat,
) -> bool {
    &&& after.devices() == updated_by_all(before.devices(), batch)
    &&& after.senders().len() == before.senders().len()
    &&& exists|state: Seq<DeviceView>| #[trigger]
        lists(state, after.devices()) && forall|i: int|
            0 <= i < after.senders().len() ==> told(
                before.senders()[i],
                #[trigger] after.senders()[i],
                state,
            )
    &&& refused == refusals(after.senders())
}

impl Default for HeimdallServer {
    fn default() -> (server: Self)
        ensures
            server.wf(),
            server.devices() == Map::<Seq<char>, DeviceView>::empty(),
            server.senders().len() == 0,
    {
        HeimdallServer::new()
    }
}

impl HeimdallServer {
    /// A server that knows of no device and has no listener.
    pub fn new() -> (server: Self)
        ensures
            server.wf(),
            server.devices() == Map::<Seq<char>, DeviceView>::empty(),
            server.senders().len() == 0,
    {
        let server = HeimdallServer { state: Registry::new(), state_senders: Vec::new() };
        assert(server.devices() =~= Map::<Seq<char>, DeviceView>::empty());
        server
    }

    /// Forgets every device but the router, which is there from the start.
    pub fn start(&mut self)
        requires
            old(self).wf(),
        ensures
            final(self).wf(),
            final(self).devices() == map!["Router"@ => new_device("Router"@, ConnectionType::Origin)],
            final(self).senders() == old(self).senders(),
    {
        self.state.clear();
        let router_name = "Router".to_owned();
        self.state.insert(router_name.clone(), Device::new(router_name, ConnectionType::Origin));
        assert(self.devices() =~= map!["Router"@ => new_device("Router"@, ConnectionType::Origin)]);
    }

    /// The devices that the server knows of, in no particular order.
    pub fn snapshot(&self) -> (state: HeimdallState)
        requires
            self.wf(),
        ensures
            lists(state_view(state@), self.devices()),
    {
        let mut state: HeimdallState = Vec::new();
        let ghost names = self.state.names();
        let n: usize = self.state.len();
        let mut i: usize = 0;
        while i < n
            invariant
                self.wf(),
                names == self.state.names(),
                i <= n == names.len(),
                state@.len() == i,
                forall|j: int| 0 <= j < i ==> (#[trigger] state@[j])@ == self.state@[names[j]]@,
            decreases n - i,
        {
            state.push(self.state.value(i).clone());
            i = i + 1;
        }
        proof {
            self.state.lemma_names();
            assert(self.devices().dom() =~= self.state@.dom());
            assert forall|j: int| 0 <= j < names.len() implies #[trigger] state_view(state@)[j]
                == self.devices()[names[j]] by {
                assert(names.to_set().contains(names[j]));
            }
            assert(listed_as(names, state_view(state@), self.devices()));
        }
        state
    }

    /// Adds a listener, and returns the end of the channel over which it is told: of the
    /// present devices at once, and then of those that each change leaves.
    pub fn add_listener(&mut self) -> (receiver: Receiver<HeimdallState>)
        requires
            old(self).wf(),
        ensures
            final(self).wf(),
            final(self).devices() == old(self).devices(),
            final(self).senders().len() == old(self).senders().len() + 1,
            final(self).senders().drop_last() == old(self).senders(),
            target(final(self).senders().last()) == source(receiver),
            forall|i: int|
                0 <= i < old(self).senders().len() ==> target(#[trigger] old(self).senders()[i])
                    != source(receiver),
            handed_over(final(self).senders().last()).len() == 1,
            lists(handed_over(final(self).senders().last())[0].0, final(self).devices()),
            handed_over(final(self).senders().last())[0].1,
    {
        let (mut sender, receiver) = unbounded(&self.state_senders);
        // receiver will not be disconnected
        let _ = send(&mut sender, self.snapshot(), Some(&receiver));
        self.state_senders.push(sender);
        assert(self.senders().drop_last() =~= old(self).senders());
        receiver
    }

    /// Takes in one message.
    pub fn apply(&mut self, message: DeviceUpdateMessage)
        requires
            old(self).wf(),
        ensures
            final(self).wf(),
            final(self).devices() == updated(old(self).devices(), message@),
            final(self).senders() == old(self).senders(),
    {
        match message {
            DeviceUpdateMessage::Create { name, connection } => {
                self.state.insert(name.clone(), Device::new(name, connection));
            },
            DeviceUpdateMessage::CpuMem { name, cpu, mem } => {
                if let Some(device) = self.state.get_mut(&name) {
                    device.cpu_usage = cpu;
                    device.mem_usage = mem;
                }
            },
        }
        assert(self.devices() =~= updated(old(self).devices(), message@));
    }

    /// Takes in the messages, the first of them first, and then tells every listener of the
    /// devices that they leave. Returns how many listeners are gone; these are kept.
    pub fn publish(&mut self, batch: Vec<DeviceUpdateMessage>) -> (refused: usize)
        requires
            old(self).wf(),
        ensures
            final(self).wf(),
            published(*old(self), messages_view(batch@), *final(self), refused as nat),
    {
        let ghost messages = messages_view(batch@);
        for message in it: batch
            invariant
                self.wf(),
                self.senders() == old(self).senders(),
                messages == messages_view(it.seq()),
                self.devices() == updated_by_all(old(self).devices(), messages.take(it.index())),
        {
            proof {
                let done = messages.take(it.index() + 1);
                assert(done.drop_last() =~= messages.take(it.index()));
                assert(done.last() == message@);
            }
            self.apply(message);
        }
        assert(messages.take(messages.len() as int) =~= messages);

        let state = self.snapshot();
        let ghost before = self.senders();
        let ghost devices = self.devices();
        let mut refused: usize = 0;
        let mut i: usize = 0;
        while i < self.state_senders.len()
            invariant
                self.wf(),
                self.devices() == devices,
                i <= self.senders().len() == before.len(),
                forall|j: int|
                    0 <= j < i ==> told(
                        before[j],
                        #[trigger] self.senders()[j],
                        state_view(state@),
                    ),
                forall|j: int| i <= j < before.len() ==> #[trigger] self.senders()[j] == before[j],
                refused == refusals(self.senders().take(i as int)),
                refused <= i,
            decreases before.len() - i,
        {
            let ghost senders = self.senders();
            let taken = send(&mut self.state_senders[i], clone_state(&state), None);
            proof {
                assert(self.senders().take(i + 1).drop_last() =~= senders.take(i as int));
                assert(told(before[i as int], self.senders()[i as int], state_view(state@)));
            }
            if !taken {
                refused = refused + 1;
            }
            i = i + 1;
        }
        assert(self.senders().take(i as int) =~= self.senders());
        refused
    }

    /// Takes in what waits in the channel, if anything does, and tells the listeners.
    /// Returns how many listeners are gone, or `None` where the channel says that it is
    /// empty.
    pub fn receive(&mut self, receiver: &mut Receiver<DeviceUpdateMessage>) -> (refused: Option<
        usize,
    >)
        requires
            old(self).wf(),
        ensures
            final(self).wf(),
            found_empty(*final(receiver)) == found_empty(*old(receiver)).push(refused is None),
            match refused {
                Some(n) => {
                    &&& drained(*final(receiver)).len() == drained(*old(receiver)).len() + 1
                    &&& drained(*final(receiver)).drop_last() == drained(*old(receiver))
                    &&& published(
                        *old(self),
                        drained(*final(receiver)).last(),
                        *final(self),
                        n as nat,
                    )
                },
                None => {
                    &&& drained(*final(receiver)) == drained(*old(receiver))
                    &&& *final(self) == *old(self)
                },
            },
    {
        if is_empty(receiver) {
            return None;
        }
        let batch = take_waiting(receiver);
        assert(drained(*receiver).drop_last() =~= drained(*old(receiver)));
        Some(self.publish(batch))
    }
}

} // verus!
