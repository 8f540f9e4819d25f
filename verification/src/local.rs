//! A server for one machine alone: it takes in the figures of a device as they come, and
//! knows of a device from its first report on.

use crate::local_channel::{
    drained, found_empty, handed_over, is_empty, send, source, take_waiting, target, unbounded,
};
use crate::registry::{listed_as, lists, Registry};
use crossbeam_channel::{Receiver, Sender};
use vstd::prelude::*;

verus! {

/// A device and its usage figures, each held as the bit pattern of a single-precision
/// number.
#[derive(Debug, PartialEq, Eq)]
pub struct Device {
    pub name: String,
    pub cpu_usage: u32,
    pub mem_usage: u32,
}

/// The devices as a listener is told of them, in no particular order.
pub type HeimdallState = Vec<Device>;

/// A message to the server.
#[derive(Debug, PartialEq, Eq)]
pub enum DeviceUpdateMessage {
    /// A device's present processor and memory usage.
    CpuMem { name: String, cpu: u32, mem: u32 },
}

/// What a `Device` says.
pub struct DeviceView {
    pub name: Seq<char>,
    pub cpu_usage: u32,
    pub mem_usage: u32,
}

/// What a `DeviceUpdateMessage` says.
pub enum MessageView {
    CpuMem { name: Seq<char>, cpu: u32, mem: u32 },
}

impl View for Device {
    type V = DeviceView;

    open spec fn view(&self) -> DeviceView {
        DeviceView { name: self.name@, cpu_usage: self.cpu_usage, mem_usage: self.mem_usage }
    }
}

impl View for DeviceUpdateMessage {
    type V = MessageView;

    open spec fn view(&self) -> MessageView {
        match self {
            DeviceUpdateMessage::CpuMem { name, cpu, mem } => MessageView::CpuMem {
                name: name@,
                cpu: *cpu,
                mem: *mem,
            },
        }
    }
}

/// What a list of devices says.
pub open spec fn state_view(state: Seq<Device>) -> Seq<DeviceView> {
    Seq::new(state.len(), |i: int| state[i]@)
}

/// What a list of messages says.
pub open spec fn messages_view(messages: Seq<DeviceUpdateMessage>) -> Seq<MessageView> {
    Seq::new(messages.len(), |i: int| messages[i]@)
}

impl Clone for Device {
    fn clone(&self) -> (device: Self)
        ensures
            device@ == self@,
    {
        Device {
            name: self.name.clone(),
            cpu_usage: self.cpu_usage,
            mem_usage: self.mem_usage,
        }
    }
}

/// A copy of a list of devices.
fn clone_state(state: &HeimdallState) -> (copy: HeimdallState)
    ensures
        state_view(copy@) == state_view(state@),
{
    let mut copy: HeimdallState = Vec::new();
    let mut i: usize = 0;
    while i < state.len()
        invariant
            i <= state@.len(),
            copy@.len() == i,
            forall|j: int| 0 <= j < i ==> (#[trigger] copy@[j])@ == state@[j]@,
        decreases state@.len() - i,
    {
        copy.push(state[i].clone());
        i = i + 1;
    }
    assert(state_view(copy@) =~= state_view(state@));
    copy
}

/// The report of the machine that the server runs on.
pub fn laptop_update(cpu: u32, mem: u32) -> (message: DeviceUpdateMessage)
    ensures
        message@ == (MessageView::CpuMem { name: "Laptop"@, cpu, mem }),
{
    DeviceUpdateMessage::CpuMem { name: "Laptop".to_owned(), cpu, mem }
}

/// The devices that a message leaves, of those that were known before it: the device is
/// known with these figures, whether or not it was known before.
pub open spec fn updated(devices: Map<Seq<char>, DeviceView>, m: MessageView) -> Map<
    Seq<char>,
    DeviceView,
> {
    match m {
        MessageView::CpuMem { name, cpu, mem } => devices.insert(
            name,
            DeviceView { name, cpu_usage: cpu, mem_usage: mem },
        ),
    }
}

/// The devices that several messages leave, the first of them first.
pub open spec fn updated_by_all(
    devices: Map<Seq<char>, DeviceView>,
    messages: Seq<MessageView>,
) -> Map<Seq<char>, DeviceView> {
    messages.fold_left(devices, updating())
}

/// What a message does to the devices, as a function.
pub open spec fn updating() -> spec_fn(Map<Seq<char>, DeviceView>, MessageView) -> Map<
    Seq<char>,
    DeviceView,
> {
    |devices: Map<Seq<char>, DeviceView>, m: MessageView| updated(devices, m)
}

/// Every device is known by its own name.
pub open spec fn named_rightly(devices: Map<Seq<char>, DeviceView>) -> bool {
    forall|name: Seq<char>| #[trigger]
        devices.contains_key(name) ==> devices[name].name == name
}

/// How many of these handles had the last state refused that was handed to them.
pub open spec fn refusals(senders: Seq<Sender<HeimdallState>>) -> nat
    decreases senders.len(),
{
    if senders.len() == 0 {
        0
    } else {
        refusals(senders.drop_last()) + if handed_over(senders.last()).last().1 {
            0nat
        } else {
            1nat
        }
    }
}

/// No two of these handles send to the same channel.
pub open spec fn own_channels(senders: Seq<Sender<HeimdallState>>) -> bool {
    forall|i: int, j: int|
        0 <= i < j < senders.len() ==> target(#[trigger] senders[i]) != target(
            #[trigger] senders[j],
        )
}

/// `after` is the handle `before` once `state` has been handed to it, and nothing else.
pub open spec fn told(
    before: Sender<HeimdallState>,
    after: Sender<HeimdallState>,
    state: Seq<DeviceView>,
) -> bool {
    &&& target(after) == target(before)
    &&& exists|taken: bool|
        handed_over(after) == #[trigger] handed_over(before).push((state, taken))
}

/// The devices that the server knows of, and the listeners that it tells of each change.
pub struct HeimdallServer {
    state: Registry<Device>,
    state_senders: Vec<Sender<HeimdallState>>,
}

impl HeimdallServer {
    /// The devices that the server knows of, by name.
    pub closed spec fn devices(&self) -> Map<Seq<char>, DeviceView> {
        self.state@.map_values(|device: Device| device@)
    }

    /// The handles through which the listeners are told, the oldest first.
    pub closed spec fn senders(&self) -> Seq<Sender<HeimdallState>> {
        self.state_senders@
    }

    /// Every device is known by its own name, and every listener has a channel of its own.
    pub closed spec fn wf(&self) -> bool {
        &&& self.state.wf()
        &&& named_rightly(self.devices())
        &&& own_channels(self.senders())
    }

    /// Every device is known by its own name.
    pub proof fn lemma_named_rightly(&self)
        requires
            self.wf(),
        ensures
            named_rightly(self.devices()),
    {
    }

    /// Every listener has a channel of its own: what one is told no other takes away.
    pub proof fn lemma_own_channels(&self)
        requires
            self.wf(),
        ensures
            own_channels(self.senders()),
    {
    }
}

/// `after` is the server `before` once it has taken in `batch` and told every listener:
/// the same devices, all of them and each once, to each listener. `refused` listeners are
/// gone.
pub open spec fn published(
    before: HeimdallServer,
    batch: Seq<MessageView>,
    after: HeimdallServer,
    refused: nat,
) -> bool {
    &&& after.devices() == updated_by_all(before.devices(), batch)
    &&& after.senders().len() == before.senders().len()
    &&& exists|state: Seq<DeviceView>| #[trigger]
        lists(state, after.devices()) && forall|i: int|
            0 <= i < after.senders().len() ==> told(
                before.senders()[i],
                #[trigger] after.senders()[i],
                state,
            )
    &&& refused == refusals(after.senders())
}

impl Default for HeimdallServer {
    fn default() -> (server: Self)
        ensures
            server.wf(),
            server.devices() == Map::<Seq<char>, DeviceView>::empty(),
            server.senders().len() == 0,
    {
        HeimdallServer::new()
    }
}

impl HeimdallServer {
    /// A server that knows of no device and has no listener.
    pub fn new() -> (server: Self)
        ensures
            server.wf(),
            server.devices() == Map::<Seq<char>, DeviceView>::empty(),
            server.senders().len() == 0,
    {
        let server = HeimdallServer { state: Registry::new(), state_senders: Vec::new() };
        assert(server.devices() =~= Map::<Seq<char>, DeviceView>::empty());
        server
    }

    /// The devices that the server knows of, in no particular order.
    pub fn snapshot(&self) -> (state: HeimdallState)
        requires
            self.wf(),
        ensures
            lists(state_view(state@), self.devices()),
    {
        let mut state: HeimdallState = Vec::new();
        let ghost names = self.state.names();
        let n: usize = self.state.len();
        let mut i: usize = 0;
        while i < n
            invariant
                self.wf(),
                names == self.state.names(),
                i <= n == names.len(),
                state@.len() == i,
                forall|j: int| 0 <= j < i ==> (#[trigger] state@[j])@ == self.state@[names[j]]@,
            decreases n - i,
        {
            state.push(self.state.value(i).clone());
            i = i + 1;
        }
        proof {
            self.state.lemma_names();
            assert(self.devices().dom() =~= self.state@.dom());
            assert forall|j: int| 0 <= j < names.len() implies #[trigger] state_view(state@)[j]
                == self.devices()[names[j]] by {
                assert(names.to_set().contains(names[j]));
            }
            assert(listed_as(names, state_view(state@), self.devices()));
        }
        state
    }

    /// Adds a listener, and returns the end of the channel over which it is told of the
    /// devices that each change leaves.
    pub fn add_listener(&mut self) -> (receiver: Receiver<HeimdallState>)
        requires
            old(self).wf(),
        ensures
            final(self).wf(),
            final(self).devices() == old(self).devices(),
            final(self).senders().len() == old(self).senders().len() + 1,
            final(self).senders().drop_last() == old(self).senders(),
            target(final(self).senders().last()) == source(receiver),
            forall|i: int|
                0 <= i < old(self).senders().len() ==> target(#[trigger] old(self).senders()[i])
                    != source(receiver),
            handed_over(final(self).senders().last()).len() == 0,
    {
        let (sender, receiver) = unbounded(&self.state_senders);
        self.state_senders.push(sender);
        assert(self.senders().drop_last() =~= old(self).senders());
        receiver
    }

    /// Takes in one message.
    pub fn apply(&mut self, message: DeviceUpdateMessage)
        requires
            old(self).wf(),
        ensures
            final(self).wf(),
            final(self).devices() == updated(old(self).devices(), message@),
            final(self).senders() == old(self).senders(),
    {
        match message {
            DeviceUpdateMessage::CpuMem { name, cpu, mem } => {
                assert(self.devices().contains_key(name@) ==> self.devices()[name@].name == name@);
                let known = match self.state.get_mut(&name) {
                    Some(device) => {
                        device.cpu_usage = cpu;
                        device.mem_usage = mem;
                        true
                    },
                    None => false,
                };
                if !known {
                    self.state.insert(
                        name.clone(),
                        Device { name, cpu_usage: cpu, mem_usage: mem },
                    );
                }
            },
        }
        assert(self.devices() =~= updated(old(self).devices(), message@));
    }

    /// Takes in the messages, the first of them first, and then tells every listener of the
    /// devices that they leave. Returns how many listeners are gone; these are kept.
    pub fn publish(&mut self, batch: Vec<DeviceUpdateMessage>) -> (refused: usize)
        requires
            old(self).wf(),
        ensures
            final(self).wf(),
            published(*old(self), messages_view(batch@), *final(self), refused as nat),
    {
        let ghost messages = messages_view(batch@);
        for message in it: batch
            invariant
                self.wf(),
                self.senders() == old(self).senders(),
                messages == messages_view(it.seq()),
                self.devices() == updated_by_all(old(self).devices(), messages.take(it.index())),
        {
            proof {
                let done = messages.take(it.index() + 1);
                assert(done.drop_last() =~= messages.take(it.index()));
                assert(done.last() == message@);
            }
            self.apply(message);
        }
        assert(messages.take(messages.len() as int) =~= messages);

        let state = self.snapshot();
        let ghost before = self.senders();
        let ghost devices = self.devices();
        let mut refused: usize = 0;
        let mut i: usize = 0;
        while i < self.state_senders.len()
            invariant
                self.wf(),
                self.devices() == devices,
                i <= self.senders().len() == before.len(),
                forall|j: int|
                    0 <= j < i ==> told(
                        before[j],
                        #[trigger] self.senders()[j],
                        state_view(state@),
                    ),
                forall|j: int| i <= j < before.len() ==> #[trigger] self.senders()[j] == before[j],
                refused == refusals(self.senders().take(i as int)),
                refused <= i,
            decreases before.len() - i,
        {
            let ghost senders = self.senders();
            let taken = send(&mut self.state_senders[i], clone_state(&state));
            proof {
                assert(self.senders().take(i + 1).drop_last() =~= senders.take(i as int));
                assert(told(before[i as int], self.senders()[i as int], state_view(state@)));
            }
            if !taken {
                refused = refused + 1;
            }
            i = i + 1;
        }
        assert(self.senders().take(i as int) =~= self.senders());
        refused
    }

    /// Takes in what waits in the channel, if anything does, and tells the listeners.
    /// Returns how many listeners are gone, or `None` where the channel says that it is
    /// empty.
    pub fn receive(&mut self, receiver: &mut Receiver<DeviceUpdateMessage>) -> (refused: Option<
        usize,
    >)
        requires
            old(self).wf(),
        ensures
            final(self).wf(),
            found_empty(*final(receiver)) == found_empty(*old(receiver)).push(refused is None),
            match refused {
                Some(n) => {
                    &&& drained(*final(receiver)).len() == drained(*old(receiver)).len() + 1
                    &&& drained(*final(receiver)).drop_last() == drained(*old(receiver))
                    &&& published(
                        *old(self),
                        drained(*final(receiver)).last(),
                        *final(self),
                        n as nat,
                    )
                },
                None => {
                    &&& drained(*final(receiver)) == drained(*old(receiver))
                    &&& *final(self) == *old(self)
                },
            },
    {
        if is_empty(receiver) {
            return None;
        }
        let batch = take_waiting(receiver);
        assert(drained(*receiver).drop_last() =~= drained(*old(receiver)));
        Some(self.publish(batch))
    }
}

} // verus!
