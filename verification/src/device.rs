//! What the server knows of a device.

use crate::message::ConnectionType;
use vstd::prelude::*;

verus! {

/// Whether a device takes part.
#[derive(Copy, Clone, Debug, PartialEq, Eq, Structural)]
pub enum DeviceStatus {
    Enabled,
    Disabled,
}

/// A device on the network. A usage figure is held as the bit pattern of a
/// single-precision number.
#[derive(Debug, PartialEq, Eq)]
pub struct Device {
    pub name: String,
    pub connection: ConnectionType,
    pub capabilities: Vec<(String, bool)>,
    pub status: DeviceStatus,
    pub cpu_usage: u32,
    pub mem_usage: u32,
}

/// The devices as a listener is told of them, in no particular order.
pub type HeimdallState = Vec<Device>;

/// What a `Device` says.
pub struct DeviceView {
    pub name: Seq<char>,
    pub connection: ConnectionType,
    pub capabilities: Seq<(Seq<char>, bool)>,
    pub status: DeviceStatus,
    pub cpu_usage: u32,
    pub mem_usage: u32,
}

/// What a list of capabilities says.
pub open spec fn capabilities_view(capabilities: Seq<(String, bool)>) -> Seq<(Seq<char>, bool)> {
    Seq::new(capabilities.len(), |i: int| (capabilities[i].0@, capabilities[i].1))
}

impl View for Device {
    type V = DeviceView;

    open spec fn view(&self) -> DeviceView {
        DeviceView {
            name: self.name@,
            connection: self.connection,
            capabilities: capabilities_view(self.capabilities@),
            status: self.status,
            cpu_usage: self.cpu_usage,
            mem_usage: self.mem_usage,
        }
    }
}

/// What a list of devices says.
pub open spec fn state_view(state: Seq<Device>) -> Seq<DeviceView> {
    Seq::new(state.len(), |i: int| state[i]@)
}

/// A device that has just come up: it takes part, it has no capabilities so far, and its
/// usage figures are zero, whose bit pattern is zero.
pub open spec fn new_device(name: Seq<char>, connection: ConnectionType) -> DeviceView {
    DeviceView {
        name,
        connection,
        capabilities: Seq::empty(),
        status: DeviceStatus::Enabled,
        cpu_usage: 0,
        mem_usage: 0,
    }
}

impl Device {
    /// A device that has just come up.
    pub fn new(name: String, connection: ConnectionType) -> (device: Self)
        ensures
            device@ == new_device(name@, connection),
    {
        let device = Device {
            name,
            connection,
            capabilities: Vec::new(),
            status: DeviceStatus::Enabled,
            cpu_usage: 0,
            mem_usage: 0,
        };
        assert(device@.capabilities =~= Seq::empty());
        device
    }
}

impl Clone for Device {
    fn clone(&self) -> (device: Self)
        ensures
            device@ == self@,
    {
        let mut capabilities: Vec<(String, bool)> = Vec::new();
        let mut i: usize = 0;
        while i < self.capabilities.len()
            invariant
                i <= self.capabilities@.len(),
                capabilities@.len() == i,
                forall|j: int|
                    0 <= j < i ==> (#[trigger] capabilities@[j]).0@ == self.capabilities@[j].0@
                        && capabilities@[j].1 == self.capabilities@[j].1,
            decreases self.capabilities@.len() - i,
        {
            capabilities.push((self.capabilities[i].0.clone(), self.capabilities[i].1));
            i = i + 1;
        }
        let device = Device {
            name: self.name.clone(),
            connection: self.connection,
            capabilities,
            status: self.status,
            cpu_usage: self.cpu_usage,
            mem_usage: self.mem_usage,
        };
        assert(device@.capabilities =~= self@.capabilities);
        device
    }
}

/// A copy of a list of devices.
pub(crate) fn clone_state(state: &HeimdallState) -> (copy: HeimdallState)
    ensures
        state_view(copy@) == state_view(state@),
{
    let mut copy: HeimdallState = Vec::new();
    let mut i: usize = 0;
    while i < state.len()
        invariant
            i <= state@.len(),
            copy@.len() == i,
            forall|j: int| 0 <= j < i ==> (#[trigger] copy@[j])@ == state@[j]@,
        decreases state@.len() - i,
    {
        copy.push(state[i].clone());
        i = i + 1;
    }
    assert(state_view(copy@) =~= state_view(state@));
    copy
}

} // verus!
