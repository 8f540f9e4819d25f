//! What holds of every device, field by field.

use crate::device::{Device, DeviceStatus, DeviceView};
use crate::message::ConnectionType;
use vstd::prelude::*;

verus! {

/// What is said of a device is what its fields hold.
pub proof fn lemma_device_says_its_fields(device: Device)
    ensures
        device@.name == device.name@,
        device@.connection == device.connection,
        device@.status == device.status,
        device@.cpu_usage == device.cpu_usage,
        device@.mem_usage == device.mem_usage,
        device@.capabilities.len() == device.capabilities@.len(),
        forall|i: int|
            0 <= i < device.capabilities@.len() ==> (#[trigger] device@.capabilities[i]).0
                == device.capabilities@[i].0@ && device@.capabilities[i].1
                == device.capabilities@[i].1,
{
}

/// A device that has just come up has the name and the connection that it was given. It
/// takes part, has no capabilities, and has used nothing so far.
pub proof fn lemma_new_device(name: String, connection: ConnectionType, device: Device)
    requires
        call_ensures(Device::new, (name, connection), device),
    ensures
        device.name@ == name@,
        device.connection == connection,
        device.capabilities@ == Seq::<(String, bool)>::empty(),
        device.status == DeviceStatus::Enabled,
        device.cpu_usage == 0,
        device.mem_usage == 0,
{
    assert(device@.capabilities.len() == device.capabilities@.len());
    assert(device.capabilities@ =~= Seq::<(String, bool)>::empty());
}

/// Of two devices that have just come up nothing differs but what they were given.
pub proof fn lemma_new_devices_are_alike(
    name: String,
    connection: ConnectionType,
    device: Device,
    other_name: String,
    other_connection: ConnectionType,
    other: Device,
)
    requires
        call_ensures(Device::new, (name, connection), device),
        call_ensures(Device::new, (other_name, other_connection), other),
    ensures
        other@ == (DeviceView { name: other_name@, connection: other_connection, ..device@ }),
{
}

/// A copy of a device has every field of the device.
pub proof fn lemma_copy_of_device(device: Device, copy: Device)
    requires
        call_ensures(Device::clone, (&device,), copy),
    ensures
        copy.name@ == device.name@,
        copy.connection == device.connection,
        copy.status == device.status,
        copy.cpu_usage == device.cpu_usage,
        copy.mem_usage == device.mem_usage,
        copy.capabilities@.len() == device.capabilities@.len(),
        forall|i: int|
            0 <= i < device.capabilities@.len() ==> (#[trigger] copy.capabilities@[i]).0@
                == device.capabilities@[i].0@ && copy.capabilities@[i].1
                == device.capabilities@[i].1,
{
    lemma_device_says_its_fields(device);
    lemma_device_says_its_fields(copy);
    assert forall|i: int| 0 <= i < device.capabilities@.len() implies (
    #[trigger] copy.capabilities@[i]).0@ == device.capabilities@[i].0@ && copy.capabilities@[i].1
        == device.capabilities@[i].1 by {
        assert(copy@.capabilities[i] == device@.capabilities[i]);
    }
}

} // verus!
