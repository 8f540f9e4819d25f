//! What a device tells the server, and its form on the wire.

use crate::bytes::{le_bytes, size_width};
use crate::error::{DeserializationError, ErrorView};
use crate::text::{decimal, decimal_text};
use crate::wire::{
    deserialize_string, deserialize_u8, deserialize_usage, finalize_serialization,
    serialize_string, serialize_u8, serialize_usage, string_field, take_number, take_string,
};
use vstd::prelude::*;
use vstd::string::StringExecFns;

verus! {

/// How a device is connected to the network.
#[derive(Copy, Clone, Debug, PartialEq, Eq, Structural)]
pub enum ConnectionType {
    Origin,
    Wired,
    Wireless,
}

/// A message from a device to the server. A usage figure is held as the bit pattern of a
/// single-precision number.
#[derive(Debug, PartialEq, Eq)]
pub enum DeviceUpdateMessage {
    /// The device is there, without usage figures so far.
    Create { name: String, connection: ConnectionType },
    /// The device's present processor and memory usage.
    CpuMem { name: String, cpu: u32, mem: u32 },
}

/// What a `DeviceUpdateMessage` says.
pub enum MessageView {
    Create { name: Seq<char>, connection: ConnectionType },
    CpuMem { name: Seq<char>, cpu: u32, mem: u32 },
}

impl View for DeviceUpdateMessage {
    type V = MessageView;

    open spec fn view(&self) -> MessageView {
        match self {
            DeviceUpdateMessage::Create { name, connection } => MessageView::Create {
                name: name@,
                connection: *connection,
            },
            DeviceUpdateMessage::CpuMem { name, cpu, mem } => MessageView::CpuMem {
                name: name@,
                cpu: *cpu,
                mem: *mem,
            },
        }
    }
}

/// The number that stands for a connection type in a message.
pub open spec fn connection_code(connection: ConnectionType) -> nat {
    match connection {
        ConnectionType::Origin => 0,
        ConnectionType::Wired => 1,
        ConnectionType::Wireless => 2,
    }
}

/// A message without the length in front of it.
pub open spec fn body(m: MessageView) -> Seq<u8> {
    match m {
        MessageView::Create { name, connection } => le_bytes(0, 8) + string_field(name) + le_bytes(
            connection_code(connection),
            8,
        ),
        MessageView::CpuMem { name, cpu, mem } => le_bytes(1, 8) + string_field(name) + le_bytes(
            cpu as nat,
            4,
        ) + le_bytes(mem as nat, 4),
    }
}

/// A message as it is sent: the length of its body, then the body.
pub open spec fn frame(m: MessageView) -> Seq<u8> {
    le_bytes(body(m).len(), size_width()) + body(m)
}

/// What the bytes after the message type say of a device that is there.
pub open spec fn decoded_create(buffer: Seq<u8>) -> Result<MessageView, ErrorView> {
    let (name, rest) = take_string(buffer);
    let (code, _) = take_number(rest, 8);
    match (name, code) {
        (Err(e), _) => Err(e),
        (Ok(_), Err(e)) => Err(e),
        (Ok(name), Ok(code)) => if code == 0 {
            Ok(MessageView::Create { name, connection: ConnectionType::Origin })
        } else if code == 1 {
            Ok(MessageView::Create { name, connection: ConnectionType::Wired })
        } else if code == 2 {
            Ok(MessageView::Create { name, connection: ConnectionType::Wireless })
        } else {
            Err(ErrorView::InvalidValue("Unexpected connection type: "@ + decimal(code)))
        },
    }
}

/// What the bytes after the message type say of a device's usage.
pub open spec fn decoded_cpu_mem(buffer: Seq<u8>) -> Result<MessageView, ErrorView> {
    let (name, after_name) = take_string(buffer);
    let (cpu, after_cpu) = take_number(after_name, 4);
    let (mem, _) = take_number(after_cpu, 4);
    match (name, cpu, mem) {
        (Err(e), _, _) => Err(e),
        (Ok(_), Err(e), _) => Err(e),
        (Ok(_), Ok(_), Err(e)) => Err(e),
        (Ok(name), Ok(cpu), Ok(mem)) => Ok(
            MessageView::CpuMem { name, cpu: cpu as u32, mem: mem as u32 },
        ),
    }
}

/// What the body of a message says: the message type decides how the rest is read, and
/// bytes after the last field are of no account.
pub open spec fn decoded(buffer: Seq<u8>) -> Result<MessageView, ErrorView> {
    let (kind, rest) = take_number(buffer, 8);
    match kind {
        Err(e) => Err(e),
        Ok(kind) => if kind == 0 {
            decoded_create(rest)
        } else if kind == 1 {
            decoded_cpu_mem(rest)
        } else {
            Err(ErrorView::InvalidValue("Unexpected message type: "@ + decimal(kind)))
        },
    }
}

/// The message or the error in the result of reading a body.
pub open spec fn message_view(r: Result<DeviceUpdateMessage, DeserializationError>) -> Result<
    MessageView,
    ErrorView,
> {
    match r {
        Ok(m) => Ok(m@),
        Err(e) => Err(e@),
    }
}

impl vstd::std_specs::convert::FromSpecImpl<DeviceUpdateMessage> for Vec<u8> {
    open spec fn obeys_from_spec() -> bool {
        false
    }

    open spec fn from_spec(value: DeviceUpdateMessage) -> Vec<u8> {
        arbitrary()
    }
}

impl From<DeviceUpdateMessage> for Vec<u8> {
    /// The message as it is sent.
    fn from(value: DeviceUpdateMessage) -> (buffer: Vec<u8>)
        ensures
            buffer@ == frame(value@),
    {
        match value {
            DeviceUpdateMessage::Create { name, connection } => {
                let mut buffer: Vec<u8> = Vec::new();
                // message type
                serialize_u8(0, &mut buffer);

                serialize_string(name, &mut buffer);
                serialize_u8(
                    match connection {
                        ConnectionType::Origin => 0,
                        ConnectionType::Wired => 1,
                        ConnectionType::Wireless => 2,
                    },
                    &mut buffer,
                );
                assert(buffer@ =~= body(value@));
                finalize_serialization(&mut buffer);
                buffer
            },
            DeviceUpdateMessage::CpuMem { name, cpu, mem } => {
                let mut buffer: Vec<u8> = Vec::new();
                // message type
                serialize_u8(1, &mut buffer);

                serialize_string(name, &mut buffer);
                serialize_usage(cpu, &mut buffer);
                serialize_usage(mem, &mut buffer);
                assert(buffer@ =~= body(value@));
                finalize_serialization(&mut buffer);
                buffer
            },
        }
    }
}

impl vstd::std_specs::convert::TryFromSpecImpl<Vec<u8>> for DeviceUpdateMessage {
    open spec fn obeys_try_from_spec() -> bool {
        false
    }

    open spec fn try_from_spec(value: Vec<u8>) -> Result<Self, Self::Error> {
        arbitrary()
    }
}

impl TryFrom<Vec<u8>> for DeviceUpdateMessage {
    type Error = DeserializationError;

    /// The message that the body of a message says.
    fn try_from(value: Vec<u8>) -> (r: Result<Self, Self::Error>)
        ensures
            message_view(r) == decoded(value@),
    {
        let mut value = value;
        let message_type = match deserialize_u8(&mut value) {
            Ok(message_type) => message_type,
            Err(e) => return Err(e),
        };

        match message_type {
            0 => {
                let name = match deserialize_string(&mut value) {
                    Ok(name) => name,
                    Err(e) => return Err(e),
                };
                let connection_type = match deserialize_u8(&mut value) {
                    Ok(connection_type) => connection_type,
                    Err(e) => return Err(e),
                };

                let connection = match connection_type {
                    0 => ConnectionType::Origin,
                    1 => ConnectionType::Wired,
                    2 => ConnectionType::Wireless,
                    err => {
                        let mut text = "Unexpected connection type: ".to_owned();
                        text.append(decimal_text(err).as_str());
                        return Err(DeserializationError::InvalidValue(text));
                    },
                };

                Ok(DeviceUpdateMessage::Create { name, connection })
            },
            1 => {
                let name = match deserialize_string(&mut value) {
                    Ok(name) => name,
                    Err(e) => return Err(e),
                };
                let cpu = match deserialize_usage(&mut value) {
                    Ok(cpu) => cpu,
                    Err(e) => return Err(e),
                };
                let mem = match deserialize_usage(&mut value) {
                    Ok(mem) => mem,
                    Err(e) => return Err(e),
                };

                Ok(DeviceUpdateMessage::CpuMem { name, cpu, mem })
            },
            err => {
                let mut text = "Unexpected message type: ".to_owned();
                text.append(decimal_text(err).as_str());
                Err(DeserializationError::InvalidValue(text))
            },
        }
    }
}

} // verus!
