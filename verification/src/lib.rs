//! Resource statistics of the devices on a local network: the wire format of the
//! device messages, the server that keeps one entry per device and tells its
//! listeners of each change, and the client that reports to it.

pub mod bytes;
pub mod channel;
pub mod client;
pub mod client_laws;
pub mod device;
pub mod device_laws;
pub mod error;
pub mod history;
pub mod local;
pub mod local_call_laws;
pub mod local_channel;
pub mod local_laws;
pub mod message;
pub mod message_laws;
pub mod registry;
pub mod registry_laws;
pub mod report_laws;
pub mod roundtrip;
pub mod server;
pub mod server_call_laws;
pub mod server_laws;
pub mod stream;
pub mod stream_laws;
pub mod text;
pub mod wire;

pub use device::{Device, DeviceStatus, HeimdallState};
pub use error::DeserializationError;
pub use message::{ConnectionType, DeviceUpdateMessage};
pub use server::{HeimdallServer, HEIMDALL_PORT};
