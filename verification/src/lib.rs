//! Client library for the WiZ Connected UDP lighting protocol.
//!
//! The library covers the device communication protocol layer: the JSON
//! wire codec, request/response correlation with timeout, broadcast
//! discovery semantics, the protocol error taxonomy, and the device
//! capability model that gates which commands may be sent to which kind
//! of device. Socket I/O itself is left to the caller, which feeds
//! received datagrams into the functions of this crate.

pub mod capability;
pub mod codec;
pub mod color;
pub mod control;
pub mod device;
pub mod json;
pub mod messages;
pub mod network;

pub use capability::BulbKind;
pub use capability::DeviceKind;
pub use codec::CodecError;
pub use color::RGBCW;
pub use device::Device;
pub use device::DeviceError;
pub use device::SetPilotBuilder;
pub use network::Datagram;
pub use network::IpAddress;
pub use network::NetworkError;
