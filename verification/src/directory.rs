//! What the device directory tells the core about a device.

use vstd::prelude::*;

verus! {

/// The transports that the directory lists for a device.
#[derive(Debug, Clone, Copy, PartialEq, Eq)]
pub struct TransportConfig {
    pub device_id: i32,
    /// The device's UUID, as its 128 bits.
    pub external_uuid: u128,
    pub socket_port: Option<u16>,
    pub broker_port: Option<u16>,
    pub broker_enabled: bool,
    pub is_active: bool,
    /// Whether the device was marked connected when the directory was read.
    pub is_connected: bool,
}

} // verus!
