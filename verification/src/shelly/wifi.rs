//! The `wifi` component of a Shelly device.
use vstd::prelude::*;

verus! {

/// Key of the single `wifi` component of a device.
#[derive(Debug, Clone, Copy, PartialEq, Eq, Structural, Hash, PartialOrd, Ord)]
pub enum Key {
    Wifi,
}

/// Connection state of the wifi station.
#[derive(Debug, Clone, Copy, PartialEq, Eq, Structural)]
pub enum WifiStatus {
    Disconnected,
    Connecting,
    Connected,
    GotIp,
}

/// The access point the device can open itself.
#[derive(Debug, Clone)]
pub struct ApConfiguration {
    pub ssid: String,
    pub pass: Option<String>,
    pub is_open: bool,
    pub enable: bool,
    pub range_extender: ApRangeExtender,
}

#[derive(Debug, Clone, Copy, PartialEq, Eq, Structural)]
pub struct ApRangeExtender {
    pub enable: bool,
}

} // verus!
