//! The `ble` component of a Shelly device.
use vstd::prelude::*;

verus! {

/// Key of the single `ble` component of a device (written `"ble"` on the wire).
#[derive(Debug, Clone, Copy, PartialEq, Eq, Structural, Hash, PartialOrd, Ord)]
pub enum Key {
    BLE,
}

} // verus!

verus! {

/// Remote procedure calls over Bluetooth.
#[derive(Debug, Clone, Copy, PartialEq, Eq, Structural)]
pub struct RpcConfiguration {
    pub enable: bool,
}

/// Passive observation of Bluetooth devices.
#[derive(Debug, Clone, Copy, PartialEq, Eq, Structural)]
pub struct ObserverConfiguration {
    pub enable: bool,
}

} // verus!
