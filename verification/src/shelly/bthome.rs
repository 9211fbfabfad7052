//! The `bthome` component of a Shelly device.
use vstd::prelude::*;

verus! {

/// Key of the single `bthome` component of a device (written `"bthome"` on the wire).
#[derive(Debug, Clone, Copy, PartialEq, Eq, Structural, Hash, PartialOrd, Ord)]
pub enum Key {
    Bthome,
}

} // verus!

verus! {

/// Errors a BTHome component reports.
#[derive(Debug, Clone, Copy, PartialEq, Eq, Structural)]
pub enum BtHomeError {
    BluetoothDisabled,
    ObserverDisabled,
}

} // verus!
