//! The `mqtt` component of a Shelly device.
use vstd::prelude::*;

verus! {

/// Key of the single `mqtt` component of a device (written `"mqtt"` on the wire).
#[derive(Debug, Clone, Copy, PartialEq, Eq, Structural, Hash, PartialOrd, Ord)]
pub enum Key {
    Mqtt,
}

} // verus!
