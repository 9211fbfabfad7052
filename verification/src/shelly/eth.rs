//! The `eth` component of a Shelly device.
use vstd::prelude::*;

verus! {

/// Key of the single `eth` component of a device (written `"eth"` on the wire).
#[derive(Debug, Clone, Copy, PartialEq, Eq, Structural, Hash, PartialOrd, Ord)]
pub enum Key {
    Eth,
}

} // verus!
