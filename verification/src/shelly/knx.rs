//! The `knx` component of a Shelly device.
use vstd::prelude::*;

verus! {

/// Key of the single `knx` component of a device (written `"knx"` on the wire).
#[derive(Debug, Clone, Copy, PartialEq, Eq, Structural, Hash, PartialOrd, Ord)]
pub enum Key {
    Knx,
}

} // verus!
