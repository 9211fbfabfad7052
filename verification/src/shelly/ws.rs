//! The `ws` component of a Shelly device.
use vstd::prelude::*;

verus! {

/// Key of the single `ws` component of a device (written `"ws"` on the wire).
#[derive(Debug, Clone, Copy, PartialEq, Eq, Structural, Hash, PartialOrd, Ord)]
pub enum Key {
    Ws,
}

} // verus!
