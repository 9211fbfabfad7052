//! The `cloud` component of a Shelly device.
use vstd::prelude::*;

verus! {

/// Key of the single `cloud` component of a device (written `"cloud"` on the wire).
#[derive(Debug, Clone, Copy, PartialEq, Eq, Structural, Hash, PartialOrd, Ord)]
pub enum Key {
    Cloud,
}

} // verus!
