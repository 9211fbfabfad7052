//! The `ui` component of a Shelly device.
use vstd::prelude::*;

verus! {

/// Key of the single `ui` component of a device (written `"ui"` on the wire).
#[derive(Debug, Clone, Copy, PartialEq, Eq, Structural, Hash, PartialOrd, Ord)]
pub enum Key {
    Ui,
}

} // verus!
