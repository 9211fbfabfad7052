//! The `switch:<n>` (relay) components of a Shelly device and how the
//! controller drives them.
use vstd::prelude::*;
use vstd::string::*;
use crate::keys::{PrefixedKey, SerdeStringKey};

verus! {

/// Number of a switch output of a device.
#[derive(Debug, Clone, Copy, PartialEq, Eq, Structural, Hash, PartialOrd, Ord)]
pub struct SwitchKey {
    pub id: u16,
}

impl PrefixedKey for SwitchKey {
    open spec fn prefix_text() -> Seq<char> {
        seq!['s', 'w', 'i', 't', 'c', 'h', ':']
    }

    open spec fn key_id(self) -> u16 {
        self.id
    }

    fn prefix() -> (p: &'static str) {
        proof {
            reveal_strlit("switch:");
        }
        "switch:"
    }

    fn from_id(id: u16) -> (k: Self) {
        SwitchKey { id }
    }

    fn id_value(&self) -> (i: u16) {
        self.id
    }

    proof fn lemma_id_determines(a: Self, b: Self) {
    }
}

/// Key of a switch component, written `"switch:<n>"`.
pub type Key = SerdeStringKey<SwitchKey>;

/// A transition that is running on a switch.
#[derive(Debug, Clone, Copy, PartialEq, Eq, Structural)]
pub struct StatusTransition {}

/// Answer of `Switch.Set` and `Switch.Toggle`: the state before the call.
#[derive(Debug, Clone, Copy, PartialEq, Eq, Structural)]
pub struct WasOnResponse {
    pub was_on: bool,
}

/// The automatic toggle that a `Switch.Set` to `on` carries, in seconds: an
/// output switched on turns off after the auto-off delay when auto-off is
/// configured, one switched off turns on after the auto-on delay when
/// auto-on is configured.
pub fn set_on_toggle_after(
    on: bool,
    auto_off: bool,
    auto_off_delay_secs: i64,
    auto_on: bool,
    auto_on_delay_secs: i64,
) -> (t: Option<i64>)
    ensures
        t == (if on && auto_off {
            Some(auto_off_delay_secs)
        } else if !on && auto_on {
            Some(auto_on_delay_secs)
        } else {
            None
        }),
{
    if on && auto_off {
        Some(auto_off_delay_secs)
    } else if !on && auto_on {
        Some(auto_on_delay_secs)
    } else {
        None
    }
}

} // verus!
