//! The `input:<n>` components of a Shelly device.
use vstd::prelude::*;
use vstd::string::*;
use crate::keys::{PrefixedKey, SerdeStringKey};

verus! {

/// Number of an input of a device.
#[derive(Debug, Clone, Copy, PartialEq, Eq, Structural, Hash, PartialOrd, Ord)]
pub struct InputKey {
    pub id: u16,
}

impl PrefixedKey for InputKey {
    open spec fn prefix_text() -> Seq<char> {
        seq!['i', 'n', 'p', 'u', 't', ':']
    }

    open spec fn key_id(self) -> u16 {
        self.id
    }

    fn prefix() -> (p: &'static str) {
        proof {
            reveal_strlit("input:");
        }
        "input:"
    }

    fn from_id(id: u16) -> (k: Self) {
        InputKey { id }
    }

    fn id_value(&self) -> (i: u16) {
        self.id
    }

    proof fn lemma_id_determines(a: Self, b: Self) {
    }
}

/// Key of an input component, written `"input:<n>"`.
pub type Key = SerdeStringKey<InputKey>;

} // verus!
