//! The `light:<n>` (dimmer) components of a Shelly device and how the
//! controller drives them.
use vstd::prelude::*;
use vstd::string::*;
use crate::keys::{PrefixedKey, SerdeStringKey};

verus! {

/// Number of a light output of a device.
#[derive(Debug, Clone, Copy, PartialEq, Eq, Structural, Hash, PartialOrd, Ord)]
pub struct LightKey {
    pub id: u16,
}

impl PrefixedKey for LightKey {
    open spec fn prefix_text() -> Seq<char> {
        seq!['l', 'i', 'g', 'h', 't', ':']
    }

    open spec fn key_id(self) -> u16 {
        self.id
    }

    fn prefix() -> (p: &'static str) {
        proof {
            reveal_strlit("light:");
        }
        "light:"
    }

    fn from_id(id: u16) -> (k: Self) {
        LightKey { id }
    }

    fn id_value(&self) -> (i: u16) {
        self.id
    }

    proof fn lemma_id_determines(a: Self, b: Self) {
    }
}

/// Key of a light component, written `"light:<n>"`.
pub type Key = SerdeStringKey<LightKey>;

/// A transition that is running on a light.
#[derive(Debug, Clone, Copy, PartialEq, Eq, Structural)]
pub struct StatusTransition {}

/// Progress of a running calibration.
#[derive(Debug, Clone, Copy, PartialEq, Eq, Structural)]
pub struct Calibration {
    pub progress: u8,
}

/// Flags a light reports in its status.
#[derive(Debug, Clone, Copy, PartialEq, Eq, Structural)]
pub enum StatusFlags {
    Uncalibrated,
}

/// Whether a light reports that it has not been calibrated yet (then the
/// controller calibrates it before driving it).
pub fn needs_calibration(flags: &Vec<StatusFlags>) -> (r: bool)
    ensures
        r == flags@.contains(StatusFlags::Uncalibrated),
{
    let mut i: usize = 0;
    while i < flags.len()
        invariant
            i <= flags.len(),
            forall|j: int| 0 <= j < i ==> flags@[j] != StatusFlags::Uncalibrated,
        decreases flags.len() - i,
    {
        if flags[i] == StatusFlags::Uncalibrated {
            return true;
        }
        i = i + 1;
    }
    false
}

/// The brightness register (`0..=255`) scaled to the percent (`0..=100`)
/// that the light takes: `(v * 101) >> 8`.
pub fn brightness_to_percent(v: u8) -> (p: u8)
    ensures
        p == (v as int * 101) / 256,
        p <= 100,
{
    let w: u16 = (v as u16) * 101;
    let p = w >> 8;
    assert(p == w / 256) by (bit_vector)
        requires
            p == w >> 8,
    ;
    p as u8
}

/// The brightness a light gets when it follows a switch register (as the
/// controller sets it: 0 for `on`, 100 for `off`).
pub fn switch_brightness(on: bool) -> (b: u8)
    ensures
        b == (if on {
            0u8
        } else {
            100u8
        }),
{
    if on {
        0
    } else {
        100
    }
}

/// What a `Light.Set` call carries.
#[derive(Debug, Clone, Copy, PartialEq, Eq, Structural)]
pub struct LightSetRequest {
    pub id: u16,
    pub on: Option<bool>,
    pub brightness: Option<u8>,
    /// Seconds after which the light toggles back, if it should.
    pub toggle_after: Option<i64>,
}

/// The request that sets a light to `brightness`: it is on when the
/// brightness is not zero, and turns itself off after the configured delay
/// when the light is configured to switch off automatically.
pub fn set_brightness_request(id: u16, brightness: u8, auto_off: bool, auto_off_delay_secs: i64) -> (r:
    LightSetRequest)
    ensures
        r.id == id,
        r.on == Some(brightness > 0),
        r.brightness == Some(brightness),
        r.toggle_after == (if brightness > 0 && auto_off {
            Some(auto_off_delay_secs)
        } else {
            None
        }),
{
    let toggle_after = if brightness > 0 && auto_off {
        Some(auto_off_delay_secs)
    } else {
        None
    };
    LightSetRequest { id, on: Some(brightness > 0), brightness: Some(brightness), toggle_after }
}

} // verus!
