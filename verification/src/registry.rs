//! The keys under which the controller's values are registered, the button
//! states it passes around, and the values a register starts with.
use vstd::prelude::*;
use crate::room::{DeviceInRoom, SubDeviceInRoom};

verus! {

/// A key that names a register holding values of type `Value`. The keys whose
/// registers hold temperatures and clock readings (floats and times) are the
/// ones that name their value type, and those types stay outside this
/// library, so no key implements it here.
pub trait TypedKey {
    type Value;
}

/// How often a clock register ticks.
#[derive(Debug, Clone, Copy, PartialEq, Eq, Structural, Hash, PartialOrd, Ord)]
pub enum ClockKeyResolution {
    Seconds,
    Minutes,
}

/// Registers holding temperatures.
#[derive(Debug, Clone, Copy, PartialEq, Eq, Structural, Hash, PartialOrd, Ord)]
pub enum TemperatureKey {
    CurrentTemperature(DeviceInRoom),
    TargetTemperature(DeviceInRoom),
}

/// Registers holding a colour temperature in mireds.
#[derive(Debug, Clone, Copy, PartialEq, Eq, Structural, Hash, PartialOrd, Ord)]
pub enum LightColorKey {
    Light(DeviceInRoom),
    TouchscreenController(DeviceInRoom),
}

/// Registers holding a brightness (0..=255).
#[derive(Debug, Clone, Copy, PartialEq, Eq, Structural, Hash, PartialOrd, Ord)]
pub enum BrightnessKey {
    Light(DeviceInRoom),
    TouchscreenController(DeviceInRoom),
}

/// Registers holding an on/off output.
#[derive(Debug, Clone, Copy, PartialEq, Eq, Structural, Hash, PartialOrd, Ord)]
pub enum SwitchOutputKey {
    Light(DeviceInRoom),
    Heat(DeviceInRoom),
    Bell(DeviceInRoom),
}

/// Register of a pair of up/down buttons.
#[derive(Debug, Clone, Copy, PartialEq, Eq, Structural, Hash, PartialOrd, Ord)]
pub struct DualButtonKey(pub SubDeviceInRoom);

/// Register of a single button or a motion detector.
#[derive(Debug, Clone, Copy, PartialEq, Eq, Structural, Hash, PartialOrd, Ord)]
pub enum SingleButtonKey {
    Button(SubDeviceInRoom),
    MotionDetector(DeviceInRoom),
}

/// State of a button: released, or pressed (short or long) on one of its keys.
#[derive(Debug, Clone, Copy, PartialEq, Eq, Structural, Hash)]
pub enum ButtonState<B> {
    Released,
    ShortPressStart(B),
    LongPressStart(B),
}

/// The two keys of a dual button.
#[derive(Debug, Clone, Copy, PartialEq, Eq, Structural, Hash, PartialOrd, Ord)]
pub enum DualButtonLayout {
    Up,
    Down,
}

/// The only key of a single button.
#[derive(Debug, Clone, Copy, PartialEq, Eq, Structural, Hash, PartialOrd, Ord, Default)]
pub struct SingleButtonLayout;

/// Brightness a register starts with: the stored one, else dark for a light
/// and full for a touchscreen controller.
pub fn initial_brightness(key: BrightnessKey, stored: Option<u8>) -> (v: u8)
    ensures
        v == match stored {
            Some(s) => s,
            None => match key {
                BrightnessKey::Light(_) => 0u8,
                BrightnessKey::TouchscreenController(_) => 255u8,
            },
        },
{
    match stored {
        Some(s) => s,
        None => match key {
            BrightnessKey::Light(_) => 0,
            BrightnessKey::TouchscreenController(_) => 255,
        },
    }
}

/// Colour temperature a register starts with: the stored one, else 200 mireds.
pub fn initial_light_color(stored: Option<u16>) -> (v: u16)
    ensures
        v == match stored {
            Some(s) => s,
            None => 200u16,
        },
{
    match stored {
        Some(s) => s,
        None => 200,
    }
}

/// State an output register starts with: the stored one, else off.
pub fn initial_switch(stored: Option<bool>) -> (v: bool)
    ensures
        v == match stored {
            Some(s) => s,
            None => false,
        },
{
    match stored {
        Some(s) => s,
        None => false,
    }
}

/// Milliseconds between two ticks of a clock.
pub fn clock_step_millis(resolution: ClockKeyResolution) -> (m: u32)
    ensures
        m == match resolution {
            ClockKeyResolution::Minutes => 60000u32,
            ClockKeyResolution::Seconds => 1000u32,
        },
{
    match resolution {
        ClockKeyResolution::Minutes => 60000,
        ClockKeyResolution::Seconds => 1000,
    }
}

/// How long a clock waits after a tick at `second`.`subsec_millis` so that
/// the next tick falls on a full step.
pub fn clock_wait_millis(resolution: ClockKeyResolution, second: u32, subsec_millis: u32) -> (w: u32)
    requires
        second < 60,
        subsec_millis < 2000,
    ensures
        w == clock_step_millis_spec(resolution) - (subsec_millis + second * 1000)
            % clock_step_millis_spec(resolution),
        0 < w <= clock_step_millis_spec(resolution),
{
    let step = clock_step_millis(resolution);
    step - (subsec_millis + second * 1000) % step
}

pub open spec fn clock_step_millis_spec(resolution: ClockKeyResolution) -> int {
    match resolution {
        ClockKeyResolution::Minutes => 60000,
        ClockKeyResolution::Seconds => 1000,
    }
}

} // verus!
