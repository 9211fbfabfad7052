//! How the devices are wired to the registers and controllers: the
//! configuration the sheet is read into. Bricklets are named by their uid as a
//! number, times are in milliseconds.
use vstd::prelude::*;
use crate::registry::{
    BrightnessKey, ClockKeyResolution, DualButtonKey, LightColorKey, SingleButtonKey,
    SwitchOutputKey, TemperatureKey,
};

verus! {

/// All controllers.
#[derive(Debug, Clone, Default)]
pub struct Controllers {
    pub dual_input_dimmers: Vec<DualInputDimmer>,
    pub dual_input_switches: Vec<DualInputSwitch>,
    pub motion_detectors: Vec<MotionDetector>,
    pub heat_controllers: Vec<HeatController>,
    pub ring_controllers: Vec<RingController>,
}

/// A light dimmed by dual buttons.
#[derive(Debug, Clone)]
pub struct DualInputDimmer {
    pub input: Vec<DualButtonKey>,
    pub output: BrightnessKey,
    pub auto_switch_off_time: u64,
    pub presence: Vec<SingleButtonKey>,
}

/// A light switched by dual buttons.
#[derive(Debug, Clone)]
pub struct DualInputSwitch {
    pub input: Vec<DualButtonKey>,
    pub output: SwitchOutputKey,
    pub auto_switch_off_time: u64,
    pub presence: Vec<SingleButtonKey>,
}

/// A light driven by motion detectors alone.
#[derive(Debug, Clone)]
pub enum MotionDetector {
    Switch { input: Vec<SingleButtonKey>, output: SwitchOutputKey, switch_off_time: u64 },
    Dimmer {
        input: Vec<SingleButtonKey>,
        output: BrightnessKey,
        brightness: Option<BrightnessKey>,
        switch_off_time: u64,
    },
}

/// A heating output switched by comparing two temperatures.
#[derive(Debug, Clone, Copy, PartialEq, Eq, Structural)]
pub struct HeatController {
    pub current_value_input: TemperatureKey,
    pub target_value_input: TemperatureKey,
    pub output: SwitchOutputKey,
}

/// A bell rung by a button.
#[derive(Debug, Clone, Copy, PartialEq, Eq, Structural)]
pub struct RingController {
    pub input: SingleButtonKey,
    pub output: SwitchOutputKey,
}

/// How a touchscreen is mounted.
#[derive(Debug, Clone, Copy, PartialEq, Eq, Structural, Hash)]
pub enum Orientation {
    Straight,
    LeftDown,
    UpsideDown,
    RightDown,
}

/// What a touchscreen shows and lets adjust.
#[derive(Debug, Clone, Copy, PartialEq, Eq, Structural)]
pub struct ScreenSettings {
    pub orientation: Orientation,
    pub clock_key: Option<ClockKeyResolution>,
    pub current_temperature_key: Option<TemperatureKey>,
    pub adjust_temperature_key: Option<TemperatureKey>,
    pub light_color_key: Option<LightColorKey>,
    pub brightness_key: Option<BrightnessKey>,
}

/// The lights on a DMX bricklet.
#[derive(Debug, Clone)]
pub struct DmxSettings {
    pub entries: Vec<DmxConfigEntry>,
}

/// One light on a DMX bus.
#[derive(Debug, Clone, Copy, PartialEq, Eq, Structural)]
pub enum DmxConfigEntry {
    Dimm { register: BrightnessKey, channel: u16 },
    DimmWhitebalance {
        brightness_register: BrightnessKey,
        whitebalance_register: LightColorKey,
        warm_channel: u16,
        cold_channel: u16,
        warm_mireds: u16,
        cold_mireds: u16,
    },
    Switch { register: SwitchOutputKey, channel: u16 },
}

/// The buttons on an IO bricklet.
#[derive(Debug, Clone)]
pub struct IoSettings {
    pub entries: Vec<ButtonSetting>,
}

/// One button on an IO bricklet and the input channels it uses.
#[derive(Debug, Clone, Copy, PartialEq, Eq, Structural)]
pub enum ButtonSetting {
    Dual { up_button: u8, down_button: u8, output: DualButtonKey },
    Single { button: u8, output: SingleButtonKey },
}

/// Where a motion detector bricklet reports.
#[derive(Debug, Clone, Copy, PartialEq, Eq, Structural)]
pub struct MotionDetectorSettings {
    pub output: SingleButtonKey,
}

/// The channels of a relay bricklet.
#[derive(Debug, Clone)]
pub struct RelaySettings {
    pub entries: Vec<RelayChannelEntry>,
}

/// One relay channel and the register that drives it.
#[derive(Debug, Clone, Copy, PartialEq, Eq, Structural)]
pub struct RelayChannelEntry {
    pub channel: u8,
    pub input: SwitchOutputKey,
}

/// Where a temperature bricklet reports.
#[derive(Debug, Clone, Copy, PartialEq, Eq, Structural)]
pub struct TemperatureSettings {
    pub output: TemperatureKey,
}

/// The bricklets, each under its uid.
#[derive(Debug, Clone, Default)]
pub struct TinkerforgeDevices {
    pub endpoints: Vec<crate::state::IpAddress>,
    pub lcd_screens: Vec<(u32, ScreenSettings)>,
    pub dmx_bricklets: Vec<(u32, DmxSettings)>,
    pub io_bricklets: Vec<(u32, IoSettings)>,
    pub motion_detectors: Vec<(u32, MotionDetectorSettings)>,
    pub relays: Vec<(u32, RelaySettings)>,
    pub temperature_sensors: Vec<(u32, TemperatureSettings)>,
}

/// The whole configuration.
#[derive(Debug, Clone, Default)]
pub struct Wiring {
    pub controllers: Controllers,
    pub tinkerforge_devices: TinkerforgeDevices,
    pub shelly_endpoints: Vec<crate::state::IpAddress>,
}

/// How many input channels a button uses.
pub open spec fn button_channels(s: ButtonSetting) -> int {
    match s {
        ButtonSetting::Dual { .. } => 2,
        ButtonSetting::Single { .. } => 1,
    }
}

/// How many DMX channels a light uses.
pub open spec fn dmx_channels(e: DmxConfigEntry) -> int {
    match e {
        DmxConfigEntry::Dimm { .. } => 1,
        DmxConfigEntry::DimmWhitebalance { .. } => 2,
        DmxConfigEntry::Switch { .. } => 1,
    }
}

/// Sum of the channels of the first `n` buttons.
pub open spec fn io_channel_sum(s: Seq<ButtonSetting>, n: int) -> int
    decreases n,
{
    if n <= 0 {
        0
    } else {
        io_channel_sum(s, n - 1) + button_channels(s[n - 1])
    }
}

/// Sum of the channels of the first `n` lights.
pub open spec fn dmx_channel_sum(s: Seq<DmxConfigEntry>, n: int) -> int
    decreases n,
{
    if n <= 0 {
        0
    } else {
        dmx_channel_sum(s, n - 1) + dmx_channels(s[n - 1])
    }
}

proof fn lemma_io_sum_monotone(s: Seq<ButtonSetting>, i: int, n: int)
    requires
        0 <= i <= n,
    ensures
        0 <= io_channel_sum(s, i) <= io_channel_sum(s, n),
    decreases n,
{
    if n > 0 {
        if i < n {
            lemma_io_sum_monotone(s, i, n - 1);
        } else {
            lemma_io_sum_monotone(s, n - 1, n - 1);
        }
    }
}

proof fn lemma_dmx_sum_monotone(s: Seq<DmxConfigEntry>, i: int, n: int)
    requires
        0 <= i <= n,
    ensures
        0 <= dmx_channel_sum(s, i) <= dmx_channel_sum(s, n),
    decreases n,
{
    if n > 0 {
        if i < n {
            lemma_dmx_sum_monotone(s, i, n - 1);
        } else {
            lemma_dmx_sum_monotone(s, n - 1, n - 1);
        }
    }
}

/// Number of input channels the buttons of an IO bricklet use.
pub fn io_channel_count(entries: &Vec<ButtonSetting>) -> (n: u16)
    requires
        io_channel_sum(entries@, entries@.len() as int) <= u16::MAX,
    ensures
        n == io_channel_sum(entries@, entries@.len() as int),
{
    let mut n: u16 = 0;
    let mut i: usize = 0;
    while i < entries.len()
        invariant
            i <= entries@.len(),
            n == io_channel_sum(entries@, i as int),
            io_channel_sum(entries@, entries@.len() as int) <= u16::MAX,
        decreases entries.len() - i,
    {
        proof {
            lemma_io_sum_monotone(entries@, i + 1, entries@.len() as int);
        }
        n = n + match entries[i] {
            ButtonSetting::Dual { .. } => 2u16,
            ButtonSetting::Single { .. } => 1u16,
        };
        i = i + 1;
    }
    n
}

/// Number of DMX channels the lights of a DMX bricklet use.
pub fn dmx_channel_count(entries: &Vec<DmxConfigEntry>) -> (n: u16)
    requires
        dmx_channel_sum(entries@, entries@.len() as int) <= u16::MAX,
    ensures
        n == dmx_channel_sum(entries@, entries@.len() as int),
{
    let mut n: u16 = 0;
    let mut i: usize = 0;
    while i < entries.len()
        invariant
            i <= entries@.len(),
            n == dmx_channel_sum(entries@, i as int),
            dmx_channel_sum(entries@, entries@.len() as int) <= u16::MAX,
        decreases entries.len() - i,
    {
        proof {
            lemma_dmx_sum_monotone(entries@, i + 1, entries@.len() as int);
        }
        n = n + match entries[i] {
            DmxConfigEntry::Dimm { .. } => 1u16,
            DmxConfigEntry::DimmWhitebalance { .. } => 2u16,
            DmxConfigEntry::Switch { .. } => 1u16,
        };
        i = i + 1;
    }
    n
}

} // verus!
