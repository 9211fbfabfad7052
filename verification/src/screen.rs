//! The touchscreen controller: values adjusted with a minus and a plus
//! button, which adjustment a touch makes, and what the screen task does on
//! each of its events. The temperature setting, a float, is handled beside this.
use vstd::prelude::*;
use crate::display::{Point, Rectangle};

verus! {

/// Seconds of no touch after which the backlight goes off.
pub const DIMM_AFTER_SECONDS: u64 = 10;

/// Backlight while the screen is in use.
pub const BACKLIGHT_ON: u8 = 100;

/// A change of a value: what it was and what it becomes.
#[derive(Debug, Clone, Copy, PartialEq, Eq, Structural)]
pub struct Adjustment<V> {
    pub old_value: V,
    pub new_value: V,
}

impl<V> Adjustment<V> {
    /// The value before the change.
    pub fn old_value(&self) -> (r: &V)
        ensures
            *r == self.old_value,
    {
        &self.old_value
    }

    /// The value after the change.
    pub fn new_value(&self) -> (r: &V)
        ensures
            *r == self.new_value,
    {
        &self.new_value
    }
}

/// A value with its range and step, and where its minus and plus buttons
/// were last drawn.
#[derive(Debug, Clone, Copy, PartialEq, Eq, Structural)]
pub struct AdjustableValue {
    pub current_value: u16,
    pub max_value: u16,
    pub min_value: u16,
    pub step_size: u16,
    pub plus_button: Option<Rectangle>,
    pub minus_button: Option<Rectangle>,
}

/// Whether a button was drawn and holds `p`.
pub open spec fn hits(button: Option<Rectangle>, p: Point) -> bool {
    match button {
        Some(r) => r.contains_spec(p),
        None => false,
    }
}

/// The value one step down (not below 0), held at the minimum.
pub open spec fn step_down(v: AdjustableValue) -> u16 {
    let stepped = if v.current_value >= v.step_size {
        (v.current_value - v.step_size) as u16
    } else {
        0u16
    };
    if stepped > v.min_value {
        stepped
    } else {
        v.min_value
    }
}

/// The value one step up (not above the type's maximum), held at the maximum.
pub open spec fn step_up(v: AdjustableValue, type_max: u16) -> u16 {
    let stepped = if v.current_value + v.step_size <= type_max {
        (v.current_value + v.step_size) as u16
    } else {
        type_max
    };
    if stepped < v.max_value {
        stepped
    } else {
        v.max_value
    }
}

/// What a touch at `p` does to the value: the minus button is looked at first.
pub open spec fn adjustment_spec(v: AdjustableValue, type_max: u16, p: Point) -> Option<Adjustment<u16>> {
    if hits(v.minus_button, p) {
        Some(Adjustment { old_value: v.current_value, new_value: step_down(v) })
    } else if hits(v.plus_button, p) {
        Some(Adjustment { old_value: v.current_value, new_value: step_up(v, type_max) })
    } else {
        None
    }
}

fn hit(button: Option<Rectangle>, p: Point) -> (r: bool)
    ensures
        r == hits(button, p),
{
    match button {
        Some(r) => r.contains(p),
        None => false,
    }
}

impl AdjustableValue {
    /// The adjustment a touch at `p` makes; the value counts up to `type_max`
    /// (the largest value of the type the value has).
    pub fn detect_adjustment(&self, p: Point, type_max: u16) -> (r: Option<Adjustment<u16>>)
        ensures
            r == adjustment_spec(*self, type_max, p),
    {
        if hit(self.minus_button, p) {
            let stepped = self.current_value.saturating_sub(self.step_size);
            let new_value = if stepped > self.min_value {
                stepped
            } else {
                self.min_value
            };
            Some(Adjustment { old_value: self.current_value, new_value })
        } else if hit(self.plus_button, p) {
            let stepped = if self.current_value as u32 + self.step_size as u32 <= type_max as u32 {
                self.current_value + self.step_size
            } else {
                type_max
            };
            let new_value = if stepped < self.max_value {
                stepped
            } else {
                self.max_value
            };
            Some(Adjustment { old_value: self.current_value, new_value })
        } else {
            None
        }
    }
}

/// The colour temperature control as the screen starts: 200 mireds, from 133
/// to 370, in steps of 30.
pub fn initial_whitebalance() -> (v: AdjustableValue)
    ensures
        v == (AdjustableValue {
            current_value: 200,
            max_value: 370,
            min_value: 133,
            step_size: 30,
            plus_button: None,
            minus_button: None,
        }),
{
    AdjustableValue {
        current_value: 200,
        max_value: 370,
        min_value: 133,
        step_size: 30,
        plus_button: None,
        minus_button: None,
    }
}

/// The brightness control as the screen starts: 128, from 0 to 255, in steps of 30.
pub fn initial_brightness() -> (v: AdjustableValue)
    ensures
        v == (AdjustableValue {
            current_value: 128,
            max_value: 255,
            min_value: 0,
            step_size: 30,
            plus_button: None,
            minus_button: None,
        }),
{
    AdjustableValue {
        current_value: 128,
        max_value: 255,
        min_value: 0,
        step_size: 30,
        plus_button: None,
        minus_button: None,
    }
}

/// A touch that adjusts the colour temperature or the brightness.
#[derive(Debug, Clone, Copy, PartialEq, Eq, Structural)]
pub enum AdjustEvent {
    Whitebalance(Adjustment<u16>),
    Brightness(Adjustment<u8>),
}

/// The integer controls of the screen.
#[derive(Debug, Clone, Copy, PartialEq, Eq, Structural)]
pub struct ScreenData {
    pub whitebalance: Option<AdjustableValue>,
    pub brightness: Option<AdjustableValue>,
}

/// Whether a touch at `p` hits a button of the control.
pub open spec fn touches(v: AdjustableValue, p: Point) -> bool {
    hits(v.minus_button, p) || hits(v.plus_button, p)
}

/// Whether the control's value lies in its range.
pub open spec fn in_range(v: AdjustableValue) -> bool {
    v.min_value <= v.current_value <= v.max_value
}

/// The value a touch on a button of the control sets: one step down, to no
/// less than the minimum, on the minus button (looked at first); one step
/// up, to no more than the maximum, on the plus button.
pub open spec fn touched_value(v: AdjustableValue, p: Point) -> int {
    if hits(v.minus_button, p) {
        if v.current_value - v.step_size > v.min_value {
            v.current_value - v.step_size
        } else {
            v.min_value as int
        }
    } else if v.current_value + v.step_size < v.max_value {
        v.current_value + v.step_size
    } else {
        v.max_value as int
    }
}

/// Which control a touch adjusts: colour temperature before brightness.
pub open spec fn process_touch_spec(s: ScreenData, p: Point) -> Option<AdjustEvent> {
    let wb = match s.whitebalance {
        Some(v) => adjustment_spec(v, u16::MAX, p),
        None => None,
    };
    let br = match s.brightness {
        Some(v) => adjustment_spec(v, 255, p),
        None => None,
    };
    match wb {
        Some(a) => Some(AdjustEvent::Whitebalance(a)),
        None => match br {
            Some(a) => Some(
                AdjustEvent::Brightness(
                    Adjustment { old_value: a.old_value as u8, new_value: a.new_value as u8 },
                ),
            ),
            None => None,
        },
    }
}

impl ScreenData {
    /// The controls a screen shows: colour temperature and brightness where enabled.
    pub fn new(show_color: bool, show_brightness: bool) -> (s: Self)
        ensures
            s.whitebalance == (if show_color {
                Some(
                    AdjustableValue {
                        current_value: 200,
                        max_value: 370,
                        min_value: 133,
                        step_size: 30,
                        plus_button: None,
                        minus_button: None,
                    },
                )
            } else {
                None
            }),
            s.brightness == (if show_brightness {
                Some(
                    AdjustableValue {
                        current_value: 128,
                        max_value: 255,
                        min_value: 0,
                        step_size: 30,
                        plus_button: None,
                        minus_button: None,
                    },
                )
            } else {
                None
            }),
    {
        ScreenData {
            whitebalance: if show_color {
                Some(initial_whitebalance())
            } else {
                None
            },
            brightness: if show_brightness {
                Some(initial_brightness())
            } else {
                None
            },
        }
    }

    /// Shows a new colour temperature (where the control is shown).
    pub fn set_whitebalance(&mut self, value: u16)
        ensures
            final(self).brightness == old(self).brightness,
            final(self).whitebalance == (match old(self).whitebalance {
                Some(v) => Some(AdjustableValue { current_value: value, ..v }),
                None => None,
            }),
    {
        if let Some(v) = self.whitebalance {
            self.whitebalance = Some(AdjustableValue { current_value: value, ..v });
        }
    }

    /// Shows a new brightness (where the control is shown).
    pub fn set_brightness(&mut self, value: u8)
        ensures
            final(self).whitebalance == old(self).whitebalance,
            final(self).brightness == (match old(self).brightness {
                Some(v) => Some(AdjustableValue { current_value: value as u16, ..v }),
                None => None,
            }),
    {
        if let Some(v) = self.brightness {
            self.brightness = Some(AdjustableValue { current_value: value as u16, ..v });
        }
    }

    /// The adjustment a touch at `p` makes.
    pub fn process_touch(&self, p: Point) -> (r: Option<AdjustEvent>)
        requires
            match self.brightness {
                Some(v) => v.current_value <= 255 && v.max_value <= 255,
                None => true,
            },
        ensures
            r == process_touch_spec(*self, p),
            // a touch on a button of the colour control adjusts the colour
            // temperature, one step from its current value
            match self.whitebalance {
                Some(w) => touches(w, p) ==> match r {
                    Some(AdjustEvent::Whitebalance(a)) => a.old_value == w.current_value && (in_range(w)
                        ==> a.new_value as int == touched_value(w, p)),
                    _ => false,
                },
                None => true,
            },
            // a touch on no colour button but on a button of the brightness
            // control adjusts the brightness, whether a colour control is shown or not
            match self.brightness {
                Some(b) => (match self.whitebalance {
                    Some(w) => !touches(w, p),
                    None => true,
                } && touches(b, p)) ==> match r {
                    Some(AdjustEvent::Brightness(a)) => a.old_value as int == b.current_value && (in_range(b)
                        ==> a.new_value as int == touched_value(b, p)),
                    _ => false,
                },
                None => true,
            },
            // a touch on no button of a shown control changes nothing
            (match self.whitebalance {
                Some(w) => !touches(w, p),
                None => true,
            } && match self.brightness {
                Some(b) => !touches(b, p),
                None => true,
            }) ==> r is None,
    {
        let wb = match self.whitebalance {
            Some(v) => v.detect_adjustment(p, u16::MAX),
            None => None,
        };
        match wb {
            Some(a) => Some(AdjustEvent::Whitebalance(a)),
            None => {
                let br = match self.brightness {
                    Some(v) => v.detect_adjustment(p, 255),
                    None => None,
                };
                match br {
                    Some(a) => Some(
                        AdjustEvent::Brightness(
                            Adjustment { old_value: a.old_value as u8, new_value: a.new_value as u8 },
                        ),
                    ),
                    None => None,
                }
            },
        }
    }
}

/// An event of the screen task.
#[derive(Debug, Clone, Copy, PartialEq, Eq, Structural)]
pub enum ScreenEvent {
    Touched,
    Dimm,
    Other,
}

/// What the screen task does on an event, besides redrawing.
#[derive(Debug, Clone, Copy, PartialEq, Eq, Structural)]
pub struct ScreenAction {
    /// The backlight to set (the display writes it only where it differs
    /// from the one it has, see `display::backlight_update`).
    pub backlight: Option<u8>,
    /// Whether to restart the timer that dims the screen.
    pub restart_dimm_timer: bool,
}

/// A touch sets the backlight on and restarts the dimming timer; the timer
/// sets it off.
pub fn screen_step(e: ScreenEvent) -> (a: ScreenAction)
    ensures
        a == (match e {
            ScreenEvent::Touched => ScreenAction { backlight: Some(100u8), restart_dimm_timer: true },
            ScreenEvent::Dimm => ScreenAction { backlight: Some(0u8), restart_dimm_timer: false },
            ScreenEvent::Other => ScreenAction { backlight: None, restart_dimm_timer: false },
        }),
{
    match e {
        ScreenEvent::Touched => ScreenAction { backlight: Some(BACKLIGHT_ON), restart_dimm_timer: true },
        ScreenEvent::Dimm => ScreenAction { backlight: Some(0), restart_dimm_timer: false },
        ScreenEvent::Other => ScreenAction { backlight: None, restart_dimm_timer: false },
    }
}

/// An adjustment never leaves the control's range when it starts in it.
pub proof fn lemma_adjustment_in_range(v: AdjustableValue, type_max: u16, p: Point)
    requires
        v.min_value <= v.current_value <= v.max_value <= type_max,
    ensures
        match adjustment_spec(v, type_max, p) {
            Some(a) => v.min_value <= a.new_value <= v.max_value && a.old_value == v.current_value,
            None => true,
        },
{
}


/// A touch moves a value that lies in its range one step towards the button
/// touched, held within the range: the minus button (looked at first) steps
/// down to no less than the minimum, the plus button up to no more than the
/// maximum, for any maximum of the value's type above the range. A touch on
/// neither button changes nothing.
pub proof fn lemma_adjustment_steps(v: AdjustableValue, type_max: u16, p: Point)
    requires
        v.min_value <= v.current_value <= v.max_value <= type_max,
    ensures
        match adjustment_spec(v, type_max, p) {
            Some(a) => {
                &&& a.old_value == v.current_value
                &&& a.new_value as int == (if hits(v.minus_button, p) {
                    if v.current_value - v.step_size > v.min_value {
                        v.current_value - v.step_size
                    } else {
                        v.min_value as int
                    }
                } else {
                    if v.current_value + v.step_size < v.max_value {
                        v.current_value + v.step_size
                    } else {
                        v.max_value as int
                    }
                })
                &&& v.min_value <= a.new_value <= v.max_value
            },
            None => !hits(v.minus_button, p) && !hits(v.plus_button, p),
        },
{
}


/// A touch adjusts the control whose button it hits, colour before
/// brightness: a touch on a colour button adjusts the colour temperature; a
/// touch on no colour button but on a brightness button adjusts the
/// brightness, whether a colour control is shown or not; each adjustment
/// starts from the control's current value and moves it one step the way of
/// the button, held in the control's range; a touch on no button does nothing.
pub proof fn lemma_touch_adjusts_hit_control(s: ScreenData, p: Point)
    requires
        match s.brightness {
            Some(v) => v.current_value <= 255 && v.max_value <= 255,
            None => true,
        },
    ensures
        match s.whitebalance {
            Some(w) => touches(w, p) ==> match process_touch_spec(s, p) {
                Some(AdjustEvent::Whitebalance(a)) => a.old_value == w.current_value && (in_range(w)
                    ==> a.new_value as int == touched_value(w, p)),
                _ => false,
            },
            None => true,
        },
        match s.brightness {
            Some(b) => (match s.whitebalance {
                Some(w) => !touches(w, p),
                None => true,
            } && touches(b, p)) ==> match process_touch_spec(s, p) {
                Some(AdjustEvent::Brightness(a)) => a.old_value as int == b.current_value && (in_range(b)
                    ==> a.new_value as int == touched_value(b, p)),
                _ => false,
            },
            None => true,
        },
        (match s.whitebalance {
            Some(w) => !touches(w, p),
            None => true,
        } && match s.brightness {
            Some(b) => !touches(b, p),
            None => true,
        }) ==> process_touch_spec(s, p) is None,
{
}

} // verus!
