//! The decisions of the light, switch, motion and bell controllers. Each is a
//! step from a state and an event to the next state, the value to send to
//! the output register and what to do with the controller's timer; the
//! surrounding program receives the events, sends the values and runs the
//! timers.
use vstd::prelude::*;
use crate::registry::{ButtonState, DualButtonLayout, SingleButtonLayout};

verus! {

/// An event a controller reacts to.
#[derive(Debug, Clone, Copy, PartialEq, Eq, Structural)]
pub enum DimmerEvent<L> {
    /// A button changed state.
    ButtonState(ButtonState<L>),
    /// The repeat timer of a long press ticked.
    KeepPressing(L),
    /// The automatic switch-off timer ran out.
    AutoSwitchOff,
    /// A presence detector saw someone.
    PresenceDetected,
    /// The brightness to use when switching on changed.
    SetBrightness(u8),
}

/// What to do with the controller's single timer.
#[derive(Debug, Clone, Copy, PartialEq, Eq, Structural)]
pub enum TimerCommand {
    /// Leave the running timer (if any) alone.
    Keep,
    /// Stop the running timer.
    Clear,
    /// Replace the timer by one that sends `AutoSwitchOff` after the
    /// switch-off time and again each time that time passes.
    RestartAutoSwitchOff,
    /// Replace the timer by one that sends `KeepPressing` of the key every
    /// 10 ms.
    StartKeepPressing(DualButtonLayout),
}

/// State of a dimmer driven by a dual button.
#[derive(Debug, Clone, Copy, PartialEq, Eq, Structural)]
pub struct DimmerState {
    pub current_brightness: u8,
    pub last_on_brightness: u8,
    pub is_long_press: bool,
    pub last_button: Option<DualButtonLayout>,
}

/// Result of a dimmer step.
#[derive(Debug, Clone, Copy, PartialEq, Eq, Structural)]
pub struct DimmerStep {
    pub state: DimmerState,
    pub send: Option<u8>,
    pub timer: TimerCommand,
}

pub open spec fn sat_inc(v: u8) -> u8 {
    if v == 255 {
        255
    } else {
        (v + 1) as u8
    }
}

pub open spec fn sat_dec(v: u8) -> u8 {
    if v == 0 {
        0
    } else {
        (v - 1) as u8
    }
}

/// The dimmer's reaction to one event.
pub open spec fn dimmer_step_spec(s: DimmerState, e: DimmerEvent<DualButtonLayout>) -> DimmerStep {
    match e {
        DimmerEvent::ButtonState(ButtonState::Released) => {
            let (cur, last_on, send) = if !s.is_long_press {
                match s.last_button {
                    Some(DualButtonLayout::Up) => if s.last_on_brightness > 0 {
                        (s.last_on_brightness, s.last_on_brightness, Some(s.last_on_brightness))
                    } else {
                        (255u8, 255u8, Some(255u8))
                    },
                    Some(DualButtonLayout::Down) => (0u8, s.last_on_brightness, Some(0u8)),
                    None => (s.current_brightness, s.last_on_brightness, None),
                }
            } else {
                (s.current_brightness, s.current_brightness, None)
            };
            DimmerStep {
                state: DimmerState {
                    current_brightness: cur,
                    last_on_brightness: last_on,
                    is_long_press: s.is_long_press,
                    last_button: None,
                },
                send,
                timer: if cur > 0 {
                    TimerCommand::RestartAutoSwitchOff
                } else {
                    TimerCommand::Clear
                },
            }
        },
        DimmerEvent::ButtonState(ButtonState::ShortPressStart(b)) => DimmerStep {
            state: DimmerState { is_long_press: false, last_button: Some(b), ..s },
            send: None,
            timer: TimerCommand::Keep,
        },
        DimmerEvent::ButtonState(ButtonState::LongPressStart(b)) => DimmerStep {
            state: DimmerState { is_long_press: true, last_button: Some(b), ..s },
            send: None,
            timer: TimerCommand::StartKeepPressing(b),
        },
        DimmerEvent::KeepPressing(b) => {
            let cur = match b {
                DualButtonLayout::Up => sat_inc(s.current_brightness),
                DualButtonLayout::Down => sat_dec(s.current_brightness),
            };
            DimmerStep {
                state: DimmerState { current_brightness: cur, ..s },
                send: Some(cur),
                timer: TimerCommand::Keep,
            }
        },
        DimmerEvent::AutoSwitchOff => DimmerStep {
            state: DimmerState { current_brightness: 0, ..s },
            send: Some(0),
            timer: TimerCommand::Keep,
        },
        DimmerEvent::PresenceDetected => DimmerStep {
            state: s,
            send: None,
            timer: if s.current_brightness > 0 {
                TimerCommand::RestartAutoSwitchOff
            } else {
                TimerCommand::Keep
            },
        },
        DimmerEvent::SetBrightness(_) => DimmerStep { state: s, send: None, timer: TimerCommand::Keep },
    }
}

fn saturating_inc(v: u8) -> (r: u8)
    ensures
        r == sat_inc(v),
{
    if v == 255 {
        255
    } else {
        v + 1
    }
}

fn saturating_dec(v: u8) -> (r: u8)
    ensures
        r == sat_dec(v),
{
    if v == 0 {
        0
    } else {
        v - 1
    }
}

impl DimmerState {
    /// The state a dimmer starts in, from the brightness its output has.
    pub fn new(current_brightness: u8) -> (s: DimmerState)
        ensures
            s == (DimmerState {
                current_brightness,
                last_on_brightness: current_brightness,
                is_long_press: false,
                last_button: None,
            }),
    {
        DimmerState {
            current_brightness,
            last_on_brightness: current_brightness,
            is_long_press: false,
            last_button: None,
        }
    }

    /// Reacts to an event: a short press of up switches on at the last
    /// brightness (full if there was none), a short press of down switches
    /// off, a long press dims up or down step by step until released, and
    /// the switch-off timer switches off.
    pub fn step(self, e: DimmerEvent<DualButtonLayout>) -> (r: DimmerStep)
        ensures
            r == dimmer_step_spec(self, e),
            // holding up brightens by one step and sends the new brightness
            e == DimmerEvent::<DualButtonLayout>::KeepPressing(DualButtonLayout::Up) ==> {
                &&& r.state.current_brightness as int == if self.current_brightness < 255 {
                    self.current_brightness + 1
                } else {
                    255
                }
                &&& r.send == Some(r.state.current_brightness)
            },
            // holding down darkens by one step and sends the new brightness
            e == DimmerEvent::<DualButtonLayout>::KeepPressing(DualButtonLayout::Down) ==> {
                &&& r.state.current_brightness as int == if self.current_brightness > 0 {
                    self.current_brightness - 1
                } else {
                    0
                }
                &&& r.send == Some(r.state.current_brightness)
            },
            // a held button leaves the remembered brightness alone
            e is KeepPressing ==> r.state.last_on_brightness == self.last_on_brightness,
    {
        let s = self;
        match e {
            DimmerEvent::ButtonState(ButtonState::Released) => {
                let mut cur = s.current_brightness;
                let mut last_on = s.last_on_brightness;
                let mut send = None;
                if !s.is_long_press {
                    match s.last_button {
                        Some(DualButtonLayout::Up) => {
                            if last_on > 0 {
                                cur = last_on;
                            } else {
                                cur = 255;
                                last_on = cur;
                            }
                            send = Some(cur);
                        },
                        Some(DualButtonLayout::Down) => {
                            cur = 0;
                            send = Some(cur);
                        },
                        None => {},
                    }
                } else {
                    last_on = cur;
                }
                let timer = if cur > 0 {
                    TimerCommand::RestartAutoSwitchOff
                } else {
                    TimerCommand::Clear
                };
                DimmerStep {
                    state: DimmerState {
                        current_brightness: cur,
                        last_on_brightness: last_on,
                        is_long_press: s.is_long_press,
                        last_button: None,
                    },
                    send,
                    timer,
                }
            },
            DimmerEvent::ButtonState(ButtonState::ShortPressStart(b)) => DimmerStep {
                state: DimmerState { is_long_press: false, last_button: Some(b), ..s },
                send: None,
                timer: TimerCommand::Keep,
            },
            DimmerEvent::ButtonState(ButtonState::LongPressStart(b)) => DimmerStep {
                state: DimmerState { is_long_press: true, last_button: Some(b), ..s },
                send: None,
                timer: TimerCommand::StartKeepPressing(b),
            },
            DimmerEvent::KeepPressing(b) => {
                let cur = match b {
                    DualButtonLayout::Up => saturating_inc(s.current_brightness),
                    DualButtonLayout::Down => saturating_dec(s.current_brightness),
                };
                DimmerStep {
                    state: DimmerState { current_brightness: cur, ..s },
                    send: Some(cur),
                    timer: TimerCommand::Keep,
                }
            },
            DimmerEvent::AutoSwitchOff => DimmerStep {
                state: DimmerState { current_brightness: 0, ..s },
                send: Some(0),
                timer: TimerCommand::Keep,
            },
            DimmerEvent::PresenceDetected => DimmerStep {
                state: s,
                send: None,
                timer: if s.current_brightness > 0 {
                    TimerCommand::RestartAutoSwitchOff
                } else {
                    TimerCommand::Keep
                },
            },
            DimmerEvent::SetBrightness(_) => DimmerStep {
                state: s,
                send: None,
                timer: TimerCommand::Keep,
            },
        }
    }
}

/// A short press of a key: press, then release.
pub open spec fn short_press(s: DimmerState, b: DualButtonLayout) -> DimmerStep {
    dimmer_step_spec(
        dimmer_step_spec(s, DimmerEvent::ButtonState(ButtonState::ShortPressStart(b))).state,
        DimmerEvent::ButtonState(ButtonState::Released),
    )
}

/// A short press of up always switches the light on: it sends the last
/// brightness used, or full brightness when there was none, and starts the
/// switch-off timer.
pub proof fn lemma_short_up_switches_on(s: DimmerState)
    ensures
        short_press(s, DualButtonLayout::Up).send == Some(
            if s.last_on_brightness > 0 {
                s.last_on_brightness
            } else {
                255u8
            },
        ),
        short_press(s, DualButtonLayout::Up).state.current_brightness > 0,
        short_press(s, DualButtonLayout::Up).timer == TimerCommand::RestartAutoSwitchOff,
{
}

/// A short press of down always switches the light off and stops the timer.
pub proof fn lemma_short_down_switches_off(s: DimmerState)
    ensures
        short_press(s, DualButtonLayout::Down).send == Some(0u8),
        short_press(s, DualButtonLayout::Down).state.current_brightness == 0,
        short_press(s, DualButtonLayout::Down).timer == TimerCommand::Clear,
{
}

/// Switching a lit dimmer off and on again with short presses restores the
/// brightness it had, provided that brightness is the remembered one (as it
/// is after switching on or after dimming with a long press).
pub proof fn lemma_off_on_restores(s: DimmerState)
    requires
        s.current_brightness > 0,
        s.last_on_brightness == s.current_brightness,
    ensures
        short_press(short_press(s, DualButtonLayout::Down).state, DualButtonLayout::Up).send == Some(
            s.current_brightness,
        ),
        short_press(
            short_press(s, DualButtonLayout::Down).state,
            DualButtonLayout::Up,
        ).state.current_brightness == s.current_brightness,
{
}

/// Releasing a long press remembers the brightness reached as the one to
/// switch on with.
pub proof fn lemma_long_press_release_remembers(s: DimmerState, b: DualButtonLayout)
    ensures
        ({
            let pressed = dimmer_step_spec(
                s,
                DimmerEvent::ButtonState(ButtonState::LongPressStart(b)),
            ).state;
            let released = dimmer_step_spec(pressed, DimmerEvent::ButtonState(ButtonState::Released));
            &&& released.state.last_on_brightness == s.current_brightness
            &&& released.state.current_brightness == s.current_brightness
            &&& released.send is None
        }),
{
}

/// State of a switch driven by a dual button.
#[derive(Debug, Clone, Copy, PartialEq, Eq, Structural)]
pub struct SwitchState {
    pub current_state: bool,
}

/// Result of a switch step.
#[derive(Debug, Clone, Copy, PartialEq, Eq, Structural)]
pub struct SwitchStep {
    pub state: SwitchState,
    pub send: Option<bool>,
    pub timer: TimerCommand,
}

pub open spec fn switch_step_spec(s: SwitchState, e: DimmerEvent<DualButtonLayout>) -> SwitchStep {
    match e {
        DimmerEvent::ButtonState(ButtonState::ShortPressStart(b)) => {
            let on = b == DualButtonLayout::Up;
            SwitchStep {
                state: SwitchState { current_state: on },
                send: Some(on),
                timer: if on {
                    TimerCommand::RestartAutoSwitchOff
                } else {
                    TimerCommand::Clear
                },
            }
        },
        DimmerEvent::AutoSwitchOff => SwitchStep {
            state: SwitchState { current_state: false },
            send: Some(false),
            timer: TimerCommand::Keep,
        },
        DimmerEvent::PresenceDetected => SwitchStep {
            state: s,
            send: None,
            timer: if s.current_state {
                TimerCommand::RestartAutoSwitchOff
            } else {
                TimerCommand::Clear
            },
        },
        _ => SwitchStep { state: s, send: None, timer: TimerCommand::Keep },
    }
}

impl SwitchState {
    /// Reacts to an event: pressing up switches on (and starts the switch-off
    /// timer), pressing down switches off, presence keeps a lit output on.
    pub fn step(self, e: DimmerEvent<DualButtonLayout>) -> (r: SwitchStep)
        ensures
            r == switch_step_spec(self, e),
    {
        match e {
            DimmerEvent::ButtonState(ButtonState::ShortPressStart(b)) => {
                let on = match b {
                    DualButtonLayout::Up => true,
                    DualButtonLayout::Down => false,
                };
                SwitchStep {
                    state: SwitchState { current_state: on },
                    send: Some(on),
                    timer: if on {
                        TimerCommand::RestartAutoSwitchOff
                    } else {
                        TimerCommand::Clear
                    },
                }
            },
            DimmerEvent::AutoSwitchOff => SwitchStep {
                state: SwitchState { current_state: false },
                send: Some(false),
                timer: TimerCommand::Keep,
            },
            DimmerEvent::PresenceDetected => SwitchStep {
                state: self,
                send: None,
                timer: if self.current_state {
                    TimerCommand::RestartAutoSwitchOff
                } else {
                    TimerCommand::Clear
                },
            },
            _ => SwitchStep { state: self, send: None, timer: TimerCommand::Keep },
        }
    }
}

/// Result of a motion detector step: what to send and what to do with the timer.
#[derive(Debug, Clone, Copy, PartialEq, Eq, Structural)]
pub struct MotionStep {
    pub send: Option<bool>,
    pub timer: TimerCommand,
}

/// The value a motion-controlled switch sends before any event: off.
pub fn motion_detector_initial() -> (v: bool)
    ensures
        v == false,
{
    false
}

pub open spec fn motion_step_spec(e: DimmerEvent<SingleButtonLayout>) -> MotionStep {
    match e {
        DimmerEvent::AutoSwitchOff => MotionStep { send: Some(false), timer: TimerCommand::Keep },
        DimmerEvent::PresenceDetected => MotionStep {
            send: Some(true),
            timer: TimerCommand::RestartAutoSwitchOff,
        },
        _ => MotionStep { send: None, timer: TimerCommand::Keep },
    }
}

/// A switch controlled by motion: presence switches on and restarts the
/// switch-off timer, the timer switches off.
pub fn motion_detector_step(e: DimmerEvent<SingleButtonLayout>) -> (r: MotionStep)
    ensures
        r == motion_step_spec(e),
{
    match e {
        DimmerEvent::AutoSwitchOff => MotionStep { send: Some(false), timer: TimerCommand::Keep },
        DimmerEvent::PresenceDetected => MotionStep {
            send: Some(true),
            timer: TimerCommand::RestartAutoSwitchOff,
        },
        _ => MotionStep { send: None, timer: TimerCommand::Keep },
    }
}

/// State of a dimmer controlled by motion.
#[derive(Debug, Clone, Copy, PartialEq, Eq, Structural)]
pub struct MotionDimmerState {
    pub on_brightness: u8,
    pub light_enabled: bool,
}

/// Result of a motion dimmer step.
#[derive(Debug, Clone, Copy, PartialEq, Eq, Structural)]
pub struct MotionDimmerStep {
    pub state: MotionDimmerState,
    pub send: Option<u8>,
    pub timer: TimerCommand,
}

pub open spec fn motion_dimmer_step_spec(s: MotionDimmerState, e: DimmerEvent<SingleButtonLayout>) -> MotionDimmerStep {
    match e {
        DimmerEvent::AutoSwitchOff => MotionDimmerStep {
            state: MotionDimmerState { light_enabled: false, ..s },
            send: Some(0),
            timer: TimerCommand::Keep,
        },
        DimmerEvent::PresenceDetected => MotionDimmerStep {
            state: MotionDimmerState { light_enabled: true, ..s },
            send: Some(s.on_brightness),
            timer: TimerCommand::RestartAutoSwitchOff,
        },
        DimmerEvent::SetBrightness(br) => MotionDimmerStep {
            state: MotionDimmerState { on_brightness: br, ..s },
            send: if s.light_enabled {
                Some(br)
            } else {
                None
            },
            timer: TimerCommand::Keep,
        },
        _ => MotionDimmerStep { state: s, send: None, timer: TimerCommand::Keep },
    }
}

impl MotionDimmerState {
    /// A motion dimmer starts dark, switching on at full brightness; it sends
    /// 0 before the first event.
    pub fn new() -> (s: MotionDimmerState)
        ensures
            s == (MotionDimmerState { on_brightness: 255, light_enabled: false }),
    {
        MotionDimmerState { on_brightness: 255, light_enabled: false }
    }

    /// Presence switches on at the configured brightness and restarts the
    /// timer, the timer switches off, a new brightness applies at once while
    /// the light is on.
    pub fn step(self, e: DimmerEvent<SingleButtonLayout>) -> (r: MotionDimmerStep)
        ensures
            r == motion_dimmer_step_spec(self, e),
    {
        match e {
            DimmerEvent::AutoSwitchOff => MotionDimmerStep {
                state: MotionDimmerState { light_enabled: false, ..self },
                send: Some(0),
                timer: TimerCommand::Keep,
            },
            DimmerEvent::PresenceDetected => MotionDimmerStep {
                state: MotionDimmerState { light_enabled: true, ..self },
                send: Some(self.on_brightness),
                timer: TimerCommand::RestartAutoSwitchOff,
            },
            DimmerEvent::SetBrightness(br) => MotionDimmerStep {
                state: MotionDimmerState { on_brightness: br, ..self },
                send: if self.light_enabled {
                    Some(br)
                } else {
                    None
                },
                timer: TimerCommand::Keep,
            },
            _ => MotionDimmerStep { state: self, send: None, timer: TimerCommand::Keep },
        }
    }
}

/// While a motion dimmer is on, every value it sends is its current
/// switch-on brightness; while it is off it sends nothing but switch-offs.
pub proof fn lemma_motion_dimmer_sends(s: MotionDimmerState, e: DimmerEvent<SingleButtonLayout>)
    ensures
        ({
            let r = motion_dimmer_step_spec(s, e);
            r.send matches Some(v) ==> (v == 0 && !r.state.light_enabled) || (r.state.light_enabled
                && v == r.state.on_brightness)
        }),
{
}

/// State of the bell controller.
#[derive(Debug, Clone, Copy, PartialEq, Eq, Structural)]
pub struct RingState {
    pub button_pressed: bool,
}

/// Result of a bell step.
#[derive(Debug, Clone, Copy, PartialEq, Eq, Structural)]
pub struct RingStep {
    pub state: RingState,
    pub send: Option<bool>,
}

pub open spec fn ring_step_spec(s: RingState, e: ButtonState<SingleButtonLayout>) -> RingStep {
    match e {
        ButtonState::ShortPressStart(_) => RingStep {
            state: RingState { button_pressed: true },
            send: if !s.button_pressed {
                Some(true)
            } else {
                None
            },
        },
        ButtonState::Released => RingStep {
            state: RingState { button_pressed: false },
            send: if s.button_pressed {
                Some(false)
            } else {
                None
            },
        },
        ButtonState::LongPressStart(_) => RingStep { state: s, send: None },
    }
}

impl RingState {
    pub fn new() -> (s: RingState)
        ensures
            s == (RingState { button_pressed: false }),
    {
        RingState { button_pressed: false }
    }

    /// The bell rings while its button is held: on at the press, off at
    /// the release, each sent once.
    pub fn step(self, e: ButtonState<SingleButtonLayout>) -> (r: RingStep)
        ensures
            r == ring_step_spec(self, e),
    {
        match e {
            ButtonState::ShortPressStart(_) => RingStep {
                state: RingState { button_pressed: true },
                send: if !self.button_pressed {
                    Some(true)
                } else {
                    None
                },
            },
            ButtonState::Released => RingStep {
                state: RingState { button_pressed: false },
                send: if self.button_pressed {
                    Some(false)
                } else {
                    None
                },
            },
            ButtonState::LongPressStart(_) => RingStep { state: self, send: None },
        }
    }
}

/// The bell sends only changes: what it sends always differs from what the
/// state said before, and the state afterwards is what was last sent.
pub proof fn lemma_ring_sends_changes(s: RingState, e: ButtonState<SingleButtonLayout>)
    ensures
        ring_step_spec(s, e).send matches Some(v) ==> v != s.button_pressed
            && ring_step_spec(s, e).state.button_pressed == v,
{
}


/// Holding a button of a dual-button dimmer moves its brightness one step
/// per tick: up brightens by one (up to full), down darkens by one (down to
/// off), each tick sends the new brightness, and the remembered switch-on
/// brightness stays as it was.
pub proof fn lemma_keep_pressing_steps(s: DimmerState)
    ensures
        s.current_brightness < 255 ==> dimmer_step_spec(
            s,
            DimmerEvent::KeepPressing(DualButtonLayout::Up),
        ).state.current_brightness == s.current_brightness + 1,
        s.current_brightness > 0 ==> dimmer_step_spec(
            s,
            DimmerEvent::KeepPressing(DualButtonLayout::Down),
        ).state.current_brightness == s.current_brightness - 1,
        dimmer_step_spec(s, DimmerEvent::KeepPressing(DualButtonLayout::Up)).send == Some(
            dimmer_step_spec(s, DimmerEvent::KeepPressing(DualButtonLayout::Up)).state.current_brightness,
        ),
        dimmer_step_spec(s, DimmerEvent::KeepPressing(DualButtonLayout::Down)).send == Some(
            dimmer_step_spec(s, DimmerEvent::KeepPressing(DualButtonLayout::Down)).state.current_brightness,
        ),
        dimmer_step_spec(s, DimmerEvent::KeepPressing(DualButtonLayout::Up)).state.current_brightness
            >= s.current_brightness,
        dimmer_step_spec(s, DimmerEvent::KeepPressing(DualButtonLayout::Down)).state.current_brightness
            <= s.current_brightness,
        dimmer_step_spec(s, DimmerEvent::KeepPressing(DualButtonLayout::Up)).state.last_on_brightness
            == s.last_on_brightness,
        dimmer_step_spec(s, DimmerEvent::KeepPressing(DualButtonLayout::Down)).state.last_on_brightness
            == s.last_on_brightness,
{
}

} // verus!
