//! The buttons on an IO-16 bricklet: which register each input channel
//! reports to, and what a press, a long press or a release of a channel
//! sends and does to the channel's timer.
use vstd::prelude::*;
use crate::registry::{ButtonState, DualButtonKey, DualButtonLayout, SingleButtonKey, SingleButtonLayout};
use crate::wiring::ButtonSetting;

verus! {

/// Number of input channels of the bricklet.
pub const IO_CHANNELS: usize = 16;

/// Milliseconds a button is held before a press counts as long.
pub const LONG_PRESS_MILLIS: u64 = 500;

/// Milliseconds after which a long press that was never released is taken as released.
pub const STUCK_RELEASE_MILLIS: u64 = 20000;

/// What an input channel reports to.
#[derive(Debug, Clone, Copy, PartialEq, Eq, Structural)]
pub enum ChannelSetting {
    Unused,
    DualButtonUp(DualButtonKey),
    DualButtonDown(DualButtonKey),
    SingleButton(SingleButtonKey),
}

/// An event on an input channel.
#[derive(Debug, Clone, Copy, PartialEq, Eq, Structural)]
pub enum Io16Event {
    Press(u8),
    LongPress(u8),
    Release(u8),
}

/// A button state sent to a register.
#[derive(Debug, Clone, Copy, PartialEq, Eq, Structural)]
pub enum ButtonSignal {
    Dual(DualButtonKey, ButtonState<DualButtonLayout>),
    Single(SingleButtonKey, ButtonState<SingleButtonLayout>),
}

/// What to do with the timer of the channel an event came on.
#[derive(Debug, Clone, Copy, PartialEq, Eq, Structural)]
pub enum ChannelTimer {
    /// Leave it.
    Keep,
    /// Cancel a running one and start one that reports a long press after
    /// `LONG_PRESS_MILLIS`.
    StartLongPress,
    /// Cancel a running one and start one that reports a release after
    /// `STUCK_RELEASE_MILLIS`.
    StartRelease,
    /// Cancel a running one.
    Cancel,
}

/// What an event leads to.
#[derive(Debug, Clone, Copy, PartialEq, Eq, Structural)]
pub struct Io16Action {
    pub send: Option<ButtonSignal>,
    pub timer: ChannelTimer,
}

/// The settings with `setting` put at channel `channel` (out of range: ignored).
pub open spec fn put_channel(s: Seq<ChannelSetting>, channel: u8, setting: ChannelSetting) -> Seq<ChannelSetting> {
    if channel < IO_CHANNELS {
        s.update(channel as int, setting)
    } else {
        s
    }
}

/// The channel settings after the first `n` buttons; a later button wins a
/// channel claimed twice.
pub open spec fn channel_settings_spec(buttons: Seq<ButtonSetting>, n: int) -> Seq<ChannelSetting>
    decreases n,
{
    if n <= 0 {
        Seq::new(IO_CHANNELS as nat, |i: int| ChannelSetting::Unused)
    } else {
        let prev = channel_settings_spec(buttons, n - 1);
        match buttons[n - 1] {
            ButtonSetting::Dual { up_button, down_button, output } => put_channel(
                put_channel(prev, up_button, ChannelSetting::DualButtonUp(output)),
                down_button,
                ChannelSetting::DualButtonDown(output),
            ),
            ButtonSetting::Single { button, output } => put_channel(
                prev,
                button,
                ChannelSetting::SingleButton(output),
            ),
        }
    }
}

proof fn lemma_settings_len(buttons: Seq<ButtonSetting>, n: int)
    ensures
        channel_settings_spec(buttons, n).len() == IO_CHANNELS,
    decreases n,
{
    if n > 0 {
        lemma_settings_len(buttons, n - 1);
    }
}

fn put(s: &mut Vec<ChannelSetting>, channel: u8, setting: ChannelSetting)
    requires
        old(s)@.len() == IO_CHANNELS,
    ensures
        final(s)@ == put_channel(old(s)@, channel, setting),
{
    if (channel as usize) < IO_CHANNELS {
        s.set(channel as usize, setting);
    }
}

/// The settings of all 16 channels for the buttons of a bricklet.
pub fn channel_settings(buttons: &Vec<ButtonSetting>) -> (r: Vec<ChannelSetting>)
    ensures
        r@ == channel_settings_spec(buttons@, buttons@.len() as int),
        r@.len() == IO_CHANNELS,
{
    let mut r: Vec<ChannelSetting> = Vec::new();
    let mut i: usize = 0;
    while i < IO_CHANNELS
        invariant
            i <= IO_CHANNELS,
            r@.len() == i,
            forall|j: int| 0 <= j < i ==> r@[j] == ChannelSetting::Unused,
        decreases IO_CHANNELS - i,
    {
        r.push(ChannelSetting::Unused);
        i = i + 1;
    }
    proof {
        assert(r@ =~= channel_settings_spec(buttons@, 0));
    }
    let mut k: usize = 0;
    while k < buttons.len()
        invariant
            k <= buttons@.len(),
            r@ == channel_settings_spec(buttons@, k as int),
        decreases buttons.len() - k,
    {
        proof {
            lemma_settings_len(buttons@, k as int);
        }
        match buttons[k] {
            ButtonSetting::Dual { up_button, down_button, output } => {
                put(&mut r, up_button, ChannelSetting::DualButtonUp(output));
                put(&mut r, down_button, ChannelSetting::DualButtonDown(output));
            },
            ButtonSetting::Single { button, output } => {
                put(&mut r, button, ChannelSetting::SingleButton(output));
            },
        }
        k = k + 1;
    }
    proof {
        lemma_settings_len(buttons@, k as int);
    }
    r
}

/// The button state a channel setting sends for a press (`long`: a long
/// press) or, with `press` `None`, for a release.
pub open spec fn signal_for(setting: ChannelSetting, press: Option<bool>) -> Option<ButtonSignal> {
    match setting {
        ChannelSetting::Unused => None,
        ChannelSetting::DualButtonUp(k) => Some(
            ButtonSignal::Dual(
                k,
                match press {
                    None => ButtonState::Released,
                    Some(false) => ButtonState::ShortPressStart(DualButtonLayout::Up),
                    Some(true) => ButtonState::LongPressStart(DualButtonLayout::Up),
                },
            ),
        ),
        ChannelSetting::DualButtonDown(k) => Some(
            ButtonSignal::Dual(
                k,
                match press {
                    None => ButtonState::Released,
                    Some(false) => ButtonState::ShortPressStart(DualButtonLayout::Down),
                    Some(true) => ButtonState::LongPressStart(DualButtonLayout::Down),
                },
            ),
        ),
        ChannelSetting::SingleButton(k) => Some(
            ButtonSignal::Single(
                k,
                match press {
                    None => ButtonState::Released,
                    Some(false) => ButtonState::ShortPressStart(SingleButtonLayout),
                    Some(true) => ButtonState::LongPressStart(SingleButtonLayout),
                },
            ),
        ),
    }
}

/// The state a button of layout `l` reports: released, short press or long press.
pub open spec fn button_state<L>(press: Option<bool>, l: L) -> ButtonState<L> {
    match press {
        None => ButtonState::Released,
        Some(false) => ButtonState::ShortPressStart(l),
        Some(true) => ButtonState::LongPressStart(l),
    }
}

/// Whether a signal reports `press` of the side the setting gives its channel:
/// the up side of a dual button reports `Up`, the down side `Down`, a single
/// button its own key, an unused channel nothing.
pub open spec fn signal_matches(setting: ChannelSetting, press: Option<bool>, r: Option<ButtonSignal>) -> bool {
    match setting {
        ChannelSetting::Unused => r is None,
        ChannelSetting::DualButtonUp(k) => r == Some(ButtonSignal::Dual(k, button_state(press, DualButtonLayout::Up))),
        ChannelSetting::DualButtonDown(k) => r == Some(
            ButtonSignal::Dual(k, button_state(press, DualButtonLayout::Down)),
        ),
        ChannelSetting::SingleButton(k) => r == Some(ButtonSignal::Single(k, button_state(press, SingleButtonLayout))),
    }
}

/// The channel an event is on, and whether it is a release (`None`), a press
/// (`Some(false)`) or a long press (`Some(true)`).
pub open spec fn event_parts(e: Io16Event) -> (u8, Option<bool>) {
    match e {
        Io16Event::Press(c) => (c, Some(false)),
        Io16Event::LongPress(c) => (c, Some(true)),
        Io16Event::Release(c) => (c, None),
    }
}

/// What an event on a channel leads to, given the channel settings.
pub open spec fn io16_step_spec(settings: Seq<ChannelSetting>, e: Io16Event) -> Io16Action {
    let (channel, press) = match e {
        Io16Event::Press(c) => (c, Some(false)),
        Io16Event::LongPress(c) => (c, Some(true)),
        Io16Event::Release(c) => (c, None),
    };
    if channel < settings.len() {
        Io16Action {
            send: signal_for(settings[channel as int], press),
            timer: match e {
                Io16Event::Press(_) => ChannelTimer::StartLongPress,
                Io16Event::LongPress(_) => ChannelTimer::StartRelease,
                Io16Event::Release(_) => ChannelTimer::Cancel,
            },
        }
    } else {
        Io16Action { send: None, timer: ChannelTimer::Keep }
    }
}

fn signal(setting: ChannelSetting, press: Option<bool>) -> (r: Option<ButtonSignal>)
    ensures
        r == signal_for(setting, press),
        signal_matches(setting, press, r),
{
    match setting {
        ChannelSetting::Unused => None,
        ChannelSetting::DualButtonUp(k) => Some(
            ButtonSignal::Dual(
                k,
                match press {
                    None => ButtonState::Released,
                    Some(false) => ButtonState::ShortPressStart(DualButtonLayout::Up),
                    Some(true) => ButtonState::LongPressStart(DualButtonLayout::Up),
                },
            ),
        ),
        ChannelSetting::DualButtonDown(k) => Some(
            ButtonSignal::Dual(
                k,
                match press {
                    None => ButtonState::Released,
                    Some(false) => ButtonState::ShortPressStart(DualButtonLayout::Down),
                    Some(true) => ButtonState::LongPressStart(DualButtonLayout::Down),
                },
            ),
        ),
        ChannelSetting::SingleButton(k) => Some(
            ButtonSignal::Single(
                k,
                match press {
                    None => ButtonState::Released,
                    Some(false) => ButtonState::ShortPressStart(SingleButtonLayout),
                    Some(true) => ButtonState::LongPressStart(SingleButtonLayout),
                },
            ),
        ),
    }
}

/// Decides what an event on a channel leads to.
pub fn io16_step(settings: &Vec<ChannelSetting>, e: Io16Event) -> (a: Io16Action)
    ensures
        a == io16_step_spec(settings@, e),
        // an event on a configured channel reports the side of its setting
        event_parts(e).0 < settings@.len() ==> signal_matches(
            settings@[event_parts(e).0 as int],
            event_parts(e).1,
            a.send,
        ),
        // an event on a channel past the settings sends nothing and keeps the timer
        event_parts(e).0 >= settings@.len() ==> a.send is None && a.timer == ChannelTimer::Keep,
{
    let (channel, press) = match e {
        Io16Event::Press(c) => (c, Some(false)),
        Io16Event::LongPress(c) => (c, Some(true)),
        Io16Event::Release(c) => (c, None),
    };
    if (channel as usize) < settings.len() {
        Io16Action {
            send: signal(settings[channel as usize], press),
            timer: match e {
                Io16Event::Press(_) => ChannelTimer::StartLongPress,
                Io16Event::LongPress(_) => ChannelTimer::StartRelease,
                Io16Event::Release(_) => ChannelTimer::Cancel,
            },
        }
    } else {
        Io16Action { send: None, timer: ChannelTimer::Keep }
    }
}

/// A press, then its long press, then the release of a configured channel
/// send short press, long press and release of the same key, and leave no
/// timer running.
pub proof fn lemma_press_sequence(settings: Seq<ChannelSetting>, channel: u8)
    requires
        channel < settings.len(),
        settings[channel as int] != ChannelSetting::Unused,
    ensures
        io16_step_spec(settings, Io16Event::Press(channel)).send is Some,
        io16_step_spec(settings, Io16Event::Press(channel)).timer == ChannelTimer::StartLongPress,
        io16_step_spec(settings, Io16Event::LongPress(channel)).timer == ChannelTimer::StartRelease,
        io16_step_spec(settings, Io16Event::Release(channel)).timer == ChannelTimer::Cancel,
        match (
            io16_step_spec(settings, Io16Event::Press(channel)).send,
            io16_step_spec(settings, Io16Event::Release(channel)).send,
        ) {
            (Some(ButtonSignal::Dual(k1, _)), Some(ButtonSignal::Dual(k2, s))) => k1 == k2 && s
                == ButtonState::<DualButtonLayout>::Released,
            (Some(ButtonSignal::Single(k1, _)), Some(ButtonSignal::Single(k2, s))) => k1 == k2 && s
                == ButtonState::<SingleButtonLayout>::Released,
            _ => false,
        },
{
}


/// Every channel setting reports the side it stands for: on the up channel of
/// a dual button a press, long press or release reports `Up`, on the down
/// channel `Down`, on a single button its own key, on an unused channel
/// nothing; and an event on a channel carries that channel's report.
pub proof fn lemma_signal_reports_side(settings: Seq<ChannelSetting>, e: Io16Event)
    ensures
        forall|setting: ChannelSetting, press: Option<bool>|
            signal_matches(setting, press, #[trigger] signal_for(setting, press)),
        event_parts(e).0 < settings.len() ==> signal_matches(
            settings[event_parts(e).0 as int],
            event_parts(e).1,
            io16_step_spec(settings, e).send,
        ),
{
}

} // verus!
