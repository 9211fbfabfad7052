//! Decisions of the relay and motion detector bricklet tasks.
use vstd::prelude::*;
use crate::registry::{ButtonState, SingleButtonLayout};

verus! {

/// Milliseconds the relay task waits for more changes before it writes.
pub const RELAY_SEND_DELAY_MILLIS: u64 = 10;

/// Milliseconds after the last motion until the motion counts as ended.
pub const MOTION_END_MILLIS: u64 = 500;

/// The four outputs of a quad relay as last set.
#[derive(Debug, Clone, Copy)]
pub struct RelayState {
    pub values: [bool; 4],
}

impl RelayState {
    /// All relays open.
    pub fn new() -> (s: Self)
        ensures
            forall|i: int| 0 <= i < 4 ==> !s.values@[i],
    {
        RelayState { values: [false, false, false, false] }
    }

    /// Sets one relay; returns whether that changed anything (then the
    /// write timer is restarted).
    pub fn set_state(&mut self, channel: u8, state: bool) -> (changed: bool)
        requires
            channel < 4,
        ensures
            final(self).values@ == old(self).values@.update(channel as int, state),
            changed == (old(self).values@[channel as int] != state),
    {
        let c = channel as usize;
        if self.values[c] != state {
            self.values[c] = state;
            true
        } else {
            false
        }
    }
}

/// What the motion detector task does on an event.
#[derive(Debug, Clone, Copy, PartialEq, Eq, Structural)]
pub struct MotionSensorAction {
    pub send: ButtonState<SingleButtonLayout>,
    /// Whether to (re)start the timer that reports the end of the motion.
    pub restart_timer: bool,
}

/// A detected motion presses the button and restarts the end timer; the
/// end of the motion releases it.
pub fn motion_sensor_step(motion_started: bool) -> (a: MotionSensorAction)
    ensures
        a == (if motion_started {
            MotionSensorAction {
                send: ButtonState::ShortPressStart(SingleButtonLayout),
                restart_timer: true,
            }
        } else {
            MotionSensorAction { send: ButtonState::Released, restart_timer: false }
        }),
{
    if motion_started {
        MotionSensorAction {
            send: ButtonState::ShortPressStart(SingleButtonLayout),
            restart_timer: true,
        }
    } else {
        MotionSensorAction { send: ButtonState::Released, restart_timer: false }
    }
}

/// Setting a relay to the value it has changes nothing and is not written.
pub proof fn lemma_relay_idempotent(s: RelayState, channel: u8, state: bool)
    requires
        channel < 4,
        s.values@[channel as int] == state,
    ensures
        s.values@.update(channel as int, state) == s.values@,
{
    assert(s.values@.update(channel as int, state) =~= s.values@);
}

} // verus!
