//! The decisions of the loop that keeps the configuration current: when to
//! fetch it again and which parts to restart after a fetch.
use vstd::prelude::*;

verus! {

/// Milliseconds after a change of the known state until the configuration is fetched.
pub const FETCH_AFTER_STATE_CHANGE_MILLIS: u64 = 2000;

/// Milliseconds after an unchanged configuration until it is fetched again.
pub const FETCH_AFTER_UNCHANGED_MILLIS: u64 = 300000;

/// Milliseconds after a new configuration until it is fetched again.
pub const FETCH_AFTER_RELOAD_MILLIS: u64 = 10000;

/// What happened in the loop.
#[derive(Debug, Clone, Copy, PartialEq, Eq, Structural)]
pub enum ConfigLoopEvent {
    /// A status message was processed; whether it changed the known state.
    StateUpdated { changed: bool },
    /// The configuration was fetched; which of its parts differ from the running one.
    Fetched { controllers_changed: bool, tinkerforge_changed: bool, shelly_changed: bool, other_changed: bool },
}

/// What the loop does next.
#[derive(Debug, Clone, Copy, PartialEq, Eq, Structural)]
pub struct ConfigLoopAction {
    pub restart_controllers: bool,
    pub restart_tinkerforge: bool,
    pub restart_shelly: bool,
    /// Replace the fetch timer by one that fetches after that many milliseconds.
    pub fetch_in_millis: Option<u64>,
}

/// The loop's reaction: a changed state brings the next fetch to two
/// seconds; an unchanged configuration is fetched again in five minutes; a
/// new one restarts the parts that changed and is fetched again in ten seconds.
pub open spec fn config_step_spec(e: ConfigLoopEvent) -> ConfigLoopAction {
    match e {
        ConfigLoopEvent::StateUpdated { changed } => ConfigLoopAction {
            restart_controllers: false,
            restart_tinkerforge: false,
            restart_shelly: false,
            fetch_in_millis: if changed { Some(2000) } else { None },
        },
        ConfigLoopEvent::Fetched { controllers_changed, tinkerforge_changed, shelly_changed, other_changed } => {
            if controllers_changed || tinkerforge_changed || shelly_changed || other_changed {
                ConfigLoopAction {
                    restart_controllers: controllers_changed,
                    restart_tinkerforge: tinkerforge_changed,
                    restart_shelly: shelly_changed,
                    fetch_in_millis: Some(10000),
                }
            } else {
                ConfigLoopAction {
                    restart_controllers: false,
                    restart_tinkerforge: false,
                    restart_shelly: false,
                    fetch_in_millis: Some(300000),
                }
            }
        },
    }
}

/// Decides what the configuration loop does on an event.
pub fn config_step(e: ConfigLoopEvent) -> (a: ConfigLoopAction)
    ensures
        a == config_step_spec(e),
{
    match e {
        ConfigLoopEvent::StateUpdated { changed } => ConfigLoopAction {
            restart_controllers: false,
            restart_tinkerforge: false,
            restart_shelly: false,
            fetch_in_millis: if changed {
                Some(FETCH_AFTER_STATE_CHANGE_MILLIS)
            } else {
                None
            },
        },
        ConfigLoopEvent::Fetched { controllers_changed, tinkerforge_changed, shelly_changed, other_changed } => {
            if controllers_changed || tinkerforge_changed || shelly_changed || other_changed {
                ConfigLoopAction {
                    restart_controllers: controllers_changed,
                    restart_tinkerforge: tinkerforge_changed,
                    restart_shelly: shelly_changed,
                    fetch_in_millis: Some(FETCH_AFTER_RELOAD_MILLIS),
                }
            } else {
                ConfigLoopAction {
                    restart_controllers: false,
                    restart_tinkerforge: false,
                    restart_shelly: false,
                    fetch_in_millis: Some(FETCH_AFTER_UNCHANGED_MILLIS),
                }
            }
        },
    }
}

/// Every fetch schedules the next one, and only the parts that changed are
/// restarted.
pub proof fn lemma_fetch_keeps_polling(e: ConfigLoopEvent)
    requires
        e is Fetched,
    ensures
        config_step_spec(e).fetch_in_millis is Some,
        config_step_spec(e).restart_controllers ==> e->controllers_changed,
        config_step_spec(e).restart_tinkerforge ==> e->tinkerforge_changed,
        config_step_spec(e).restart_shelly ==> e->shelly_changed,
{
}

} // verus!
