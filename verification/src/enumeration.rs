//! What the enumeration listener of an endpoint does with each event: which
//! handler a newly seen bricklet gets, and when it is reported or forgotten.
use vstd::prelude::*;

verus! {

/// Device identifier of the 128x64 LCD bricklet.
pub const LCD_128X64_IDENTIFIER: u16 = 298;
/// Device identifier of the DMX bricklet.
pub const DMX_IDENTIFIER: u16 = 285;
/// Device identifier of the IO-16 bricklet.
pub const IO16_IDENTIFIER: u16 = 28;
/// Device identifier of the IO-16 bricklet, version 2.
pub const IO16_V2_IDENTIFIER: u16 = 2114;
/// Device identifier of the motion detector bricklet, version 2.
pub const MOTION_DETECTOR_V2_IDENTIFIER: u16 = 292;
/// Device identifier of the temperature bricklet, version 2.
pub const TEMPERATURE_V2_IDENTIFIER: u16 = 2113;
/// Device identifier of the industrial quad relay bricklet, version 2.
pub const QUAD_RELAY_V2_IDENTIFIER: u16 = 2102;

/// Milliseconds between two probes of an endpoint's connection.
pub const PING_INTERVAL_MILLIS: u64 = 10000;

/// Milliseconds before an endpoint whose connection broke is connected again.
pub const RECONNECT_DELAY_MILLIS: u64 = 10000;

/// What an enumeration packet says of a bricklet.
#[derive(Debug, Clone, Copy, PartialEq, Eq, Structural)]
pub enum EnumerationKind {
    Available,
    Connected,
    Disconnected,
    Unknown,
}

/// An event of the listener.
#[derive(Debug, Clone, Copy, PartialEq, Eq, Structural)]
pub enum ListenerEvent {
    /// An enumeration packet; `known` tells whether its device identifier
    /// names a device type of tinkerforge-async.
    Packet { kind: EnumerationKind, device_identifier: u16, known: bool },
    /// Stopping was asked for.
    Terminate,
    /// The enumeration stream of the connection ended.
    StreamEnded,
    Ping,
}

/// Which settings the wiring holds for a bricklet's uid.
#[derive(Debug, Clone, Copy, PartialEq, Eq, Structural)]
pub struct ConfiguredFor {
    pub lcd_screen: bool,
    pub dmx: bool,
    pub io: bool,
    pub motion_detector: bool,
    pub temperature: bool,
    pub relay: bool,
}

/// The task a bricklet is handed to.
#[derive(Debug, Clone, Copy, PartialEq, Eq, Structural)]
pub enum DeviceHandler {
    Screen,
    DebugText,
    Dmx,
    Io16,
    Io16V2,
    MotionDetector,
    Temperature,
    QuadRelay,
    Nothing,
}

/// What the listener does on an event.
#[derive(Debug, Clone, Copy, PartialEq, Eq, Structural)]
pub enum ListenerAction {
    /// Probe the connection.
    Probe,
    /// Stop listening: the connection is done with.
    Stop,
    /// The connection was lost: stop listening, to connect again.
    ConnectionLost,
    /// Nothing (a repeated packet of a running bricklet, a bricklet of an
    /// unknown device type, or an unknown kind of packet).
    Ignore,
    /// Report the bricklet connected and start its handler.
    Start(DeviceHandler),
    /// Forget the bricklet and stop its handler.
    Forget,
}

/// The handler a bricklet of a type gets: only one the wiring configures,
/// except that an unconfigured display shows its uid.
pub open spec fn handler_spec(device_identifier: u16, c: ConfiguredFor) -> DeviceHandler {
    if device_identifier == LCD_128X64_IDENTIFIER {
        if c.lcd_screen {
            DeviceHandler::Screen
        } else {
            DeviceHandler::DebugText
        }
    } else if device_identifier == DMX_IDENTIFIER && c.dmx {
        DeviceHandler::Dmx
    } else if device_identifier == IO16_IDENTIFIER && c.io {
        DeviceHandler::Io16
    } else if device_identifier == IO16_V2_IDENTIFIER && c.io {
        DeviceHandler::Io16V2
    } else if device_identifier == MOTION_DETECTOR_V2_IDENTIFIER && c.motion_detector {
        DeviceHandler::MotionDetector
    } else if device_identifier == TEMPERATURE_V2_IDENTIFIER && c.temperature {
        DeviceHandler::Temperature
    } else if device_identifier == QUAD_RELAY_V2_IDENTIFIER && c.relay {
        DeviceHandler::QuadRelay
    } else {
        DeviceHandler::Nothing
    }
}

/// Whether a device identifier names a type of bricklet that has a handler.
pub open spec fn is_handled_type(device_identifier: u16) -> bool {
    device_identifier == LCD_128X64_IDENTIFIER || device_identifier == DMX_IDENTIFIER
        || device_identifier == IO16_IDENTIFIER || device_identifier == IO16_V2_IDENTIFIER
        || device_identifier == MOTION_DETECTOR_V2_IDENTIFIER
        || device_identifier == TEMPERATURE_V2_IDENTIFIER
        || device_identifier == QUAD_RELAY_V2_IDENTIFIER
}

/// The handler a bricklet of a type gets: a bricklet whose settings the
/// wiring holds gets the handler of its type, a display without settings
/// shows its uid, and any other bricklet gets none.
pub fn handler_for(device_identifier: u16, c: ConfiguredFor) -> (h: DeviceHandler)
    ensures
        h == handler_spec(device_identifier, c),
        device_identifier == LCD_128X64_IDENTIFIER ==> h == (if c.lcd_screen {
            DeviceHandler::Screen
        } else {
            DeviceHandler::DebugText
        }),
        device_identifier == DMX_IDENTIFIER ==> h == (if c.dmx {
            DeviceHandler::Dmx
        } else {
            DeviceHandler::Nothing
        }),
        device_identifier == IO16_IDENTIFIER ==> h == (if c.io {
            DeviceHandler::Io16
        } else {
            DeviceHandler::Nothing
        }),
        device_identifier == IO16_V2_IDENTIFIER ==> h == (if c.io {
            DeviceHandler::Io16V2
        } else {
            DeviceHandler::Nothing
        }),
        device_identifier == MOTION_DETECTOR_V2_IDENTIFIER ==> h == (if c.motion_detector {
            DeviceHandler::MotionDetector
        } else {
            DeviceHandler::Nothing
        }),
        device_identifier == TEMPERATURE_V2_IDENTIFIER ==> h == (if c.temperature {
            DeviceHandler::Temperature
        } else {
            DeviceHandler::Nothing
        }),
        device_identifier == QUAD_RELAY_V2_IDENTIFIER ==> h == (if c.relay {
            DeviceHandler::QuadRelay
        } else {
            DeviceHandler::Nothing
        }),
        !is_handled_type(device_identifier) ==> h == DeviceHandler::Nothing,
{
    if device_identifier == LCD_128X64_IDENTIFIER {
        if c.lcd_screen {
            DeviceHandler::Screen
        } else {
            DeviceHandler::DebugText
        }
    } else if device_identifier == DMX_IDENTIFIER && c.dmx {
        DeviceHandler::Dmx
    } else if device_identifier == IO16_IDENTIFIER && c.io {
        DeviceHandler::Io16
    } else if device_identifier == IO16_V2_IDENTIFIER && c.io {
        DeviceHandler::Io16V2
    } else if device_identifier == MOTION_DETECTOR_V2_IDENTIFIER && c.motion_detector {
        DeviceHandler::MotionDetector
    } else if device_identifier == TEMPERATURE_V2_IDENTIFIER && c.temperature {
        DeviceHandler::Temperature
    } else if device_identifier == QUAD_RELAY_V2_IDENTIFIER && c.relay {
        DeviceHandler::QuadRelay
    } else {
        DeviceHandler::Nothing
    }
}

/// What the listener does on an event, given whether a handler runs for the
/// packet's bricklet and what the wiring configures for it.
pub open spec fn listener_step_spec(e: ListenerEvent, running: bool, c: ConfiguredFor) -> ListenerAction {
    match e {
        ListenerEvent::Ping => ListenerAction::Probe,
        ListenerEvent::Terminate => ListenerAction::Stop,
        ListenerEvent::StreamEnded => ListenerAction::ConnectionLost,
        ListenerEvent::Packet { kind, device_identifier, known } => match kind {
            EnumerationKind::Available | EnumerationKind::Connected => if running || !known {
                ListenerAction::Ignore
            } else {
                ListenerAction::Start(handler_spec(device_identifier, c))
            },
            EnumerationKind::Disconnected => ListenerAction::Forget,
            EnumerationKind::Unknown => ListenerAction::Ignore,
        },
    }
}

/// Decides what the listener does on an event.
pub fn listener_step(e: ListenerEvent, running: bool, c: ConfiguredFor) -> (a: ListenerAction)
    ensures
        a == listener_step_spec(e, running, c),
{
    match e {
        ListenerEvent::Ping => ListenerAction::Probe,
        ListenerEvent::Terminate => ListenerAction::Stop,
        ListenerEvent::StreamEnded => ListenerAction::ConnectionLost,
        ListenerEvent::Packet { kind, device_identifier, known } => match kind {
            EnumerationKind::Available | EnumerationKind::Connected => if running || !known {
                ListenerAction::Ignore
            } else {
                ListenerAction::Start(handler_for(device_identifier, c))
            },
            EnumerationKind::Disconnected => ListenerAction::Forget,
            EnumerationKind::Unknown => ListenerAction::Ignore,
        },
    }
}

/// A bricklet whose settings the wiring holds gets the handler of its type;
/// a display without settings shows its uid; any other bricklet gets none.
pub proof fn lemma_configured_bricklet_gets_handler(device_identifier: u16, c: ConfiguredFor)
    ensures
        device_identifier == LCD_128X64_IDENTIFIER ==> handler_spec(device_identifier, c) == (if c.lcd_screen {
            DeviceHandler::Screen
        } else {
            DeviceHandler::DebugText
        }),
        device_identifier == DMX_IDENTIFIER ==> handler_spec(device_identifier, c) == (if c.dmx {
            DeviceHandler::Dmx
        } else {
            DeviceHandler::Nothing
        }),
        device_identifier == IO16_IDENTIFIER ==> handler_spec(device_identifier, c) == (if c.io {
            DeviceHandler::Io16
        } else {
            DeviceHandler::Nothing
        }),
        device_identifier == IO16_V2_IDENTIFIER ==> handler_spec(device_identifier, c) == (if c.io {
            DeviceHandler::Io16V2
        } else {
            DeviceHandler::Nothing
        }),
        device_identifier == MOTION_DETECTOR_V2_IDENTIFIER ==> handler_spec(device_identifier, c) == (if c.motion_detector {
            DeviceHandler::MotionDetector
        } else {
            DeviceHandler::Nothing
        }),
        device_identifier == TEMPERATURE_V2_IDENTIFIER ==> handler_spec(device_identifier, c) == (if c.temperature {
            DeviceHandler::Temperature
        } else {
            DeviceHandler::Nothing
        }),
        device_identifier == QUAD_RELAY_V2_IDENTIFIER ==> handler_spec(device_identifier, c) == (if c.relay {
            DeviceHandler::QuadRelay
        } else {
            DeviceHandler::Nothing
        }),
        !is_handled_type(device_identifier) ==> handler_spec(device_identifier, c) == DeviceHandler::Nothing,
{
}

/// A bricklet of a known device type that is not running is started
/// exactly once per announcement: announcing it again while its handler
/// runs does nothing, and a bricklet of an unknown device type is never
/// started.
pub proof fn lemma_announce_once(kind: EnumerationKind, device_identifier: u16, known: bool, c: ConfiguredFor)
    requires
        kind == EnumerationKind::Available || kind == EnumerationKind::Connected,
    ensures
        listener_step_spec(ListenerEvent::Packet { kind, device_identifier, known }, false, c) is Start
            <==> known,
        listener_step_spec(ListenerEvent::Packet { kind, device_identifier, known }, true, c)
            == ListenerAction::Ignore,
{
}

} // verus!
