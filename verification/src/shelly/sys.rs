//! The `sys` component of a Shelly device.
use vstd::prelude::*;

verus! {

/// Key of the single `sys` component of a device.
#[derive(Debug, Clone, Copy, PartialEq, Eq, Structural, Hash, PartialOrd, Ord)]
pub enum Key {
    Sys,
}

/// Why the device last woke up.
#[derive(Debug, Clone, Copy, PartialEq, Eq, Structural)]
pub struct WakeupReason {
    pub boot: BootType,
    pub cause: BootCause,
}

#[derive(Debug, Clone, Copy, PartialEq, Eq, Structural)]
pub enum BootType {
    Poweron,
    SoftwareRestart,
    DeepsleepWake,
    Internal,
}

#[derive(Debug, Clone, Copy, PartialEq, Eq, Structural)]
pub enum BootCause {
    Button,
    Usb,
    Periodic,
    StatusUpdate,
    Alarm,
    AlarmTest,
    Undefined,
}

/// Time server the device uses.
#[derive(Debug, Clone)]
pub struct DeviceSntpServer {
    pub server: String,
}

/// Debug output channels of the device.
#[derive(Debug, Clone)]
pub struct DeviceDebug {
    pub mqtt: DeviceDebugChannel,
    pub websocket: DeviceDebugChannel,
    pub udp: DeviceDebugUdp,
}

/// Remote procedure calls over UDP.
#[derive(Debug, Clone)]
pub struct DeviceRpcUdp {
    pub dst_addr: Option<String>,
    pub listen_port: Option<u16>,
}

#[derive(Debug, Clone)]
pub struct DeviceDebugUdp {
    pub addr: Option<String>,
}

#[derive(Debug, Clone, Copy, PartialEq, Eq, Structural)]
pub struct DeviceDebugChannel {
    pub enable: bool,
}

/// Add-on plugged into the device.
#[derive(Debug, Clone, Copy, PartialEq, Eq, Structural)]
pub enum DeviceAddonType {
    Sensor,
    Prooutput,
}

} // verus!
