use vstd::prelude::*;

pub mod text;
pub mod assoc;
pub mod room;
pub mod keys;
pub mod shelly;
pub mod sheet;
pub mod io_handler;
pub mod registry;
pub mod controller;
pub mod state;
pub mod dmx;
pub mod wiring;
pub mod io16;
pub mod outputs;
pub mod display;
pub mod layout;
pub mod screen;
pub mod device_idx;
pub mod names;
pub mod sheet_reader;
pub mod sheet_devices;
pub mod sheet_controllers;
pub mod sorting;
pub mod sheet_lights;
pub mod wiring_build;
pub mod sheet_table;
pub mod sheet_endpoints;
pub mod bricklet_table;
pub mod enumeration;
pub mod settings;
pub mod config_loop;

verus! {

/// Converts a colour temperature in kelvin into mireds (`1_000_000 / kelvin`),
/// truncated to 16 bits as the division result is narrowed to `u16`.
pub fn kelvin_2_mireds(temp: u16) -> (mireds: u16)
    requires
        temp > 0,
    ensures
        mireds == (1000000int / (temp as int)) % 65536,
{
    let q: u32 = 1000000u32 / (temp as u32);
    (q % 65536) as u16
}

} // verus!
