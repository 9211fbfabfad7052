//! Model of the Shelly device protocol: component keys, device ids and the
//! decisions taken when driving Shelly lights and switches.
pub mod ble;
pub mod bthome;
pub mod cloud;
pub mod common;
pub mod components;
pub mod eth;
pub mod input;
pub mod knx;
pub mod light;
pub mod mqtt;
pub mod switch;
pub mod sys;
pub mod ui;
pub mod wifi;
pub mod ws;
