//! The configuration: server ports and files, tinkerforge endpoints, and
//! where the sheet keeps each table (sheet, range, column titles).
use vstd::prelude::*;
use crate::state::IpAddress;

verus! {

/// An I/O error of std, carried through as it is.
#[verifier::external_type_specification]
#[verifier::external_body]
pub struct ExIoError(std::io::Error);

/// Server ports, bind address and files.
#[derive(Debug, Clone)]
pub struct ServerSettings {
    pub port: Option<u16>,
    pub mgmt_port: Option<u16>,
    pub bind_address: Option<IpAddress>,
    pub setup_file: Option<String>,
    pub state_file: Option<String>,
}

impl ServerSettings {
    /// The port, 8080 unless configured.
    pub fn port(&self) -> (p: u16)
        ensures
            p == (match self.port {
                Some(p) => p,
                None => 8080u16,
            }),
    {
        match self.port {
            Some(p) => p,
            None => 8080,
        }
    }

    /// The management port, 1000 above the port unless configured.
    pub fn mgmt_port(&self) -> (p: u16)
        requires
            self.mgmt_port is None ==> match self.port {
                Some(p) => p + 1000 <= u16::MAX,
                None => true,
            },
        ensures
            p == (match self.mgmt_port {
                Some(m) => m,
                None => (match self.port {
                    Some(p) => p,
                    None => 8080u16,
                } + 1000) as u16,
            }),
    {
        match self.mgmt_port {
            Some(m) => m,
            None => self.port() + 1000,
        }
    }

    /// The address to bind to, the unspecified IPv6 address unless configured.
    pub fn bind_address(&self) -> (a: IpAddress)
        ensures
            a == (match self.bind_address {
                Some(a) => a,
                None => IpAddress::V6(0),
            }),
    {
        match self.bind_address {
            Some(a) => a,
            None => IpAddress::V6(0),
        }
    }

    /// The wiring file, `setup.yaml` unless configured.
    pub fn setup_file(&self) -> (f: &str)
        ensures
            f@ == (match &self.setup_file {
                Some(f) => f@,
                None => "setup.yaml"@,
            }),
    {
        match &self.setup_file {
            Some(f) => f.as_str(),
            None => "setup.yaml",
        }
    }

    /// The state file, `state.ron` unless configured.
    pub fn state_file(&self) -> (f: &str)
        ensures
            f@ == (match &self.state_file {
                Some(f) => f@,
                None => "state.ron"@,
            }),
    {
        match &self.state_file {
            Some(f) => f.as_str(),
            None => "state.ron",
        }
    }
}

/// The tinkerforge endpoints configured.
#[derive(Debug, Clone)]
pub struct Tinkerforge {
    pub endpoints: Vec<TinkerforgeEndpoint>,
}

impl Tinkerforge {
    /// The endpoints.
    pub fn endpoints(&self) -> (e: &Vec<TinkerforgeEndpoint>)
        ensures
            e@ == self.endpoints@,
    {
        &self.endpoints
    }
}

/// A tinkerforge endpoint: address and port.
#[derive(Debug, Clone, Copy, PartialEq, Eq, Structural)]
pub struct TinkerforgeEndpoint {
    pub address: IpAddress,
    pub port: Option<u16>,
}

impl TinkerforgeEndpoint {
    /// The address.
    pub fn address(&self) -> (a: IpAddress)
        ensures
            a == self.address,
    {
        self.address
    }

    /// The port, 4223 unless configured.
    pub fn port(&self) -> (p: u16)
        ensures
            p == (match self.port {
                Some(p) => p,
                None => 4223u16,
            }),
    {
        match self.port {
            Some(p) => p,
            None => 4223,
        }
    }
}

/// How to reach the sheet: the service account key (a file or the key
/// itself), the spreadsheet, and where each table is.
#[derive(Debug, Clone)]
pub struct GoogleSheet {
    pub key_file: Option<String>,
    pub key_data: Option<String>,
    pub spreadsheet_id: String,
    pub endpoints: GoogleEndpointData,
    pub light: GoogleLightData,
    pub light_templates: GoogleLightTemplateData,
    pub buttons: GoogleButtonData,
    pub button_templates: GoogleButtonTemplate,
    pub room_controllers: GoogleRoomController,
    pub motion_detectors: GoogleMotionDetectors,
    pub relays: GoogleRelay,
}

/// Why the sheet's access key cannot be had.
#[derive(Debug)]
pub enum GoogleError {
    Io(std::io::Error),
    ConfigContent { description: &'static str },
}

/// Where the key for the sheet comes from.
#[derive(Debug, Clone, Copy, PartialEq, Eq, Structural)]
pub enum KeySource {
    File,
    Data,
}

impl GoogleSheet {
    /// Where the service account key is read from: the key file when one is
    /// named, else the key data; neither is an error.
    pub fn key_source(&self) -> (r: Result<KeySource, GoogleError>)
        ensures
            match r {
                Ok(KeySource::File) => self.key_file is Some,
                Ok(KeySource::Data) => self.key_file is None && self.key_data is Some,
                Err(e) => self.key_file is None && self.key_data is None && (e matches GoogleError::ConfigContent { description } && description@ == "neither key_file nor key_data filled in"@),
            },
    {
        if self.key_file.is_some() {
            Ok(KeySource::File)
        } else if self.key_data.is_some() {
            Ok(KeySource::Data)
        } else {
            let description = "neither key_file nor key_data filled in";
            proof {
                reveal_strlit("neither key_file nor key_data filled in");
            }
            Err(GoogleError::ConfigContent { description })
        }
    }

    /// The spreadsheet.
    pub fn spreadsheet_id(&self) -> (r: &str)
        ensures
            r@ == self.spreadsheet_id@,
    {
        self.spreadsheet_id.as_str()
    }

    /// Where the light table is.
    pub fn light(&self) -> (r: &GoogleLightData)
        ensures
            *r == self.light,
    {
        &self.light
    }

    /// Where the light templates table is.
    pub fn light_templates(&self) -> (r: &GoogleLightTemplateData)
        ensures
            *r == self.light_templates,
    {
        &self.light_templates
    }

    /// Where the buttons table is.
    pub fn buttons(&self) -> (r: &GoogleButtonData)
        ensures
            *r == self.buttons,
    {
        &self.buttons
    }

    /// Where the button templates table is.
    pub fn button_templates(&self) -> (r: &GoogleButtonTemplate)
        ensures
            *r == self.button_templates,
    {
        &self.button_templates
    }

    /// Where the room controllers table is.
    pub fn room_controllers(&self) -> (r: &GoogleRoomController)
        ensures
            *r == self.room_controllers,
    {
        &self.room_controllers
    }

    /// Where the motion detectors table is.
    pub fn motion_detectors(&self) -> (r: &GoogleMotionDetectors)
        ensures
            *r == self.motion_detectors,
    {
        &self.motion_detectors
    }

    /// Where the relays table is.
    pub fn relays(&self) -> (r: &GoogleRelay)
        ensures
            *r == self.relays,
    {
        &self.relays
    }

    /// Where the endpoints table is.
    pub fn endpoints(&self) -> (r: &GoogleEndpointData)
        ensures
            *r == self.endpoints,
    {
        &self.endpoints
    }
}

/// Where the sheet lists endpoints: sheet, range and the column titles.
#[derive(Debug, Clone)]
pub struct GoogleEndpointData {
    pub sheet: String,
    pub range: String,
    pub address: String,
    pub state: String,
}

impl GoogleEndpointData {
    /// The sheet.
    pub fn sheet(&self) -> (r: &str)
        ensures
            r@ == self.sheet@,
    {
        self.sheet.as_str()
    }

    /// The range.
    pub fn range(&self) -> (r: &str)
        ensures
            r@ == self.range@,
    {
        self.range.as_str()
    }

    /// The title of the address column.
    pub fn address(&self) -> (r: &str)
        ensures
            r@ == self.address@,
    {
        self.address.as_str()
    }

    /// The title of the state column.
    pub fn state(&self) -> (r: &str)
        ensures
            r@ == self.state@,
    {
        self.state.as_str()
    }
}

/// Where the sheet lists buttons: sheet, range and the column titles.
#[derive(Debug, Clone)]
pub struct GoogleButtonData {
    pub sheet: String,
    pub range: String,
    pub room_id: String,
    pub button_id: String,
    pub button_idx: String,
    pub button_type: String,
    pub device_address: String,
    pub first_input_idx: String,
    pub state: String,
}

impl GoogleButtonData {
    /// The sheet.
    pub fn sheet(&self) -> (r: &str)
        ensures
            r@ == self.sheet@,
    {
        self.sheet.as_str()
    }

    /// The range.
    pub fn range(&self) -> (r: &str)
        ensures
            r@ == self.range@,
    {
        self.range.as_str()
    }

    /// The title of the room id column.
    pub fn room_id(&self) -> (r: &str)
        ensures
            r@ == self.room_id@,
    {
        self.room_id.as_str()
    }

    /// The title of the button id column.
    pub fn button_id(&self) -> (r: &str)
        ensures
            r@ == self.button_id@,
    {
        self.button_id.as_str()
    }

    /// The title of the button idx column.
    pub fn button_idx(&self) -> (r: &str)
        ensures
            r@ == self.button_idx@,
    {
        self.button_idx.as_str()
    }

    /// The title of the button type column.
    pub fn button_type(&self) -> (r: &str)
        ensures
            r@ == self.button_type@,
    {
        self.button_type.as_str()
    }

    /// The title of the device address column.
    pub fn device_address(&self) -> (r: &str)
        ensures
            r@ == self.device_address@,
    {
        self.device_address.as_str()
    }

    /// The title of the first input idx column.
    pub fn first_input_idx(&self) -> (r: &str)
        ensures
            r@ == self.first_input_idx@,
    {
        self.first_input_idx.as_str()
    }

    /// The title of the state column.
    pub fn state(&self) -> (r: &str)
        ensures
            r@ == self.state@,
    {
        self.state.as_str()
    }
}

/// Where the sheet lists button templates: sheet, range and the column titles.
#[derive(Debug, Clone)]
pub struct GoogleButtonTemplate {
    pub sheet: String,
    pub range: String,
    pub name: String,
    pub discriminator: String,
    pub sub_devices: String,
}

impl GoogleButtonTemplate {
    /// The sheet.
    pub fn sheet(&self) -> (r: &str)
        ensures
            r@ == self.sheet@,
    {
        self.sheet.as_str()
    }

    /// The range.
    pub fn range(&self) -> (r: &str)
        ensures
            r@ == self.range@,
    {
        self.range.as_str()
    }

    /// The title of the name column.
    pub fn name(&self) -> (r: &str)
        ensures
            r@ == self.name@,
    {
        self.name.as_str()
    }

    /// The title of the discriminator column.
    pub fn discriminator(&self) -> (r: &str)
        ensures
            r@ == self.discriminator@,
    {
        self.discriminator.as_str()
    }

    /// The title of the sub devices column.
    pub fn sub_devices(&self) -> (r: &str)
        ensures
            r@ == self.sub_devices@,
    {
        self.sub_devices.as_str()
    }
}

/// Where the sheet lists light templates: sheet, range and the column titles.
#[derive(Debug, Clone)]
pub struct GoogleLightTemplateData {
    pub sheet: String,
    pub range: String,
    pub name_column: String,
    pub discriminator_column: String,
    pub temperature_warm_column: String,
    pub temperature_cold_column: String,
}

impl GoogleLightTemplateData {
    /// The sheet.
    pub fn sheet(&self) -> (r: &str)
        ensures
            r@ == self.sheet@,
    {
        self.sheet.as_str()
    }

    /// The range.
    pub fn range(&self) -> (r: &str)
        ensures
            r@ == self.range@,
    {
        self.range.as_str()
    }

    /// The title of the name column column.
    pub fn name_column(&self) -> (r: &str)
        ensures
            r@ == self.name_column@,
    {
        self.name_column.as_str()
    }

    /// The title of the discriminator column column.
    pub fn discriminator_column(&self) -> (r: &str)
        ensures
            r@ == self.discriminator_column@,
    {
        self.discriminator_column.as_str()
    }

    /// The title of the temperature warm column column.
    pub fn temperature_warm_column(&self) -> (r: &str)
        ensures
            r@ == self.temperature_warm_column@,
    {
        self.temperature_warm_column.as_str()
    }

    /// The title of the temperature cold column column.
    pub fn temperature_cold_column(&self) -> (r: &str)
        ensures
            r@ == self.temperature_cold_column@,
    {
        self.temperature_cold_column.as_str()
    }
}

/// Where the sheet lists lights: sheet, range and the column titles.
#[derive(Debug, Clone)]
pub struct GoogleLightData {
    pub sheet: String,
    pub range: String,
    pub room_id: String,
    pub light_idx: String,
    pub template: String,
    pub device_address: String,
    pub bus_start_address: String,
    pub touchscreen_whitebalance: String,
    pub touchscreen_brightness: String,
    pub state: String,
    pub manual_buttons: Vec<String>,
    pub presence_detectors: Vec<String>,
}

impl GoogleLightData {
    /// The sheet.
    pub fn sheet(&self) -> (r: &str)
        ensures
            r@ == self.sheet@,
    {
        self.sheet.as_str()
    }

    /// The range.
    pub fn range(&self) -> (r: &str)
        ensures
            r@ == self.range@,
    {
        self.range.as_str()
    }

    /// The title of the room id column.
    pub fn room_id(&self) -> (r: &str)
        ensures
            r@ == self.room_id@,
    {
        self.room_id.as_str()
    }

    /// The title of the light idx column.
    pub fn light_idx(&self) -> (r: &str)
        ensures
            r@ == self.light_idx@,
    {
        self.light_idx.as_str()
    }

    /// The title of the template column.
    pub fn template(&self) -> (r: &str)
        ensures
            r@ == self.template@,
    {
        self.template.as_str()
    }

    /// The title of the device address column.
    pub fn device_address(&self) -> (r: &str)
        ensures
            r@ == self.device_address@,
    {
        self.device_address.as_str()
    }

    /// The title of the bus start address column.
    pub fn bus_start_address(&self) -> (r: &str)
        ensures
            r@ == self.bus_start_address@,
    {
        self.bus_start_address.as_str()
    }

    /// The title of the touchscreen whitebalance column.
    pub fn touchscreen_whitebalance(&self) -> (r: &str)
        ensures
            r@ == self.touchscreen_whitebalance@,
    {
        self.touchscreen_whitebalance.as_str()
    }

    /// The title of the touchscreen brightness column.
    pub fn touchscreen_brightness(&self) -> (r: &str)
        ensures
            r@ == self.touchscreen_brightness@,
    {
        self.touchscreen_brightness.as_str()
    }

    /// The title of the state column.
    pub fn state(&self) -> (r: &str)
        ensures
            r@ == self.state@,
    {
        self.state.as_str()
    }

    /// The titles of the button columns.
    pub fn manual_buttons(&self) -> (r: &Vec<String>)
        ensures
            r@ == self.manual_buttons@,
    {
        &self.manual_buttons
    }

    /// The titles of the presence detector columns.
    pub fn presence_detectors(&self) -> (r: &Vec<String>)
        ensures
            r@ == self.presence_detectors@,
    {
        &self.presence_detectors
    }
}

/// Where the sheet lists room controllers: sheet, range and the column titles.
#[derive(Debug, Clone)]
pub struct GoogleRoomController {
    pub sheet: String,
    pub range: String,
    pub room_id: String,
    pub controller_id: String,
    pub controller_idx: String,
    pub orientation: String,
    pub touchscreen_device_address: String,
    pub temperature_device_address: String,
    pub enable_heat_control: String,
    pub enable_whitebalance_control: String,
    pub enable_brightness_control: String,
    pub touchscreen_state: String,
    pub temperature_state: String,
}

impl GoogleRoomController {
    /// The sheet.
    pub fn sheet(&self) -> (r: &str)
        ensures
            r@ == self.sheet@,
    {
        self.sheet.as_str()
    }

    /// The range.
    pub fn range(&self) -> (r: &str)
        ensures
            r@ == self.range@,
    {
        self.range.as_str()
    }

    /// The title of the room id column.
    pub fn room_id(&self) -> (r: &str)
        ensures
            r@ == self.room_id@,
    {
        self.room_id.as_str()
    }

    /// The title of the controller id column.
    pub fn controller_id(&self) -> (r: &str)
        ensures
            r@ == self.controller_id@,
    {
        self.controller_id.as_str()
    }

    /// The title of the controller idx column.
    pub fn controller_idx(&self) -> (r: &str)
        ensures
            r@ == self.controller_idx@,
    {
        self.controller_idx.as_str()
    }

    /// The title of the orientation column.
    pub fn orientation(&self) -> (r: &str)
        ensures
            r@ == self.orientation@,
    {
        self.orientation.as_str()
    }

    /// The title of the touchscreen device address column.
    pub fn touchscreen_device_address(&self) -> (r: &str)
        ensures
            r@ == self.touchscreen_device_address@,
    {
        self.touchscreen_device_address.as_str()
    }

    /// The title of the temperature device address column.
    pub fn temperature_device_address(&self) -> (r: &str)
        ensures
            r@ == self.temperature_device_address@,
    {
        self.temperature_device_address.as_str()
    }

    /// The title of the enable heat control column.
    pub fn enable_heat_control(&self) -> (r: &str)
        ensures
            r@ == self.enable_heat_control@,
    {
        self.enable_heat_control.as_str()
    }

    /// The title of the enable whitebalance control column.
    pub fn enable_whitebalance_control(&self) -> (r: &str)
        ensures
            r@ == self.enable_whitebalance_control@,
    {
        self.enable_whitebalance_control.as_str()
    }

    /// The title of the enable brightness control column.
    pub fn enable_brightness_control(&self) -> (r: &str)
        ensures
            r@ == self.enable_brightness_control@,
    {
        self.enable_brightness_control.as_str()
    }

    /// The title of the touchscreen state column.
    pub fn touchscreen_state(&self) -> (r: &str)
        ensures
            r@ == self.touchscreen_state@,
    {
        self.touchscreen_state.as_str()
    }

    /// The title of the temperature state column.
    pub fn temperature_state(&self) -> (r: &str)
        ensures
            r@ == self.temperature_state@,
    {
        self.temperature_state.as_str()
    }
}

/// Where the sheet lists motion detectors: sheet, range and the column titles.
#[derive(Debug, Clone)]
pub struct GoogleMotionDetectors {
    pub sheet: String,
    pub range: String,
    pub room_id: String,
    pub device_address: String,
    pub id: String,
    pub idx: String,
    pub state: String,
}

impl GoogleMotionDetectors {
    /// The sheet.
    pub fn sheet(&self) -> (r: &str)
        ensures
            r@ == self.sheet@,
    {
        self.sheet.as_str()
    }

    /// The range.
    pub fn range(&self) -> (r: &str)
        ensures
            r@ == self.range@,
    {
        self.range.as_str()
    }

    /// The title of the room id column.
    pub fn room_id(&self) -> (r: &str)
        ensures
            r@ == self.room_id@,
    {
        self.room_id.as_str()
    }

    /// The title of the device address column.
    pub fn device_address(&self) -> (r: &str)
        ensures
            r@ == self.device_address@,
    {
        self.device_address.as_str()
    }

    /// The title of the id column.
    pub fn id(&self) -> (r: &str)
        ensures
            r@ == self.id@,
    {
        self.id.as_str()
    }

    /// The title of the idx column.
    pub fn idx(&self) -> (r: &str)
        ensures
            r@ == self.idx@,
    {
        self.idx.as_str()
    }

    /// The title of the state column.
    pub fn state(&self) -> (r: &str)
        ensures
            r@ == self.state@,
    {
        self.state.as_str()
    }
}

/// Where the sheet lists relays: sheet, range and the column titles.
#[derive(Debug, Clone)]
pub struct GoogleRelay {
    pub sheet: String,
    pub range: String,
    pub room_id: String,
    pub idx: String,
    pub device_address: String,
    pub device_channel: String,
    pub temperature_sensor: String,
    pub ring_button: String,
    pub state: String,
}

impl GoogleRelay {
    /// The sheet.
    pub fn sheet(&self) -> (r: &str)
        ensures
            r@ == self.sheet@,
    {
        self.sheet.as_str()
    }

    /// The range.
    pub fn range(&self) -> (r: &str)
        ensures
            r@ == self.range@,
    {
        self.range.as_str()
    }

    /// The title of the room id column.
    pub fn room_id(&self) -> (r: &str)
        ensures
            r@ == self.room_id@,
    {
        self.room_id.as_str()
    }

    /// The title of the idx column.
    pub fn idx(&self) -> (r: &str)
        ensures
            r@ == self.idx@,
    {
        self.idx.as_str()
    }

    /// The title of the device address column.
    pub fn device_address(&self) -> (r: &str)
        ensures
            r@ == self.device_address@,
    {
        self.device_address.as_str()
    }

    /// The title of the device channel column.
    pub fn device_channel(&self) -> (r: &str)
        ensures
            r@ == self.device_channel@,
    {
        self.device_channel.as_str()
    }

    /// The title of the temperature sensor column.
    pub fn temperature_sensor(&self) -> (r: &str)
        ensures
            r@ == self.temperature_sensor@,
    {
        self.temperature_sensor.as_str()
    }

    /// The title of the ring button column.
    pub fn ring_button(&self) -> (r: &str)
        ensures
            r@ == self.ring_button@,
    {
        self.ring_button.as_str()
    }

    /// The title of the state column.
    pub fn state(&self) -> (r: &str)
        ensures
            r@ == self.state@,
    {
        self.state.as_str()
    }
}

} // verus!
