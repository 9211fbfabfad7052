use light_control::keys::SerdeStringKey;
use light_control::settings::{
    GoogleButtonData, GoogleButtonTemplate, GoogleEndpointData, GoogleError, GoogleLightData, GoogleLightTemplateData,
    GoogleMotionDetectors, GoogleRelay, GoogleRoomController, GoogleSheet, KeySource, ServerSettings,
    TinkerforgeEndpoint,
};
use light_control::shelly::common::MacParseError;
use light_control::shelly::common::{DeviceId, DeviceIdParseError, DeviceType, MacAddress};
use light_control::shelly::components::{ComponentAddress, ComponentKey, GetComponentsResponse, SwitchingKey};
use light_control::shelly::light::{
    brightness_to_percent, needs_calibration, set_brightness_request, switch_brightness, LightKey, StatusFlags,
};
use light_control::shelly::switch::{set_on_toggle_after, SwitchKey};
use light_control::state::IpAddress;

#[test]
fn switching_keys_roundtrip() {
    for key in [
        SwitchingKey::Switch(SerdeStringKey(SwitchKey { id: 3 })),
        SwitchingKey::Light(SerdeStringKey(LightKey { id: 65535 })),
    ] {
        assert_eq!(Ok(key), SwitchingKey::parse(key.to_string().as_str()));
    }
    assert_eq!("switch:3", SwitchingKey::Switch(SerdeStringKey(SwitchKey { id: 3 })).to_string().as_str());
    assert!(SwitchingKey::parse("relay:1").is_err());
    assert!(SwitchingKey::parse("light:").is_err());
}

#[test]
fn device_ids() {
    let id = DeviceId::parse("shellypro4pm-34987a47a1dc").ok().unwrap();
    assert_eq!(DeviceType::ShellyPro4Pm, id.device_type);
    assert_eq!(MacAddress(0x34, 0x98, 0x7a, 0x47, 0xa1, 0xdc), id.mac);
    assert_eq!("shellypro4pm-34987a47a1dc", id.to_string().as_str());
    let upper = DeviceId::parse("shellyprodm2pm-08F9E0E720C8").ok().unwrap();
    assert_eq!("shellyprodm2pm-08f9e0e720c8", upper.to_string().as_str());
    assert!(matches!(DeviceId::parse("shellypro4pm"), Err(DeviceIdParseError::MissingDelimiterError)));
    assert!(matches!(
        DeviceId::parse("shellyplus-34987a47a1dc"),
        Err(DeviceIdParseError::ErrorParseType(t)) if t == "shellyplus"
    ));
    assert!(matches!(DeviceId::parse("shellypro4pm-34987a47"), Err(DeviceIdParseError::ErrorParseMac(_))));
    let address = ComponentAddress { device: id, key: ComponentKey::Light(SerdeStringKey(LightKey { id: 0 })) };
    assert_eq!("shellypro4pm-34987a47a1dc:light:0", address.to_string().as_str());
}

#[test]
fn paging_of_components() {
    let page = GetComponentsResponse { components: vec![], cfg_rev: 7, offset: 0, total: 13 };
    assert_eq!(7, page.cfg_rev());
    assert_eq!(13, page.total());
    assert_eq!(Some(0), page.next_offset(5, 0));
    assert_eq!(None, page.next_offset(13, 0));
}

#[test]
fn light_and_switch_requests() {
    assert_eq!(100, brightness_to_percent(255));
    assert_eq!(50, brightness_to_percent(128));
    assert_eq!(0, brightness_to_percent(2));
    assert_eq!(0, switch_brightness(true));
    assert_eq!(100, switch_brightness(false));
    assert!(needs_calibration(&vec![StatusFlags::Uncalibrated]));
    assert!(!needs_calibration(&vec![]));
    let r = set_brightness_request(1, 80, true, 600);
    assert_eq!(Some(true), r.on);
    assert_eq!(Some(80), r.brightness);
    assert_eq!(Some(600), r.toggle_after);
    let r = set_brightness_request(1, 0, true, 600);
    assert_eq!(Some(false), r.on);
    assert_eq!(None, r.toggle_after);
    assert_eq!(Some(60), set_on_toggle_after(true, true, 60, true, 30));
    assert_eq!(Some(30), set_on_toggle_after(false, true, 60, true, 30));
    assert_eq!(None, set_on_toggle_after(false, true, 60, false, 30));
}

#[test]
fn server_settings_defaults() {
    let none = ServerSettings { port: None, mgmt_port: None, bind_address: None, setup_file: None, state_file: None };
    assert_eq!(8080, none.port());
    assert_eq!(9080, none.mgmt_port());
    assert_eq!(IpAddress::V6(0), none.bind_address());
    assert_eq!("setup.yaml", none.setup_file());
    assert_eq!("state.ron", none.state_file());
    let some = ServerSettings {
        port: Some(80),
        mgmt_port: None,
        bind_address: Some(IpAddress::V4(0x7f00_0001)),
        setup_file: Some("wiring.yaml".to_string()),
        state_file: None,
    };
    assert_eq!(1080, some.mgmt_port());
    assert_eq!("wiring.yaml", some.setup_file());
    let endpoint = TinkerforgeEndpoint { address: IpAddress::V4(1), port: None };
    assert_eq!(4223, endpoint.port());
    assert_eq!(IpAddress::V4(1), endpoint.address());
}

fn t(s: &str) -> String {
    s.to_string()
}

fn sheet(key_file: Option<&str>, key_data: Option<&str>) -> GoogleSheet {
    GoogleSheet {
        key_file: key_file.map(t),
        key_data: key_data.map(t),
        spreadsheet_id: t("id"),
        endpoints: GoogleEndpointData { sheet: t("E"), range: t("A:D"), address: t("Address"), state: t("State") },
        light: GoogleLightData {
            sheet: t("L"),
            range: t("A:Z"),
            room_id: t("Room"),
            light_idx: t("Idx"),
            template: t("Template"),
            device_address: t("Address"),
            bus_start_address: t("Channel"),
            touchscreen_whitebalance: t("Color"),
            touchscreen_brightness: t("Brightness"),
            state: t("State"),
            manual_buttons: vec![t("Button 1"), t("Button 2")],
            presence_detectors: vec![t("Presence")],
        },
        light_templates: GoogleLightTemplateData {
            sheet: t("LT"),
            range: t("A:D"),
            name_column: t("Name"),
            discriminator_column: t("Type"),
            temperature_warm_column: t("Warm"),
            temperature_cold_column: t("Cold"),
        },
        buttons: GoogleButtonData {
            sheet: t("B"),
            range: t("A:I"),
            room_id: t("Room"),
            button_id: t("Id"),
            button_idx: t("Idx"),
            button_type: t("Type"),
            device_address: t("Address"),
            first_input_idx: t("Input"),
            state: t("State"),
        },
        button_templates: GoogleButtonTemplate {
            sheet: t("BT"),
            range: t("A:C"),
            name: t("Name"),
            discriminator: t("Type"),
            sub_devices: t("Keys"),
        },
        room_controllers: GoogleRoomController {
            sheet: t("C"),
            range: t("A:M"),
            room_id: t("Room"),
            controller_id: t("Id"),
            controller_idx: t("Idx"),
            orientation: t("Orientation"),
            touchscreen_device_address: t("Screen"),
            temperature_device_address: t("Sensor"),
            enable_heat_control: t("Heat"),
            enable_whitebalance_control: t("Color"),
            enable_brightness_control: t("Brightness"),
            touchscreen_state: t("Screen state"),
            temperature_state: t("Sensor state"),
        },
        motion_detectors: GoogleMotionDetectors {
            sheet: t("M"),
            range: t("A:E"),
            room_id: t("Room"),
            device_address: t("Address"),
            id: t("Id"),
            idx: t("Idx"),
            state: t("State"),
        },
        relays: GoogleRelay {
            sheet: t("R"),
            range: t("A:G"),
            room_id: t("Room"),
            idx: t("Idx"),
            device_address: t("Address"),
            device_channel: t("Channel"),
            temperature_sensor: t("Heat"),
            ring_button: t("Bell"),
            state: t("State"),
        },
    }
}

#[test]
fn sheet_key_sources() {
    assert!(matches!(sheet(Some("key.json"), Some("{}")).key_source(), Ok(KeySource::File)));
    assert!(matches!(sheet(None, Some("{}")).key_source(), Ok(KeySource::Data)));
    assert!(matches!(
        sheet(None, None).key_source(),
        Err(GoogleError::ConfigContent { description }) if description == "neither key_file nor key_data filled in"
    ));
    let s = sheet(None, None);
    assert_eq!("id", s.spreadsheet_id());
    assert_eq!("Warm", s.light_templates().temperature_warm_column());
    assert_eq!(&vec![t("Presence")], s.light().presence_detectors());
}

#[test]
fn mac_address_errors() {
    assert!(matches!(
        DeviceId::parse("shellypro4pm-34987a47"),
        Err(DeviceIdParseError::ErrorParseMac(MacParseError::InvalidLength(_)))
    ));
    assert!(matches!(
        DeviceId::parse("shellypro4pm-34987a47a1zz"),
        Err(DeviceIdParseError::ErrorParseMac(MacParseError::InvalidCharacter('z', _)))
    ));
    let id = DeviceId::parse("shellypro4pm-34:98:7a:47:a1:dc").ok().unwrap();
    assert_eq!(MacAddress(0x34, 0x98, 0x7a, 0x47, 0xa1, 0xdc), id.mac);
}
