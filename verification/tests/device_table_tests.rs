use light_control::registry::{
    BrightnessKey, ClockKeyResolution, DualButtonKey, LightColorKey, SingleButtonKey, SwitchOutputKey, TemperatureKey,
};
use light_control::room::{DeviceInRoom, Room, SubDeviceInRoom};
use light_control::sheet::{CellCoordinates, SheetCell};
use light_control::sheet_controllers::orientation_of;
use light_control::sheet_lights::{parse_light_templates, LightTableRow, LightTemplateKind};
use light_control::sheet_reader::WireBuilder;
use light_control::sorting::{sort_by_rank, sort_keys};
use light_control::wiring::{
    DmxConfigEntry, HeatController, MotionDetector, MotionDetectorSettings, Orientation, RelayChannelEntry,
    RingController, TemperatureSettings,
};
use light_control::wiring_build::{group_by_uid, last_by_uid};

fn cell(row: usize, col: usize, content: Option<&str>, integer: Option<i64>) -> SheetCell {
    SheetCell {
        content: content.map(|s| s.to_string()),
        integer,
        value: None,
        coordinates: CellCoordinates { row, col },
    }
}

fn text(row: usize, col: usize, content: &str) -> SheetCell {
    cell(row, col, Some(content), None)
}

fn empty(row: usize, col: usize) -> SheetCell {
    cell(row, col, None, None)
}

const ROOM: Room = Room { floor: 0, room: 3 };

fn dev(idx: u16) -> DeviceInRoom {
    DeviceInRoom { room: ROOM, idx }
}

#[test]
fn motion_detector_table() {
    let rows = vec![
        vec![text(1, 0, "0.3"), text(1, 1, "EHc"), text(1, 2, "Hall"), empty(1, 3), empty(1, 4)],
        vec![text(2, 0, "0.3"), text(2, 1, "EHd"), text(2, 2, "Door"), cell(2, 3, None, Some(0)), empty(2, 4)],
        vec![text(3, 0, "0.3"), text(3, 1, "not a uid"), text(3, 2, "Lost"), empty(3, 3), empty(3, 4)],
    ];
    let mut b = WireBuilder::new();
    let numbered = b.parse_motion_detectors("Motion", &rows);
    assert_eq!(vec![(1, dev(0), false), (0, dev(1), true)], numbered);
    assert_eq!(
        vec![
            (130222, MotionDetectorSettings { output: SingleButtonKey::MotionDetector(dev(0)) }),
            (130221, MotionDetectorSettings { output: SingleButtonKey::MotionDetector(dev(1)) }),
        ],
        b.motion_detector_sensors
    );
    assert_eq!(Some(SingleButtonKey::MotionDetector(dev(1))), b.motion_detector_adresses.get("Hall"));
    assert_eq!(1, b.updates.len());
    assert_eq!("Motion!D2", b.updates[0].range.as_str());
    assert_eq!(2, b.state_cells.len());
}

#[test]
fn relay_table() {
    let mut b = WireBuilder::new();
    let heat = SwitchOutputKey::Heat(dev(0));
    b.heat_outputs_addresses.insert("Floor heating", heat);
    let button = SingleButtonKey::Button(SubDeviceInRoom { room: ROOM, device_idx: 2, sub_device_idx: 0 });
    b.single_button_adresses.insert("Bell, ring", button);
    let row = |r: usize, channel: i64, heat_name: &str, button_name: &str| {
        vec![
            text(r, 0, "0.3"),
            empty(r, 1),
            text(r, 2, "EHc"),
            cell(r, 3, None, Some(channel)),
            text(r, 4, heat_name),
            text(r, 5, button_name),
            empty(r, 6),
        ]
    };
    let rows = vec![row(1, 0, "Floor heating", ""), row(2, 3, "", "Bell, ring"), row(3, 1, "", "")];
    let numbered = b.parse_relays("Relays", &rows);
    assert_eq!(vec![(0, dev(0), true)], numbered);
    assert_eq!(
        vec![
            (130221, RelayChannelEntry { channel: 0, input: heat }),
            (130221, RelayChannelEntry { channel: 3, input: SwitchOutputKey::Bell(dev(0)) }),
        ],
        b.relay_entries
    );
    assert_eq!(vec![RingController { input: button, output: SwitchOutputKey::Bell(dev(0)) }], b.ring_controllers);
    assert_eq!(3, b.state_cells.len());
}

#[test]
fn controller_table() {
    assert_eq!(Some(Orientation::UpsideDown), orientation_of("UpsideDown"));
    assert_eq!(None, orientation_of("upside down"));
    let rows = vec![vec![
        text(1, 0, "0.3"),
        text(1, 1, "Living"),
        empty(1, 2),
        text(1, 3, "LeftDown"),
        text(1, 4, "EHc"),
        text(1, 5, "EHd"),
        text(1, 6, "x"),
        text(1, 7, ""),
        text(1, 8, "x"),
        empty(1, 9),
        empty(1, 10),
    ]];
    let mut b = WireBuilder::new();
    let numbered = b.parse_controllers("Controllers", &rows);
    assert_eq!(vec![(0, dev(0), true)], numbered);
    assert_eq!(
        vec![(130222, TemperatureSettings { output: TemperatureKey::CurrentTemperature(dev(0)) })],
        b.temperature_sensors
    );
    assert_eq!(
        vec![HeatController {
            current_value_input: TemperatureKey::CurrentTemperature(dev(0)),
            target_value_input: TemperatureKey::TargetTemperature(dev(0)),
            output: SwitchOutputKey::Heat(dev(0)),
        }],
        b.heat_controllers
    );
    assert_eq!(Some(SwitchOutputKey::Heat(dev(0))), b.heat_outputs_addresses.get("Living"));
    assert_eq!(None, b.touchscreen_whitebalance_addresses.get("Living"));
    assert_eq!(Some(BrightnessKey::TouchscreenController(dev(0))), b.touchscreen_brightness_addresses.get("Living"));
    assert_eq!(1, b.lcd_screens.len());
    let (uid, screen) = b.lcd_screens[0];
    assert_eq!(130221, uid);
    assert_eq!(Orientation::LeftDown, screen.orientation);
    assert_eq!(Some(ClockKeyResolution::Minutes), screen.clock_key);
    assert_eq!(Some(TemperatureKey::TargetTemperature(dev(0))), screen.adjust_temperature_key);
    assert_eq!(None, screen.light_color_key);
    assert_eq!(2, b.state_cells.len());
}

fn template_row(row: usize, name: &str, kind: &str, warm: Option<i64>, cold: Option<i64>) -> Vec<SheetCell> {
    vec![text(row, 0, name), text(row, 1, kind), cell(row, 2, None, warm), cell(row, 3, None, cold)]
}

fn light_row(row: usize, template: &str, channel: i64, buttons: &[&str], presence: &[&str]) -> LightTableRow {
    LightTableRow {
        fixed: vec![
            text(row, 0, "0.3"),
            empty(row, 1),
            text(row, 2, template),
            text(row, 3, "EHc"),
            cell(row, 4, None, Some(channel)),
            empty(row, 5),
            empty(row, 6),
            empty(row, 7),
        ],
        buttons: buttons.iter().enumerate().map(|(i, b)| text(row, 8 + i, b)).collect(),
        presence: presence.iter().enumerate().map(|(i, p)| text(row, 12 + i, p)).collect(),
    }
}

#[test]
fn light_table() {
    let templates = parse_light_templates(&vec![
        template_row(1, "Spot", "Dimm", None, None),
        template_row(2, "Strip", "DimmWhitebalance", Some(2700), Some(7500)),
        template_row(3, "Plug", "Switch", None, None),
        template_row(4, "Odd", "Blink", None, None),
    ]);
    assert_eq!(3, templates.len());
    assert_eq!(LightTemplateKind::DimmWhitebalance { warm_temperature: 370, cold_temperature: 133 }, templates[1].kind);

    let mut b = WireBuilder::new();
    let k = |i: u16| DualButtonKey(SubDeviceInRoom { room: ROOM, device_idx: 0, sub_device_idx: i });
    b.dual_button_adresses.insert("Door, left", k(0));
    b.dual_button_adresses.insert("Door, right", k(1));
    let motion = SingleButtonKey::MotionDetector(dev(0));
    b.motion_detector_adresses.insert("Hall", motion);
    let rows = vec![
        light_row(1, "Spot", 10, &["Door, right", "Door, left", "Unknown"], &[]),
        light_row(2, "Strip", 20, &[], &["Hall"]),
        light_row(3, "Plug", 30, &[], &[]),
    ];
    let numbered = b.parse_lights("Lights", &templates, &rows);
    assert_eq!(3, numbered.len());
    assert_eq!(
        vec![
            (130221, DmxConfigEntry::Dimm { register: BrightnessKey::Light(dev(0)), channel: 10 }),
            (130221, DmxConfigEntry::DimmWhitebalance {
                brightness_register: BrightnessKey::Light(dev(1)),
                whitebalance_register: LightColorKey::Light(dev(1)),
                warm_channel: 20,
                cold_channel: 21,
                warm_mireds: 370,
                cold_mireds: 133,
            }),
            (130221, DmxConfigEntry::Switch { register: SwitchOutputKey::Light(dev(2)), channel: 30 }),
        ],
        b.dmx_entries
    );
    assert_eq!(1, b.dual_input_dimmers.len());
    // the buttons are sorted
    assert_eq!(vec![k(0), k(1)], b.dual_input_dimmers[0].input);
    assert_eq!(7_200_000, b.dual_input_dimmers[0].auto_switch_off_time);
    assert_eq!(1, b.motion_detectors.len());
    match &b.motion_detectors[0] {
        MotionDetector::Dimmer { input, output, brightness, switch_off_time } => {
            assert_eq!(&vec![motion], input);
            assert_eq!(BrightnessKey::Light(dev(1)), *output);
            assert_eq!(None, *brightness);
            assert_eq!(120_000, *switch_off_time);
        }
        other => panic!("unexpected {other:?}"),
    }
    assert!(b.dual_input_switches.is_empty());
    assert_eq!(3, b.updates.len());
}

#[test]
fn sorting_and_grouping() {
    let k = |room: u16, i: u16| DualButtonKey(SubDeviceInRoom { room: Room { floor: 0, room }, device_idx: 0, sub_device_idx: i });
    assert_eq!(vec![k(1, 0), k(2, 0)], sort_keys(vec![k(2, 0), k(1, 0)]));
    assert_eq!(vec![k(1, 0), k(1, 2), k(1, 2), k(2, 0)], sort_by_rank(vec![k(2, 0), k(1, 2), k(1, 0), k(1, 2)]));
    let entries = vec![(5u32, 'a'), (3, 'b'), (5, 'c')];
    assert_eq!(vec![(3, vec!['b']), (5, vec!['a', 'c'])], group_by_uid(&entries));
    assert_eq!(vec![(3, 'b'), (5, 'c')], last_by_uid(&entries));
}
