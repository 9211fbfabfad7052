use light_control::device_idx::{assign_room_ids, fill_device_idx};
use light_control::names::{split_at_char, NameMap};
use light_control::registry::{DualButtonKey, SingleButtonKey};
use light_control::room::{DeviceInRoom, Room, SubDeviceInRoom};
use light_control::sheet::{
    create_content_update, error_description, existing_idx, find_indizes_of_headers, override_cell,
    parse_headers, show_bool, version_string, CellCoordinates, CellValue, SheetCell,
};
use light_control::sheet_reader::{find_template, parse_button_templates, room_of, uid_of, ButtonStyle, WireBuilder};
use light_control::state::{IpAddress, SpitfpErrorCounters, Version};
use light_control::wiring::ButtonSetting;

fn cell(row: usize, col: usize, content: Option<&str>, integer: Option<i64>) -> SheetCell {
    SheetCell {
        content: content.map(|s| s.to_string()),
        integer,
        value: None,
        coordinates: CellCoordinates { row, col },
    }
}

fn text(row: usize, col: usize, content: &str) -> SheetCell {
    cell(row, col, Some(content), None)
}

fn headers(titles: &[&str]) -> Vec<Option<String>> {
    titles.iter().map(|t| if t.is_empty() { None } else { Some(t.to_string()) }).collect()
}

#[test]
fn header_columns_are_found() {
    let row = headers(&["Room", "", "Id", "Room"]);
    let wanted = vec!["Room", "Id", "Type"];
    assert_eq!(vec![Some(3), Some(2), None], find_indizes_of_headers(&row, &wanted));
    let ok = parse_headers(&row, &vec!["Id", "Room"]).ok().unwrap();
    assert_eq!(vec![2, 3], ok);
    let missing = parse_headers(&row, &wanted).err().unwrap();
    assert_eq!(vec!["Type".to_string()], missing.0);
}

#[test]
fn cell_writes() {
    let u = override_cell("Lights", CellCoordinates { row: 4, col: 27 }, CellValue::Integer(3));
    assert_eq!("Lights!AB5", u.range.as_str());
    assert!(matches!(u.value, CellValue::Integer(3)));
    let c = text(0, 1, "old");
    let u = create_content_update("S", &c, "new").unwrap();
    assert_eq!("S!B1", u.range.as_str());
    assert!(matches!(u.value, CellValue::Text(ref t) if t == "new"));
    assert!(create_content_update("S", &c, "old").is_none());
    assert_eq!(Some(7), existing_idx(&cell(0, 0, None, Some(7))));
    assert_eq!(None, existing_idx(&text(0, 0, "7")));
    assert_eq!("x", show_bool(true));
    assert_eq!("", show_bool(false));
}

#[test]
fn texts_of_the_bricklet_table() {
    assert_eq!("2.0.12", version_string(Version(2, 0, 12)).as_str());
    let counters = vec![
        (None, SpitfpErrorCounters {
            error_count_ack_checksum: 2,
            error_count_message_checksum: 0,
            error_count_frame: 1,
            error_count_overflow: 0,
        }),
        (Some('a'), SpitfpErrorCounters {
            error_count_ack_checksum: 0,
            error_count_message_checksum: 5,
            error_count_frame: 0,
            error_count_overflow: 3,
        }),
    ];
    assert_eq!("ack: 2, frame: 1, msg(a): 5, overflow(a): 3", error_description(&counters).as_str());
    assert_eq!("", error_description(&vec![]).as_str());
}

#[test]
fn room_numbering() {
    // a number held twice stays with both rows; the counter still steps past it
    let r = assign_room_ids(&vec![Some(1), None, Some(1), Some(0)]);
    assert_eq!(vec![(0, 1, false), (3, 0, false), (1, 2, true), (2, 1, false)], r);
    let r = assign_room_ids(&vec![Some(0), Some(0), None]);
    assert_eq!(vec![(0, 0, false), (1, 0, false), (2, 2, true)], r);
    let r = assign_room_ids(&vec![None, Some(1), None]);
    assert_eq!(vec![(1, 1, false), (0, 0, true), (2, 2, true)], r);
    let a = Room { floor: 1, room: 1 };
    let b = Room { floor: 2, room: 1 };
    let rooms = vec![a, b, a, b];
    let cells = vec![cell(0, 2, None, Some(4)), cell(1, 2, None, None), cell(2, 2, None, None), cell(3, 2, None, Some(4))];
    let numbered = fill_device_idx(&rooms, &cells);
    assert_eq!(4, numbered.len());
    assert!(numbered.contains(&(0, DeviceInRoom { room: a, idx: 4 }, false)));
    assert!(numbered.contains(&(2, DeviceInRoom { room: a, idx: 0 }, true)));
    assert!(numbered.contains(&(3, DeviceInRoom { room: b, idx: 4 }, false)));
    assert!(numbered.contains(&(1, DeviceInRoom { room: b, idx: 0 }, true)));
}

#[test]
fn names_and_splitting() {
    let mut m: NameMap<u16> = NameMap::new();
    m.insert("a", 1);
    m.insert("b", 2);
    m.insert("a", 3);
    assert_eq!(Some(3), m.get("a"));
    assert_eq!(Some(2), m.get("b"));
    assert_eq!(None, m.get("c"));
    assert_eq!(vec!["up", "down", ""], split_at_char("up,down,", ','));
    assert_eq!(vec![""], split_at_char("", ','));
}

#[test]
fn cells_naming_rooms_and_bricklets() {
    assert_eq!(Some(Room { floor: 1, room: 4 }), room_of(&text(0, 0, "1.4")));
    assert_eq!(None, room_of(&text(0, 0, "kitchen")));
    assert_eq!(None, room_of(&cell(0, 0, None, None)));
    assert_eq!(Some(130221), uid_of(&text(0, 0, "EHc")));
    assert_eq!(None, uid_of(&text(0, 0, "E0c")));
    assert_eq!(None, uid_of(&text(0, 0, "")));
}

fn template_rows() -> Vec<Vec<SheetCell>> {
    vec![
        vec![text(1, 0, "Double"), text(1, 1, "left,right"), text(1, 2, "Dual")],
        vec![text(2, 0, "Bell"), text(2, 1, "ring"), text(2, 2, "Single")],
        vec![text(3, 0, "Broken"), text(3, 1, "x"), text(3, 2, "Triple")],
    ]
}

#[test]
fn button_templates() {
    let ts = parse_button_templates(&template_rows());
    assert_eq!(2, ts.len());
    assert_eq!("Double", ts[0].name.as_str());
    assert_eq!(ButtonStyle::Dual, ts[0].style);
    assert_eq!(vec!["left", "right"], ts[0].sub_devices);
    assert_eq!(Some(1), find_template(&ts, "Bell"));
    assert_eq!(None, find_template(&ts, "Broken"));
}

fn button_row(row: usize, room: &str, id: &str, idx: Option<i64>, template: &str, first: i64) -> Vec<SheetCell> {
    vec![
        text(row, 0, room),
        text(row, 1, id),
        cell(row, 2, None, idx),
        text(row, 3, template),
        text(row, 4, "EHc"),
        cell(row, 5, None, Some(first)),
        cell(row, 6, None, None),
    ]
}

#[test]
fn buttons_are_numbered_and_wired() {
    let ts = parse_button_templates(&template_rows());
    let rows = vec![
        button_row(1, "1.4", "Door", None, "Double", 4),
        button_row(2, "1.4", "Bell", Some(0), "Bell", 9),
        button_row(3, "nowhere", "Lost", None, "Bell", 1),
    ];
    let mut b = WireBuilder::new();
    let numbered = b.parse_buttons("Buttons", &ts, &rows);
    let room = Room { floor: 1, room: 4 };
    // the kept number 0 goes to the bell, the door gets the next free one
    assert_eq!(vec![(1, DeviceInRoom { room, idx: 0 }, false), (0, DeviceInRoom { room, idx: 1 }, true)], numbered);
    let door = |k: u16| DualButtonKey(SubDeviceInRoom { room, device_idx: 1, sub_device_idx: k });
    let bell = SingleButtonKey::Button(SubDeviceInRoom { room, device_idx: 0, sub_device_idx: 0 });
    assert_eq!(
        vec![
            (130221, ButtonSetting::Single { button: 9, output: bell }),
            (130221, ButtonSetting::Dual { up_button: 5, down_button: 4, output: door(0) }),
            (130221, ButtonSetting::Dual { up_button: 7, down_button: 6, output: door(1) }),
        ],
        b.io_entries
    );
    assert_eq!(Some(bell), b.single_button_adresses.get("Bell, ring"));
    assert_eq!(Some(door(1)), b.dual_button_adresses.get("Door, right"));
    assert_eq!(1, b.updates.len());
    assert_eq!("Buttons!C2", b.updates[0].range.as_str());
    assert!(matches!(b.updates[0].value, CellValue::Integer(1)));
    assert_eq!(2, b.state_cells.len());

    let endpoint = IpAddress::V4(0x0a000001);
    let wiring = b.build(vec![endpoint], vec![]);
    assert_eq!(vec![endpoint], wiring.tinkerforge_devices.endpoints);
    assert_eq!(1, wiring.tinkerforge_devices.io_bricklets.len());
    assert_eq!(130221, wiring.tinkerforge_devices.io_bricklets[0].0);
    assert_eq!(3, wiring.tinkerforge_devices.io_bricklets[0].1.entries.len());
}

#[test]
fn written_back_numbers_are_kept() {
    let first = assign_room_ids(&vec![Some(1), None, Some(1), Some(0), None]);
    let mut written = vec![None; 5];
    for (row, number, _) in &first {
        written[*row] = Some(*number);
    }
    let again = assign_room_ids(&written);
    for (row, number, new) in &again {
        assert!(!new);
        assert_eq!(written[*row], Some(*number));
    }
    assert_eq!(5, again.len());
}

#[test]
fn written_back_devices_are_kept() {
    let a = Room { floor: 1, room: 1 };
    let b = Room { floor: 2, room: 1 };
    let rooms = vec![a, b, a, a, b];
    let cells = vec![
        cell(0, 2, None, Some(1)),
        cell(1, 2, None, None),
        cell(2, 2, None, Some(1)),
        cell(3, 2, None, None),
        cell(4, 2, None, None),
    ];
    let first = fill_device_idx(&rooms, &cells);
    let mut written: Vec<SheetCell> = (0..5).map(|row| cell(row, 2, None, None)).collect();
    for (row, device, _) in &first {
        written[*row] = cell(*row, 2, None, Some(device.idx as i64));
    }
    let again = fill_device_idx(&rooms, &written);
    assert_eq!(5, again.len());
    for (row, device, new) in &again {
        assert!(!new);
        assert!(first.contains(&(*row, *device, true)) || first.contains(&(*row, *device, false)));
    }
}
