use light_control::bricklet_table::{
    available_bricklet_updates, bricklet_row_values, bricklet_rows, bricklet_state_text, endpoint_label, find_connection,
    master_positions, BrickletRow, Connection,
};
use light_control::enumeration::{
    handler_for, listener_step, ConfiguredFor, DeviceHandler, EnumerationKind, ListenerAction, ListenerEvent,
};
use light_control::sheet::{CellCoordinates, CellValue, SheetCell};
use light_control::sheet_reader::WireBuilder;
use light_control::sheet_table::{override_table, take_columns, RawCell};
use light_control::state::{
    BrickletConnectionData, BrickletMetadata, ConnectionData, ConnectionState, IpAddress, SpitfpErrorCounters,
    State, StateUpdateMessage, Version,
};

const IP: IpAddress = IpAddress::V4(0x0a00_0001);

fn metadata(connected_uid: u32, position: char, device_identifier: u16) -> BrickletMetadata {
    BrickletMetadata {
        connected_uid,
        position,
        hardware_version: Version(1, 0, 0),
        firmware_version: Version(2, 0, 3),
        device_identifier,
    }
}

fn counters(frame: u32) -> SpitfpErrorCounters {
    SpitfpErrorCounters {
        error_count_ack_checksum: 0,
        error_count_message_checksum: 0,
        error_count_frame: frame,
        error_count_overflow: 0,
    }
}

#[test]
fn endpoint_messages() {
    let mut s = State::new();
    assert!(s.process_msg(StateUpdateMessage::EndpointConnected(IP), 100));
    assert_eq!(Some(ConnectionData { state: ConnectionState::Connected, last_change: 100 }), s.endpoint(&IP));
    // a repeated message changes nothing, not even the time
    assert!(!s.process_msg(StateUpdateMessage::EndpointConnected(IP), 200));
    assert_eq!(Some(ConnectionData { state: ConnectionState::Connected, last_change: 100 }), s.endpoint(&IP));
    assert!(s.process_msg(StateUpdateMessage::EndpointDisconnected(IP), 300));
    assert_eq!(ConnectionState::Disconnected, s.endpoint(&IP).unwrap().state);
    // an unknown endpoint's disconnection is ignored
    assert!(!s.process_msg(StateUpdateMessage::EndpointDisconnected(IpAddress::V6(1)), 300));
    assert_eq!(None, s.endpoint(&IpAddress::V6(1)));
    assert_eq!("Not Connected", ConnectionState::Disconnected.name());
}

#[test]
fn bricklet_messages() {
    let mut s = State::new();
    let m = metadata(7, 'a', 28);
    let connected = StateUpdateMessage::BrickletConnected { uid: 42, endpoint: IP, metadata: m, session: 1 };
    assert!(s.process_msg(connected, 10));
    assert!(!s.process_msg(connected, 20));
    let d = s.bricklet(42).unwrap();
    assert_eq!(ConnectionState::Connected, d.state);
    assert_eq!(0, d.connection_failed_counter);
    assert_eq!(Some(m), d.metadata);

    // counters of unknown bricklets are dropped, known ones kept per port
    assert!(!s.process_msg(StateUpdateMessage::SpitfpMetrics { uid: 9, port: None, counters: counters(1) }, 30));
    assert!(s.process_msg(StateUpdateMessage::SpitfpMetrics { uid: 42, port: Some('b'), counters: counters(2) }, 30));
    assert!(!s.process_msg(StateUpdateMessage::SpitfpMetrics { uid: 42, port: Some('b'), counters: counters(2) }, 31));
    assert_eq!(vec![(Some('b'), counters(2))], s.error_counters_of(42));

    assert!(s.process_msg(StateUpdateMessage::CommunicationFailed { uid: 42 }, 40));
    assert_eq!(1, s.bricklet(42).unwrap().connection_failed_counter);
    assert!(!s.process_msg(StateUpdateMessage::CommunicationFailed { uid: 43 }, 40));

    // a disconnection from another session is ignored
    assert!(!s.process_msg(StateUpdateMessage::BrickletDisconnected { uid: 42, endpoint: IP, session: 2 }, 50));
    assert!(s.process_msg(StateUpdateMessage::BrickletDisconnected { uid: 42, endpoint: IP, session: 1 }, 50));
    assert_eq!(ConnectionState::Disconnected, s.bricklet(42).unwrap().state);

    // reconnecting counts a failure and forgets the error counters
    assert!(s.process_msg(StateUpdateMessage::BrickletConnected { uid: 42, endpoint: IP, metadata: m, session: 3 }, 60));
    assert_eq!(2, s.bricklet(42).unwrap().connection_failed_counter);
    assert_eq!(Vec::<(Option<char>, SpitfpErrorCounters)>::new(), s.error_counters_of(42));
}

fn bricklet(uid: u32, m: BrickletMetadata) -> (u32, BrickletConnectionData) {
    (
        uid,
        BrickletConnectionData {
            state: ConnectionState::Connected,
            last_change: 0,
            endpoint: IP,
            metadata: Some(m),
            connection_failed_counter: 0,
            session: 0,
        },
    )
}

#[test]
fn bricklets_are_located_through_isolators() {
    let bricklets = vec![
        bricklet(1, metadata(0, '2', 13)),
        bricklet(2, metadata(1, 'c', 2122)),
        bricklet(3, metadata(2, 'a', 28)),
        bricklet(4, metadata(1, 'a', 298)),
    ];
    let m = master_positions(&bricklets);
    assert_eq!(
        vec![(1, Connection::Master { position: 2 }), (2, Connection::Isolator { parent: 1, position: 'c' })],
        m
    );
    assert_eq!((Some(2), 'c'), find_connection(&m, 2, 'a'));
    assert_eq!((Some(2), 'a'), find_connection(&m, 1, 'a'));
    assert_eq!((None, 'x'), find_connection(&m, 99, 'x'));
    let rows = bricklet_rows(&bricklets, &m);
    let order: Vec<(Option<u8>, char, u16, u32)> =
        rows.iter().map(|r| (r.master_idx, r.connector, r.device_type, r.uid)).collect();
    assert_eq!(
        vec![(None, '2', 13, 1), (Some(2), 'a', 298, 4), (Some(2), 'c', 28, 3), (Some(2), 'c', 2122, 2)],
        order
    );
}

#[test]
fn bricklet_row_cells() {
    let row = BrickletRow {
        endpoint: IP,
        master_idx: Some(1),
        connector: 'b',
        uid: 130221,
        device_type: 28,
        hardware_version: Version(1, 1, 0),
        firmware_version: Version(2, 0, 5),
        connection_failed_counter: 3,
    };
    let values = bricklet_row_values(&row, "cellar", &WireBuilder::new(), &vec![(None, counters(4))]);
    assert_eq!(15, values.len());
    assert!(matches!(&values[0], CellValue::Text(t) if t == "cellar"));
    assert!(matches!(values[1], CellValue::Integer(1)));
    assert!(matches!(&values[2], CellValue::Text(t) if t == "b"));
    assert!(matches!(&values[3], CellValue::Text(t) if t == "EHc"));
    assert!(matches!(values[4], CellValue::Integer(28)));
    assert!(matches!(&values[5], CellValue::Text(t) if t == "1.1.0"));
    assert!(matches!(&values[7], CellValue::Text(t) if t.is_empty()));
    assert!(matches!(values[13], CellValue::Integer(3)));
    assert!(matches!(&values[14], CellValue::Text(t) if t == "frame: 4"));
    let names = vec![(IP, "cellar".to_string()), (IP, "basement".to_string())];
    assert_eq!("basement", endpoint_label(&names, IP, "10.0.0.1").as_str());
    assert_eq!("::1", endpoint_label(&names, IpAddress::V6(1), "::1").as_str());
}

#[test]
fn state_cell_texts() {
    let (_, mut d) = bricklet(5, metadata(130221, 'd', 28));
    assert_eq!(
        "Connected, 12:00, 10.0.0.1; EHc, d, hw: 1.0.0, fw: 2.0.3",
        bricklet_state_text(Some(d), "12:00", "10.0.0.1").as_str()
    );
    d.metadata = None;
    d.state = ConnectionState::Disconnected;
    assert_eq!("Not Connected, t, e", bricklet_state_text(Some(d), "t", "e").as_str());
    assert_eq!("", bricklet_state_text(None, "t", "e").as_str());
}

fn raw(text: &str) -> Option<RawCell> {
    Some(RawCell { content: Some(text.to_string()), integer: None, value: Some(CellValue::Text(text.to_string())) })
}

#[test]
fn table_columns_and_writes() {
    let mut data = vec![raw("a"), None, raw("c")];
    let cells = take_columns(&mut data, 4, 1, &vec![2, 0, 2, 7]);
    assert_eq!(4, cells.len());
    assert_eq!(Some("c".to_string()), cells[0].content);
    assert_eq!(CellCoordinates { row: 4, col: 3 }, cells[0].coordinates);
    assert_eq!(Some("a".to_string()), cells[1].content);
    // taken already, and past the row's end
    assert_eq!(None, cells[2].content);
    assert_eq!(None, cells[3].content);

    let cell = |row: usize, col: usize, v: &str| SheetCell {
        content: Some(v.to_string()),
        integer: None,
        value: Some(CellValue::Text(v.to_string())),
        coordinates: CellCoordinates { row, col },
    };
    let existing = vec![vec![cell(1, 0, "x"), cell(1, 1, "y")], vec![cell(2, 0, "old"), cell(2, 1, "")]];
    let new_data = vec![vec![CellValue::Text("x".to_string()), CellValue::Text("z".to_string())]];
    let updates = override_table("T", &existing, &vec![0, 1], 0, 3, &new_data);
    let ranges: Vec<&str> = updates.iter().map(|u| u.range.as_str()).collect();
    assert_eq!(vec!["T!B2", "T!A3"], ranges);
    assert!(matches!(&updates[0].value, CellValue::Text(t) if t == "z"));
    assert!(matches!(&updates[1].value, CellValue::Text(t) if t.is_empty()));

    let appended = override_table("T", &vec![], &vec![0, 2], 1, 5, &new_data);
    let ranges: Vec<&str> = appended.iter().map(|u| u.range.as_str()).collect();
    assert_eq!(vec!["T!B6", "T!D6"], ranges);
}

#[test]
fn enumeration_listener() {
    let none = ConfiguredFor { lcd_screen: false, dmx: false, io: false, motion_detector: false, temperature: false, relay: false };
    let io = ConfiguredFor { io: true, ..none };
    assert_eq!(DeviceHandler::Io16V2, handler_for(2114, io));
    assert_eq!(DeviceHandler::Nothing, handler_for(2114, none));
    assert_eq!(DeviceHandler::DebugText, handler_for(298, none));
    assert_eq!(DeviceHandler::Screen, handler_for(298, ConfiguredFor { lcd_screen: true, ..none }));
    let packet = |kind| ListenerEvent::Packet { kind, device_identifier: 28, known: true };
    assert_eq!(ListenerAction::Start(DeviceHandler::Io16), listener_step(packet(EnumerationKind::Available), false, io));
    assert_eq!(ListenerAction::Ignore, listener_step(packet(EnumerationKind::Connected), true, io));
    assert_eq!(ListenerAction::Forget, listener_step(packet(EnumerationKind::Disconnected), true, io));
    assert_eq!(ListenerAction::Ignore, listener_step(packet(EnumerationKind::Unknown), false, io));
    assert_eq!(ListenerAction::Probe, listener_step(ListenerEvent::Ping, false, io));
    assert_eq!(ListenerAction::Stop, listener_step(ListenerEvent::Terminate, false, io));
    assert_eq!(ListenerAction::ConnectionLost, listener_step(ListenerEvent::StreamEnded, false, io));
    let unknown = ListenerEvent::Packet { kind: EnumerationKind::Available, device_identifier: 1, known: false };
    assert_eq!(ListenerAction::Ignore, listener_step(unknown, false, io));
}

#[test]
fn shown_table_gets_no_writes() {
    let cell = |row: usize, col: usize, v: &str| SheetCell {
        content: Some(v.to_string()),
        integer: None,
        value: Some(CellValue::Text(v.to_string())),
        coordinates: CellCoordinates { row, col },
    };
    let existing = vec![vec![cell(1, 0, "a"), cell(1, 1, "b")]];
    let data = vec![vec![CellValue::Text("a".to_string()), CellValue::Text("b".to_string())]];
    assert!(override_table("T", &existing, &vec![0, 1], 0, 2, &data).is_empty());
}

#[test]
fn available_bricklets_table_lists_connected_bricklets_in_order() {
    let mut s = State::new();
    let io = StateUpdateMessage::BrickletConnected { uid: 2, endpoint: IP, metadata: metadata(1, 'a', 2114), session: 1 };
    let master = StateUpdateMessage::BrickletConnected { uid: 1, endpoint: IP, metadata: metadata(0, '0', 13), session: 1 };
    assert!(s.process_msg(io, 10));
    assert!(s.process_msg(master, 10));
    let columns: Vec<usize> = (0..15).collect();
    let ip_texts = vec![(IP, "10.0.0.1".to_string())];
    let names = vec![];
    let updates = available_bricklet_updates("T", &vec![], &columns, 0, 1, &s, &names, &ip_texts, &WireBuilder::new());
    assert_eq!(30, updates.len());
    // the master brick sorts before the bricklet plugged into it
    assert_eq!("T!A2", updates[0].range);
    assert!(matches!(&updates[0].value, CellValue::Text(t) if t == "10.0.0.1"));
    assert_eq!("T!D2", updates[3].range);
    assert!(matches!(&updates[3].value, CellValue::Text(t) if t == "2"));
    assert_eq!("T!B3", updates[16].range);
    assert!(matches!(updates[16].value, CellValue::Integer(0)));
    assert_eq!("T!C3", updates[17].range);
    assert!(matches!(&updates[17].value, CellValue::Text(t) if t == "a"));
    assert_eq!("T!D3", updates[18].range);
    assert!(matches!(&updates[18].value, CellValue::Text(t) if t == "3"));
    assert!(matches!(updates[19].value, CellValue::Integer(2114)));
}
