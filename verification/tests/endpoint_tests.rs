use light_control::config_loop::{config_step, ConfigLoopAction, ConfigLoopEvent};
use light_control::sheet::{CellCoordinates, CellValue, SheetCell};
use light_control::sheet_endpoints::{endpoint_state_text, EndpointRow};
use light_control::sheet_reader::WireBuilder;
use light_control::state::{ConnectionState, IpAddress};

fn cell(row: usize, col: usize, content: Option<&str>) -> SheetCell {
    SheetCell {
        content: content.map(|s| s.to_string()),
        integer: None,
        value: None,
        coordinates: CellCoordinates { row, col },
    }
}

#[test]
fn endpoint_table() {
    let a = IpAddress::V4(0x0a00_0001);
    let b = IpAddress::V4(0x0a00_0002);
    let rows = vec![
        EndpointRow {
            address: Some(a),
            state: cell(1, 1, Some("Connected at 10:00")),
            place: cell(1, 2, Some("cellar")),
            shown_state: Some(endpoint_state_text(ConnectionState::Connected, "10:00")),
        },
        EndpointRow { address: None, state: cell(2, 1, None), place: cell(2, 2, Some("nowhere")), shown_state: None },
        EndpointRow {
            address: Some(b),
            state: cell(3, 1, None),
            place: cell(3, 2, None),
            shown_state: Some(endpoint_state_text(ConnectionState::Disconnected, "11:00")),
        },
    ];
    let mut builder = WireBuilder::new();
    let table = builder.parse_ip_endpoints("Endpoints", &rows);
    assert_eq!(vec![a, b], table.endpoints);
    assert_eq!(vec![(a, "cellar".to_string()), (b, String::new())], table.names);
    assert_eq!(1, builder.updates.len());
    assert_eq!("Endpoints!B4", builder.updates[0].range.as_str());
    assert!(matches!(&builder.updates[0].value, CellValue::Text(t) if t == "Not Connected at 11:00"));
}

#[test]
fn configuration_loop() {
    let none = ConfigLoopAction {
        restart_controllers: false,
        restart_tinkerforge: false,
        restart_shelly: false,
        fetch_in_millis: None,
    };
    assert_eq!(none, config_step(ConfigLoopEvent::StateUpdated { changed: false }));
    assert_eq!(
        ConfigLoopAction { fetch_in_millis: Some(2000), ..none },
        config_step(ConfigLoopEvent::StateUpdated { changed: true })
    );
    let fetched = |c, t, s, o| ConfigLoopEvent::Fetched {
        controllers_changed: c,
        tinkerforge_changed: t,
        shelly_changed: s,
        other_changed: o,
    };
    assert_eq!(ConfigLoopAction { fetch_in_millis: Some(300000), ..none }, config_step(fetched(false, false, false, false)));
    assert_eq!(
        ConfigLoopAction { restart_tinkerforge: true, fetch_in_millis: Some(10000), ..none },
        config_step(fetched(false, true, false, false))
    );
    assert_eq!(ConfigLoopAction { fetch_in_millis: Some(10000), ..none }, config_step(fetched(false, false, false, true)));
}
