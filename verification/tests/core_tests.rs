use light_control::kelvin_2_mireds;
use light_control::keys::{parse_key, ParseKeyError};
use light_control::registry::{
    clock_step_millis, clock_wait_millis, initial_brightness, initial_light_color, initial_switch,
    BrightnessKey, ClockKeyResolution,
};
use light_control::room::{DeviceInRoom, Room, RoomParseError};
use light_control::text::{decimal_string, parse_u16, IntErrorKind};
use std::str::FromStr;

#[test]
fn room_parses_floor_and_number() {
    let room: Room = "2.4".parse().unwrap();
    assert_eq!(Room { floor: 2, room: 4 }, room);
    assert_eq!(Room { floor: -1, room: 12 }, Room::parse("-1.12").unwrap());
}

#[test]
fn room_text_roundtrip() {
    for room in [
        Room { floor: 0, room: 0 },
        Room { floor: -3, room: 65535 },
        Room { floor: 32767, room: 7 },
    ] {
        let text = room.to_string();
        assert_eq!(room, Room::from_str(text.as_str()).unwrap());
    }
    assert_eq!("-3.17", Room { floor: -3, room: 17 }.to_string().as_str());
}

#[test]
fn room_parse_errors() {
    assert!(matches!(Room::parse("24"), Err(RoomParseError::MissingDotSeparator(s)) if s == "24"));
    assert!(matches!(Room::parse("x.4"), Err(RoomParseError::FloorId(IntErrorKind::InvalidDigit))));
    assert!(matches!(Room::parse(".4"), Err(RoomParseError::FloorId(IntErrorKind::Empty))));
    assert!(matches!(Room::parse("1."), Err(RoomParseError::RoomId(IntErrorKind::Empty))));
    assert!(matches!(Room::parse("1.70000"), Err(RoomParseError::RoomId(IntErrorKind::PosOverflow))));
    assert!(matches!(Room::parse("-40000.1"), Err(RoomParseError::FloorId(IntErrorKind::NegOverflow))));
    assert!(matches!(Room::parse("1.2.3"), Err(RoomParseError::RoomId(IntErrorKind::InvalidDigit))));
}

#[test]
fn integers_parse_like_std() {
    assert_eq!(Ok(0), parse_u16("0"));
    assert_eq!(Ok(65535), parse_u16("65535"));
    assert_eq!(Ok(17), parse_u16("+17"));
    assert_eq!(Err(IntErrorKind::PosOverflow), parse_u16("65536"));
    assert_eq!(Err(IntErrorKind::Empty), parse_u16(""));
    assert_eq!(Err(IntErrorKind::InvalidDigit), parse_u16("-1"));
    assert_eq!("4294967296", decimal_string(4294967296).as_str());
}

#[test]
fn prefixed_keys() {
    assert_eq!(Ok(3), parse_key("light:", "light:3"));
    assert_eq!(Err(ParseKeyError::InvalidPrefix), parse_key("light:", "switch:3"));
    assert_eq!(
        Err(ParseKeyError::CannotParseNumber(IntErrorKind::InvalidDigit)),
        parse_key("light:", "light:x")
    );
}

#[test]
fn kelvin_to_mireds() {
    assert_eq!(370, kelvin_2_mireds(2700));
    assert_eq!(133, kelvin_2_mireds(7500));
    // 1_000_000 / 1 does not fit into 16 bits and is truncated
    assert_eq!((1_000_000u32 % 65536) as u16, kelvin_2_mireds(1));
}

#[test]
fn register_initial_values() {
    let key = DeviceInRoom { room: Room { floor: 1, room: 4 }, idx: 0 };
    assert_eq!(0, initial_brightness(BrightnessKey::Light(key), None));
    assert_eq!(255, initial_brightness(BrightnessKey::TouchscreenController(key), None));
    assert_eq!(17, initial_brightness(BrightnessKey::Light(key), Some(17)));
    assert_eq!(200, initial_light_color(None));
    assert_eq!(300, initial_light_color(Some(300)));
    assert!(!initial_switch(None));
    assert!(initial_switch(Some(true)));
}

#[test]
fn clock_waits_for_next_full_step() {
    assert_eq!(60000, clock_step_millis(ClockKeyResolution::Minutes));
    assert_eq!(1000, clock_step_millis(ClockKeyResolution::Seconds));
    assert_eq!(250, clock_wait_millis(ClockKeyResolution::Seconds, 12, 750));
    assert_eq!(47250, clock_wait_millis(ClockKeyResolution::Minutes, 12, 750));
    assert_eq!(1000, clock_wait_millis(ClockKeyResolution::Seconds, 3, 0));
}
