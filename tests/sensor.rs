use sailboat_frontend::{parse_decimal_u16, parse_reading, SensorState, SkyImage};
use sailboat_frontend::scroll::{calculate_scroll_speed, SPEED_MULTIPLIER, UNITS_PER_PIXEL};

#[test]
fn new_state_reads_zero() {
    assert_eq!(SensorState::new().get_value(), 0);
}

#[test]
fn well_formed_datagram_updates_value() {
    let mut state = SensorState::new();
    assert!(state.receive_datagram(b"15000\n"));
    assert_eq!(state.get_value(), 15000);
}

#[test]
fn malformed_datagram_keeps_value() {
    let mut state = SensorState::new();
    assert!(state.receive_datagram(b"15000\n"));
    assert!(!state.receive_datagram(b"abc"));
    assert_eq!(state.get_value(), 15000);
    assert!(!state.receive_datagram(b""));
    assert!(!state.receive_datagram(b"70000"));
    assert!(!state.receive_datagram(b"-1"));
    assert!(!state.receive_datagram(b"12 34"));
    assert_eq!(state.get_value(), 15000);
}

#[test]
fn invalid_utf8_is_dropped() {
    let mut state = SensorState::new();
    assert!(!state.receive_datagram(&[0x31, 0xff, 0x32]));
    assert_eq!(state.get_value(), 0);
    assert_eq!(parse_reading(&[0xc3, 0x28]), None);
}

#[test]
fn whitespace_around_reading_is_ignored() {
    assert_eq!(parse_reading(b"  2000 \r\n"), Some(2000));
    assert_eq!(parse_reading(b"\t+42"), Some(42));
    assert_eq!(parse_reading("\u{a0}123".as_bytes()), Some(123));
    assert_eq!(parse_reading(b" 1 2 "), None);
}

#[test]
fn decimal_parse_matches_u16() {
    assert_eq!(parse_decimal_u16(b"0"), Some(0));
    assert_eq!(parse_decimal_u16(b"007"), Some(7));
    assert_eq!(parse_decimal_u16(b"65535"), Some(65535));
    assert_eq!(parse_decimal_u16(b"65536"), None);
    assert_eq!(parse_decimal_u16(b"999999"), None);
    assert_eq!(parse_decimal_u16(b"+1"), Some(1));
    assert_eq!(parse_decimal_u16(b"+"), None);
    assert_eq!(parse_decimal_u16(b"++1"), None);
    assert_eq!(parse_decimal_u16(b""), None);
    assert_eq!(parse_decimal_u16(b"1a"), None);
    assert_eq!(parse_decimal_u16(b" 1"), None);
}

#[test]
fn reading_at_min_value_scrolls_right() {
    let mut state = SensorState::new();
    assert!(state.receive_datagram(b"2000"));
    let mut sky = SkyImage::new(1000);
    assert_eq!(calculate_scroll_speed(state.get_value()), SPEED_MULTIPLIER);
    sky.update(state.get_value());
    // 2.5 pixels
    assert_eq!(sky.offset() * 2, 5 * UNITS_PER_PIXEL);
}

#[test]
fn reading_at_max_value_wraps_left() {
    let mut state = SensorState::new();
    assert!(state.receive_datagram(b"33400"));
    let mut sky = SkyImage::new(1000);
    assert_eq!(calculate_scroll_speed(state.get_value()), -SPEED_MULTIPLIER);
    sky.update(state.get_value());
    // 997.5 pixels
    assert_eq!(sky.offset() * 2, 1995 * UNITS_PER_PIXEL);
}
