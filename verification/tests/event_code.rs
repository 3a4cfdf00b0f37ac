use evdev::{AbsoluteAxisCode, KeyCode, RelativeAxisCode};
use padproxy::event_code::{
    capture_event_code, event_from_input, parse_event_code, virtual_keyboard_mouse_supports,
    virtual_output_supports, virtual_xbox_supports, EventCode, EventKind,
};

#[test]
fn parses_keyboard_mouse_and_relative_events() {
    let key = parse_event_code("key:space").unwrap();
    assert_eq!(key.kind, EventKind::Key);
    assert_eq!(key.name(), "key:space");
    assert!(virtual_keyboard_mouse_supports(key));
    assert!(virtual_output_supports(key));
    assert!(!virtual_xbox_supports(key));

    let letter = parse_event_code("keyboard:a").unwrap();
    assert_eq!(letter.name(), "key:a");

    let digit = parse_event_code("key:1").unwrap();
    assert_eq!(digit.name(), "key:1");

    let mouse = parse_event_code("mouse:left").unwrap();
    assert_eq!(mouse.kind, EventKind::Key);
    assert_eq!(mouse.name(), "mouse:left");
    assert!(virtual_keyboard_mouse_supports(mouse));

    let relative = parse_event_code("rel:x").unwrap();
    assert_eq!(relative.kind, EventKind::Relative);
    assert_eq!(relative.name(), "rel:x");
    assert!(virtual_keyboard_mouse_supports(relative));
}

#[test]
fn event_codes_agree_with_evdev() {
    assert_eq!(parse_event_code("btn:south").unwrap().code, KeyCode::BTN_SOUTH.code());
    assert_eq!(parse_event_code("btn:thumbr").unwrap().code, KeyCode::BTN_THUMBR.code());
    assert_eq!(parse_event_code("key:space").unwrap().code, KeyCode::KEY_SPACE.code());
    assert_eq!(parse_event_code("key:leftctrl").unwrap().code, KeyCode::KEY_LEFTCTRL.code());
    assert_eq!(parse_event_code("abs:hat0y").unwrap().code, AbsoluteAxisCode::ABS_HAT0Y.0);
    assert_eq!(parse_event_code("abs:rz").unwrap().code, AbsoluteAxisCode::ABS_RZ.0);
    assert_eq!(parse_event_code("rel:wheel").unwrap().code, RelativeAxisCode::REL_WHEEL.0);
    assert_eq!(parse_event_code("mouse:right").unwrap().code, KeyCode::BTN_RIGHT.code());
}

#[test]
fn keyboard_names_go_through_the_evdev_table() {
    // A key with no built-in name is looked up by its evdev constant name.
    let f5 = parse_event_code("key:F5").unwrap();
    assert_eq!(f5.code, evdev::KeyCode::KEY_F5.code());
    assert_eq!(f5.name(), "key:f5");
    // Aliases map to the evdev names.
    assert_eq!(parse_event_code("key:ctrl").unwrap().code, evdev::KeyCode::KEY_LEFTCTRL.code());
    assert!(parse_event_code("key:nonsense").is_none());
    assert!(parse_event_code("joystick:1").is_none());
    // Case and surrounding whitespace do not matter.
    assert_eq!(parse_event_code("  BTN:South "), parse_event_code("btn:south"));
}

#[test]
fn classifies_raw_input_events() {
    assert_eq!(event_from_input(0x01, 0x130), Some(EventCode { kind: EventKind::Key, code: 0x130 }));
    assert_eq!(event_from_input(0x03, 0x00), Some(EventCode { kind: EventKind::Absolute, code: 0 }));
    assert_eq!(event_from_input(0x02, 0x08), Some(EventCode { kind: EventKind::Relative, code: 8 }));
    assert_eq!(event_from_input(0x00, 0x00), None);
    assert_eq!(capture_event_code(0x01, 0x130, 0), None);
    assert_eq!(
        capture_event_code(0x01, 0x130, 1).map(|c| c.name()),
        Some("btn:south".to_string())
    );
    assert_eq!(EventCode { kind: EventKind::Absolute, code: 0x3f }.name(), "abs:63");
}

#[test]
fn fixed_event_names_read_back_as_their_codes() {
    for (kind, code) in [
        (EventKind::Key, 0x130u16),
        (EventKind::Key, 0x13e),
        (EventKind::Key, 0x116),
        (EventKind::Key, 0x2c3),
        (EventKind::Absolute, 0x00),
        (EventKind::Absolute, 0x11),
        (EventKind::Relative, 0x08),
    ] {
        let event = EventCode { kind, code };
        assert_eq!(parse_event_code(&event.name()), Some(event));
    }
}

#[test]
fn elite_paddles_are_named_source_buttons() {
    assert_eq!(parse_event_code("btn:paddle1"), Some(EventCode { kind: EventKind::Key, code: 0x2c0 }));
    assert_eq!(parse_event_code("BTN:Paddle4"), Some(EventCode { kind: EventKind::Key, code: 0x2c3 }));
    assert_eq!(EventCode { kind: EventKind::Key, code: 0x2c1 }.name(), "btn:paddle2");
    assert!(!virtual_xbox_supports(EventCode { kind: EventKind::Key, code: 0x2c0 }));
}
