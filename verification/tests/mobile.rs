use padproxy::event_code::{EventCode, EventKind};
use padproxy::mobile::{axis_setup, button_key, events_for_state, AxisSetup};

const KEY: u16 = 1;
const ABS: u16 = 3;
const BTN_SOUTH: u16 = 0x130;
const ABS_X: u16 = 0x00;
const ABS_RZ: u16 = 0x05;
const ABS_HAT0X: u16 = 0x10;
const ABS_HAT0Y: u16 = 0x11;

fn scale_axis(unit: f32, min: i32, max: i32) -> i32 {
    if min < 0 {
        (unit.clamp(-1.0, 1.0) * max as f32).round() as i32
    } else {
        (unit.clamp(0.0, 1.0) * max as f32).round() as i32
    }
}

/// Decodes a packet as the server does: buttons by name, axes scaled to the
/// range of the axis they name.
fn state(packet: &str) -> (Vec<(String, bool)>, Vec<(String, i32)>) {
    let value: serde_json::Value = serde_json::from_str(packet).unwrap();
    let buttons = value["buttons"]
        .as_object()
        .map(|m| m.iter().map(|(k, v)| (k.clone(), v.as_bool().unwrap())).collect())
        .unwrap_or_default();
    let axes = value["axes"]
        .as_object()
        .map(|m| {
            m.iter()
                .filter_map(|(k, v)| {
                    axis_setup(k).map(|s| (k.clone(), scale_axis(v.as_f64().unwrap() as f32, s.min, s.max)))
                })
                .collect()
        })
        .unwrap_or_default();
    (buttons, axes)
}

fn kind_number(kind: EventKind) -> u16 {
    match kind {
        EventKind::Key => KEY,
        EventKind::Absolute => ABS,
        EventKind::Relative => 2,
    }
}

fn has(events: &[(EventCode, i32)], kind: u16, code: u16, value: i32) -> bool {
    events.iter().any(|(e, v)| kind_number(e.kind) == kind && e.code == code && *v == value)
}

#[test]
fn parses_packet_and_builds_events() {
    let (buttons, axes) = state(r#"{"buttons":{"a":true,"right":true},"axes":{"lx":1.0,"rt":1.0}}"#);
    let events = events_for_state(&buttons, &axes);

    // BTN_SOUTH pressed.
    assert!(has(&events, KEY, BTN_SOUTH, 1));
    // D-pad right -> ABS_HAT0X = +1.
    assert!(has(&events, ABS, ABS_HAT0X, 1));
    // Left stick X at full right.
    assert!(events.iter().any(|(e, v)| e.code == ABS_X && *v == 32767));
    // Right trigger fully pressed.
    assert!(events.iter().any(|(e, v)| e.code == ABS_RZ && *v == 255));
}

#[test]
fn opposing_directions_cancel_and_unknown_names_are_skipped() {
    let buttons = vec![
        ("left".to_string(), true),
        ("right".to_string(), true),
        ("up".to_string(), true),
        ("turbo".to_string(), true),
        ("l1".to_string(), false),
    ];
    let axes = vec![("lt".to_string(), 128), ("wheel".to_string(), 5)];
    let events = events_for_state(&buttons, &axes);
    assert_eq!(events.len(), 4);
    assert!(has(&events, KEY, 0x136, 0));
    assert!(has(&events, ABS, ABS_HAT0X, 0));
    assert!(has(&events, ABS, ABS_HAT0Y, -1));
    assert!(has(&events, ABS, 0x02, 128));
}

#[test]
fn names_map_to_buttons_and_axes() {
    assert_eq!(button_key("guide"), Some(EventCode { kind: EventKind::Key, code: 0x13c }));
    assert_eq!(button_key("r3"), Some(EventCode { kind: EventKind::Key, code: 0x13e }));
    assert_eq!(button_key("up"), None);
    assert_eq!(
        axis_setup("ry"),
        Some(AxisSetup { axis: EventCode { kind: EventKind::Absolute, code: 0x04 }, min: -32768, max: 32767 })
    );
    assert_eq!(
        axis_setup("l2"),
        Some(AxisSetup { axis: EventCode { kind: EventKind::Absolute, code: 0x02 }, min: 0, max: 255 })
    );
    assert_eq!(axis_setup("lz"), None);
}
