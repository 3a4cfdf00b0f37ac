use padproxy::bthid::{encode_hid_report, HID_REPORT_DESCRIPTOR, HID_REPORT_LEN};
use padproxy::gimx::{clamp_axis, clamp_trigger, GamepadState, GimxButton, FRAME_LEN, FRAME_START};

#[test]
fn encodes_frame_with_marker_and_checksum() {
    let mut state = GamepadState {
        left_x: -32768,
        right_y: 1000,
        left_trigger: 255,
        ..Default::default()
    };
    state.set_button(GimxButton::South, true);
    state.set_button(GimxButton::Start, true);

    let frame = state.encode_frame();
    assert_eq!(frame.len(), FRAME_LEN);
    assert_eq!(frame[0], FRAME_START);
    // Left stick X is i16::MIN little-endian.
    assert_eq!(&frame[1..3], &(-32768i16).to_le_bytes());
    // Button mask has South (bit 0) and Start (bit 9).
    let mask = u16::from_le_bytes([frame[11], frame[12]]);
    assert_eq!(mask, (1 << 0) | (1 << 9));
    // Checksum matches.
    let expected = frame[..13].iter().fold(0u8, |a, b| a.wrapping_add(*b));
    assert_eq!(frame[13], expected);
}

#[test]
fn set_button_toggles_bits() {
    let mut state = GamepadState::default();
    state.set_button(GimxButton::R2, true);
    assert_eq!(state.buttons, 1 << 7);
    state.set_button(GimxButton::R2, false);
    assert_eq!(state.buttons, 0);
}

#[test]
fn descriptor_is_well_formed() {
    // Starts with the Generic Desktop usage page and ends with End
    // Collection, and has a sane length.
    assert_eq!(&HID_REPORT_DESCRIPTOR[0..2], &[0x05, 0x01]);
    assert_eq!(*HID_REPORT_DESCRIPTOR.last().unwrap(), 0xC0);
    assert!(HID_REPORT_DESCRIPTOR.len() > 30);
}

#[test]
fn encodes_report_in_descriptor_order() {
    let mut state = GamepadState {
        left_x: -1,
        right_y: 2,
        left_trigger: 200,
        right_trigger: 255,
        ..Default::default()
    };
    state.set_button(GimxButton::South, true);
    state.set_button(GimxButton::ThumbR, true);

    let report = encode_hid_report(&state);
    assert_eq!(report.len(), HID_REPORT_LEN);
    // Buttons first (South=bit0, ThumbR=bit12).
    assert_eq!(
        u16::from_le_bytes([report[0], report[1]]),
        (1 << 0) | (1 << 12)
    );
    // Then left stick X (-1), then triggers at the tail.
    assert_eq!(i16::from_le_bytes([report[2], report[3]]), -1);
    assert_eq!(report[10], 200);
    assert_eq!(report[11], 255);
}

#[test]
fn applies_input_events_by_control_name() {
    let mut state = GamepadState::default();
    // EV_KEY BTN_EAST pressed.
    assert!(state.apply_event(0x01, 0x131, 1));
    assert_eq!(state.buttons, 1 << 1);
    // Pressing again changes nothing.
    assert!(!state.apply_event(0x01, 0x131, 1));
    // EV_ABS ABS_X beyond the i16 range is clamped.
    assert!(state.apply_event(0x03, 0x00, 40000));
    assert_eq!(state.left_x, 32767);
    // EV_ABS ABS_RZ is a trigger clamped to 0..=255.
    assert!(state.apply_event(0x03, 0x05, -5) == false);
    assert!(state.apply_event(0x03, 0x05, 300));
    assert_eq!(state.right_trigger, 255);
    // A synchronization event leaves the state alone.
    assert!(!state.apply_event(0x00, 0x00, 0));
}

#[test]
fn clamps_axes_and_triggers() {
    assert_eq!(clamp_axis(-40000), -32768);
    assert_eq!(clamp_axis(123), 123);
    assert_eq!(clamp_trigger(-1), 0);
    assert_eq!(clamp_trigger(256), 255);
}

#[test]
fn press_then_release_restores_the_frame() {
    let state = GamepadState { left_y: 7, ..Default::default() };
    let mut toggled = state;
    toggled.set_button(GimxButton::Mode, true);
    assert_ne!(toggled.encode_frame(), state.encode_frame());
    toggled.set_button(GimxButton::Mode, false);
    assert_eq!(toggled.encode_frame(), state.encode_frame());
}
