use evdev::{KeyCode, RelativeAxisCode};
use padproxy::devices::{name_has_controller_hint, name_has_motion_sensor_hint};
use padproxy::linux::{
    capabilities, device_id, device_kind, key_set_has_keyboard_keys, key_set_has_mouse_buttons,
    looks_like_controller, looks_like_motion_sensor, relative_set_has_mouse_motion,
    should_show_device, DeviceCapabilities,
};

#[test]
fn recognizes_motion_sensor_names() {
    assert!(name_has_motion_sensor_hint(
        "Sony Interactive Entertainment DualSense Wireless Controller Motion Sensors"
    ));
    assert!(name_has_motion_sensor_hint(
        "Nintendo Switch Pro Controller IMU"
    ));
    assert!(!name_has_motion_sensor_hint("USB Keyboard"));
}

#[test]
fn recognizes_controller_families_by_name() {
    for name in [
        "Microsoft X-Box 360 pad",
        "Sony Interactive Entertainment DualSense Wireless Controller",
        "Nintendo Switch Pro Controller",
        "Joy-Con (L)",
        "Steam Deck Controller",
        "Valve Steam Controller",
        "Google Stadia Controller",
        "NVIDIA Shield Controller",
        "8BitDo SN30 Pro",
        "Mayflash GameCube Controller Adapter",
    ] {
        assert!(
            name_has_controller_hint(name),
            "should recognize controller: {name}"
        );
    }

    for name in ["USB Webcam", "AT Translated Set 2 keyboard", "Power Button"] {
        assert!(
            !name_has_controller_hint(name),
            "should not flag non-controller: {name}"
        );
    }
}

#[test]
fn recognizes_real_keyboard_key_sets() {
    let keys = vec![KeyCode::KEY_A.code(), KeyCode::KEY_S.code(), KeyCode::KEY_SPACE.code()];
    assert!(key_set_has_keyboard_keys(&keys));

    let power_keys = vec![KeyCode::KEY_POWER.code(), KeyCode::KEY_SLEEP.code()];
    assert!(!key_set_has_keyboard_keys(&power_keys));
}

#[test]
fn recognizes_mouse_buttons_and_motion() {
    let keys = vec![KeyCode::BTN_LEFT.code()];
    let relative_axes = vec![RelativeAxisCode::REL_X.0, RelativeAxisCode::REL_Y.0];

    assert!(key_set_has_mouse_buttons(&keys));
    assert!(relative_set_has_mouse_motion(&relative_axes));

    let wheel_only = vec![RelativeAxisCode::REL_WHEEL.0];
    assert!(!relative_set_has_mouse_motion(&wheel_only));
}

fn pad_caps() -> DeviceCapabilities {
    DeviceCapabilities {
        keys: Some(vec![KeyCode::BTN_SOUTH.code(), KeyCode::BTN_START.code()]),
        abs: Some(vec![0x00, 0x01, 0x03, 0x04]),
        rel: None,
        force_feedback: true,
    }
}

#[test]
fn classifies_devices_from_capabilities() {
    let pad = pad_caps();
    assert!(looks_like_controller(&pad));
    assert!(!looks_like_motion_sensor(&pad));
    let gyro = DeviceCapabilities { keys: None, abs: Some(vec![0x03, 0x04, 0x05]), rel: None, force_feedback: false };
    assert!(looks_like_motion_sensor(&gyro));
    assert!(should_show_device("Unnamed", "physical", false, &gyro));
    assert!(!should_show_device("Unnamed", "physical", false, &pad));
    assert!(should_show_device("Unnamed", "virtual", false, &pad));
    assert!(should_show_device("Unnamed", "physical", true, &pad));
}

#[test]
fn names_capabilities_in_order() {
    let caps = capabilities(&pad_caps());
    assert_eq!(caps, vec!["BTN_SOUTH", "BTN_START", "ABS_X", "ABS_Y", "ABS_RX", "ABS_RY", "EV_FF"]);
}

#[test]
fn tells_virtual_devices_and_builds_ids() {
    assert_eq!(device_kind(false, "PadProxy Virtual Pad", "", 3), "virtual");
    assert_eq!(device_kind(false, "Pad", "usb/uinput", 3), "virtual");
    assert_eq!(device_kind(false, "Pad", "", 6), "virtual");
    assert_eq!(device_kind(false, "Pad", "usb-1", 3), "physical");
    assert_eq!(device_id(0x045e, 0x028e, "Pad", "", "/dev/input/event3"), "linux:045e:028e:Pad:/dev/input/event3");
    assert_eq!(device_id(0x054c, 0x09cc, "Pad", "a4:c1", "/dev/input/event3"), "linux:054c:09cc:a4:c1");
}
