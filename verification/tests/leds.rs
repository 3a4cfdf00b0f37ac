use padproxy::leds::{list_leds, set_led_brightness, set_led_color, LedFiles};

#[test]
fn lists_and_sets_led_brightness_clamped() {
    let entries = vec![LedFiles {
        name: "controller::player1".to_string(),
        brightness: Some("0".to_string()),
        max_brightness: Some("255".to_string()),
        multi_intensity: None,
    }];

    let leds = list_leds(&entries);
    assert_eq!(leds.len(), 1);
    assert_eq!(leds[0].name, "controller::player1");
    assert_eq!(leds[0].max_brightness, Some(255));

    // Over-max brightness is clamped to max.
    let written = set_led_brightness("controller::player1", 9000, leds[0].max_brightness).unwrap();
    assert_eq!(written, "255");
}

#[test]
fn sets_rgb_multi_intensity_and_rejects_bad_names() {
    let written = set_led_color("rgb:indicator", &[10, 20, 30]).unwrap();
    assert_eq!(written, "10 20 30");

    // Path traversal and empty colors are rejected.
    assert!(set_led_brightness("../escape", 1, None).is_err());
    assert!(set_led_color("rgb:indicator", &[]).is_err());
}

#[test]
fn leds_are_listed_by_name_with_unreadable_values_absent() {
    let entries = vec![
        LedFiles {
            name: "input5::numlock".to_string(),
            brightness: Some("1\n".to_string()),
            max_brightness: Some("1\n".to_string()),
            multi_intensity: None,
        },
        LedFiles {
            name: "0005:054C:09CC.0003:rgb:indicator".to_string(),
            brightness: Some("oops".to_string()),
            max_brightness: None,
            multi_intensity: Some("0 0 255\n".to_string()),
        },
    ];
    let leds = list_leds(&entries);
    assert_eq!(leds.len(), 2);
    assert_eq!(leds[0].name, "0005:054C:09CC.0003:rgb:indicator");
    assert_eq!(leds[0].brightness, None);
    assert_eq!(leds[1].name, "input5::numlock");
    assert_eq!(leds[1].brightness, Some(1));
    assert_eq!(leds[1].max_brightness, Some(1));
}

#[test]
fn brightness_without_a_maximum_is_written_as_given() {
    assert_eq!(set_led_brightness("input5::numlock", 7, None).unwrap(), "7");
    assert_eq!(set_led_brightness("input5::numlock", 0, Some(1)).unwrap(), "0");
}
