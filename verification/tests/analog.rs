use padproxy::analog::{
    analog_axis, analog_curve, analog_output_range, analog_zone, analog_zone_target,
    digital_stick_inputs, digital_stick_outputs, entries_for, stick_pair_axes, stick_transforms,
    AnalogCurve, AnalogErrorKind, StickTransform, ZoneKind,
};
use padproxy::event_code::{parse_event_code, EventCode};

fn code(name: &str) -> EventCode {
    parse_event_code(name).unwrap()
}

#[test]
fn tuned_axes_must_be_new_absolute_pad_axes() {
    assert_eq!(analog_axis("abs:x", &[]).unwrap(), code("abs:x"));
    let e = analog_axis("nope", &[]).unwrap_err();
    assert_eq!(e.message(), "unknown analog axis nope");
    let e = analog_axis("btn:south", &[]).unwrap_err();
    assert_eq!(e.kind, AnalogErrorKind::TuningNotAbsolute);
    assert_eq!(e.message(), "analog tuning btn:south must target an absolute axis");
    let e = analog_axis("ABS:X", &[code("abs:x")]).unwrap_err();
    assert_eq!(e.message(), "duplicate analog tuning for abs:x");
}

#[test]
fn curves_by_keyword_and_exponent() {
    assert_eq!(analog_curve(None, false, "abs:x").unwrap(), AnalogCurve::Linear);
    assert_eq!(analog_curve(None, true, "abs:x").unwrap(), AnalogCurve::Custom);
    assert_eq!(analog_curve(Some(" Smooth "), false, "abs:x").unwrap(), AnalogCurve::Soft);
    assert_eq!(analog_curve(Some("precise"), false, "abs:x").unwrap(), AnalogCurve::Aggressive);
    assert_eq!(analog_curve(Some("custom"), true, "abs:x").unwrap(), AnalogCurve::Custom);
    assert_eq!(
        analog_curve(Some("soft"), true, "abs:x").unwrap_err().message(),
        "analog curve_exponent for abs:x requires curve: custom"
    );
    assert_eq!(
        analog_curve(Some("custom"), false, "abs:x").unwrap_err().message(),
        "custom analog curve for abs:x requires curve_exponent"
    );
    assert_eq!(
        analog_curve(Some("Wobbly Line"), false, "abs:x").unwrap_err().message(),
        "unknown analog curve wobbly_line for abs:x"
    );
}

#[test]
fn output_ranges_stay_within_the_axis() {
    assert_eq!(analog_output_range(code("abs:x"), Some(-1000), Some(1000), "abs:x").unwrap(), (-1000, 1000));
    assert_eq!(analog_output_range(code("abs:z"), None, None, "abs:z").unwrap(), (0, 255));
    assert_eq!(
        analog_output_range(code("abs:z"), Some(-1), None, "abs:z").unwrap_err().message(),
        "analog output range for abs:z must stay within 0..255"
    );
    assert_eq!(
        analog_output_range(code("abs:x"), Some(5), Some(5), "abs:x").unwrap_err().message(),
        "analog output range for abs:x must stay within -32768..32767"
    );
}

#[test]
fn zones_and_their_targets() {
    assert_eq!(analog_zone(None, false).unwrap(), ("high".to_string(), ZoneKind::High));
    assert_eq!(analog_zone(None, true).unwrap(), ("custom".to_string(), ZoneKind::Custom));
    assert_eq!(analog_zone(Some("Mid"), false).unwrap(), ("mid".to_string(), ZoneKind::Medium));
    assert_eq!(analog_zone(Some("huge"), false).unwrap_err().message(), "unknown analog zone huge");

    assert_eq!(analog_zone_target(Some("key:space"), "high", "abs:rz", &[]).unwrap(), code("key:space"));
    assert_eq!(
        analog_zone_target(None, "high", "abs:rz", &[]).unwrap_err().message(),
        "analog zone high for abs:rz requires to"
    );
    assert_eq!(
        analog_zone_target(Some("abs:x"), "high", "abs:rz", &[]).unwrap_err().message(),
        "analog zone target abs:x for abs:rz must be a virtual button, keyboard key, or mouse button"
    );
    assert_eq!(
        analog_zone_target(Some("key:space"), "low", "abs:rz", &[code("key:space")]).unwrap_err().message(),
        "duplicate analog zone target key:space for abs:rz"
    );
}

#[test]
fn stick_rotation_pairs() {
    assert_eq!(stick_pair_axes(Some("abs:x"), Some("abs:y"), 0, &[]).unwrap(), (code("abs:x"), code("abs:y")));
    assert_eq!(stick_pair_axes(None, Some("abs:y"), 0, &[]).unwrap_err().message(), "stick 1 requires x_axis");
    assert_eq!(
        stick_pair_axes(Some("abs:y"), Some("abs:y"), 0, &[]).unwrap_err().message(),
        "stick 1 x_axis must be abs:x or abs:rx"
    );
    assert_eq!(
        stick_pair_axes(Some("abs:x"), Some("abs:ry"), 1, &[]).unwrap_err().message(),
        "stick 2 must use a matching left or right stick axis pair"
    );
    assert_eq!(
        stick_pair_axes(Some("abs:x"), Some("abs:y"), 1, &[(code("abs:x"), code("abs:y"))]).unwrap_err().message(),
        "stick 2 duplicates a stick rotation pair"
    );
}

#[test]
fn digital_stick_axes() {
    assert_eq!(digital_stick_inputs(Some("abs:x"), Some("abs:y"), 0).unwrap(), (code("abs:x"), code("abs:y")));
    assert_eq!(
        digital_stick_inputs(Some("abs:x"), Some("abs:x"), 0).unwrap_err().message(),
        "digital stick 1 requires different x_axis and y_axis"
    );
    assert_eq!(
        digital_stick_inputs(Some("abs:z"), Some("abs:y"), 0).unwrap_err().message(),
        "digital stick 1 axis abs:z must be centered"
    );
    assert_eq!(
        digital_stick_inputs(Some("btn:south"), Some("abs:y"), 2).unwrap_err().message(),
        "digital stick 3 axis btn:south must be an absolute axis"
    );
    assert_eq!(digital_stick_outputs(None, None, 0).unwrap(), (code("abs:hat0x"), code("abs:hat0y")));
    assert_eq!(
        digital_stick_outputs(Some("abs:x"), None, 0).unwrap_err().message(),
        "digital stick 1 output axis must be abs:hat0x"
    );
}

#[test]
fn stick_transforms_swap_or_rotate_in_place() {
    let right = (code("abs:rx"), code("abs:ry"));
    let swapped = stick_transforms(&[right], true);
    assert_eq!(
        swapped,
        vec![
            StickTransform {
                source_x: code("abs:x"),
                source_y: code("abs:y"),
                output_x: code("abs:rx"),
                output_y: code("abs:ry"),
                rotation_from: None,
            },
            StickTransform {
                source_x: code("abs:rx"),
                source_y: code("abs:ry"),
                output_x: code("abs:x"),
                output_y: code("abs:y"),
                rotation_from: Some(0),
            },
        ]
    );
    let in_place = stick_transforms(&[right], false);
    assert_eq!(in_place.len(), 1);
    assert_eq!(in_place[0].output_x, code("abs:rx"));
    assert_eq!(in_place[0].rotation_from, Some(0));

    let pairs = [(code("abs:x"), code("abs:y")), (code("abs:rx"), code("abs:ry")), (code("abs:x"), code("abs:ry"))];
    assert_eq!(entries_for(&pairs, code("abs:x")), vec![0, 2]);
    assert_eq!(entries_for(&pairs, code("abs:z")), Vec::<usize>::new());
}
