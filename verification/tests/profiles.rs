use padproxy::event_code::parse_event_code;
use padproxy::layer_build::{RawLayer, RawLayerActivation, RawLayerActivationObject};
use padproxy::macro_build::{RawMacroEvent, RawMacroSettings, StickUnit};
use padproxy::mapping_build::RawMapping;
use padproxy::profile_build::{
    ActivatorObject, RawCommandLine, RawCommandObject, RawCommandSettings, RawMappingActivator,
    RawTurbo, TurboRate,
};
use padproxy::profile_doc::{build_profile, RawOutput, RawProfile, RawStringOrList};
use padproxy::profiles::{
    resolve_group_paths, ActivatorKind, CommandAction, DeviceMatch, IdValue, LayerActivationMode,
    MacroEventKind, MacroMode, MappingAction, Profile, DEFAULT_LONG_PRESS_MS,
    DEFAULT_MULTI_PRESS_MS, DEFAULT_TURBO_INTERVAL_MS, MAIN_LAYER_ID, MAX_SHIFT_LAYERS,
};
use padproxy::devices::DeviceInfo;
use padproxy::engine::profile_output_events;
use serde_yaml::{Mapping as YamlMap, Value};

// Reading a profile document the way the program does: YAML is decoded into
// the library's raw document values, which `build_profile` validates.

fn field<'a>(map: &'a YamlMap, key: &str) -> Option<&'a Value> {
    map.get(Value::String(key.to_string()))
}

fn text(map: &YamlMap, key: &str) -> Option<String> {
    field(map, key).map(|v| match v {
        Value::String(s) => s.clone(),
        Value::Number(n) => n.to_string(),
        Value::Bool(b) => b.to_string(),
        other => panic!("expected text for {key}, got {other:?}"),
    })
}

fn number(map: &YamlMap, key: &str) -> Option<u64> {
    field(map, key).map(|v| v.as_u64().expect("unsigned number"))
}

fn signed(map: &YamlMap, key: &str) -> Option<i32> {
    field(map, key).map(|v| v.as_i64().expect("number") as i32)
}

fn float(map: &YamlMap, key: &str) -> Option<f64> {
    field(map, key).map(|v| v.as_f64().expect("float"))
}

fn flag(map: &YamlMap, key: &str) -> Option<bool> {
    field(map, key).map(|v| v.as_bool().expect("bool"))
}

fn strings(v: &Value) -> Vec<String> {
    v.as_sequence()
        .expect("list")
        .iter()
        .map(|s| s.as_str().expect("string").to_string())
        .collect()
}

fn id_value(v: &Value) -> IdValue {
    match v {
        Value::String(s) => IdValue::parse(s).expect("device id"),
        Value::Number(n) => IdValue::from_integer(n.as_i64().expect("integer") as i128).expect("device id"),
        other => panic!("bad device id {other:?}"),
    }
}

fn device_match(v: &Value) -> DeviceMatch {
    let m = v.as_mapping().expect("match object");
    DeviceMatch {
        name: text(m, "name"),
        serial: text(m, "serial"),
        phys: text(m, "phys"),
        vendor_id: field(m, "vendor_id").map(id_value),
        product_id: field(m, "product_id").map(id_value),
    }
}

fn stick_unit(u: f64) -> StickUnit {
    if !u.is_finite() || !(-1.0..=1.0).contains(&u) {
        StickUnit::OutOfRange
    } else {
        StickUnit::AxisValue((u * 32768.0).round().clamp(-32768.0, 32767.0) as i32)
    }
}

fn macro_event(v: &Value) -> RawMacroEvent {
    let m = v.as_mapping().expect("macro event object");
    RawMacroEvent {
        down: text(m, "down"),
        up: text(m, "up"),
        tap: text(m, "tap"),
        axis: text(m, "axis"),
        stick: text(m, "stick"),
        x: float(m, "x").map(stick_unit),
        y: float(m, "y").map(stick_unit),
        rel: text(m, "rel"),
        value: signed(m, "value"),
        pause_ms: number(m, "pause_ms"),
        cancel: flag(m, "cancel"),
        break_event: flag(m, "break"),
        stop: flag(m, "stop"),
    }
}

fn macro_events(v: &Value) -> Vec<RawMacroEvent> {
    v.as_sequence().expect("event list").iter().map(macro_event).collect()
}

fn command_line(v: &Value) -> RawCommandLine {
    match v {
        Value::Sequence(_) => RawCommandLine::Args(strings(v)),
        Value::String(s) => RawCommandLine::Shell(s.clone()),
        other => panic!("bad command line {other:?}"),
    }
}

fn command(v: &Value) -> RawCommandSettings {
    match v {
        Value::String(s) => RawCommandSettings::Scalar(s.clone()),
        Value::Mapping(m) => RawCommandSettings::Object(RawCommandObject {
            action: text(m, "action"),
            name: text(m, "name"),
            command: text(m, "command"),
            command_line: field(m, "command_line").map(command_line),
            args: field(m, "args").map(strings),
            argv: field(m, "argv").map(strings),
            program: text(m, "program"),
            executable: text(m, "executable"),
            shell: text(m, "shell"),
            run: field(m, "run").map(command_line),
        }),
        other => panic!("bad command {other:?}"),
    }
}

fn turbo(v: &Value) -> RawTurbo {
    match v {
        Value::Bool(b) => RawTurbo::Enabled(*b),
        Value::Mapping(m) => RawTurbo::Object {
            enabled: flag(m, "enabled"),
            interval_ms: number(m, "interval_ms"),
            rate: float(m, "rate_hz").map(|rate| {
                if rate.is_finite() && rate > 0.0 {
                    TurboRate::IntervalMs((1000.0 / (rate * 2.0)).round() as u64)
                } else {
                    TurboRate::Invalid
                }
            }),
        },
        other => panic!("bad turbo {other:?}"),
    }
}

fn activator(v: &Value) -> RawMappingActivator {
    match v {
        Value::String(s) => RawMappingActivator::Scalar(s.clone()),
        Value::Mapping(m) => RawMappingActivator::Object(ActivatorObject {
            kind: text(m, "kind"),
            kind_alias: text(m, "type"),
            mode: text(m, "mode"),
            delay_ms: number(m, "delay_ms"),
            timeout_ms: number(m, "timeout_ms"),
            interval_ms: number(m, "interval_ms"),
        }),
        other => panic!("bad activator {other:?}"),
    }
}

fn mapping(v: &Value) -> RawMapping {
    let m = v.as_mapping().expect("mapping object");
    RawMapping {
        from: text(m, "from").expect("from"),
        to: text(m, "to"),
        action: text(m, "action"),
        kind_alias: text(m, "type"),
        activator: field(m, "activator").map(activator),
        turbo: field(m, "turbo").map(turbo),
        turbo_interval_ms: number(m, "turbo_interval_ms"),
        macro_settings: field(m, "macro").map(|v| {
            let mm = v.as_mapping().expect("macro object");
            RawMacroSettings {
                mode: text(mm, "mode"),
                events: field(mm, "events").map(macro_events).unwrap_or_default(),
                release_events: field(mm, "release_events").map(macro_events),
            }
        }),
        macro_events: field(m, "macro_events").map(macro_events),
        command: field(m, "command").map(command),
    }
}

fn mappings(v: &Value) -> Vec<RawMapping> {
    v.as_sequence().expect("mapping list").iter().map(mapping).collect()
}

fn layer_activation(v: &Value) -> RawLayerActivation {
    match v {
        Value::String(s) => RawLayerActivation::Scalar(s.clone()),
        Value::Mapping(m) => RawLayerActivation::Object(RawLayerActivationObject {
            mode: text(m, "mode"),
            control: text(m, "control"),
            from: text(m, "from"),
            source: text(m, "source"),
            button: text(m, "button"),
            hold: text(m, "hold"),
            toggle: text(m, "toggle"),
            consume: flag(m, "consume"),
        }),
        other => panic!("bad activation {other:?}"),
    }
}

fn layer(v: &Value) -> RawLayer {
    let m = v.as_mapping().expect("layer object");
    RawLayer {
        id: text(m, "id"),
        name: text(m, "name"),
        activation: field(m, "activation").map(layer_activation),
        activator: field(m, "activator").map(layer_activation),
        mappings: field(m, "mappings").map(mappings),
    }
}

fn parse_profile(yaml: &str, path: &str) -> Result<Profile, String> {
    let doc: Value = serde_yaml::from_str(yaml).map_err(|e| e.to_string())?;
    let m = doc.as_mapping().expect("profile object");
    let raw = RawProfile {
        id: text(m, "id"),
        name: text(m, "name"),
        description: text(m, "description"),
        device_match: field(m, "match").map(device_match).unwrap_or_default(),
        groups: field(m, "group")
            .map(|g| g.as_sequence().expect("group list").iter().map(device_match).collect())
            .unwrap_or_default(),
        process: field(m, "process").map(|p| match p {
            Value::String(s) => RawStringOrList::Scalar(s.clone()),
            other => RawStringOrList::List(strings(other)),
        }),
        output: field(m, "output").map(|o| match o {
            Value::String(s) => RawOutput::Scalar(s.clone()),
            Value::Mapping(om) => RawOutput::Object { kind: text(om, "type") },
            other => panic!("bad output {other:?}"),
        }),
        outputs: field(m, "outputs").map(strings).unwrap_or_default(),
        passthrough: flag(m, "passthrough"),
        grab_source: flag(m, "grab_source"),
        mappings: field(m, "mappings").map(mappings),
        layers: field(m, "layers")
            .map(|l| l.as_sequence().expect("layer list").iter().map(layer).collect()),
    };
    let stem = std::path::Path::new(path)
        .file_stem()
        .map(|s| s.to_string_lossy().to_string())
        .unwrap_or_default();
    build_profile(raw, &stem, path).map_err(|e| e.message())
}

#[test]
fn flat_mappings_become_main_layer() {
    let profile = parse_profile(
        r#"
id: flat
mappings:
  - from: btn:south
    to: btn:east
"#,
        "flat.yaml",
    )
    .unwrap();

    assert_eq!(profile.layers.len(), 1);
    assert_eq!(profile.layers[0].id, MAIN_LAYER_ID);
    assert_eq!(profile.mappings.len(), 1);
    assert_eq!(profile.mapping_table().len(), 1);
    assert_eq!(profile.mappings[0].action, MappingAction::Remap);
    assert!(profile.mappings[0].turbo.is_none());
}

#[test]
fn parses_hold_and_toggle_shift_layers() {
    let profile = parse_profile(
        r#"
id: layered
layers:
  - id: main
    mappings:
      - from: btn:south
        to: btn:south
  - id: shift_1
    name: Shift 1
    activation:
      hold: btn:tl
      consume: true
    mappings:
      - from: btn:south
        to: btn:east
  - id: shift_2
    activation:
      mode: toggle
      control: btn:tr
      consume: false
    mappings:
      - from: btn:south
        to: btn:west
"#,
        "layered.yaml",
    )
    .unwrap();

    assert_eq!(profile.layers.len(), 3);
    assert_eq!(profile.layers[0].mappings.len(), 1);
    let hold = profile.layers[1].activation.as_ref().unwrap();
    assert_eq!(hold.mode, LayerActivationMode::Hold);
    assert_eq!(hold.control_name, "btn:tl");
    assert!(hold.consume);

    let toggle = profile.layers[2].activation.as_ref().unwrap();
    assert_eq!(toggle.mode, LayerActivationMode::Toggle);
    assert_eq!(toggle.control_name, "btn:tr");
    assert!(!toggle.consume);
}

#[test]
fn rejects_too_many_shift_layers() {
    let mut yaml = String::from("id: too-many\nlayers:\n");
    for index in 0..=MAX_SHIFT_LAYERS {
        yaml.push_str(&format!(
            "  - id: shift_{index}\n    activation: btn:tl\n    mappings: []\n"
        ));
    }

    let error = parse_profile(&yaml, "too-many.yaml").unwrap_err();
    assert!(error.contains("shift layers"), "{error}");
}

#[test]
fn parses_disabled_and_turbo_mappings() {
    let profile = parse_profile(
        r#"
id: behavior
mappings:
  - from: btn:select
    action: disable
  - from: btn:south
    to: btn:east
    turbo: true
  - from: btn:west
    to: btn:north
    turbo:
      interval_ms: 120
"#,
        "behavior.yaml",
    )
    .unwrap();

    assert_eq!(profile.mappings[0].action, MappingAction::Disable);
    assert_eq!(profile.mappings[0].to_name, "btn:select");
    assert_eq!(profile.mapping_table().len(), 2);
    assert_eq!(
        profile.mappings[1].turbo.as_ref().unwrap().interval_ms,
        DEFAULT_TURBO_INTERVAL_MS
    );
    assert_eq!(profile.mappings[2].turbo.as_ref().unwrap().interval_ms, 120);
}

#[test]
fn parses_mapping_activators() {
    let profile = parse_profile(
        r#"
id: activators
mappings:
  - from: btn:south
    to: btn:east
  - from: btn:east
    to: btn:south
    activator: release
  - from: btn:west
    to: btn:north
    activator:
      kind: long_press
  - from: btn:north
    to: btn:west
    activator:
      kind: double_press
      timeout_ms: 225
  - from: btn:tl
    to: btn:tr
    activator:
      kind: triple_press
      interval_ms: 400
  - from: btn:start
    to: btn:select
    activator: double_press
"#,
        "activators.yaml",
    )
    .unwrap();

    assert_eq!(profile.mappings[0].activator.kind, ActivatorKind::Press);
    assert_eq!(profile.mappings[0].activator.delay_ms, 0);
    assert_eq!(profile.mappings[1].activator.kind, ActivatorKind::Release);
    assert_eq!(profile.mappings[1].activator.delay_ms, 0);
    assert_eq!(profile.mappings[2].activator.kind, ActivatorKind::LongPress);
    assert_eq!(profile.mappings[2].activator.delay_ms, DEFAULT_LONG_PRESS_MS);
    assert_eq!(profile.mappings[3].activator.kind, ActivatorKind::DoublePress);
    assert_eq!(profile.mappings[3].activator.delay_ms, 225);
    assert_eq!(profile.mappings[4].activator.kind, ActivatorKind::TriplePress);
    assert_eq!(profile.mappings[4].activator.delay_ms, 400);
    assert_eq!(profile.mappings[5].activator.kind, ActivatorKind::DoublePress);
    assert_eq!(profile.mappings[5].activator.delay_ms, DEFAULT_MULTI_PRESS_MS);
}

#[test]
fn rejects_invalid_mapping_activators() {
    let axis_source = parse_profile(
        r#"
id: axis-activator
mappings:
  - from: abs:x
    to: abs:y
    activator: long_press
"#,
        "axis-activator.yaml",
    )
    .unwrap_err();
    assert!(axis_source.contains("requires a button source"), "{axis_source}");

    let turbo = parse_profile(
        r#"
id: turbo-activator
mappings:
  - from: btn:south
    to: btn:east
    activator: double_press
    turbo: true
"#,
        "turbo-activator.yaml",
    )
    .unwrap_err();
    assert!(turbo.contains("can only use press activator"), "{turbo}");

    let hold_macro = parse_profile(
        r#"
id: hold-macro-activator
mappings:
  - from: btn:tl
    action: macro
    activator: release
    macro:
      mode: hold
      events:
        - down: btn:south
"#,
        "hold-macro-activator.yaml",
    )
    .unwrap_err();
    assert!(hold_macro.contains("can only use press activator"), "{hold_macro}");

    let press_delay = parse_profile(
        r#"
id: press-delay
mappings:
  - from: btn:south
    to: btn:east
    activator:
      kind: press
      delay_ms: 50
"#,
        "press-delay.yaml",
    )
    .unwrap_err();
    assert!(press_delay.contains("cannot use delay_ms"), "{press_delay}");

    let delay_range = parse_profile(
        r#"
id: delay-range
mappings:
  - from: btn:south
    to: btn:east
    activator:
      kind: long_press
      delay_ms: 10
"#,
        "delay-range.yaml",
    )
    .unwrap_err();
    assert!(delay_range.contains("delay_ms must be between"), "{delay_range}");
}

#[test]
fn parses_command_mappings() {
    let profile = parse_profile(
        r#"
id: commands
mappings:
  - from: btn:select
    action: command
    command: stop_macros
  - from: btn:mode
    command:
      action: cancel_all_macros
  - from: btn:start
    command:
      action: run
      args: ["printf", "hello"]
  - from: btn:tl
    command:
      action: run
      program: notify-send
      args: ["PadProxy", "mapping fired"]
"#,
        "commands.yaml",
    )
    .unwrap();

    assert_eq!(profile.mappings.len(), 4);
    assert_eq!(profile.mappings[0].action, MappingAction::Command);
    assert_eq!(profile.mappings[0].to_name, "btn:select");
    assert!(profile.mapping_table().is_empty());
    assert_eq!(profile.mappings[0].command.as_ref().unwrap().action, CommandAction::StopMacros);
    assert_eq!(profile.mappings[1].command.as_ref().unwrap().action, CommandAction::StopMacros);
    let run_command = profile.mappings[2].command.as_ref().unwrap();
    assert_eq!(run_command.action, CommandAction::RunCommand);
    assert_eq!(run_command.command_line, vec!["printf", "hello"]);
    let program_command = profile.mappings[3].command.as_ref().unwrap();
    assert_eq!(program_command.action, CommandAction::RunCommand);
    assert_eq!(program_command.command_line, vec!["notify-send", "PadProxy", "mapping fired"]);
}

#[test]
fn parses_remap_off_command_mappings() {
    let profile = parse_profile(
        r#"
id: emergency
mappings:
  - from: btn:mode
    action: command
    command: remap_off
  - from: btn:select
    command:
      action: turn_remap_off
"#,
        "emergency.yaml",
    )
    .unwrap();

    assert_eq!(profile.mappings.len(), 2);
    for mapping in &profile.mappings {
        assert_eq!(mapping.action, MappingAction::Command);
        let command = mapping.command.as_ref().unwrap();
        assert_eq!(command.action, CommandAction::RemapOff);
        assert!(command.command_line.is_empty());
    }
}

#[test]
fn parses_additional_virtual_outputs() {
    let profile = parse_profile(
        r#"
id: dual-out
output:
  type: xbox360
outputs:
  - DualShock 4
  - switchpro
mappings: []
"#,
        "dual-out.yaml",
    )
    .unwrap();
    assert_eq!(profile.output_type, "xbox360");
    assert_eq!(profile.outputs, vec!["ds4", "switchpro"]);
}

fn device(path: &str, name: &str, vendor: u16) -> DeviceInfo {
    DeviceInfo {
        id: format!("id:{path}"),
        name: name.to_string(),
        path: path.to_string(),
        device_kind: "physical".to_string(),
        phys: String::new(),
        uniq: String::new(),
        bus: 0,
        vendor,
        product: 0,
        version: 0,
        capabilities: Vec::new(),
    }
}

#[test]
fn resolves_grouped_device_paths() {
    let devices = vec![
        device("/dev/input/event1", "Wireless Controller", 0x054c),
        device("/dev/input/event2", "Wireless Controller", 0x054c),
        device("/dev/input/event3", "Keyboard", 0x1234),
    ];

    let profile = parse_profile(
        r#"
id: grouped
match:
  name: "Wireless Controller"
group:
  - name: "Wireless Controller"
  - name: "Keyboard"
mappings: []
"#,
        "grouped.yaml",
    )
    .unwrap();
    assert_eq!(profile.groups.len(), 2);

    // The primary controller (event1) is excluded; the group resolves the
    // second controller and the keyboard, each distinct.
    let paths = resolve_group_paths(&profile.groups, &devices, &vec!["/dev/input/event1".to_string()]);
    assert_eq!(paths, vec!["/dev/input/event2", "/dev/input/event3"]);

    // With no available second controller, an unmatched matcher is skipped.
    let only_keyboard = vec![device("/dev/input/event3", "Keyboard", 0x1234)];
    let matchers = vec![DeviceMatch { name: Some("Wireless Controller".to_string()), ..Default::default() }];
    assert!(resolve_group_paths(&matchers, &only_keyboard, &Vec::new()).is_empty());
}

#[test]
fn rejects_remap_off_with_command_line() {
    let error = parse_profile(
        r#"
id: bad-emergency
mappings:
  - from: btn:mode
    command:
      action: remap_off
      args: ["echo", "nope"]
"#,
        "bad-emergency.yaml",
    )
    .unwrap_err();
    assert!(error.contains("remap_off"));
}

#[test]
fn parses_keyboard_mouse_mapping_targets_and_relative_macros() {
    let profile = parse_profile(
        r#"
id: keyboard-mouse
mappings:
  - from: btn:south
    to: key:space
  - from: btn:east
    to: mouse:left
  - from: abs:x
    to: rel:x
  - from: btn:start
    action: macro
    macro:
      events:
        - tap: key:enter
        - tap: mouse:right
        - rel: rel:wheel
          value: -1
"#,
        "keyboard-mouse.yaml",
    )
    .unwrap();

    assert_eq!(profile.mappings[0].to_name, "key:space");
    assert_eq!(profile.mappings[1].to_name, "mouse:left");
    assert_eq!(profile.mappings[2].from_name, "abs:x");
    assert_eq!(profile.mappings[2].to_name, "rel:x");
    let macro_settings = profile.mappings[3].macro_settings.as_ref().unwrap();
    assert_eq!(macro_settings.events[0].code_name, "key:enter");
    assert_eq!(macro_settings.events[1].code_name, "mouse:right");
    assert_eq!(macro_settings.events[2].kind, MacroEventKind::Relative);
    assert_eq!(macro_settings.events[2].code_name, "rel:wheel");
    assert_eq!(macro_settings.events[2].value, -1);
}

#[test]
fn parses_mouse_to_stick_mappings() {
    let profile = parse_profile(
        r#"
id: mouse-to-stick
mappings:
  - from: rel:x
    to: abs:rx
  - from: rel:y
    to: abs:ry
"#,
        "mouse-to-stick.yaml",
    )
    .unwrap();

    assert_eq!(profile.mappings[0].from_name, "rel:x");
    assert_eq!(profile.mappings[0].to_name, "abs:rx");
    assert_eq!(profile.mappings[1].from_name, "rel:y");
    assert_eq!(profile.mappings[1].to_name, "abs:ry");

    let wheel_error = parse_profile(
        r#"
id: bad-mouse-to-stick-source
mappings:
  - from: rel:wheel
    to: abs:x
"#,
        "bad-mouse-to-stick-source.yaml",
    )
    .unwrap_err();
    assert!(wheel_error.contains("rel:x or rel:y"), "{wheel_error}");

    let target_error = parse_profile(
        r#"
id: bad-mouse-to-stick-target
mappings:
  - from: rel:x
    to: abs:z
"#,
        "bad-mouse-to-stick-target.yaml",
    )
    .unwrap_err();
    assert!(target_error.contains("centered virtual stick"), "{target_error}");

    let button_error = parse_profile(
        r#"
id: bad-relative-button-target
mappings:
  - from: rel:x
    to: btn:south
"#,
        "bad-relative-button-target.yaml",
    )
    .unwrap_err();
    assert!(button_error.contains("relative source"), "{button_error}");
}

#[test]
fn rejects_relative_direct_mapping_targets() {
    let error = parse_profile(
        r#"
id: relative-target
mappings:
  - from: btn:south
    to: rel:x
"#,
        "relative-target.yaml",
    )
    .unwrap_err();

    assert!(error.contains("absolute-axis source"), "{error}");
}

#[test]
fn rejects_invalid_command_mappings() {
    let missing_command = parse_profile(
        r#"
id: missing-command
mappings:
  - from: btn:south
    action: command
"#,
        "missing-command.yaml",
    )
    .unwrap_err();
    assert!(missing_command.contains("requires command"), "{missing_command}");

    let axis_source = parse_profile(
        r#"
id: command-axis-source
mappings:
  - from: abs:x
    action: command
    command: stop_macros
"#,
        "command-axis-source.yaml",
    )
    .unwrap_err();
    assert!(axis_source.contains("requires a button source"), "{axis_source}");

    let turbo_error = parse_profile(
        r#"
id: command-turbo
mappings:
  - from: btn:south
    action: command
    command: stop_macros
    turbo: true
"#,
        "command-turbo.yaml",
    )
    .unwrap_err();
    assert!(turbo_error.contains("cannot use turbo"), "{turbo_error}");

    let unknown = parse_profile(
        r#"
id: unknown-command
mappings:
  - from: btn:south
    action: command
    command: launch_missiles
"#,
        "unknown-command.yaml",
    )
    .unwrap_err();
    assert!(unknown.contains("unknown command action"), "{unknown}");

    let missing_run_command_line = parse_profile(
        r#"
id: missing-run-command-line
mappings:
  - from: btn:south
    action: command
    command: run
"#,
        "missing-run-command-line.yaml",
    )
    .unwrap_err();
    assert!(missing_run_command_line.contains("requires command_line"), "{missing_run_command_line}");
}

#[test]
fn rejects_turbo_for_disabled_or_axis_mappings() {
    let disabled_error = parse_profile(
        r#"
id: disabled-turbo
mappings:
  - from: btn:south
    action: disable
    turbo: true
"#,
        "disabled-turbo.yaml",
    )
    .unwrap_err();
    assert!(disabled_error.contains("cannot use turbo"), "{disabled_error}");

    let axis_error = parse_profile(
        r#"
id: axis-turbo
mappings:
  - from: abs:x
    to: abs:y
    turbo: true
"#,
        "axis-turbo.yaml",
    )
    .unwrap_err();
    assert!(axis_error.contains("button source and target"), "{axis_error}");
}

#[test]
fn parses_controller_macro_mappings() {
    let profile = parse_profile(
        r#"
id: macro
mappings:
  - from: btn:start
    action: macro
    macro:
      mode: press
      events:
        - down: btn:south
        - pause_ms: 40
        - up: btn:south
        - tap: btn:east
        - axis: abs:x
          value: 12000
        - pause_ms: 20
        - axis: abs:x
          value: 0
"#,
        "macro.yaml",
    )
    .unwrap();

    assert_eq!(profile.mappings.len(), 1);
    assert_eq!(profile.mappings[0].action, MappingAction::Macro);
    assert_eq!(profile.mappings[0].to_name, "btn:south");
    assert!(profile.mapping_table().is_empty());

    let macro_settings = profile.mappings[0].macro_settings.as_ref().unwrap();
    assert_eq!(macro_settings.mode, MacroMode::Press);
    assert_eq!(macro_settings.events.len(), 7);
    assert!(macro_settings.release_events.is_empty());
    assert_eq!(macro_settings.events[0].kind, MacroEventKind::Down);
    assert_eq!(macro_settings.events[0].code_name, "btn:south");
    assert_eq!(macro_settings.events[1].kind, MacroEventKind::Pause);
    assert_eq!(macro_settings.events[1].pause_ms, 40);
    assert_eq!(macro_settings.events[3].kind, MacroEventKind::Tap);
    assert_eq!(macro_settings.events[4].kind, MacroEventKind::Axis);
    assert_eq!(macro_settings.events[4].code_name, "abs:x");
    assert_eq!(macro_settings.events[4].value, 12000);
    assert_eq!(macro_settings.duration_ms, 80);
    assert_eq!(macro_settings.release_duration_ms, 0);
}

#[test]
fn parses_stick_deflection_macro_events() {
    let profile = parse_profile(
        r#"
id: stick-macro
mappings:
  - from: btn:start
    action: macro
    macro:
      mode: press
      events:
        - stick: left
          x: 0.5
          y: -0.25
        - pause_ms: 25
        - stick: right
          x: -1.0
        - stick: right
          x: 0.0
"#,
        "stick-macro.yaml",
    )
    .unwrap();

    let macro_settings = profile.mappings[0].macro_settings.as_ref().unwrap();
    assert_eq!(macro_settings.events.len(), 5);
    assert_eq!(macro_settings.events[0].kind, MacroEventKind::Axis);
    assert_eq!(macro_settings.events[0].code_name, "abs:x");
    assert_eq!(macro_settings.events[0].value, 16384);
    assert_eq!(macro_settings.events[1].code_name, "abs:y");
    assert_eq!(macro_settings.events[1].value, -8192);
    assert_eq!(macro_settings.events[3].code_name, "abs:rx");
    assert_eq!(macro_settings.events[3].value, -32768);
    assert_eq!(macro_settings.events[4].code_name, "abs:rx");
    assert_eq!(macro_settings.events[4].value, 0);
    assert_eq!(macro_settings.duration_ms, 25);
}

#[test]
fn parses_macro_cancel_events() {
    let profile = parse_profile(
        r#"
id: macro-cancel
mappings:
  - from: btn:start
    action: macro
    macro:
      events:
        - down: btn:south
        - pause_ms: 100
        - cancel: true
        - tap: btn:east
  - from: btn:select
    action: macro
    macro:
      events:
        - break: true
  - from: btn:mode
    action: macro
    macro:
      events:
        - stop: true
"#,
        "macro-cancel.yaml",
    )
    .unwrap();

    let macro_settings = profile.mappings[0].macro_settings.as_ref().unwrap();
    assert_eq!(macro_settings.events.len(), 4);
    assert_eq!(macro_settings.events[2].kind, MacroEventKind::Cancel);
    assert_eq!(macro_settings.duration_ms, 100);
    assert_eq!(
        profile.mappings[1].macro_settings.as_ref().unwrap().events[0].kind,
        MacroEventKind::Cancel
    );
    assert_eq!(
        profile.mappings[2].macro_settings.as_ref().unwrap().events[0].kind,
        MacroEventKind::Cancel
    );

    let error = parse_profile(
        r#"
id: bad-macro-cancel
mappings:
  - from: btn:start
    action: macro
    macro:
      events:
        - cancel: false
"#,
        "bad-macro-cancel.yaml",
    )
    .unwrap_err();
    assert!(error.contains("must be true"), "{error}");
}

#[test]
fn parses_hold_macro_release_events() {
    let explicit = parse_profile(
        r#"
id: hold-explicit
mappings:
  - from: btn:tl
    action: macro
    macro:
      mode: hold
      events:
        - down: btn:south
        - axis: abs:x
          value: 12000
      release_events:
        - axis: abs:x
          value: 0
        - up: btn:south
"#,
        "hold-explicit.yaml",
    )
    .unwrap();

    let macro_settings = explicit.mappings[0].macro_settings.as_ref().unwrap();
    assert_eq!(macro_settings.mode, MacroMode::Hold);
    assert_eq!(macro_settings.events.len(), 2);
    assert_eq!(macro_settings.release_events.len(), 2);
    assert_eq!(macro_settings.duration_ms, 0);
    assert_eq!(macro_settings.release_duration_ms, 0);
    assert_eq!(macro_settings.release_events[0].kind, MacroEventKind::Axis);
    assert_eq!(macro_settings.release_events[0].code_name, "abs:x");
    assert_eq!(macro_settings.release_events[0].value, 0);
    assert_eq!(macro_settings.release_events[1].kind, MacroEventKind::Up);
    assert_eq!(macro_settings.release_events[1].code_name, "btn:south");

    let automatic = parse_profile(
        r#"
id: hold-automatic
mappings:
  - from: btn:tr
    macro:
      mode: hold
      events:
        - tap: btn:east
        - down: btn:south
        - axis: abs:y
          value: -15000
"#,
        "hold-automatic.yaml",
    )
    .unwrap();

    let macro_settings = automatic.mappings[0].macro_settings.as_ref().unwrap();
    assert_eq!(macro_settings.mode, MacroMode::Hold);
    assert_eq!(macro_settings.release_events.len(), 2);
    assert_eq!(macro_settings.release_events[0].kind, MacroEventKind::Up);
    assert_eq!(macro_settings.release_events[0].code_name, "btn:south");
    assert_eq!(macro_settings.release_events[1].kind, MacroEventKind::Axis);
    assert_eq!(macro_settings.release_events[1].code_name, "abs:y");
    assert_eq!(macro_settings.release_events[1].value, 0);
}

#[test]
fn rejects_invalid_macro_mappings() {
    let axis_source_error = parse_profile(
        r#"
id: axis-source
mappings:
  - from: abs:x
    action: macro
    macro:
      events:
        - tap: btn:south
"#,
        "axis-source.yaml",
    )
    .unwrap_err();
    assert!(axis_source_error.contains("requires a button source"), "{axis_source_error}");

    let turbo_error = parse_profile(
        r#"
id: turbo-macro
mappings:
  - from: btn:start
    action: macro
    turbo: true
    macro:
      events:
        - tap: btn:south
"#,
        "turbo-macro.yaml",
    )
    .unwrap_err();
    assert!(turbo_error.contains("cannot use turbo"), "{turbo_error}");

    let bad_axis_error = parse_profile(
        r#"
id: bad-axis-macro
mappings:
  - from: btn:start
    action: macro
    macro:
      events:
        - axis: abs:x
"#,
        "bad-axis-macro.yaml",
    )
    .unwrap_err();
    assert!(bad_axis_error.contains("requires value"), "{bad_axis_error}");

    let bad_stick_value = parse_profile(
        r#"
id: bad-stick-macro
mappings:
  - from: btn:start
    action: macro
    macro:
      events:
        - stick: left
          x: 1.5
"#,
        "bad-stick-macro.yaml",
    )
    .unwrap_err();
    assert!(bad_stick_value.contains("must stay within -1.0..1.0"), "{bad_stick_value}");

    let press_release_error = parse_profile(
        r#"
id: press-release
mappings:
  - from: btn:start
    action: macro
    macro:
      mode: press
      events:
        - tap: btn:south
      release_events:
        - up: btn:south
"#,
        "press-release.yaml",
    )
    .unwrap_err();
    assert!(press_release_error.contains("cannot use release_events"), "{press_release_error}");
}

#[test]
fn direct_relative_axis_targets_are_virtual_output_capabilities() {
    let profile = parse_profile(
        r#"
id: mouse-output
mappings:
  - from: abs:x
    to: rel:x
  - from: abs:y
    to: rel:y
"#,
        "mouse-output.yaml",
    )
    .unwrap();

    let events = profile_output_events(&profile);
    assert!(events.contains(&parse_event_code("rel:x").unwrap()));
    assert!(events.contains(&parse_event_code("rel:y").unwrap()));
}

// ---------------------------------------------------------------------------
// Further cases

#[test]
fn device_ids_read_as_hex_or_decimal() {
    assert_eq!(IdValue::parse("0x054c"), Some(IdValue(0x054c)));
    assert_eq!(IdValue::parse(" 0X45E "), Some(IdValue(0x045e)));
    assert_eq!(IdValue::parse("1356"), Some(IdValue(1356)));
    assert_eq!(IdValue::parse("+7"), Some(IdValue(7)));
    assert_eq!(IdValue::parse("65535"), Some(IdValue(65535)));
    assert_eq!(IdValue::parse("65536"), None);
    assert_eq!(IdValue::parse("0x1ffff"), None);
    assert_eq!(IdValue::parse("0x"), None);
    assert_eq!(IdValue::parse("-1"), None);
    assert_eq!(IdValue::parse("12ab"), None);
    assert_eq!(IdValue::from_integer(0x054c), Some(IdValue(0x054c)));
    assert_eq!(IdValue::from_integer(-1), None);
    assert_eq!(IdValue::from_integer(70000), None);
}

#[test]
fn profile_errors_read_as_messages() {
    let error = parse_profile(
        r#"
id: bad-source
mappings:
  - from: btn:nothing
    to: btn:south
"#,
        "bad-source.yaml",
    )
    .unwrap_err();
    assert_eq!(error, "unknown source event btn:nothing in top-level mappings");

    let error = parse_profile(
        r#"
id: bad-axis-range
mappings:
  - from: btn:start
    action: macro
    macro:
      events:
        - axis: abs:z
          value: 300
"#,
        "bad-axis-range.yaml",
    )
    .unwrap_err();
    assert_eq!(
        error,
        "macro axis value for event 1 from btn:start in top-level mappings must stay within 0..255"
    );
}

#[test]
fn document_defaults_fill_in_id_and_output() {
    let profile = parse_profile("mappings: []\n", "/profiles/nes-pad.yaml").unwrap();
    assert_eq!(profile.id, "nes-pad");
    assert_eq!(profile.name, "nes-pad");
    assert_eq!(profile.output_type, "xbox360");
    assert_eq!(profile.source_path, "/profiles/nes-pad.yaml");
}

#[test]
fn mapping_table_is_the_main_layers() {
    let profile = parse_profile(
        r#"
id: layered
layers:
  - id: main
    mappings:
      - from: btn:south
        to: btn:south
  - id: shift_1
    activation:
      mode: hold
      control: btn:tl
    mappings:
      - from: btn:south
        to: btn:east
      - from: btn:north
        to: btn:west
"#,
        "layered.yaml",
    )
    .unwrap();

    let south = parse_event_code("btn:south").unwrap();
    assert_eq!(profile.main_layer().id, MAIN_LAYER_ID);
    assert_eq!(profile.mapping_table(), vec![(south, south)]);
}
