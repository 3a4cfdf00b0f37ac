use padproxy::engine::{profile_output_events, EngineOutput, RemapEngine};
use padproxy::engine_spec::{AbsoluteRoute, OutputEvent};
use padproxy::event_code::{parse_event_code, EventCode};
use padproxy::profiles::{
    ActivatorKind, ActivatorSettings, CommandAction, CommandSettings, DeviceMatch, Layer,
    LayerActivation, LayerActivationMode, MacroEvent, MacroEventKind, MacroMode, MacroSettings,
    Mapping, MappingAction, ProcessMatch, Profile, TurboSettings,
};

fn code(name: &str) -> EventCode {
    parse_event_code(name).unwrap()
}

fn remap(from: &str, to: &str) -> Mapping {
    Mapping {
        from: code(from),
        to: code(to),
        from_name: from.to_string(),
        to_name: to.to_string(),
        action: MappingAction::Remap,
        activator: ActivatorSettings::default(),
        turbo: None,
        macro_settings: None,
        command: None,
    }
}

fn with_action(from: &str, action: MappingAction) -> Mapping {
    Mapping { action, ..remap(from, from) }
}

fn step(kind: MacroEventKind, target: Option<&str>, value: i32, pause_ms: u64) -> MacroEvent {
    MacroEvent {
        kind,
        code: target.map(code),
        code_name: target.unwrap_or("").to_string(),
        value,
        pause_ms,
    }
}

fn macro_mapping(from: &str, mode: MacroMode, events: Vec<MacroEvent>, release: Vec<MacroEvent>) -> Mapping {
    Mapping {
        macro_settings: Some(MacroSettings {
            mode,
            events,
            release_events: release,
            duration_ms: 0,
            release_duration_ms: 0,
        }),
        ..with_action(from, MappingAction::Macro)
    }
}

fn layer(id: &str, activation: Option<LayerActivation>, mappings: Vec<Mapping>) -> Layer {
    Layer { id: id.to_string(), name: id.to_string(), activation, mappings }
}

fn profile(passthrough: bool, layers: Vec<Layer>) -> Profile {
    Profile {
        id: "test".to_string(),
        name: "test".to_string(),
        description: String::new(),
        device_match: DeviceMatch::default(),
        groups: Vec::new(),
        process_match: ProcessMatch::default(),
        output_type: "xbox360".to_string(),
        outputs: Vec::new(),
        passthrough,
        grab_source: true,
        source_path: String::new(),
        mappings: layers[0].mappings.clone(),
        layers,
    }
}

fn output() -> EngineOutput {
    EngineOutput { events: Vec::new(), commands: Vec::new() }
}

fn ev(name: &str, value: i32) -> OutputEvent {
    OutputEvent { code: code(name), value }
}

#[test]
fn plain_remap_presses_and_releases_target() {
    let p = profile(true, vec![layer("main", None, vec![remap("btn:south", "btn:east")])]);
    let mut engine = RemapEngine::new(&p);
    let mut out = output();
    engine.key_event(code("btn:south"), 1, 0, &mut out);
    engine.key_event(code("btn:south"), 2, 5, &mut out);
    engine.key_event(code("btn:south"), 0, 10, &mut out);
    assert_eq!(out.events, vec![ev("btn:east", 1), ev("btn:east", 0)]);
    assert!(out.commands.is_empty());
}

#[test]
fn unmapped_sources_pass_through_only_when_enabled() {
    let on = profile(true, vec![layer("main", None, Vec::new())]);
    let mut engine = RemapEngine::new(&on);
    let mut out = output();
    engine.key_event(code("btn:north"), 1, 0, &mut out);
    engine.key_event(code("btn:north"), 0, 1, &mut out);
    assert_eq!(out.events, vec![ev("btn:north", 1), ev("btn:north", 0)]);

    let off = profile(false, vec![layer("main", None, Vec::new())]);
    let mut engine = RemapEngine::new(&off);
    let mut out = output();
    engine.key_event(code("btn:north"), 1, 0, &mut out);
    engine.key_event(code("btn:north"), 0, 1, &mut out);
    assert!(out.events.is_empty());
}

#[test]
fn disabled_sources_send_nothing() {
    let p = profile(true, vec![layer("main", None, vec![with_action("btn:mode", MappingAction::Disable)])]);
    let mut engine = RemapEngine::new(&p);
    let mut out = output();
    engine.key_event(code("btn:mode"), 1, 0, &mut out);
    engine.key_event(code("btn:mode"), 0, 1, &mut out);
    assert!(out.events.is_empty());
}

#[test]
fn turbo_alternates_while_held() {
    let m = Mapping { turbo: Some(TurboSettings { interval_ms: 75 }), ..remap("btn:south", "btn:south") };
    let p = profile(true, vec![layer("main", None, vec![m])]);
    let mut engine = RemapEngine::new(&p);
    let mut out = output();
    engine.key_event(code("btn:south"), 1, 1000, &mut out);
    engine.push_due_turbo_events(1050, &mut out);
    engine.push_due_turbo_events(1075, &mut out);
    engine.push_due_turbo_events(1150, &mut out);
    assert_eq!(out.events, vec![ev("btn:south", 1), ev("btn:south", 0), ev("btn:south", 1)]);
    engine.push_due_turbo_events(1225, &mut out);
    // The output is up now, so the release sends nothing more.
    engine.key_event(code("btn:south"), 0, 1230, &mut out);
    assert_eq!(out.events, vec![ev("btn:south", 1), ev("btn:south", 0), ev("btn:south", 1), ev("btn:south", 0)]);
}

#[test]
fn hold_layer_applies_while_control_is_down() {
    let activation = LayerActivation {
        mode: LayerActivationMode::Hold,
        control: code("btn:tl"),
        control_name: "btn:tl".to_string(),
        consume: true,
    };
    let p = profile(
        true,
        vec![
            layer("main", None, vec![remap("btn:south", "btn:south")]),
            layer("shift_1", Some(activation), vec![remap("btn:south", "btn:east")]),
        ],
    );
    let mut engine = RemapEngine::new(&p);
    let mut out = output();
    assert!(engine.update_layer_activation(code("btn:tl"), 1));
    engine.key_event(code("btn:south"), 1, 0, &mut out);
    engine.key_event(code("btn:south"), 0, 1, &mut out);
    assert!(engine.update_layer_activation(code("btn:tl"), 0));
    engine.key_event(code("btn:south"), 1, 2, &mut out);
    engine.key_event(code("btn:south"), 0, 3, &mut out);
    assert!(!engine.update_layer_activation(code("btn:south"), 1));
    assert_eq!(
        out.events,
        vec![ev("btn:east", 1), ev("btn:east", 0), ev("btn:south", 1), ev("btn:south", 0)]
    );
}

#[test]
fn toggle_layer_flips_once_per_press() {
    let activation = LayerActivation {
        mode: LayerActivationMode::Toggle,
        control: code("btn:tr"),
        control_name: "btn:tr".to_string(),
        consume: false,
    };
    let p = profile(
        true,
        vec![
            layer("main", None, Vec::new()),
            layer("shift_1", Some(activation), vec![remap("btn:south", "btn:west")]),
        ],
    );
    let mut engine = RemapEngine::new(&p);
    let mut out = output();
    assert!(!engine.update_layer_activation(code("btn:tr"), 1));
    assert!(!engine.update_layer_activation(code("btn:tr"), 1));
    assert!(!engine.update_layer_activation(code("btn:tr"), 0));
    engine.key_event(code("btn:south"), 1, 0, &mut out);
    engine.key_event(code("btn:south"), 0, 1, &mut out);
    engine.update_layer_activation(code("btn:tr"), 1);
    engine.update_layer_activation(code("btn:tr"), 0);
    engine.key_event(code("btn:south"), 1, 2, &mut out);
    engine.key_event(code("btn:south"), 0, 3, &mut out);
    assert_eq!(
        out.events,
        vec![ev("btn:west", 1), ev("btn:west", 0), ev("btn:south", 1), ev("btn:south", 0)]
    );
}

fn run_due_macros(engine: &mut RemapEngine, now: u64, out: &mut EngineOutput) {
    while let Some((event, value)) = engine.next_due_macro(now, out) {
        engine.emit_macro_output(event, value, out);
    }
}

#[test]
fn macro_steps_run_at_their_times() {
    let events = vec![
        step(MacroEventKind::Tap, Some("btn:south"), 1, 0),
        step(MacroEventKind::Pause, None, 0, 50),
        step(MacroEventKind::Down, Some("btn:east"), 1, 0),
    ];
    let p = profile(true, vec![layer("main", None, vec![macro_mapping("btn:start", MacroMode::Press, events, Vec::new())])]);
    let mut engine = RemapEngine::new(&p);
    let mut out = output();
    engine.key_event(code("btn:start"), 1, 100, &mut out);
    run_due_macros(&mut engine, 100, &mut out);
    assert_eq!(out.events, vec![ev("btn:south", 1)]);
    run_due_macros(&mut engine, 119, &mut out);
    assert_eq!(out.events.len(), 1);
    run_due_macros(&mut engine, 120, &mut out);
    assert_eq!(out.events, vec![ev("btn:south", 1), ev("btn:south", 0)]);
    run_due_macros(&mut engine, 170, &mut out);
    assert_eq!(out.events, vec![ev("btn:south", 1), ev("btn:south", 0), ev("btn:east", 1)]);
}

#[test]
fn cancel_step_releases_held_macro_output() {
    let events = vec![
        step(MacroEventKind::Down, Some("btn:south"), 1, 0),
        step(MacroEventKind::Axis, Some("abs:x"), 12000, 0),
        step(MacroEventKind::Pause, None, 0, 250),
        step(MacroEventKind::Cancel, None, 0, 0),
        step(MacroEventKind::Tap, Some("btn:east"), 1, 0),
    ];
    let p = profile(true, vec![layer("main", None, vec![macro_mapping("btn:mode", MacroMode::Press, events, Vec::new())])]);
    let mut engine = RemapEngine::new(&p);
    let mut out = output();
    engine.key_event(code("btn:mode"), 1, 0, &mut out);
    run_due_macros(&mut engine, 0, &mut out);
    assert_eq!(out.events, vec![ev("btn:south", 1), ev("abs:x", 12000)]);
    run_due_macros(&mut engine, 250, &mut out);
    assert_eq!(
        out.events,
        vec![ev("btn:south", 1), ev("abs:x", 12000), ev("btn:south", 0), ev("abs:x", 0)]
    );
    // The tap queued after the cancel was dropped with the rest.
    run_due_macros(&mut engine, 1000, &mut out);
    assert_eq!(out.events.len(), 4);
}

#[test]
fn hold_macro_runs_release_steps_on_release() {
    let events = vec![step(MacroEventKind::Down, Some("btn:south"), 1, 0)];
    let release = vec![step(MacroEventKind::Up, Some("btn:south"), 0, 0)];
    let p = profile(true, vec![layer("main", None, vec![macro_mapping("btn:tl", MacroMode::Hold, events, release)])]);
    let mut engine = RemapEngine::new(&p);
    let mut out = output();
    engine.key_event(code("btn:tl"), 1, 0, &mut out);
    run_due_macros(&mut engine, 0, &mut out);
    engine.key_event(code("btn:tl"), 0, 40, &mut out);
    run_due_macros(&mut engine, 40, &mut out);
    assert_eq!(out.events, vec![ev("btn:south", 1), ev("btn:south", 0)]);
}

#[test]
fn long_press_fires_only_after_its_delay() {
    let m = Mapping {
        activator: ActivatorSettings { kind: ActivatorKind::LongPress, delay_ms: 450 },
        ..remap("btn:west", "btn:north")
    };
    let p = profile(true, vec![layer("main", None, vec![m])]);
    let mut engine = RemapEngine::new(&p);
    let mut out = output();
    engine.key_event(code("btn:west"), 1, 0, &mut out);
    engine.push_due_activator_events(100, &mut out);
    engine.key_event(code("btn:west"), 0, 200, &mut out);
    engine.push_due_activator_events(1000, &mut out);
    assert!(out.events.is_empty());

    engine.key_event(code("btn:west"), 1, 2000, &mut out);
    engine.push_due_activator_events(2449, &mut out);
    assert!(out.events.is_empty());
    engine.push_due_activator_events(2450, &mut out);
    assert_eq!(out.events, vec![ev("btn:north", 1), ev("btn:north", 0)]);
    engine.push_due_activator_events(3000, &mut out);
    assert_eq!(out.events.len(), 2);
}

#[test]
fn double_press_fires_on_second_press() {
    let m = Mapping {
        activator: ActivatorSettings { kind: ActivatorKind::DoublePress, delay_ms: 300 },
        ..remap("btn:start", "btn:select")
    };
    let p = profile(true, vec![layer("main", None, vec![m])]);
    let mut engine = RemapEngine::new(&p);
    let mut out = output();
    engine.key_event(code("btn:start"), 1, 0, &mut out);
    engine.key_event(code("btn:start"), 0, 50, &mut out);
    assert!(out.events.is_empty());
    engine.key_event(code("btn:start"), 1, 100, &mut out);
    assert_eq!(out.events, vec![ev("btn:select", 1), ev("btn:select", 0)]);

    // A first press whose time ran out is forgotten.
    engine.key_event(code("btn:start"), 0, 120, &mut out);
    engine.key_event(code("btn:start"), 1, 200, &mut out);
    engine.push_due_activator_events(600, &mut out);
    engine.key_event(code("btn:start"), 0, 610, &mut out);
    engine.key_event(code("btn:start"), 1, 620, &mut out);
    assert_eq!(out.events.len(), 2);
}

#[test]
fn commands_launch_stop_and_turn_off() {
    let run = Mapping {
        command: Some(CommandSettings {
            action: CommandAction::RunCommand,
            command_line: vec!["notify-send".to_string(), "PadProxy".to_string()],
        }),
        ..with_action("btn:select", MappingAction::Command)
    };
    let off = Mapping {
        command: Some(CommandSettings { action: CommandAction::RemapOff, command_line: Vec::new() }),
        ..with_action("btn:mode", MappingAction::Command)
    };
    let p = profile(true, vec![layer("main", None, vec![run, off])]);
    let mut engine = RemapEngine::new(&p);
    let mut out = output();
    engine.key_event(code("btn:select"), 1, 0, &mut out);
    engine.key_event(code("btn:select"), 1, 5, &mut out);
    engine.key_event(code("btn:select"), 0, 10, &mut out);
    assert_eq!(out.commands, vec![vec!["notify-send".to_string(), "PadProxy".to_string()]]);
    assert!(out.events.is_empty());
    assert!(!engine.stop_requested());
    engine.key_event(code("btn:mode"), 1, 20, &mut out);
    assert!(engine.stop_requested());
}

#[test]
fn absolute_axes_follow_their_mapping() {
    let p = profile(
        false,
        vec![layer(
            "main",
            None,
            vec![remap("abs:rx", "rel:x"), remap("abs:x", "abs:y"), with_action("abs:z", MappingAction::Disable)],
        )],
    );
    let engine = RemapEngine::new(&p);
    let plan = engine.absolute_plan(code("abs:rx"));
    assert_eq!(plan.route, AbsoluteRoute::Relative { target: code("rel:x") });
    assert!(!plan.transformable);
    let plan = engine.absolute_plan(code("abs:x"));
    assert_eq!(plan.route, AbsoluteRoute::Emit { target: code("abs:y") });
    assert!(plan.transformable);
    assert_eq!(engine.absolute_plan(code("abs:z")).route, AbsoluteRoute::Drop);
    // Without pass-through an unmapped axis is dropped.
    assert_eq!(engine.absolute_plan(code("abs:ry")).route, AbsoluteRoute::Drop);
}

#[test]
fn output_events_cover_remaps_and_macro_codes() {
    let events = vec![step(MacroEventKind::Tap, Some("key:enter"), 1, 0)];
    let release = vec![step(MacroEventKind::Relative, Some("rel:wheel"), -1, 0)];
    let p = profile(
        true,
        vec![layer(
            "main",
            None,
            vec![
                remap("btn:south", "key:space"),
                remap("btn:east", "key:space"),
                macro_mapping("btn:start", MacroMode::Hold, events, release),
                with_action("btn:mode", MappingAction::Disable),
            ],
        )],
    );
    let codes = profile_output_events(&p);
    assert_eq!(codes.len(), 3);
    assert!(codes.contains(&code("key:space")));
    assert!(codes.contains(&code("key:enter")));
    assert!(codes.contains(&code("rel:wheel")));
    assert!(!codes.contains(&code("btn:mode")));
}
