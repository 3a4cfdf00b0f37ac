//! Reading the macro part of a mapping: its mode, its steps and the steps a
//! hold macro runs on release.

use vstd::prelude::*;
use crate::event_code::{
    event_name, output_supports, parse_event_code, parsed_event, virtual_output_supports,
    EventCode, EventKind, ABS_RX, ABS_RY, ABS_X, ABS_Y,
};
use crate::profile_build::{
    first_some, fail, fail_at, fail_full, perr, perr_at, perr_full, ProfileError, ProfileErrorKind,
    ProfileErrorModel,
};
use crate::profiles::{
    events_view, MacroEvent, MacroEventKind, MacroEventModel, MacroMode, MacroSettings,
    MacroSettingsModel, MappingAction, MACRO_TAP_RELEASE_MS,
};
use crate::text::{chars_eq_str, chars_of, normalize_keyword, normalize_keyword_str, str_eq};

verus! {

/// The longest pause a macro step may take, in milliseconds.
pub const MAX_MACRO_PAUSE_MS: u64 = 60000;

/// The mode a keyword names.
pub open spec fn macro_mode_of(value: Seq<char>) -> Result<MacroMode, ProfileErrorModel> {
    let n = normalize_keyword(value);
    if n == "press"@ || n == "single_press"@ || n == "on_press"@ || n == "execute"@ || n
        == "execute_at_once"@ {
        Ok(MacroMode::Press)
    } else if n == "hold"@ || n == "held"@ || n == "hold_until_release"@ || n == "while_held"@ {
        Ok(MacroMode::Hold)
    } else {
        Err(perr(ProfileErrorKind::UnknownMacroMode, n, Seq::empty()))
    }
}

/// Reads a macro mode keyword: `press` runs the steps once, `hold` keeps them
/// until the source is released.
pub fn parse_macro_mode(value: &str) -> (r: Result<MacroMode, ProfileError>)
    ensures
        match r {
            Ok(m) => macro_mode_of(value@) == Ok::<MacroMode, ProfileErrorModel>(m),
            Err(e) => macro_mode_of(value@) == Err::<MacroMode, ProfileErrorModel>(e@),
        },
{
    let n = normalize_keyword_str(value);
    if chars_eq_str(&n, "press") || chars_eq_str(&n, "single_press") || chars_eq_str(
        &n,
        "on_press",
    ) || chars_eq_str(&n, "execute") || chars_eq_str(&n, "execute_at_once") {
        Ok(MacroMode::Press)
    } else if chars_eq_str(&n, "hold") || chars_eq_str(&n, "held") || chars_eq_str(
        &n,
        "hold_until_release",
    ) || chars_eq_str(&n, "while_held") {
        Ok(MacroMode::Hold)
    } else {
        let empty: Vec<char> = Vec::new();
        Err(fail(ProfileErrorKind::UnknownMacroMode, &n, &empty))
    }
}

/// The code a macro step of the given kind targets: a known event the
/// virtual output can emit, and a button for down/up/tap, an absolute axis
/// for `axis`, a relative axis for `rel`.
pub open spec fn macro_target_of(
    value: Seq<char>,
    kind: MacroEventKind,
    index: usize,
    from_name: Seq<char>,
    context: Seq<char>,
) -> Result<EventCode, ProfileErrorModel> {
    match parsed_event(value) {
        None => Err(perr_at(ProfileErrorKind::UnknownMacroTarget, from_name, context, value, index)),
        Some(code) => {
            if !output_supports(code) {
                Err(
                    perr_at(
                        ProfileErrorKind::MacroTargetUnsupported,
                        from_name,
                        context,
                        event_name(code),
                        index,
                    ),
                )
            } else if (kind == MacroEventKind::Down || kind == MacroEventKind::Up || kind
                == MacroEventKind::Tap) && code.kind != EventKind::Key {
                Err(perr_at(ProfileErrorKind::MacroButtonTarget, from_name, context, Seq::empty(), index))
            } else if kind == MacroEventKind::Axis && code.kind != EventKind::Absolute {
                Err(perr_at(ProfileErrorKind::MacroAxisTarget, from_name, context, Seq::empty(), index))
            } else if kind == MacroEventKind::Relative && code.kind != EventKind::Relative {
                Err(perr_at(ProfileErrorKind::MacroRelativeTarget, from_name, context, Seq::empty(), index))
            } else {
                Ok(code)
            }
        },
    }
}

/// Reads the event a macro step targets.
pub fn parse_macro_target(
    value: &str,
    kind: MacroEventKind,
    index: usize,
    from_name: &[char],
    context: &[char],
) -> (r: Result<EventCode, ProfileError>)
    ensures
        match r {
            Ok(c) => macro_target_of(value@, kind, index, from_name@, context@) == Ok::<EventCode, ProfileErrorModel>(c),
            Err(e) => macro_target_of(value@, kind, index, from_name@, context@) == Err::<EventCode, ProfileErrorModel>(e@),
        },
{
    let code = match parse_event_code(value) {
        Some(c) => c,
        None => {
            let v = chars_of(value);
            return Err(fail_at(ProfileErrorKind::UnknownMacroTarget, from_name, context, &v, index));
        },
    };
    let empty: Vec<char> = Vec::new();
    if !virtual_output_supports(code) {
        let n = chars_of(code.name().as_str());
        return Err(fail_at(ProfileErrorKind::MacroTargetUnsupported, from_name, context, &n, index));
    }
    let button_step = match kind {
        MacroEventKind::Down | MacroEventKind::Up | MacroEventKind::Tap => true,
        _ => false,
    };
    if button_step && code.kind != EventKind::Key {
        return Err(fail_at(ProfileErrorKind::MacroButtonTarget, from_name, context, &empty, index));
    }
    if kind == MacroEventKind::Axis && code.kind != EventKind::Absolute {
        return Err(fail_at(ProfileErrorKind::MacroAxisTarget, from_name, context, &empty, index));
    }
    if kind == MacroEventKind::Relative && code.kind != EventKind::Relative {
        return Err(fail_at(ProfileErrorKind::MacroRelativeTarget, from_name, context, &empty, index));
    }
    Ok(code)
}

/// The value range of an absolute axis, by its name: the analog triggers
/// `abs:z`/`abs:rz` run 0..255, the d-pad hats -1..1, every other axis
/// -32768..32767.
pub open spec fn axis_range(code: EventCode) -> (i32, i32) {
    let n = event_name(code);
    if n == "abs:z"@ || n == "abs:rz"@ {
        (0i32, 255i32)
    } else if n == "abs:hat0x"@ || n == "abs:hat0y"@ {
        (-1i32, 1i32)
    } else {
        (-32768i32, 32767i32)
    }
}

/// The value range of an absolute axis.
pub fn axis_value_range(code: EventCode) -> (r: (i32, i32))
    ensures
        r == axis_range(code),
{
    let n = code.name();
    if str_eq(n.as_str(), "abs:z") || str_eq(n.as_str(), "abs:rz") {
        (0, 255)
    } else if str_eq(n.as_str(), "abs:hat0x") || str_eq(n.as_str(), "abs:hat0y") {
        (-1, 1)
    } else {
        (-32768, 32767)
    }
}

/// A macro step as the model sees it.
pub open spec fn step(kind: MacroEventKind, code: Option<EventCode>, value: i32, pause_ms: u64) -> MacroEventModel {
    MacroEventModel {
        kind,
        code,
        code_name: match code {
            Some(c) => event_name(c),
            None => Seq::empty(),
        },
        value,
        pause_ms,
    }
}

fn make_step(kind: MacroEventKind, code: Option<EventCode>, value: i32, pause_ms: u64) -> (r: MacroEvent)
    ensures
        r@ == step(kind, code, value, pause_ms),
{
    let code_name = match code {
        Some(c) => c.name(),
        None => String::new(),
    };
    MacroEvent { kind, code, code_name, value, pause_ms }
}

/// A stick deflection already scaled to the stick axis' range: the unit value
/// `u` in -1.0..=1.0 becomes `round(u * 32768)` clamped to -32768..=32767;
/// a value that is not finite or lies outside -1.0..=1.0 is out of range.
#[derive(Clone, Copy, Debug, PartialEq, Eq, Structural)]
pub enum StickUnit {
    OutOfRange,
    AxisValue(i32),
}

/// One step of a macro as the document writes it; exactly one of the step
/// fields must be given.
#[derive(Clone, Debug, Default)]
pub struct RawMacroEvent {
    pub down: Option<String>,
    pub up: Option<String>,
    pub tap: Option<String>,
    pub axis: Option<String>,
    pub stick: Option<String>,
    pub x: Option<StickUnit>,
    pub y: Option<StickUnit>,
    pub rel: Option<String>,
    pub value: Option<i32>,
    pub pause_ms: Option<u64>,
    pub cancel: Option<bool>,
    pub break_event: Option<bool>,
    pub stop: Option<bool>,
}

pub open spec fn given<T>(o: Option<T>) -> int {
    if o is Some {
        1
    } else {
        0
    }
}

/// How many of the step fields a raw step sets.
pub open spec fn step_field_count(raw: RawMacroEvent) -> int {
    given(raw.down) + given(raw.up) + given(raw.tap) + given(raw.axis) + given(raw.stick) + given(
        raw.rel,
    ) + given(raw.pause_ms) + given(raw.cancel) + given(raw.break_event) + given(raw.stop)
}

/// The stick axes a stick keyword names.
pub open spec fn stick_axes_of(stick: Seq<char>) -> Option<(EventCode, EventCode)> {
    let n = normalize_keyword(stick);
    if n == "left"@ || n == "left_stick"@ || n == "ls"@ || n == "l"@ {
        Some(
            (
                EventCode { kind: EventKind::Absolute, code: ABS_X },
                EventCode { kind: EventKind::Absolute, code: ABS_Y },
            ),
        )
    } else if n == "right"@ || n == "right_stick"@ || n == "rs"@ || n == "r"@ {
        Some(
            (
                EventCode { kind: EventKind::Absolute, code: ABS_RX },
                EventCode { kind: EventKind::Absolute, code: ABS_RY },
            ),
        )
    } else {
        None
    }
}

/// The axis step for one stick component, or the range error naming it.
pub open spec fn stick_component_of(
    axis: EventCode,
    unit: StickUnit,
    component: Seq<char>,
    index: usize,
    from_name: Seq<char>,
    context: Seq<char>,
) -> Result<MacroEventModel, ProfileErrorModel> {
    match unit {
        StickUnit::OutOfRange => Err(
            perr_at(ProfileErrorKind::MacroStickOutOfRange, from_name, context, component, index),
        ),
        StickUnit::AxisValue(v) => Ok(step(MacroEventKind::Axis, Some(axis), v, 0)),
    }
}

/// The steps of a stick deflection: an axis step for `x` and then for `y`,
/// whichever are given.
pub open spec fn stick_steps_of(
    stick: Seq<char>,
    x: Option<StickUnit>,
    y: Option<StickUnit>,
    index: usize,
    from_name: Seq<char>,
    context: Seq<char>,
) -> Result<Seq<MacroEventModel>, ProfileErrorModel> {
    match stick_axes_of(stick) {
        None => Err(
            perr_at(
                ProfileErrorKind::MacroUnknownStick,
                from_name,
                context,
                normalize_keyword(stick),
                index,
            ),
        ),
        Some((xa, ya)) => {
            if x is None && y is None {
                Err(perr_at(ProfileErrorKind::MacroStickNeedsXY, from_name, context, Seq::empty(), index))
            } else {
                let xs: Result<Seq<MacroEventModel>, ProfileErrorModel> = match x {
                    None => Ok(Seq::empty()),
                    Some(u) => match stick_component_of(xa, u, "x"@, index, from_name, context) {
                        Ok(e) => Ok(seq![e]),
                        Err(e) => Err(e),
                    },
                };
                match xs {
                    Err(e) => Err(e),
                    Ok(xs) => match y {
                        None => Ok(xs),
                        Some(u) => match stick_component_of(ya, u, "y"@, index, from_name, context) {
                            Ok(e) => Ok(xs.push(e)),
                            Err(e) => Err(e),
                        },
                    },
                }
            }
        },
    }
}

fn parse_stick_component(
    axis: EventCode,
    unit: StickUnit,
    component: &str,
    index: usize,
    from_name: &[char],
    context: &[char],
) -> (r: Result<MacroEvent, ProfileError>)
    ensures
        match r {
            Ok(e) => stick_component_of(axis, unit, component@, index, from_name@, context@) == Ok::<MacroEventModel, ProfileErrorModel>(e@),
            Err(e) => stick_component_of(axis, unit, component@, index, from_name@, context@) == Err::<MacroEventModel, ProfileErrorModel>(e@),
        },
{
    match unit {
        StickUnit::OutOfRange => {
            let c = chars_of(component);
            Err(fail_at(ProfileErrorKind::MacroStickOutOfRange, from_name, context, &c, index))
        },
        StickUnit::AxisValue(v) => Ok(make_step(MacroEventKind::Axis, Some(axis), v, 0)),
    }
}

/// Reads a stick deflection step (`stick: left` with `x`/`y`).
pub fn parse_macro_stick_event(
    stick: &str,
    x: Option<StickUnit>,
    y: Option<StickUnit>,
    index: usize,
    from_name: &[char],
    context: &[char],
) -> (r: Result<Vec<MacroEvent>, ProfileError>)
    ensures
        match r {
            Ok(v) => stick_steps_of(stick@, x, y, index, from_name@, context@) == Ok::<Seq<MacroEventModel>, ProfileErrorModel>(events_view(v@)),
            Err(e) => stick_steps_of(stick@, x, y, index, from_name@, context@) == Err::<Seq<MacroEventModel>, ProfileErrorModel>(e@),
        },
{
    let n = normalize_keyword_str(stick);
    let (xa, ya) = if chars_eq_str(&n, "left") || chars_eq_str(&n, "left_stick") || chars_eq_str(
        &n,
        "ls",
    ) || chars_eq_str(&n, "l") {
        (
            EventCode { kind: EventKind::Absolute, code: ABS_X },
            EventCode { kind: EventKind::Absolute, code: ABS_Y },
        )
    } else if chars_eq_str(&n, "right") || chars_eq_str(&n, "right_stick") || chars_eq_str(
        &n,
        "rs",
    ) || chars_eq_str(&n, "r") {
        (
            EventCode { kind: EventKind::Absolute, code: ABS_RX },
            EventCode { kind: EventKind::Absolute, code: ABS_RY },
        )
    } else {
        return Err(fail_at(ProfileErrorKind::MacroUnknownStick, from_name, context, &n, index));
    };
    if x.is_none() && y.is_none() {
        let empty: Vec<char> = Vec::new();
        return Err(fail_at(ProfileErrorKind::MacroStickNeedsXY, from_name, context, &empty, index));
    }
    let mut events: Vec<MacroEvent> = Vec::new();
    if let Some(u) = x {
        let e = parse_stick_component(xa, u, "x", index, from_name, context)?;
        events.push(e);
    }
    if let Some(u) = y {
        let e = parse_stick_component(ya, u, "y", index, from_name, context)?;
        events.push(e);
    }
    assert(events_view(events@) =~= match stick_steps_of(stick@, x, y, index, from_name@, context@) {
        Ok(v) => v,
        Err(_) => Seq::empty(),
    });
    Ok(events)
}

/// A button step (down, up or tap) on the target a raw text names.
pub open spec fn button_step_of(
    target: Seq<char>,
    kind: MacroEventKind,
    value: i32,
    index: usize,
    from_name: Seq<char>,
    context: Seq<char>,
) -> Result<Seq<MacroEventModel>, ProfileErrorModel> {
    match macro_target_of(target, kind, index, from_name, context) {
        Err(e) => Err(e),
        Ok(code) => Ok(seq![step(kind, Some(code), value, 0)]),
    }
}

/// The steps one raw macro step stands for, checked in this order: exactly
/// one step field; `x`/`y` only with `stick`; cancel (also `break`, `stop`)
/// must be true; a pause of at most 60000 ms; down, up and tap target a
/// button; a stick step has no `value`; a relative step needs a value within
/// -32768..=32767; an axis step needs a value within the axis' range.
pub open spec fn macro_event_of(
    raw: RawMacroEvent,
    index: usize,
    from_name: Seq<char>,
    context: Seq<char>,
) -> Result<Seq<MacroEventModel>, ProfileErrorModel> {
    if step_field_count(raw) != 1 {
        Err(perr_at(ProfileErrorKind::MacroEventFieldCount, from_name, context, Seq::empty(), index))
    } else if raw.stick is None && (raw.x is Some || raw.y is Some) {
        Err(perr_at(ProfileErrorKind::MacroXYWithoutStick, from_name, context, Seq::empty(), index))
    } else if raw.cancel is Some || raw.break_event is Some || raw.stop is Some {
        let enabled = match first_some(first_some(raw.cancel, raw.break_event), raw.stop) {
            Some(b) => b,
            None => false,
        };
        if !enabled {
            Err(perr_at(ProfileErrorKind::MacroCancelMustBeTrue, from_name, context, Seq::empty(), index))
        } else {
            Ok(seq![step(MacroEventKind::Cancel, None, 0, 0)])
        }
    } else if raw.pause_ms is Some {
        let p = raw.pause_ms->0;
        if p > MAX_MACRO_PAUSE_MS {
            Err(perr_at(ProfileErrorKind::MacroPauseTooLong, from_name, context, Seq::empty(), index))
        } else {
            Ok(seq![step(MacroEventKind::Pause, None, 0, p)])
        }
    } else if raw.down is Some {
        button_step_of(raw.down->0@, MacroEventKind::Down, 1, index, from_name, context)
    } else if raw.up is Some {
        button_step_of(raw.up->0@, MacroEventKind::Up, 0, index, from_name, context)
    } else if raw.tap is Some {
        button_step_of(raw.tap->0@, MacroEventKind::Tap, 1, index, from_name, context)
    } else if raw.stick is Some {
        if raw.value is Some {
            Err(perr_at(ProfileErrorKind::MacroStickValue, from_name, context, Seq::empty(), index))
        } else {
            stick_steps_of(raw.stick->0@, raw.x, raw.y, index, from_name, context)
        }
    } else if raw.rel is Some {
        match macro_target_of(raw.rel->0@, MacroEventKind::Relative, index, from_name, context) {
            Err(e) => Err(e),
            Ok(code) => match raw.value {
                None => Err(
                    perr_at(ProfileErrorKind::MacroRelRequiresValue, from_name, context, Seq::empty(), index),
                ),
                Some(v) => {
                    if v < -32768 || v > 32767 {
                        Err(
                            perr_full(
                                ProfileErrorKind::MacroRelOutOfRange,
                                from_name,
                                context,
                                Seq::empty(),
                                index,
                                -32768i32,
                                32767i32,
                            ),
                        )
                    } else {
                        Ok(seq![step(MacroEventKind::Relative, Some(code), v, 0)])
                    }
                },
            },
        }
    } else {
        let target = match raw.axis {
            Some(a) => a@,
            None => Seq::empty(),
        };
        match macro_target_of(target, MacroEventKind::Axis, index, from_name, context) {
            Err(e) => Err(e),
            Ok(code) => match raw.value {
                None => Err(
                    perr_at(ProfileErrorKind::MacroAxisRequiresValue, from_name, context, Seq::empty(), index),
                ),
                Some(v) => {
                    let (low, high) = axis_range(code);
                    if v < low || v > high {
                        Err(
                            perr_full(
                                ProfileErrorKind::MacroAxisOutOfRange,
                                from_name,
                                context,
                                Seq::empty(),
                                index,
                                low,
                                high,
                            ),
                        )
                    } else {
                        Ok(seq![step(MacroEventKind::Axis, Some(code), v, 0)])
                    }
                },
            },
        }
    }
}

fn count_given<T>(o: &Option<T>) -> (r: u8)
    ensures
        r == given(*o),
{
    if o.is_some() {
        1
    } else {
        0
    }
}

fn parse_button_step(
    target: &String,
    kind: MacroEventKind,
    value: i32,
    index: usize,
    from_name: &[char],
    context: &[char],
) -> (r: Result<Vec<MacroEvent>, ProfileError>)
    ensures
        match r {
            Ok(v) => button_step_of(target@, kind, value, index, from_name@, context@) == Ok::<Seq<MacroEventModel>, ProfileErrorModel>(events_view(v@)),
            Err(e) => button_step_of(target@, kind, value, index, from_name@, context@) == Err::<Seq<MacroEventModel>, ProfileErrorModel>(e@),
        },
{
    let code = parse_macro_target(target.as_str(), kind, index, from_name, context)?;
    let v = vec![make_step(kind, Some(code), value, 0)];
    assert(events_view(v@) =~= seq![step(kind, Some(code), value, 0)]);
    Ok(v)
}

fn one_step(e: MacroEvent) -> (r: Vec<MacroEvent>)
    ensures
        events_view(r@) == seq![e@],
{
    let v = vec![e];
    assert(events_view(v@) =~= seq![e@]);
    v
}

/// Reads one step of a macro; a stick step may stand for two axis steps.
/// `index` is the step's position (from 0) in its list.
pub fn parse_macro_event(
    raw: &RawMacroEvent,
    index: usize,
    from_name: &[char],
    context: &[char],
) -> (r: Result<Vec<MacroEvent>, ProfileError>)
    ensures
        match r {
            Ok(v) => macro_event_of(*raw, index, from_name@, context@) == Ok::<Seq<MacroEventModel>, ProfileErrorModel>(events_view(v@)),
            Err(e) => macro_event_of(*raw, index, from_name@, context@) == Err::<Seq<MacroEventModel>, ProfileErrorModel>(e@),
        },
{
    let empty: Vec<char> = Vec::new();
    let specified: u8 = count_given(&raw.down) + count_given(&raw.up) + count_given(&raw.tap)
        + count_given(&raw.axis) + count_given(&raw.stick) + count_given(&raw.rel) + count_given(
        &raw.pause_ms,
    ) + count_given(&raw.cancel) + count_given(&raw.break_event) + count_given(&raw.stop);
    if specified != 1 {
        return Err(fail_at(ProfileErrorKind::MacroEventFieldCount, from_name, context, &empty, index));
    }
    if raw.stick.is_none() && (raw.x.is_some() || raw.y.is_some()) {
        return Err(fail_at(ProfileErrorKind::MacroXYWithoutStick, from_name, context, &empty, index));
    }
    if raw.cancel.is_some() || raw.break_event.is_some() || raw.stop.is_some() {
        let enabled = match raw.cancel {
            Some(b) => b,
            None => match raw.break_event {
                Some(b) => b,
                None => match raw.stop {
                    Some(b) => b,
                    None => false,
                },
            },
        };
        if !enabled {
            return Err(fail_at(ProfileErrorKind::MacroCancelMustBeTrue, from_name, context, &empty, index));
        }
        return Ok(one_step(make_step(MacroEventKind::Cancel, None, 0, 0)));
    }
    if let Some(p) = raw.pause_ms {
        if p > MAX_MACRO_PAUSE_MS {
            return Err(fail_at(ProfileErrorKind::MacroPauseTooLong, from_name, context, &empty, index));
        }
        return Ok(one_step(make_step(MacroEventKind::Pause, None, 0, p)));
    }
    if let Some(t) = &raw.down {
        return parse_button_step(t, MacroEventKind::Down, 1, index, from_name, context);
    }
    if let Some(t) = &raw.up {
        return parse_button_step(t, MacroEventKind::Up, 0, index, from_name, context);
    }
    if let Some(t) = &raw.tap {
        return parse_button_step(t, MacroEventKind::Tap, 1, index, from_name, context);
    }
    if let Some(stick) = &raw.stick {
        if raw.value.is_some() {
            return Err(fail_at(ProfileErrorKind::MacroStickValue, from_name, context, &empty, index));
        }
        return parse_macro_stick_event(stick.as_str(), raw.x, raw.y, index, from_name, context);
    }
    if let Some(t) = &raw.rel {
        let code = parse_macro_target(t.as_str(), MacroEventKind::Relative, index, from_name, context)?;
        let v = match raw.value {
            Some(v) => v,
            None => {
                return Err(fail_at(ProfileErrorKind::MacroRelRequiresValue, from_name, context, &empty, index));
            },
        };
        if v < -32768 || v > 32767 {
            return Err(
                fail_full(ProfileErrorKind::MacroRelOutOfRange, from_name, context, &empty, index, -32768, 32767),
            );
        }
        return Ok(one_step(make_step(MacroEventKind::Relative, Some(code), v, 0)));
    }
    let target = match &raw.axis {
        Some(a) => a.as_str(),
        None => "",
    };
    let code = parse_macro_target(target, MacroEventKind::Axis, index, from_name, context)?;
    let v = match raw.value {
        Some(v) => v,
        None => {
            return Err(fail_at(ProfileErrorKind::MacroAxisRequiresValue, from_name, context, &empty, index));
        },
    };
    let (low, high) = axis_value_range(code);
    if v < low || v > high {
        return Err(fail_full(ProfileErrorKind::MacroAxisOutOfRange, from_name, context, &empty, index, low, high));
    }
    Ok(one_step(make_step(MacroEventKind::Axis, Some(code), v, 0)))
}

/// The steps of a list of raw steps, in order; the first bad step decides
/// the error.
pub open spec fn macro_events_of(
    raws: Seq<RawMacroEvent>,
    from_name: Seq<char>,
    context: Seq<char>,
) -> Result<Seq<MacroEventModel>, ProfileErrorModel>
    decreases raws.len(),
{
    if raws.len() == 0 {
        Ok(Seq::empty())
    } else {
        match macro_events_of(raws.drop_last(), from_name, context) {
            Err(e) => Err(e),
            Ok(prev) => match macro_event_of(raws.last(), (raws.len() - 1) as usize, from_name, context) {
                Err(e) => Err(e),
                Ok(steps) => Ok(prev + steps),
            },
        }
    }
}

proof fn lemma_stick_steps_non_empty(
    stick: Seq<char>,
    x: Option<StickUnit>,
    y: Option<StickUnit>,
    index: usize,
    from_name: Seq<char>,
    context: Seq<char>,
)
    ensures
        stick_steps_of(stick, x, y, index, from_name, context) matches Ok(s) ==> s.len() > 0,
{
}

/// A macro step that parses gives at least one step.
proof fn lemma_event_steps_non_empty(raw: RawMacroEvent, index: usize, from_name: Seq<char>, context: Seq<char>)
    ensures
        macro_event_of(raw, index, from_name, context) matches Ok(s) ==> s.len() > 0,
{
    match raw.stick {
        Some(st) => lemma_stick_steps_non_empty(st@, raw.x, raw.y, index, from_name, context),
        None => {},
    }
}

/// A non-empty list of macro steps that parses gives a non-empty list.
proof fn lemma_events_non_empty(raws: Seq<RawMacroEvent>, from_name: Seq<char>, context: Seq<char>)
    requires
        raws.len() > 0,
    ensures
        macro_events_of(raws, from_name, context) matches Ok(s) ==> s.len() > 0,
{
    lemma_event_steps_non_empty(raws.last(), (raws.len() - 1) as usize, from_name, context);
}

proof fn lemma_macro_events_error_stays(
    raws: Seq<RawMacroEvent>,
    n: int,
    from_name: Seq<char>,
    context: Seq<char>,
)
    requires
        0 <= n <= raws.len(),
        macro_events_of(raws.subrange(0, n), from_name, context) is Err,
    ensures
        macro_events_of(raws, from_name, context) == macro_events_of(raws.subrange(0, n), from_name, context),
    decreases raws.len() - n,
{
    if n < raws.len() {
        assert(raws.subrange(0, n + 1).drop_last() =~= raws.subrange(0, n));
        lemma_macro_events_error_stays(raws, n + 1, from_name, context);
    } else {
        assert(raws.subrange(0, n) =~= raws);
    }
}

fn parse_macro_events(
    raws: &Vec<RawMacroEvent>,
    from_name: &[char],
    context: &[char],
) -> (r: Result<Vec<MacroEvent>, ProfileError>)
    ensures
        match r {
            Ok(v) => macro_events_of(raws@, from_name@, context@) == Ok::<Seq<MacroEventModel>, ProfileErrorModel>(events_view(v@)),
            Err(e) => macro_events_of(raws@, from_name@, context@) == Err::<Seq<MacroEventModel>, ProfileErrorModel>(e@),
        },
{
    let mut events: Vec<MacroEvent> = Vec::new();
    let mut i: usize = 0;
    assert(raws@.subrange(0, 0) =~= Seq::<RawMacroEvent>::empty());
    assert(events_view(events@) =~= Seq::<MacroEventModel>::empty());
    while i < raws.len()
        invariant
            i <= raws@.len(),
            macro_events_of(raws@.subrange(0, i as int), from_name@, context@) == Ok::<Seq<MacroEventModel>, ProfileErrorModel>(events_view(events@)),
        decreases raws@.len() - i,
    {
        let ghost pre = raws@.subrange(0, i + 1);
        assert(pre.drop_last() =~= raws@.subrange(0, i as int));
        assert(pre.last() == raws@[i as int]);
        let steps = match parse_macro_event(&raws[i], i, from_name, context) {
            Ok(steps) => steps,
            Err(e) => {
                proof {
                    lemma_macro_events_error_stays(raws@, i + 1, from_name@, context@);
                }
                return Err(e);
            },
        };
        let ghost old_events = events@;
        let mut steps = steps;
        events.append(&mut steps);
        assert(events_view(events@) =~= events_view(old_events) + macro_event_of(raws@[i as int], i, from_name@, context@)->Ok_0);
        i = i + 1;
    }
    assert(raws@.subrange(0, raws@.len() as int) =~= raws@);
    Ok(events)
}

/// The key codes pressed or released by the steps, in the order each first
/// appears.
pub open spec fn key_order(events: Seq<MacroEventModel>) -> Seq<EventCode>
    decreases events.len(),
{
    if events.len() == 0 {
        Seq::empty()
    } else {
        let prev = key_order(events.drop_last());
        let e = events.last();
        if (e.kind == MacroEventKind::Down || e.kind == MacroEventKind::Up) && e.code is Some
            && !prev.contains(e.code->0) {
            prev.push(e.code->0)
        } else {
            prev
        }
    }
}

/// The axis codes set by the steps, in the order each first appears.
pub open spec fn axis_order(events: Seq<MacroEventModel>) -> Seq<EventCode>
    decreases events.len(),
{
    if events.len() == 0 {
        Seq::empty()
    } else {
        let prev = axis_order(events.drop_last());
        let e = events.last();
        if e.kind == MacroEventKind::Axis && e.code is Some && !prev.contains(e.code->0) {
            prev.push(e.code->0)
        } else {
            prev
        }
    }
}

/// Whether the last down/up step on `code` presses it.
pub open spec fn left_down(events: Seq<MacroEventModel>, code: EventCode) -> bool
    decreases events.len(),
{
    if events.len() == 0 {
        false
    } else {
        let e = events.last();
        if (e.kind == MacroEventKind::Down || e.kind == MacroEventKind::Up) && e.code == Some(code) {
            e.kind == MacroEventKind::Down
        } else {
            left_down(events.drop_last(), code)
        }
    }
}

/// The value the last axis step on `code` sets (0 when none does).
pub open spec fn left_axis_value(events: Seq<MacroEventModel>, code: EventCode) -> i32
    decreases events.len(),
{
    if events.len() == 0 {
        0
    } else {
        let e = events.last();
        if e.kind == MacroEventKind::Axis && e.code == Some(code) {
            e.value
        } else {
            left_axis_value(events.drop_last(), code)
        }
    }
}

/// Release steps for the keys in `order` left pressed.
pub open spec fn key_releases(order: Seq<EventCode>, events: Seq<MacroEventModel>) -> Seq<MacroEventModel>
    decreases order.len(),
{
    if order.len() == 0 {
        Seq::empty()
    } else {
        let prev = key_releases(order.drop_last(), events);
        if left_down(events, order.last()) {
            prev.push(step(MacroEventKind::Up, Some(order.last()), 0, 0))
        } else {
            prev
        }
    }
}

/// Recentering steps for the axes in `order` left away from 0.
pub open spec fn axis_releases(order: Seq<EventCode>, events: Seq<MacroEventModel>) -> Seq<MacroEventModel>
    decreases order.len(),
{
    if order.len() == 0 {
        Seq::empty()
    } else {
        let prev = axis_releases(order.drop_last(), events);
        if left_axis_value(events, order.last()) != 0 {
            prev.push(step(MacroEventKind::Axis, Some(order.last()), 0, 0))
        } else {
            prev
        }
    }
}

/// The release steps a hold macro gets when it lists none: release every key
/// its steps leave pressed, then return every axis they leave deflected to
/// 0, each in the order it first appears.
pub open spec fn auto_release(events: Seq<MacroEventModel>) -> Seq<MacroEventModel> {
    key_releases(key_order(events), events) + axis_releases(axis_order(events), events)
}

/// A key left pressed has been pressed or released by some step, so it is in
/// the key order.
proof fn lemma_left_down_in_order(events: Seq<MacroEventModel>, c: EventCode)
    requires
        left_down(events, c),
    ensures
        key_order(events).contains(c),
    decreases events.len(),
{
    let e = events.last();
    let prev = key_order(events.drop_last());
    if (e.kind == MacroEventKind::Down || e.kind == MacroEventKind::Up) && e.code == Some(c) {
        if prev.contains(c) {
            let k = choose|k: int| 0 <= k < prev.len() && prev[k] == c;
            assert(key_order(events)[k] == c);
        } else {
            assert(key_order(events) == prev.push(c));
            assert(key_order(events)[prev.len() as int] == c);
        }
    } else {
        lemma_left_down_in_order(events.drop_last(), c);
        let k = choose|k: int| 0 <= k < prev.len() && prev[k] == c;
        assert(key_order(events)[k] == c);
    }
}

/// An axis left away from 0 has been set by some step, so it is in the axis
/// order.
proof fn lemma_left_axis_in_order(events: Seq<MacroEventModel>, c: EventCode)
    requires
        left_axis_value(events, c) != 0,
    ensures
        axis_order(events).contains(c),
    decreases events.len(),
{
    let e = events.last();
    let prev = axis_order(events.drop_last());
    if e.kind == MacroEventKind::Axis && e.code == Some(c) {
        if prev.contains(c) {
            let k = choose|k: int| 0 <= k < prev.len() && prev[k] == c;
            assert(axis_order(events)[k] == c);
        } else {
            assert(axis_order(events) == prev.push(c));
            assert(axis_order(events)[prev.len() as int] == c);
        }
    } else {
        lemma_left_axis_in_order(events.drop_last(), c);
        let k = choose|k: int| 0 <= k < prev.len() && prev[k] == c;
        assert(axis_order(events)[k] == c);
    }
}

proof fn lemma_key_releases(order: Seq<EventCode>, events: Seq<MacroEventModel>, c: EventCode)
    ensures
        forall|i: int| 0 <= i < key_releases(order, events).len() ==> {
            let x = #[trigger] key_releases(order, events)[i];
            x.kind == MacroEventKind::Up && x.code is Some && x == step(MacroEventKind::Up, x.code, 0, 0)
                && left_down(events, x.code->0)
        },
        order.contains(c) && left_down(events, c) ==> key_releases(order, events).contains(step(MacroEventKind::Up, Some(c), 0, 0)),
    decreases order.len(),
{
    if order.len() > 0 {
        let prev = key_releases(order.drop_last(), events);
        lemma_key_releases(order.drop_last(), events, c);
        let r = key_releases(order, events);
        assert forall|i: int| 0 <= i < r.len() implies {
            let x = #[trigger] r[i];
            x.kind == MacroEventKind::Up && x.code is Some && x == step(MacroEventKind::Up, x.code, 0, 0)
                && left_down(events, x.code->0)
        } by {
            if i < prev.len() {
                assert(r[i] == prev[i]);
            }
        }
        if order.contains(c) && left_down(events, c) {
            if c == order.last() {
                assert(r[prev.len() as int] == step(MacroEventKind::Up, Some(c), 0, 0));
            } else {
                let k = choose|k: int| 0 <= k < order.len() && order[k] == c;
                assert(order.drop_last()[k] == c);
                let j = choose|j: int| 0 <= j < prev.len() && prev[j] == step(MacroEventKind::Up, Some(c), 0, 0);
                assert(r[j] == prev[j]);
            }
        }
    }
}

proof fn lemma_axis_releases(order: Seq<EventCode>, events: Seq<MacroEventModel>, c: EventCode)
    ensures
        forall|i: int| 0 <= i < axis_releases(order, events).len() ==> {
            let x = #[trigger] axis_releases(order, events)[i];
            x.kind == MacroEventKind::Axis && x.code is Some && x == step(MacroEventKind::Axis, x.code, 0, 0)
                && left_axis_value(events, x.code->0) != 0
        },
        order.contains(c) && left_axis_value(events, c) != 0 ==> axis_releases(order, events).contains(
            step(MacroEventKind::Axis, Some(c), 0, 0),
        ),
    decreases order.len(),
{
    if order.len() > 0 {
        let prev = axis_releases(order.drop_last(), events);
        lemma_axis_releases(order.drop_last(), events, c);
        let r = axis_releases(order, events);
        assert forall|i: int| 0 <= i < r.len() implies {
            let x = #[trigger] r[i];
            x.kind == MacroEventKind::Axis && x.code is Some && x == step(MacroEventKind::Axis, x.code, 0, 0)
                && left_axis_value(events, x.code->0) != 0
        } by {
            if i < prev.len() {
                assert(r[i] == prev[i]);
            }
        }
        if order.contains(c) && left_axis_value(events, c) != 0 {
            if c == order.last() {
                assert(r[prev.len() as int] == step(MacroEventKind::Axis, Some(c), 0, 0));
            } else {
                let k = choose|k: int| 0 <= k < order.len() && order[k] == c;
                assert(order.drop_last()[k] == c);
                let j = choose|j: int| 0 <= j < prev.len() && prev[j] == step(MacroEventKind::Axis, Some(c), 0, 0);
                assert(r[j] == prev[j]);
            }
        }
    }
}

/// The automatic release steps of a hold macro release exactly the keys its
/// steps leave pressed and return exactly the axes they leave away from 0:
/// each step is a key release (`up`) of a key whose last down/up step
/// presses it, or an axis step to 0 of an axis whose last axis step is not 0,
/// always with value 0, no pause, and the code's name; and every such key and
/// axis gets its step.
pub proof fn law_auto_release(events: Seq<MacroEventModel>, c: EventCode)
    ensures
        forall|i: int| 0 <= i < auto_release(events).len() ==> {
            let x = #[trigger] auto_release(events)[i];
            &&& x.code is Some
            &&& x == step(x.kind, x.code, 0, 0)
            &&& (x.kind == MacroEventKind::Up && left_down(events, x.code->0)
                || x.kind == MacroEventKind::Axis && left_axis_value(events, x.code->0) != 0)
        },
        auto_release(events).contains(step(MacroEventKind::Up, Some(c), 0, 0)) <==> left_down(events, c),
        auto_release(events).contains(step(MacroEventKind::Axis, Some(c), 0, 0)) <==> left_axis_value(events, c) != 0,
{
    let k = key_releases(key_order(events), events);
    let a = axis_releases(axis_order(events), events);
    lemma_key_releases(key_order(events), events, c);
    lemma_axis_releases(axis_order(events), events, c);
    let r = auto_release(events);
    assert(r == k + a);
    assert forall|i: int| 0 <= i < r.len() implies {
        let x = #[trigger] r[i];
        &&& x.code is Some
        &&& x == step(x.kind, x.code, 0, 0)
        &&& (x.kind == MacroEventKind::Up && left_down(events, x.code->0)
            || x.kind == MacroEventKind::Axis && left_axis_value(events, x.code->0) != 0)
    } by {
        if i < k.len() {
            assert(r[i] == k[i]);
        } else {
            assert(r[i] == a[i - k.len()]);
        }
    }
    let up = step(MacroEventKind::Up, Some(c), 0, 0);
    let ax = step(MacroEventKind::Axis, Some(c), 0, 0);
    if left_down(events, c) {
        lemma_left_down_in_order(events, c);
        let j = choose|j: int| 0 <= j < k.len() && k[j] == up;
        assert(r[j] == up);
    }
    if r.contains(up) {
        let j = choose|j: int| 0 <= j < r.len() && r[j] == up;
        assert(r[j].code->0 == c);
    }
    if left_axis_value(events, c) != 0 {
        lemma_left_axis_in_order(events, c);
        let j = choose|j: int| 0 <= j < a.len() && a[j] == ax;
        assert(r[j + k.len()] == ax);
    }
    if r.contains(ax) {
        let j = choose|j: int| 0 <= j < r.len() && r[j] == ax;
        assert(r[j].code->0 == c);
    }
}

fn contains_code(v: &Vec<EventCode>, code: EventCode) -> (r: bool)
    ensures
        r == v@.contains(code),
{
    let mut i: usize = 0;
    while i < v.len()
        invariant
            i <= v@.len(),
            forall|k: int| 0 <= k < i ==> v@[k] != code,
        decreases v@.len() - i,
    {
        if v[i] == code {
            assert(v@[i as int] == code);
            return true;
        }
        i = i + 1;
    }
    false
}

fn last_key_down(events: &[MacroEvent], code: EventCode) -> (r: bool)
    ensures
        r == left_down(events_view(events@), code),
{
    let ghost ev = events_view(events@);
    let mut j: usize = events.len();
    assert(ev.subrange(0, j as int) =~= ev);
    while j > 0
        invariant
            j <= events@.len(),
            ev == events_view(events@),
            left_down(ev, code) == left_down(ev.subrange(0, j as int), code),
        decreases j,
    {
        let e = &events[j - 1];
        let ghost pre = ev.subrange(0, j as int);
        assert(pre.last() == e@);
        assert(pre.drop_last() =~= ev.subrange(0, j - 1));
        let hit = match e.kind {
            MacroEventKind::Down | MacroEventKind::Up => e.code == Some(code),
            _ => false,
        };
        if hit {
            return e.kind == MacroEventKind::Down;
        }
        j = j - 1;
    }
    false
}

fn last_axis_value(events: &[MacroEvent], code: EventCode) -> (r: i32)
    ensures
        r == left_axis_value(events_view(events@), code),
{
    let ghost ev = events_view(events@);
    let mut j: usize = events.len();
    assert(ev.subrange(0, j as int) =~= ev);
    while j > 0
        invariant
            j <= events@.len(),
            ev == events_view(events@),
            left_axis_value(ev, code) == left_axis_value(ev.subrange(0, j as int), code),
        decreases j,
    {
        let e = &events[j - 1];
        let ghost pre = ev.subrange(0, j as int);
        assert(pre.last() == e@);
        assert(pre.drop_last() =~= ev.subrange(0, j - 1));
        if e.kind == MacroEventKind::Axis && e.code == Some(code) {
            return e.value;
        }
        j = j - 1;
    }
    0
}

/// The release steps of a hold macro that lists none: every key its steps
/// leave pressed is released and every axis they leave deflected returns to
/// 0, keys first, each in the order it first appears.
pub fn automatic_hold_release_events(events: &[MacroEvent]) -> (r: Vec<MacroEvent>)
    ensures
        events_view(r@) == auto_release(events_view(events@)),
{
    let ghost ev = events_view(events@);
    let mut keys: Vec<EventCode> = Vec::new();
    let mut axes: Vec<EventCode> = Vec::new();
    let mut i: usize = 0;
    while i < events.len()
        invariant
            i <= events@.len(),
            ev == events_view(events@),
            keys@ == key_order(ev.subrange(0, i as int)),
            axes@ == axis_order(ev.subrange(0, i as int)),
        decreases events@.len() - i,
    {
        let ghost pre = ev.subrange(0, i + 1);
        assert(pre.drop_last() =~= ev.subrange(0, i as int));
        assert(pre.last() == events@[i as int]@);
        let e = &events[i];
        if let Some(code) = e.code {
            match e.kind {
                MacroEventKind::Down | MacroEventKind::Up => {
                    if !contains_code(&keys, code) {
                        keys.push(code);
                    }
                },
                MacroEventKind::Axis => {
                    if !contains_code(&axes, code) {
                        axes.push(code);
                    }
                },
                _ => {},
            }
        }
        i = i + 1;
    }
    assert(ev.subrange(0, events@.len() as int) =~= ev);
    let mut release: Vec<MacroEvent> = Vec::new();
    let mut k: usize = 0;
    while k < keys.len()
        invariant
            k <= keys@.len(),
            ev == events_view(events@),
            keys@ == key_order(ev),
            events_view(release@) == key_releases(keys@.subrange(0, k as int), ev),
        decreases keys@.len() - k,
    {
        let ghost pre = keys@.subrange(0, k + 1);
        assert(pre.drop_last() =~= keys@.subrange(0, k as int));
        let code = keys[k];
        if last_key_down(events, code) {
            release.push(make_step(MacroEventKind::Up, Some(code), 0, 0));
        }
        assert(events_view(release@) =~= key_releases(pre, ev));
        k = k + 1;
    }
    assert(keys@.subrange(0, keys@.len() as int) =~= keys@);
    let ghost key_part = events_view(release@);
    let mut a: usize = 0;
    while a < axes.len()
        invariant
            a <= axes@.len(),
            ev == events_view(events@),
            axes@ == axis_order(ev),
            key_part == key_releases(key_order(ev), ev),
            events_view(release@) == key_part + axis_releases(axes@.subrange(0, a as int), ev),
        decreases axes@.len() - a,
    {
        let ghost pre = axes@.subrange(0, a + 1);
        assert(pre.drop_last() =~= axes@.subrange(0, a as int));
        let code = axes[a];
        let ghost before = events_view(release@);
        assert(before == key_part + axis_releases(pre.drop_last(), ev));
        if last_axis_value(events, code) != 0 {
            let st = make_step(MacroEventKind::Axis, Some(code), 0, 0);
            release.push(st);
            assert(events_view(release@) =~= before.push(st@));
            assert(axis_releases(pre, ev) == axis_releases(pre.drop_last(), ev).push(st@));
        } else {
            assert(axis_releases(pre, ev) == axis_releases(pre.drop_last(), ev));
        }
        assert(events_view(release@) =~= key_part + axis_releases(pre, ev));
        a = a + 1;
    }
    assert(axes@.subrange(0, axes@.len() as int) =~= axes@);
    release
}

/// How long one step takes: a tap holds for 20 ms, a pause for its length.
pub open spec fn step_ms(e: MacroEventModel) -> nat {
    if e.kind == MacroEventKind::Tap {
        MACRO_TAP_RELEASE_MS as nat
    } else if e.kind == MacroEventKind::Pause {
        e.pause_ms as nat
    } else {
        0
    }
}

/// How long the steps take up to the first cancel step.
pub open spec fn steps_ms(events: Seq<MacroEventModel>) -> nat
    decreases events.len(),
{
    if events.len() == 0 {
        0
    } else if events[0].kind == MacroEventKind::Cancel {
        0
    } else {
        step_ms(events[0]) + steps_ms(events.drop_first())
    }
}

/// The duration of a macro in milliseconds, saturating at `u64::MAX`.
pub open spec fn macro_duration(events: Seq<MacroEventModel>) -> u64 {
    if steps_ms(events) > u64::MAX {
        u64::MAX
    } else {
        steps_ms(events) as u64
    }
}

/// How long a macro runs: taps count 20 ms, pauses their length, other steps
/// nothing; counting stops at the first cancel step and saturates.
pub fn macro_events_duration_ms(events: &[MacroEvent]) -> (r: u64)
    ensures
        r == macro_duration(events_view(events@)),
{
    let ghost ev = events_view(events@);
    let ghost mut total: nat = 0;
    let mut duration: u64 = 0;
    let mut i: usize = 0;
    assert(ev.skip(0) =~= ev);
    while i < events.len()
        invariant_except_break
            i <= events@.len(),
            ev == events_view(events@),
            total + steps_ms(ev.skip(i as int)) == steps_ms(ev),
            duration == (if total > u64::MAX { u64::MAX } else { total as u64 }),
        ensures
            duration == macro_duration(ev),
        decreases events@.len() - i,
    {
        let ghost rest = ev.skip(i as int);
        assert(rest[0] == events@[i as int]@);
        assert(rest.drop_first() =~= ev.skip(i + 1));
        let e = &events[i];
        if e.kind == MacroEventKind::Cancel {
            break;
        }
        let add: u64 = match e.kind {
            MacroEventKind::Tap => MACRO_TAP_RELEASE_MS,
            MacroEventKind::Pause => e.pause_ms,
            _ => 0,
        };
        proof {
            total = total + step_ms(rest[0]);
        }
        duration = duration.saturating_add(add);
        i = i + 1;
    }
    proof {
        if i == events@.len() {
            assert(ev.skip(i as int).len() == 0);
        }
    }
    duration
}

/// A mapping's `macro:` object.
#[derive(Clone, Debug, Default)]
pub struct RawMacroSettings {
    pub mode: Option<String>,
    pub events: Vec<RawMacroEvent>,
    pub release_events: Option<Vec<RawMacroEvent>>,
}

/// The mode, steps and optional release steps a mapping's macro fields give.
pub open spec fn macro_source_of(
    raw: Option<RawMacroSettings>,
    raw_events: Option<Vec<RawMacroEvent>>,
    from_name: Seq<char>,
    context: Seq<char>,
) -> Result<(MacroMode, Seq<RawMacroEvent>, Option<Seq<RawMacroEvent>>), ProfileErrorModel> {
    match (raw, raw_events) {
        (Some(_), Some(_)) => Err(perr(ProfileErrorKind::MacroBothForms, from_name, context)),
        (None, None) => Err(perr(ProfileErrorKind::MacroRequiresEvents, from_name, context)),
        (Some(r), None) => {
            let mode = match r.mode {
                None => Ok(MacroMode::Press),
                Some(m) => macro_mode_of(m@),
            };
            match mode {
                Err(e) => Err(e),
                Ok(mode) => Ok(
                    (
                        mode,
                        r.events@,
                        match r.release_events {
                            Some(v) => Some(v@),
                            None => None,
                        },
                    ),
                ),
            }
        },
        (None, Some(evs)) => Ok((MacroMode::Press, evs@, None)),
    }
}

/// The macro of a mapping. Only a macro mapping may have macro fields; it
/// needs a button source, exactly one of `macro` and `macro_events`, and at
/// least one step. A press macro takes no release steps; a hold macro takes
/// at least one when it lists them, and otherwise releases what its steps
/// leave pressed or deflected.
pub open spec fn macro_settings_of(
    raw: Option<RawMacroSettings>,
    raw_events: Option<Vec<RawMacroEvent>>,
    action: MappingAction,
    from: EventCode,
    from_name: Seq<char>,
    context: Seq<char>,
) -> Result<Option<MacroSettingsModel>, ProfileErrorModel> {
    if action != MappingAction::Macro {
        if raw is Some || raw_events is Some {
            Err(perr(ProfileErrorKind::MacroWithoutAction, from_name, context))
        } else {
            Ok(None)
        }
    } else if from.kind != EventKind::Key {
        Err(perr(ProfileErrorKind::MacroNeedsButton, from_name, context))
    } else {
        match macro_source_of(raw, raw_events, from_name, context) {
            Err(e) => Err(e),
            Ok((mode, raws, raw_release)) => {
                if raws.len() == 0 {
                    Err(perr(ProfileErrorKind::MacroNeedsEvent, from_name, context))
                } else {
                    match macro_events_of(raws, from_name, context) {
                        Err(e) => Err(e),
                        Ok(events) => {
                            let release: Result<Seq<MacroEventModel>, ProfileErrorModel> = match (
                                mode,
                                raw_release,
                            ) {
                                (MacroMode::Press, Some(_)) => Err(
                                    perr(ProfileErrorKind::PressMacroRelease, from_name, context),
                                ),
                                (MacroMode::Press, None) => Ok(Seq::empty()),
                                (MacroMode::Hold, Some(r)) => {
                                    if r.len() == 0 {
                                        Err(
                                            perr(
                                                ProfileErrorKind::HoldMacroNeedsRelease,
                                                from_name,
                                                context,
                                            ),
                                        )
                                    } else {
                                        macro_events_of(r, from_name, context)
                                    }
                                },
                                (MacroMode::Hold, None) => Ok(auto_release(events)),
                            };
                            match release {
                                Err(e) => Err(e),
                                Ok(release) => Ok(
                                    Some(
                                        MacroSettingsModel {
                                            mode,
                                            events,
                                            release_events: release,
                                            duration_ms: macro_duration(events),
                                            release_duration_ms: macro_duration(release),
                                        },
                                    ),
                                ),
                            }
                        },
                    }
                }
            },
        }
    }
}

/// Reads and checks the macro of a mapping (see [`macro_settings_of`]).
pub fn parse_macro_settings(
    raw: &Option<RawMacroSettings>,
    raw_events: &Option<Vec<RawMacroEvent>>,
    action: MappingAction,
    from: EventCode,
    from_name: &[char],
    context: &[char],
) -> (r: Result<Option<MacroSettings>, ProfileError>)
    ensures
        match r {
            Ok(m) => macro_settings_of(*raw, *raw_events, action, from, from_name@, context@) == Ok::<Option<MacroSettingsModel>, ProfileErrorModel>(crate::profiles::macro_view(m)),
            Err(e) => macro_settings_of(*raw, *raw_events, action, from, from_name@, context@) == Err::<Option<MacroSettingsModel>, ProfileErrorModel>(e@),
        },
        r matches Ok(m) ==> (m is Some <==> action == MappingAction::Macro),
        r matches Ok(Some(ms)) ==> {
            &&& from.kind == EventKind::Key
            &&& ms.events@.len() > 0
            &&& (ms.mode == MacroMode::Press ==> ms.release_events@.len() == 0)
            &&& ms.duration_ms == macro_duration(events_view(ms.events@))
            &&& ms.release_duration_ms == macro_duration(events_view(ms.release_events@))
        },
{
    proof {
        match macro_source_of(*raw, *raw_events, from_name@, context@) {
            Ok((_, raws, _)) => {
                if raws.len() > 0 {
                    lemma_events_non_empty(raws, from_name@, context@);
                }
            },
            Err(_) => {},
        }
    }
    if action != MappingAction::Macro {
        if raw.is_some() || raw_events.is_some() {
            return Err(fail(ProfileErrorKind::MacroWithoutAction, from_name, context));
        }
        return Ok(None);
    }
    if from.kind != EventKind::Key {
        return Err(fail(ProfileErrorKind::MacroNeedsButton, from_name, context));
    }
    let (mode, raws, raw_release): (MacroMode, &Vec<RawMacroEvent>, &Option<Vec<RawMacroEvent>>) =
        match (raw, raw_events) {
        (Some(_), Some(_)) => {
            return Err(fail(ProfileErrorKind::MacroBothForms, from_name, context));
        },
        (None, None) => {
            return Err(fail(ProfileErrorKind::MacroRequiresEvents, from_name, context));
        },
        (Some(r), None) => {
            let mode = match &r.mode {
                None => MacroMode::Press,
                Some(m) => parse_macro_mode(m.as_str())?,
            };
            (mode, &r.events, &r.release_events)
        },
        (None, Some(evs)) => (MacroMode::Press, evs, &None),
    };
    if raws.len() == 0 {
        return Err(fail(ProfileErrorKind::MacroNeedsEvent, from_name, context));
    }
    let events = parse_macro_events(raws, from_name, context)?;
    let release_events = match (mode, raw_release) {
        (MacroMode::Press, Some(_)) => {
            return Err(fail(ProfileErrorKind::PressMacroRelease, from_name, context));
        },
        (MacroMode::Press, None) => Vec::new(),
        (MacroMode::Hold, Some(r)) => {
            if r.len() == 0 {
                return Err(fail(ProfileErrorKind::HoldMacroNeedsRelease, from_name, context));
            }
            parse_macro_events(r, from_name, context)?
        },
        (MacroMode::Hold, None) => automatic_hold_release_events(events.as_slice()),
    };
    let duration_ms = macro_events_duration_ms(events.as_slice());
    let release_duration_ms = macro_events_duration_ms(release_events.as_slice());
    proof {
        if mode == MacroMode::Press && raw_release is None {
            assert(events_view(release_events@) =~= Seq::<MacroEventModel>::empty());
        }
    }
    Ok(Some(MacroSettings { mode, events, release_events, duration_ms, release_duration_ms }))
}

} // verus!
