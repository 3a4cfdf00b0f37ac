//! Building and validating a profile from its decoded YAML document.
//!
//! The document arrives as the plain `Raw*` values below (decoding the YAML
//! itself happens outside the library). Every rule a profile must follow is
//! checked here, in document order, and the first violation is reported.

use vstd::prelude::*;
use crate::event_code::{
    event_name, output_supports, parse_event_code, parsed_event, virtual_output_supports,
    EventCode, EventKind, ABS_HAT0X, ABS_HAT0Y, ABS_RX, ABS_RY, ABS_RZ, ABS_X, ABS_Y, ABS_Z,
    REL_X, REL_Y,
};
use crate::profiles::{
    command_view, events_view, macro_view, mappings_view, strings_view, ActivatorKind,
    ActivatorSettings, CommandAction, CommandSettings, CommandSettingsModel, MacroEvent,
    MacroEventKind, MacroEventModel, MacroMode, MacroSettings, MacroSettingsModel, Mapping,
    MappingAction, MappingModel, TurboSettings, DEFAULT_LONG_PRESS_MS, DEFAULT_MULTI_PRESS_MS,
    DEFAULT_TURBO_INTERVAL_MS, MACRO_TAP_RELEASE_MS,
};
use crate::text::{chars_eq_str, chars_of, normalize_keyword, normalize_keyword_str, string_from_chars};

verus! {

/// Which profile rule a document breaks.
#[derive(Clone, Copy, Debug, PartialEq, Eq, Structural)]
pub enum ProfileErrorKind {
    UnknownMappingAction,
    UnknownActivator,
    ActivatorRequiresKind,
    ActivatorNeedsButton,
    ActivatorDelayNotAllowed,
    ActivatorDelayRange,
    TurboRate,
    TurboInterval,
    UnknownCommandAction,
    CommandWithoutAction,
    CommandNeedsButton,
    CommandRequiresCommand,
    RunRequiresCommandLine,
    CommandRequiresAction,
    CommandLineNotAllowed,
    RunProgramArgvArgs,
    RunArgvAndArgs,
    RunNeedsExactlyOne,
    RunEmpty,
    UnknownMacroMode,
    MacroWithoutAction,
    MacroNeedsButton,
    MacroBothForms,
    MacroRequiresEvents,
    MacroNeedsEvent,
    PressMacroRelease,
    HoldMacroNeedsRelease,
    MacroEventFieldCount,
    MacroXYWithoutStick,
    MacroCancelMustBeTrue,
    MacroPauseTooLong,
    MacroStickValue,
    MacroUnknownStick,
    MacroStickNeedsXY,
    MacroStickOutOfRange,
    MacroRelRequiresValue,
    MacroRelOutOfRange,
    MacroAxisRequiresValue,
    MacroAxisOutOfRange,
    UnknownMacroTarget,
    MacroTargetUnsupported,
    MacroButtonTarget,
    MacroAxisTarget,
    MacroRelativeTarget,
    UnknownSourceEvent,
    MappingRequiresTo,
    UnknownTargetEvent,
    TargetUnsupported,
    RelativeTargetNeedsAxisSource,
    MouseToStickAxes,
    RelativeSourceTarget,
    TurboNeedsPress,
    DisabledTurbo,
    MacroTurbo,
    CommandTurbo,
    TurboNeedsButtons,
    HoldMacroNeedsPress,
    EmptyLayerId,
    UnknownActivationMode,
    LayerActivationControl,
    UnknownActivationControl,
    MainLayerActivation,
    DuplicateLayer,
    LayerRequiresActivation,
    TooManyShiftLayers,
}

/// A broken profile rule and what it concerns: `subject` is the offending
/// name (usually the mapping's source), `context` where it occurs, `detail` a
/// further name, `index` a macro step's position, and `low..high` an allowed
/// range.
#[derive(Clone, Debug)]
pub struct ProfileError {
    pub kind: ProfileErrorKind,
    pub subject: String,
    pub context: String,
    pub detail: String,
    pub index: usize,
    pub low: i32,
    pub high: i32,
}

pub struct ProfileErrorModel {
    pub kind: ProfileErrorKind,
    pub subject: Seq<char>,
    pub context: Seq<char>,
    pub detail: Seq<char>,
    pub index: usize,
    pub low: i32,
    pub high: i32,
}

impl View for ProfileError {
    type V = ProfileErrorModel;

    open spec fn view(&self) -> ProfileErrorModel {
        ProfileErrorModel {
            kind: self.kind,
            subject: self.subject@,
            context: self.context@,
            detail: self.detail@,
            index: self.index,
            low: self.low,
            high: self.high,
        }
    }
}

pub open spec fn perr_full(
    kind: ProfileErrorKind,
    subject: Seq<char>,
    context: Seq<char>,
    detail: Seq<char>,
    index: usize,
    low: i32,
    high: i32,
) -> ProfileErrorModel {
    ProfileErrorModel { kind, subject, context, detail, index, low, high }
}

pub open spec fn perr(kind: ProfileErrorKind, subject: Seq<char>, context: Seq<char>) -> ProfileErrorModel {
    perr_full(kind, subject, context, Seq::empty(), 0, 0, 0)
}

pub open spec fn perr_at(
    kind: ProfileErrorKind,
    subject: Seq<char>,
    context: Seq<char>,
    detail: Seq<char>,
    index: usize,
) -> ProfileErrorModel {
    perr_full(kind, subject, context, detail, index, 0, 0)
}

pub(crate) fn fail_full(
    kind: ProfileErrorKind,
    subject: &[char],
    context: &[char],
    detail: &[char],
    index: usize,
    low: i32,
    high: i32,
) -> (e: ProfileError)
    ensures
        e@ == perr_full(kind, subject@, context@, detail@, index, low, high),
{
    ProfileError {
        kind,
        subject: string_from_chars(subject),
        context: string_from_chars(context),
        detail: string_from_chars(detail),
        index,
        low,
        high,
    }
}

pub(crate) fn fail(kind: ProfileErrorKind, subject: &[char], context: &[char]) -> (e: ProfileError)
    ensures
        e@ == perr(kind, subject@, context@),
{
    let empty: Vec<char> = Vec::new();
    fail_full(kind, subject, context, &empty, 0, 0, 0)
}

pub(crate) fn fail_at(
    kind: ProfileErrorKind,
    subject: &[char],
    context: &[char],
    detail: &[char],
    index: usize,
) -> (e: ProfileError)
    ensures
        e@ == perr_at(kind, subject@, context@, detail@, index),
{
    fail_full(kind, subject, context, detail, index, 0, 0)
}

/// The view of an optional string.
pub open spec fn opt_view(o: Option<String>) -> Option<Seq<char>> {
    match o {
        Some(s) => Some(s@),
        None => None,
    }
}

/// `a.or(b)`.
pub open spec fn first_some<T>(a: Option<T>, b: Option<T>) -> Option<T> {
    if a is Some {
        a
    } else {
        b
    }
}

// ---------------------------------------------------------------------------
// Mapping actions and activators

/// The action keyword of a mapping (none means `map`).
pub open spec fn mapping_action_of(value: Option<Seq<char>>) -> Result<MappingAction, ProfileErrorModel> {
    match value {
        None => Ok(MappingAction::Remap),
        Some(v) => {
            let n = normalize_keyword(v);
            if n == "map"@ || n == "remap"@ || n == "virtual"@ || n == "controller"@ {
                Ok(MappingAction::Remap)
            } else if n == "disable"@ || n == "disabled"@ || n == "mute"@ || n == "block"@ || n
                == "none"@ {
                Ok(MappingAction::Disable)
            } else if n == "macro"@ || n == "combo"@ || n == "sequence"@ {
                Ok(MappingAction::Macro)
            } else if n == "command"@ || n == "cmd"@ {
                Ok(MappingAction::Command)
            } else {
                Err(perr(ProfileErrorKind::UnknownMappingAction, n, Seq::empty()))
            }
        },
    }
}

pub fn parse_mapping_action(value: Option<&str>) -> (r: Result<MappingAction, ProfileError>)
    ensures
        match r {
            Ok(a) => mapping_action_of(str_opt(value)) == Ok::<MappingAction, ProfileErrorModel>(a),
            Err(e) => mapping_action_of(str_opt(value)) == Err::<MappingAction, ProfileErrorModel>(e@),
        },
{
    let value = match value {
        None => return Ok(MappingAction::Remap),
        Some(v) => v,
    };
    let n = normalize_keyword_str(value);
    if chars_eq_str(&n, "map") || chars_eq_str(&n, "remap") || chars_eq_str(&n, "virtual")
        || chars_eq_str(&n, "controller") {
        Ok(MappingAction::Remap)
    } else if chars_eq_str(&n, "disable") || chars_eq_str(&n, "disabled") || chars_eq_str(
        &n,
        "mute",
    ) || chars_eq_str(&n, "block") || chars_eq_str(&n, "none") {
        Ok(MappingAction::Disable)
    } else if chars_eq_str(&n, "macro") || chars_eq_str(&n, "combo") || chars_eq_str(
        &n,
        "sequence",
    ) {
        Ok(MappingAction::Macro)
    } else if chars_eq_str(&n, "command") || chars_eq_str(&n, "cmd") {
        Ok(MappingAction::Command)
    } else {
        let empty: Vec<char> = Vec::new();
        Err(fail(ProfileErrorKind::UnknownMappingAction, &n, &empty))
    }
}

/// The view of an optional string slice.
pub open spec fn str_opt(o: Option<&str>) -> Option<Seq<char>> {
    match o {
        Some(s) => Some(s@),
        None => None,
    }
}

/// The activator a keyword names.
pub open spec fn activator_kind_of(value: Seq<char>) -> Result<ActivatorKind, ProfileErrorModel> {
    let n = normalize_keyword(value);
    if n == "press"@ || n == "single"@ || n == "single_press"@ || n == "start_press"@ || n
        == "down_press"@ || n == "on_press"@ {
        Ok(ActivatorKind::Press)
    } else if n == "release"@ || n == "release_press"@ || n == "up_press"@ || n == "on_release"@ {
        Ok(ActivatorKind::Release)
    } else if n == "long"@ || n == "long_press"@ || n == "hold_press"@ {
        Ok(ActivatorKind::LongPress)
    } else if n == "double"@ || n == "double_press"@ {
        Ok(ActivatorKind::DoublePress)
    } else if n == "triple"@ || n == "triple_press"@ {
        Ok(ActivatorKind::TriplePress)
    } else {
        Err(perr(ProfileErrorKind::UnknownActivator, n, Seq::empty()))
    }
}

pub fn parse_activator_kind(value: &str) -> (r: Result<ActivatorKind, ProfileError>)
    ensures
        match r {
            Ok(a) => activator_kind_of(value@) == Ok::<ActivatorKind, ProfileErrorModel>(a),
            Err(e) => activator_kind_of(value@) == Err::<ActivatorKind, ProfileErrorModel>(e@),
        },
{
    let n = normalize_keyword_str(value);
    if chars_eq_str(&n, "press") || chars_eq_str(&n, "single") || chars_eq_str(&n, "single_press")
        || chars_eq_str(&n, "start_press") || chars_eq_str(&n, "down_press") || chars_eq_str(
        &n,
        "on_press",
    ) {
        Ok(ActivatorKind::Press)
    } else if chars_eq_str(&n, "release") || chars_eq_str(&n, "release_press") || chars_eq_str(
        &n,
        "up_press",
    ) || chars_eq_str(&n, "on_release") {
        Ok(ActivatorKind::Release)
    } else if chars_eq_str(&n, "long") || chars_eq_str(&n, "long_press") || chars_eq_str(
        &n,
        "hold_press",
    ) {
        Ok(ActivatorKind::LongPress)
    } else if chars_eq_str(&n, "double") || chars_eq_str(&n, "double_press") {
        Ok(ActivatorKind::DoublePress)
    } else if chars_eq_str(&n, "triple") || chars_eq_str(&n, "triple_press") {
        Ok(ActivatorKind::TriplePress)
    } else {
        let empty: Vec<char> = Vec::new();
        Err(fail(ProfileErrorKind::UnknownActivator, &n, &empty))
    }
}

/// The object form of a mapping activator.
#[derive(Clone, Debug, Default)]
pub struct ActivatorObject {
    pub kind: Option<String>,
    pub kind_alias: Option<String>,
    pub mode: Option<String>,
    pub delay_ms: Option<u64>,
    pub timeout_ms: Option<u64>,
    pub interval_ms: Option<u64>,
}

/// A mapping's `activator:` value: a bare kind or an object.
#[derive(Clone, Debug)]
pub enum RawMappingActivator {
    Scalar(String),
    Object(ActivatorObject),
}

/// The activator keyword and delay given by an activator value, or the
/// error for an object without a kind.
pub open spec fn activator_fields(
    raw: RawMappingActivator,
    from_name: Seq<char>,
    context: Seq<char>,
) -> Result<(Seq<char>, Option<u64>), ProfileErrorModel> {
    match raw {
        RawMappingActivator::Scalar(v) => Ok((v@, None)),
        RawMappingActivator::Object(o) => {
            match first_some(first_some(o.kind, o.kind_alias), o.mode) {
                Some(k) => Ok((k@, first_some(first_some(o.delay_ms, o.timeout_ms), o.interval_ms))),
                None => Err(perr(ProfileErrorKind::ActivatorRequiresKind, from_name, context)),
            }
        },
    }
}

/// The activator settings of a mapping.
pub open spec fn activator_of(
    raw: Option<RawMappingActivator>,
    from: EventCode,
    from_name: Seq<char>,
    context: Seq<char>,
) -> Result<ActivatorSettings, ProfileErrorModel> {
    match raw {
        None => Ok(ActivatorSettings { kind: ActivatorKind::Press, delay_ms: 0 }),
        Some(raw) => match activator_fields(raw, from_name, context) {
            Err(e) => Err(e),
            Ok((kind_value, delay)) => match activator_kind_of(kind_value) {
                Err(e) => Err(e),
                Ok(kind) => {
                    if kind != ActivatorKind::Press && from.kind != EventKind::Key {
                        Err(perr(ProfileErrorKind::ActivatorNeedsButton, from_name, context))
                    } else if (kind == ActivatorKind::Press || kind == ActivatorKind::Release)
                        && (delay matches Some(d) && d != 0) {
                        Err(
                            perr_at(
                                ProfileErrorKind::ActivatorDelayNotAllowed,
                                from_name,
                                context,
                                kind_value,
                                0,
                            ),
                        )
                    } else {
                        let delay_ms = match kind {
                            ActivatorKind::Press | ActivatorKind::Release => 0,
                            ActivatorKind::LongPress => match delay {
                                Some(d) => d,
                                None => DEFAULT_LONG_PRESS_MS,
                            },
                            _ => match delay {
                                Some(d) => d,
                                None => DEFAULT_MULTI_PRESS_MS,
                            },
                        };
                        if kind != ActivatorKind::Press && kind != ActivatorKind::Release && !(50
                            <= delay_ms && delay_ms <= 5000) {
                            Err(perr(ProfileErrorKind::ActivatorDelayRange, from_name, context))
                        } else {
                            Ok(ActivatorSettings { kind, delay_ms })
                        }
                    }
                },
            },
        },
    }
}

/// Reads and validates a mapping's activator: long, double and triple press
/// need a button source and a delay between 50 and 5000 ms (defaults 450 and
/// 300); press and release take no delay.
pub fn parse_mapping_activator(
    raw: &Option<RawMappingActivator>,
    from: EventCode,
    from_name: &[char],
    context: &[char],
) -> (r: Result<ActivatorSettings, ProfileError>)
    ensures
        match r {
            Ok(a) => activator_of(*raw, from, from_name@, context@) == Ok::<ActivatorSettings, ProfileErrorModel>(a),
            Err(e) => activator_of(*raw, from, from_name@, context@) == Err::<ActivatorSettings, ProfileErrorModel>(e@),
        },
{
    let raw = match raw {
        None => return Ok(ActivatorSettings { kind: ActivatorKind::Press, delay_ms: 0 }),
        Some(raw) => raw,
    };
    let (kind_value, delay): (Vec<char>, Option<u64>) = match raw {
        RawMappingActivator::Scalar(v) => (chars_of(v.as_str()), None),
        RawMappingActivator::Object(o) => {
            let k = if o.kind.is_some() {
                &o.kind
            } else if o.kind_alias.is_some() {
                &o.kind_alias
            } else {
                &o.mode
            };
            let d = if o.delay_ms.is_some() {
                o.delay_ms
            } else if o.timeout_ms.is_some() {
                o.timeout_ms
            } else {
                o.interval_ms
            };
            match k {
                Some(k) => (chars_of(k.as_str()), d),
                None => {
                    return Err(fail(ProfileErrorKind::ActivatorRequiresKind, from_name, context));
                },
            }
        },
    };
    let kv = string_from_chars(&kind_value);
    let kind = parse_activator_kind(kv.as_str())?;
    if kind != ActivatorKind::Press && from.kind != EventKind::Key {
        return Err(fail(ProfileErrorKind::ActivatorNeedsButton, from_name, context));
    }
    if kind == ActivatorKind::Press || kind == ActivatorKind::Release {
        if let Some(d) = delay {
            if d != 0 {
                return Err(
                    fail_at(
                        ProfileErrorKind::ActivatorDelayNotAllowed,
                        from_name,
                        context,
                        &kind_value,
                        0,
                    ),
                );
            }
        }
        return Ok(ActivatorSettings { kind, delay_ms: 0 });
    }
    let delay_ms = match kind {
        ActivatorKind::LongPress => match delay {
            Some(d) => d,
            None => DEFAULT_LONG_PRESS_MS,
        },
        _ => match delay {
            Some(d) => d,
            None => DEFAULT_MULTI_PRESS_MS,
        },
    };
    if !(50 <= delay_ms && delay_ms <= 5000) {
        return Err(fail(ProfileErrorKind::ActivatorDelayRange, from_name, context));
    }
    Ok(ActivatorSettings { kind, delay_ms })
}

// ---------------------------------------------------------------------------
// Turbo

/// A turbo rate converted to a half-period: `rate_hz` must be a positive
/// finite number, and becomes `round(1000 / (2 * rate_hz))` milliseconds.
#[derive(Clone, Copy, Debug, PartialEq, Eq, Structural)]
pub enum TurboRate {
    Invalid,
    IntervalMs(u64),
}

/// A mapping's `turbo:` value.
#[derive(Clone, Copy, Debug, PartialEq, Eq, Structural)]
pub enum RawTurbo {
    Enabled(bool),
    Object { enabled: Option<bool>, interval_ms: Option<u64>, rate: Option<TurboRate> },
}

/// The turbo settings of a mapping: `turbo: true`, an object, or just a
/// `turbo_interval_ms`; the interval must lie in 10..=5000 ms (default 75).
pub open spec fn turbo_of(raw: Option<RawTurbo>, turbo_interval_ms: Option<u64>) -> Result<Option<TurboSettings>, ProfileErrorModel> {
    let base = match turbo_interval_ms {
        Some(v) => v,
        None => DEFAULT_TURBO_INTERVAL_MS,
    };
    let step: Result<(bool, u64), ProfileErrorModel> = match raw {
        Some(RawTurbo::Enabled(v)) => Ok((v, base)),
        Some(RawTurbo::Object { enabled, interval_ms, rate }) => {
            let i1 = match interval_ms {
                Some(v) => v,
                None => base,
            };
            match rate {
                Some(TurboRate::Invalid) => Err(perr(ProfileErrorKind::TurboRate, Seq::empty(), Seq::empty())),
                Some(TurboRate::IntervalMs(ms)) => Ok((
                    match enabled {
                        Some(e) => e,
                        None => true,
                    },
                    ms,
                )),
                None => Ok((
                    match enabled {
                        Some(e) => e,
                        None => true,
                    },
                    i1,
                )),
            }
        },
        None => Ok((turbo_interval_ms is Some, base)),
    };
    match step {
        Err(e) => Err(e),
        Ok((enabled, interval)) => {
            if !enabled {
                Ok(None)
            } else if !(10 <= interval && interval <= 5000) {
                Err(perr(ProfileErrorKind::TurboInterval, Seq::empty(), Seq::empty()))
            } else {
                Ok(Some(TurboSettings { interval_ms: interval }))
            }
        },
    }
}

pub fn parse_turbo(raw: Option<RawTurbo>, turbo_interval_ms: Option<u64>) -> (r: Result<Option<TurboSettings>, ProfileError>)
    ensures
        match r {
            Ok(t) => turbo_of(raw, turbo_interval_ms) == Ok::<Option<TurboSettings>, ProfileErrorModel>(t),
            Err(e) => turbo_of(raw, turbo_interval_ms) == Err::<Option<TurboSettings>, ProfileErrorModel>(e@),
        },
{
    let empty: Vec<char> = Vec::new();
    let base = match turbo_interval_ms {
        Some(v) => v,
        None => DEFAULT_TURBO_INTERVAL_MS,
    };
    let (enabled, interval) = match raw {
        Some(RawTurbo::Enabled(v)) => (v, base),
        Some(RawTurbo::Object { enabled, interval_ms, rate }) => {
            let mut interval = match interval_ms {
                Some(v) => v,
                None => base,
            };
            match rate {
                Some(TurboRate::Invalid) => {
                    return Err(fail(ProfileErrorKind::TurboRate, &empty, &empty));
                },
                Some(TurboRate::IntervalMs(ms)) => {
                    interval = ms;
                },
                None => {},
            }
            (
                match enabled {
                    Some(e) => e,
                    None => true,
                },
                interval,
            )
        },
        None => (turbo_interval_ms.is_some(), base),
    };
    if !enabled {
        return Ok(None);
    }
    if !(10 <= interval && interval <= 5000) {
        return Err(fail(ProfileErrorKind::TurboInterval, &empty, &empty));
    }
    Ok(Some(TurboSettings { interval_ms: interval }))
}

// ---------------------------------------------------------------------------
// Commands

/// The command action a keyword names.
pub open spec fn command_action_of(value: Seq<char>) -> Result<CommandAction, ProfileErrorModel> {
    let n = normalize_keyword(value);
    if n == "stop_macros"@ || n == "stop_all_macros"@ || n == "cancel_macros"@ || n
        == "cancel_all_macros"@ || n == "break_macros"@ || n == "clear_macro_queue"@ {
        Ok(CommandAction::StopMacros)
    } else if n == "run"@ || n == "run_command"@ || n == "launch"@ || n == "launch_app"@ || n
        == "launch_application"@ || n == "exec"@ || n == "execute"@ {
        Ok(CommandAction::RunCommand)
    } else if n == "remap_off"@ || n == "turn_remap_off"@ || n == "stop_remap"@ || n
        == "emergency_off"@ || n == "emergency_remap_off"@ || n == "off"@ {
        Ok(CommandAction::RemapOff)
    } else {
        Err(perr(ProfileErrorKind::UnknownCommandAction, n, Seq::empty()))
    }
}

pub fn parse_command_action(value: &str) -> (r: Result<CommandAction, ProfileError>)
    ensures
        match r {
            Ok(a) => command_action_of(value@) == Ok::<CommandAction, ProfileErrorModel>(a),
            Err(e) => command_action_of(value@) == Err::<CommandAction, ProfileErrorModel>(e@),
        },
{
    let n = normalize_keyword_str(value);
    if chars_eq_str(&n, "stop_macros") || chars_eq_str(&n, "stop_all_macros") || chars_eq_str(
        &n,
        "cancel_macros",
    ) || chars_eq_str(&n, "cancel_all_macros") || chars_eq_str(&n, "break_macros")
        || chars_eq_str(&n, "clear_macro_queue") {
        Ok(CommandAction::StopMacros)
    } else if chars_eq_str(&n, "run") || chars_eq_str(&n, "run_command") || chars_eq_str(
        &n,
        "launch",
    ) || chars_eq_str(&n, "launch_app") || chars_eq_str(&n, "launch_application")
        || chars_eq_str(&n, "exec") || chars_eq_str(&n, "execute") {
        Ok(CommandAction::RunCommand)
    } else if chars_eq_str(&n, "remap_off") || chars_eq_str(&n, "turn_remap_off") || chars_eq_str(
        &n,
        "stop_remap",
    ) || chars_eq_str(&n, "emergency_off") || chars_eq_str(&n, "emergency_remap_off")
        || chars_eq_str(&n, "off") {
        Ok(CommandAction::RemapOff)
    } else {
        let empty: Vec<char> = Vec::new();
        Err(fail(ProfileErrorKind::UnknownCommandAction, &n, &empty))
    }
}

/// The keyword that names a command action.
pub open spec fn command_keyword(action: CommandAction) -> Seq<char> {
    match action {
        CommandAction::StopMacros => "stop_macros"@,
        CommandAction::RunCommand => "run_command"@,
        CommandAction::RemapOff => "remap_off"@,
    }
}

pub fn command_action_keyword(action: CommandAction) -> (r: &'static str)
    ensures
        r@ == command_keyword(action),
{
    match action {
        CommandAction::StopMacros => "stop_macros",
        CommandAction::RunCommand => "run_command",
        CommandAction::RemapOff => "remap_off",
    }
}

/// A command line given as an argv list or as a shell string.
#[derive(Clone, Debug)]
pub enum RawCommandLine {
    Args(Vec<String>),
    Shell(String),
}

/// `sh -c <command>`.
pub open spec fn shell_line(command: Seq<char>) -> Seq<Seq<char>> {
    seq!["sh"@, "-c"@, command]
}

/// The argv a command line value stands for.
pub open spec fn command_line_args(raw: RawCommandLine) -> Seq<Seq<char>> {
    match raw {
        RawCommandLine::Args(a) => strings_view(a@),
        RawCommandLine::Shell(s) => shell_line(s@),
    }
}

fn shell_command_line(command: &String) -> (r: Vec<String>)
    ensures
        strings_view(r@) == shell_line(command@),
{
    let r = vec!["sh".to_owned(), "-c".to_owned(), command.clone()];
    assert(strings_view(r@) =~= shell_line(command@));
    r
}

fn raw_command_line_to_args(raw: &RawCommandLine) -> (r: Vec<String>)
    ensures
        strings_view(r@) == command_line_args(*raw),
{
    match raw {
        RawCommandLine::Args(args) => crate::profiles::copy_string_vec(args),
        RawCommandLine::Shell(command) => shell_command_line(command),
    }
}

/// The object form of a command mapping's `command:` value.
#[derive(Clone, Debug, Default)]
pub struct RawCommandObject {
    pub action: Option<String>,
    pub name: Option<String>,
    pub command: Option<String>,
    pub command_line: Option<RawCommandLine>,
    pub args: Option<Vec<String>>,
    pub argv: Option<Vec<String>>,
    pub program: Option<String>,
    pub executable: Option<String>,
    pub shell: Option<String>,
    pub run: Option<RawCommandLine>,
}

/// A mapping's `command:` value: a bare action or an object.
#[derive(Clone, Debug)]
pub enum RawCommandSettings {
    Scalar(String),
    Object(RawCommandObject),
}

/// Whether the object names anything to run.
pub open spec fn has_run_fields(o: RawCommandObject) -> bool {
    o.command_line is Some || o.args is Some || o.argv is Some || o.program is Some
        || o.executable is Some || o.shell is Some || o.run is Some
}

/// The candidate command lines an object names, in the order `run`,
/// `command_line`, `command`, `shell`, then program/argv/args; combining argv
/// and args is an error.
pub open spec fn run_candidates(
    o: RawCommandObject,
    from_name: Seq<char>,
    context: Seq<char>,
) -> Result<Seq<Seq<Seq<char>>>, ProfileErrorModel> {
    let c1 = match o.run {
        Some(l) => seq![command_line_args(l)],
        None => Seq::empty(),
    };
    let c2 = match o.command_line {
        Some(l) => c1.push(command_line_args(l)),
        None => c1,
    };
    let c3 = match o.command {
        Some(c) => c2.push(shell_line(c@)),
        None => c2,
    };
    let c4 = match o.shell {
        Some(c) => c3.push(shell_line(c@)),
        None => c3,
    };
    match (first_some(o.program, o.executable), o.argv, o.args) {
        (Some(_), Some(_), Some(_)) => Err(perr(ProfileErrorKind::RunProgramArgvArgs, from_name, context)),
        (Some(p), Some(a), None) => Ok(c4.push(seq![p@] + strings_view(a@))),
        (Some(p), None, Some(a)) => Ok(c4.push(seq![p@] + strings_view(a@))),
        (Some(p), None, None) => Ok(c4.push(seq![p@])),
        (None, Some(a), None) => Ok(c4.push(strings_view(a@))),
        (None, None, Some(a)) => Ok(c4.push(strings_view(a@))),
        (None, None, None) => Ok(c4),
        (None, Some(_), Some(_)) => Err(perr(ProfileErrorKind::RunArgvAndArgs, from_name, context)),
    }
}

/// The argv of a run command: exactly one candidate must be given, and its
/// empty parts are dropped; nothing may remain empty.
pub open spec fn run_command_line_of(
    o: RawCommandObject,
    from_name: Seq<char>,
    context: Seq<char>,
) -> Result<Seq<Seq<char>>, ProfileErrorModel> {
    match run_candidates(o, from_name, context) {
        Err(e) => Err(e),
        Ok(c) => {
            if c.len() != 1 {
                Err(perr(ProfileErrorKind::RunNeedsExactlyOne, from_name, context))
            } else {
                let cl = c[0].filter(|p: Seq<char>| p.len() > 0);
                if cl.len() == 0 {
                    Err(perr(ProfileErrorKind::RunEmpty, from_name, context))
                } else {
                    Ok(cl)
                }
            }
        },
    }
}

/// How many ways of naming a command line an object uses: each of `run`,
/// `command_line`, `command` and `shell`, and the program with its
/// arguments (`program`/`executable`, `argv`, `args`) as one.
pub open spec fn run_source_count(o: RawCommandObject) -> int {
    (if o.run is Some { 1int } else { 0int }) + (if o.command_line is Some { 1int } else { 0int })
        + (if o.command is Some { 1int } else { 0int }) + (if o.shell is Some { 1int } else { 0int })
        + (if first_some(o.program, o.executable) is Some || o.argv is Some || o.args is Some {
        1int
    } else {
        0int
    })
}

/// A run command needs exactly one way of naming its command line, and
/// `argv` and `args` exclude each other; what it runs is that command line
/// with its empty parts dropped, never empty and with no empty part.
pub proof fn law_run_command_line(o: RawCommandObject, from_name: Seq<char>, context: Seq<char>)
    ensures
        o.argv is Some && o.args is Some ==> run_command_line_of(o, from_name, context) is Err,
        run_source_count(o) != 1 ==> run_command_line_of(o, from_name, context) is Err,
        run_command_line_of(o, from_name, context) matches Ok(v) ==> v.len() > 0 && forall|k: int|
            0 <= k < v.len() ==> (#[trigger] v[k]).len() > 0,
        run_command_line_of(o, from_name, context) matches Ok(v) ==> (run_source_count(o) == 1
            && (run_candidates(o, from_name, context) matches Ok(c) && c.len() == 1 && v == c[0].filter(
            |p: Seq<char>| p.len() > 0,
        ))),
{
    match run_candidates(o, from_name, context) {
        Ok(c) => {
            assert(c.len() == run_source_count(o));
            if c.len() == 1 {
                let pred = |p: Seq<char>| p.len() > 0;
                let cl = c[0].filter(pred);
                assert forall|k: int| 0 <= k < cl.len() implies (#[trigger] cl[k]).len() > 0 by {
                    c[0].lemma_filter_pred(pred, k);
                }
            }
        },
        Err(_) => {},
    }
}

fn non_empty_parts(v: &Vec<String>) -> (r: Vec<String>)
    ensures
        strings_view(r@) == strings_view(v@).filter(|p: Seq<char>| p.len() > 0),
{
    let mut r: Vec<String> = Vec::new();
    let mut i: usize = 0;
    while i < v.len()
        invariant
            i <= v@.len(),
            strings_view(r@) == strings_view(v@.subrange(0, i as int)).filter(|p: Seq<char>| p.len() > 0),
        decreases v@.len() - i,
    {
        proof {
            assert(strings_view(v@.subrange(0, i + 1)).drop_last() =~= strings_view(v@.subrange(0, i as int)));
            reveal_with_fuel(Seq::filter, 1);
        }
        let part = chars_of(v[i].as_str());
        if part.len() > 0 {
            r.push(v[i].clone());
            assert(strings_view(r@) =~= strings_view(v@.subrange(0, i + 1)).filter(|p: Seq<char>| p.len() > 0));
        } else {
            assert(strings_view(r@) =~= strings_view(v@.subrange(0, i + 1)).filter(|p: Seq<char>| p.len() > 0));
        }
        i = i + 1;
    }
    assert(v@.subrange(0, v@.len() as int) =~= v@);
    r
}

fn prepend_string(p: &String, a: &Vec<String>) -> (r: Vec<String>)
    ensures
        strings_view(r@) == seq![p@] + strings_view(a@),
{
    let mut r: Vec<String> = Vec::new();
    r.push(p.clone());
    let mut i: usize = 0;
    while i < a.len()
        invariant
            i <= a@.len(),
            r@.len() == i + 1,
            r@[0]@ == p@,
            forall|k: int| 0 <= k < i ==> #[trigger] r@[k + 1]@ == a@[k]@,
        decreases a@.len() - i,
    {
        r.push(a[i].clone());
        i = i + 1;
    }
    assert(strings_view(r@) =~= seq![p@] + strings_view(a@)) by {
        assert forall|k: int| 0 <= k < r@.len() implies #[trigger] strings_view(r@)[k] == (seq![p@]
            + strings_view(a@))[k] by {
            if k > 0 {
                assert(r@[(k - 1) + 1]@ == a@[k - 1]@);
            }
        }
    }
    r
}

/// The view of a list of candidate command lines.
pub open spec fn candidates_view(v: Seq<Vec<String>>) -> Seq<Seq<Seq<char>>> {
    v.map_values(|x: Vec<String>| strings_view(x@))
}

fn parse_run_command_line(o: &RawCommandObject, from_name: &[char], context: &[char]) -> (r: Result<Vec<String>, ProfileError>)
    ensures
        match r {
            Ok(v) => run_command_line_of(*o, from_name@, context@) == Ok::<Seq<Seq<char>>, ProfileErrorModel>(strings_view(v@)),
            Err(e) => run_command_line_of(*o, from_name@, context@) == Err::<Seq<Seq<char>>, ProfileErrorModel>(e@),
        },
        o.argv is Some && o.args is Some ==> r is Err,
        run_source_count(*o) != 1 ==> r is Err,
        r matches Ok(v) ==> (v@.len() > 0 && (forall|k: int| 0 <= k < v@.len() ==> (#[trigger] v@[k])@.len() > 0)
            && (run_candidates(*o, from_name@, context@) matches Ok(c) && c.len() == 1 && strings_view(v@)
            == c[0].filter(|p: Seq<char>| p.len() > 0))),
{
    proof {
        law_run_command_line(*o, from_name@, context@);
    }
    let mut candidates: Vec<Vec<String>> = Vec::new();
    if let Some(line) = &o.run {
        candidates.push(raw_command_line_to_args(line));
    }
    if let Some(line) = &o.command_line {
        candidates.push(raw_command_line_to_args(line));
    }
    if let Some(command) = &o.command {
        candidates.push(shell_command_line(command));
    }
    if let Some(shell) = &o.shell {
        candidates.push(shell_command_line(shell));
    }
    let executable = if o.program.is_some() {
        &o.program
    } else {
        &o.executable
    };
    match (executable, &o.argv, &o.args) {
        (Some(_), Some(_), Some(_)) => {
            return Err(fail(ProfileErrorKind::RunProgramArgvArgs, from_name, context));
        },
        (Some(program), Some(argv), None) => {
            candidates.push(prepend_string(program, argv));
        },
        (Some(program), None, Some(argv)) => {
            candidates.push(prepend_string(program, argv));
        },
        (Some(program), None, None) => {
            let mut one: Vec<String> = Vec::new();
            one.push(program.clone());
            assert(strings_view(one@) =~= seq![program@]);
            candidates.push(one);
        },
        (None, Some(argv), None) => {
            candidates.push(crate::profiles::copy_string_vec(argv));
        },
        (None, None, Some(argv)) => {
            candidates.push(crate::profiles::copy_string_vec(argv));
        },
        (None, None, None) => {},
        (None, Some(_), Some(_)) => {
            return Err(fail(ProfileErrorKind::RunArgvAndArgs, from_name, context));
        },
    }
    proof {
        match run_candidates(*o, from_name@, context@) {
            Ok(c) => {
                assert(candidates_view(candidates@) =~= c);
            },
            Err(_) => {},
        }
    }
    if candidates.len() != 1 {
        return Err(fail(ProfileErrorKind::RunNeedsExactlyOne, from_name, context));
    }
    let command_line = non_empty_parts(&candidates[0]);
    if command_line.len() == 0 {
        return Err(fail(ProfileErrorKind::RunEmpty, from_name, context));
    }
    assert forall|k: int| 0 <= k < command_line@.len() implies (#[trigger] command_line@[k])@ == strings_view(
        command_line@,
    )[k] by {}
    Ok(command_line)
}

/// The settings a command object describes.
pub open spec fn command_object_of(
    o: RawCommandObject,
    from_name: Seq<char>,
    context: Seq<char>,
) -> Result<CommandSettingsModel, ProfileErrorModel> {
    let action: Result<Option<CommandAction>, ProfileErrorModel> = match first_some(o.action, o.name) {
        Some(v) => match command_action_of(v@) {
            Ok(a) => Ok(Some(a)),
            Err(e) => Err(e),
        },
        None => {
            if has_run_fields(o) {
                Ok(Some(CommandAction::RunCommand))
            } else {
                Ok(None)
            }
        },
    };
    match action {
        Err(e) => Err(e),
        Ok(None) => match o.command {
            None => Err(perr(ProfileErrorKind::CommandRequiresAction, from_name, context)),
            Some(c) => match command_action_of(c@) {
                Ok(a) => Ok(CommandSettingsModel { action: a, command_line: Seq::empty() }),
                Err(e) => Err(e),
            },
        },
        Ok(Some(action)) => match action {
            CommandAction::RunCommand => match run_command_line_of(o, from_name, context) {
                Ok(cl) => Ok(CommandSettingsModel { action, command_line: cl }),
                Err(e) => Err(e),
            },
            _ => {
                if has_run_fields(o) {
                    Err(
                        perr_at(
                            ProfileErrorKind::CommandLineNotAllowed,
                            from_name,
                            context,
                            command_keyword(action),
                            0,
                        ),
                    )
                } else {
                    Ok(CommandSettingsModel { action, command_line: Seq::empty() })
                }
            },
        },
    }
}

fn parse_command_object(o: &RawCommandObject, from_name: &[char], context: &[char]) -> (r: Result<CommandSettings, ProfileError>)
    ensures
        match r {
            Ok(v) => command_object_of(*o, from_name@, context@) == Ok::<CommandSettingsModel, ProfileErrorModel>(v@),
            Err(e) => command_object_of(*o, from_name@, context@) == Err::<CommandSettingsModel, ProfileErrorModel>(e@),
        },
{
    let has_run = o.command_line.is_some() || o.args.is_some() || o.argv.is_some()
        || o.program.is_some() || o.executable.is_some() || o.shell.is_some() || o.run.is_some();
    let named = if o.action.is_some() {
        &o.action
    } else {
        &o.name
    };
    let action = match named {
        Some(value) => parse_command_action(value.as_str())?,
        None => {
            if has_run {
                CommandAction::RunCommand
            } else {
                match &o.command {
                    None => {
                        return Err(fail(ProfileErrorKind::CommandRequiresAction, from_name, context));
                    },
                    Some(c) => {
                        let a = parse_command_action(c.as_str())?;
                        let r = CommandSettings { action: a, command_line: Vec::new() };
                        assert(strings_view(r.command_line@) =~= Seq::<Seq<char>>::empty());
                        return Ok(r);
                    },
                }
            }
        },
    };
    match action {
        CommandAction::RunCommand => {
            let command_line = parse_run_command_line(o, from_name, context)?;
            Ok(CommandSettings { action, command_line })
        },
        _ => {
            if has_run {
                let kw = chars_of(command_action_keyword(action));
                return Err(fail_at(ProfileErrorKind::CommandLineNotAllowed, from_name, context, &kw, 0));
            }
            let r = CommandSettings { action, command_line: Vec::new() };
            assert(strings_view(r.command_line@) =~= Seq::<Seq<char>>::empty());
            Ok(r)
        },
    }
}

/// The command settings of a mapping: only command mappings may (and must)
/// have one, and they need a button source; a bare `run` needs a command line.
pub open spec fn command_settings_of(
    raw: Option<RawCommandSettings>,
    action: MappingAction,
    from: EventCode,
    from_name: Seq<char>,
    context: Seq<char>,
) -> Result<Option<CommandSettingsModel>, ProfileErrorModel> {
    if action != MappingAction::Command {
        if raw is Some {
            Err(perr(ProfileErrorKind::CommandWithoutAction, from_name, context))
        } else {
            Ok(None)
        }
    } else if from.kind != EventKind::Key {
        Err(perr(ProfileErrorKind::CommandNeedsButton, from_name, context))
    } else {
        match raw {
            None => Err(perr(ProfileErrorKind::CommandRequiresCommand, from_name, context)),
            Some(RawCommandSettings::Scalar(v)) => match command_action_of(v@) {
                Err(e) => Err(e),
                Ok(a) => {
                    if a == CommandAction::RunCommand {
                        Err(perr(ProfileErrorKind::RunRequiresCommandLine, from_name, context))
                    } else {
                        Ok(Some(CommandSettingsModel { action: a, command_line: Seq::empty() }))
                    }
                },
            },
            Some(RawCommandSettings::Object(o)) => match command_object_of(o, from_name, context) {
                Ok(c) => Ok(Some(c)),
                Err(e) => Err(e),
            },
        }
    }
}

pub fn parse_command_settings(
    raw: &Option<RawCommandSettings>,
    action: MappingAction,
    from: EventCode,
    from_name: &[char],
    context: &[char],
) -> (r: Result<Option<CommandSettings>, ProfileError>)
    ensures
        match r {
            Ok(v) => command_settings_of(*raw, action, from, from_name@, context@) == Ok::<Option<CommandSettingsModel>, ProfileErrorModel>(command_view(v)),
            Err(e) => command_settings_of(*raw, action, from, from_name@, context@) == Err::<Option<CommandSettingsModel>, ProfileErrorModel>(e@),
        },
{
    if action != MappingAction::Command {
        if raw.is_some() {
            return Err(fail(ProfileErrorKind::CommandWithoutAction, from_name, context));
        }
        return Ok(None);
    }
    if from.kind != EventKind::Key {
        return Err(fail(ProfileErrorKind::CommandNeedsButton, from_name, context));
    }
    match raw {
        None => Err(fail(ProfileErrorKind::CommandRequiresCommand, from_name, context)),
        Some(RawCommandSettings::Scalar(v)) => {
            let a = parse_command_action(v.as_str())?;
            if a == CommandAction::RunCommand {
                return Err(fail(ProfileErrorKind::RunRequiresCommandLine, from_name, context));
            }
            let r = CommandSettings { action: a, command_line: Vec::new() };
            assert(strings_view(r.command_line@) =~= Seq::<Seq<char>>::empty());
            Ok(Some(r))
        },
        Some(RawCommandSettings::Object(o)) => {
            let c = parse_command_object(o, from_name, context)?;
            Ok(Some(c))
        },
    }
}

} // verus!
