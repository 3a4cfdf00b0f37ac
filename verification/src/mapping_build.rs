//! Reading the mappings of a layer: source, action, target, activator, turbo,
//! macro and command, with every rule that ties them together.

use vstd::prelude::*;
use crate::event_code::{
    event_name, output_supports, parse_event_code, parsed_event, virtual_output_supports,
    EventCode, EventKind,
};
use crate::macro_build::{macro_settings_of, parse_macro_settings, RawMacroEvent, RawMacroSettings};
use crate::profile_build::{
    activator_of, command_settings_of, fail, fail_at, first_some, mapping_action_of, opt_view,
    parse_command_settings, parse_mapping_action, parse_mapping_activator, parse_turbo, perr,
    perr_at, turbo_of, ProfileError, ProfileErrorKind, ProfileErrorModel, RawCommandSettings,
    RawMappingActivator, RawTurbo,
};
use crate::profiles::{
    command_view, macro_view, mappings_view, ActivatorKind, ActivatorSettings, CommandSettingsModel,
    MacroEvent, MacroEventModel, MacroMode, MacroSettingsModel, Mapping, MappingAction,
    MappingModel, TurboSettings,
};
use crate::text::{chars_of, normalize_keyword, normalize_keyword_str, chars_eq_str, str_eq};

verus! {

/// One mapping as the document writes it.
#[derive(Clone, Debug)]
pub struct RawMapping {
    pub from: String,
    pub to: Option<String>,
    pub action: Option<String>,
    /// The `type` key, an alias of `action`.
    pub kind_alias: Option<String>,
    pub activator: Option<RawMappingActivator>,
    pub turbo: Option<RawTurbo>,
    pub turbo_interval_ms: Option<u64>,
    pub macro_settings: Option<RawMacroSettings>,
    pub macro_events: Option<Vec<RawMacroEvent>>,
    pub command: Option<RawCommandSettings>,
}

/// Whether a target keyword switches the source off.
pub open spec fn disabling_target(to: Seq<char>) -> bool {
    let k = normalize_keyword(to);
    k == "disable"@ || k == "disabled"@ || k == "none"@
}

/// The action of a mapping: `action` (or `type`) when given, else `macro`
/// when it has macro fields, `command` when it has a command; a target of
/// `disable`, `disabled` or `none` always disables.
pub open spec fn mapping_action_for(raw: RawMapping) -> Result<MappingAction, ProfileErrorModel> {
    let action_value = first_some(opt_view(raw.action), opt_view(raw.kind_alias));
    match mapping_action_of(action_value) {
        Err(e) => Err(e),
        Ok(a0) => {
            let a1 = if (raw.macro_settings is Some || raw.macro_events is Some) && action_value is None {
                MappingAction::Macro
            } else {
                a0
            };
            let a2 = if raw.command is Some && action_value is None {
                MappingAction::Command
            } else {
                a1
            };
            match raw.to {
                Some(t) => if disabling_target(t@) {
                    Ok(MappingAction::Disable)
                } else {
                    Ok(a2)
                },
                None => Ok(a2),
            }
        },
    }
}

/// `rel:x` or `rel:y`.
pub open spec fn mouse_motion_axis(e: EventCode) -> bool {
    event_name(e) == "rel:x"@ || event_name(e) == "rel:y"@
}

/// A stick axis of the virtual gamepad.
pub open spec fn mouse_stick_axis(e: EventCode) -> bool {
    event_name(e) == "abs:x"@ || event_name(e) == "abs:y"@ || event_name(e) == "abs:rx"@
        || event_name(e) == "abs:ry"@
}

/// The target of a plain remapping: a known event the virtual output can
/// emit; a relative target needs an axis source; a mouse motion source may
/// drive a stick axis or another relative axis, nothing else.
pub open spec fn remap_target_of(
    to: Option<Seq<char>>,
    from: EventCode,
    from_name: Seq<char>,
    context: Seq<char>,
) -> Result<EventCode, ProfileErrorModel> {
    match to {
        None => Err(perr(ProfileErrorKind::MappingRequiresTo, from_name, context)),
        Some(t) => match parsed_event(t) {
            None => Err(perr_at(ProfileErrorKind::UnknownTargetEvent, from_name, context, t, 0)),
            Some(code) => {
                if !output_supports(code) {
                    Err(
                        perr_at(
                            ProfileErrorKind::TargetUnsupported,
                            from_name,
                            context,
                            event_name(code),
                            0,
                        ),
                    )
                } else if code.kind == EventKind::Relative && !(from.kind == EventKind::Absolute
                    || from.kind == EventKind::Relative) {
                    Err(
                        perr_at(
                            ProfileErrorKind::RelativeTargetNeedsAxisSource,
                            from_name,
                            context,
                            event_name(code),
                            0,
                        ),
                    )
                } else if from.kind == EventKind::Relative && code.kind == EventKind::Absolute && (
                !mouse_motion_axis(from) || !mouse_stick_axis(code)) {
                    Err(perr(ProfileErrorKind::MouseToStickAxes, from_name, context))
                } else if from.kind == EventKind::Relative && !(code.kind == EventKind::Absolute
                    || code.kind == EventKind::Relative) {
                    Err(perr(ProfileErrorKind::RelativeSourceTarget, from_name, context))
                } else {
                    Ok(code)
                }
            },
        },
    }
}

/// The code of the first macro step that has one.
pub open spec fn first_step_code(events: Seq<MacroEventModel>) -> Option<EventCode>
    decreases events.len(),
{
    if events.len() == 0 {
        None
    } else if events[0].code is Some {
        events[0].code
    } else {
        first_step_code(events.drop_first())
    }
}

/// The target recorded for a mapping of the given action.
pub open spec fn target_of(
    action: MappingAction,
    to: Option<Seq<char>>,
    from: EventCode,
    macro_settings: Option<MacroSettingsModel>,
    from_name: Seq<char>,
    context: Seq<char>,
) -> Result<EventCode, ProfileErrorModel> {
    match action {
        MappingAction::Remap => remap_target_of(to, from, from_name, context),
        MappingAction::Macro => Ok(
            match macro_settings {
                Some(m) => match first_step_code(m.events) {
                    Some(c) => c,
                    None => from,
                },
                None => from,
            },
        ),
        _ => Ok(from),
    }
}

/// The rule a mapping's turbo and macro break, if any: turbo needs the press
/// activator, a plain remapping and a button source and target; a hold macro
/// needs the press activator.
pub open spec fn mapping_rule_error(
    action: MappingAction,
    activator: ActivatorSettings,
    turbo: Option<TurboSettings>,
    macro_settings: Option<MacroSettingsModel>,
    from: EventCode,
    to: EventCode,
    from_name: Seq<char>,
    context: Seq<char>,
) -> Option<ProfileErrorModel> {
    if turbo is Some && activator.kind != ActivatorKind::Press {
        Some(perr(ProfileErrorKind::TurboNeedsPress, from_name, context))
    } else if turbo is Some && action == MappingAction::Disable {
        Some(perr(ProfileErrorKind::DisabledTurbo, from_name, context))
    } else if turbo is Some && action == MappingAction::Macro {
        Some(perr(ProfileErrorKind::MacroTurbo, from_name, context))
    } else if turbo is Some && action == MappingAction::Command {
        Some(perr(ProfileErrorKind::CommandTurbo, from_name, context))
    } else if turbo is Some && (from.kind != EventKind::Key || to.kind != EventKind::Key) {
        Some(perr(ProfileErrorKind::TurboNeedsButtons, from_name, context))
    } else if (macro_settings matches Some(m) && m.mode == MacroMode::Hold) && activator.kind
        != ActivatorKind::Press {
        Some(perr(ProfileErrorKind::HoldMacroNeedsPress, from_name, context))
    } else {
        None
    }
}

/// One mapping, checked in this order: its source, its action, its macro,
/// its command, its activator, its target, its turbo, then the rules that
/// tie turbo and hold macros to the rest.
#[verifier::opaque]
pub open spec fn mapping_of(raw: RawMapping, context: Seq<char>) -> Result<MappingModel, ProfileErrorModel> {
    let fname = raw.from@;
    match parsed_event(fname) {
        None => Err(perr(ProfileErrorKind::UnknownSourceEvent, fname, context)),
        Some(from) => match mapping_action_for(raw) {
            Err(e) => Err(e),
            Ok(action) => match macro_settings_of(
                raw.macro_settings,
                raw.macro_events,
                action,
                from,
                fname,
                context,
            ) {
                Err(e) => Err(e),
                Ok(ms) => match command_settings_of(raw.command, action, from, fname, context) {
                    Err(e) => Err(e),
                    Ok(cmd) => match activator_of(raw.activator, from, fname, context) {
                        Err(e) => Err(e),
                        Ok(act) => match target_of(action, opt_view(raw.to), from, ms, fname, context) {
                            Err(e) => Err(e),
                            Ok(to) => match turbo_of(raw.turbo, raw.turbo_interval_ms) {
                                Err(e) => Err(e),
                                Ok(turbo) => match mapping_rule_error(
                                    action,
                                    act,
                                    turbo,
                                    ms,
                                    from,
                                    to,
                                    fname,
                                    context,
                                ) {
                                    Some(e) => Err(e),
                                    None => Ok(
                                        MappingModel {
                                            from,
                                            to,
                                            from_name: event_name(from),
                                            to_name: event_name(to),
                                            action,
                                            activator: act,
                                            turbo,
                                            macro_settings: ms,
                                            command: cmd,
                                        },
                                    ),
                                },
                            },
                        },
                    },
                },
            },
        },
    }
}

/// The mappings of a list, in order; the first bad mapping decides the error.
pub open spec fn mappings_of(raws: Seq<RawMapping>, context: Seq<char>) -> Result<Seq<MappingModel>, ProfileErrorModel>
    decreases raws.len(),
{
    if raws.len() == 0 {
        Ok(Seq::empty())
    } else {
        match mappings_of(raws.drop_last(), context) {
            Err(e) => Err(e),
            Ok(prev) => match mapping_of(raws.last(), context) {
                Err(e) => Err(e),
                Ok(m) => Ok(prev.push(m)),
            },
        }
    }
}

fn resolve_mapping_action(raw: &RawMapping) -> (r: Result<MappingAction, ProfileError>)
    ensures
        match r {
            Ok(a) => mapping_action_for(*raw) == Ok::<MappingAction, ProfileErrorModel>(a),
            Err(e) => mapping_action_for(*raw) == Err::<MappingAction, ProfileErrorModel>(e@),
        },
{
    let action_value: Option<&str> = match &raw.action {
        Some(a) => Some(a.as_str()),
        None => match &raw.kind_alias {
            Some(a) => Some(a.as_str()),
            None => None,
        },
    };
    assert(crate::profile_build::str_opt(action_value) == first_some(opt_view(raw.action), opt_view(raw.kind_alias)));
    let mut action = parse_mapping_action(action_value)?;
    if (raw.macro_settings.is_some() || raw.macro_events.is_some()) && action_value.is_none() {
        action = MappingAction::Macro;
    }
    if raw.command.is_some() && action_value.is_none() {
        action = MappingAction::Command;
    }
    if let Some(t) = &raw.to {
        let k = normalize_keyword_str(t.as_str());
        if chars_eq_str(&k, "disable") || chars_eq_str(&k, "disabled") || chars_eq_str(&k, "none") {
            action = MappingAction::Disable;
        }
    }
    Ok(action)
}

fn is_mouse_motion_axis(e: EventCode) -> (r: bool)
    ensures
        r == mouse_motion_axis(e),
{
    let n = e.name();
    str_eq(n.as_str(), "rel:x") || str_eq(n.as_str(), "rel:y")
}

fn is_mouse_stick_axis(e: EventCode) -> (r: bool)
    ensures
        r == mouse_stick_axis(e),
{
    let n = e.name();
    str_eq(n.as_str(), "abs:x") || str_eq(n.as_str(), "abs:y") || str_eq(n.as_str(), "abs:rx")
        || str_eq(n.as_str(), "abs:ry")
}

fn parse_remap_target(
    to: &Option<String>,
    from: EventCode,
    from_name: &[char],
    context: &[char],
) -> (r: Result<EventCode, ProfileError>)
    ensures
        match r {
            Ok(c) => remap_target_of(opt_view(*to), from, from_name@, context@) == Ok::<EventCode, ProfileErrorModel>(c),
            Err(e) => remap_target_of(opt_view(*to), from, from_name@, context@) == Err::<EventCode, ProfileErrorModel>(e@),
        },
{
    let t = match to {
        None => {
            return Err(fail(ProfileErrorKind::MappingRequiresTo, from_name, context));
        },
        Some(t) => t,
    };
    let code = match parse_event_code(t.as_str()) {
        None => {
            let tv = chars_of(t.as_str());
            return Err(fail_at(ProfileErrorKind::UnknownTargetEvent, from_name, context, &tv, 0));
        },
        Some(c) => c,
    };
    if !virtual_output_supports(code) {
        let n = chars_of(code.name().as_str());
        return Err(fail_at(ProfileErrorKind::TargetUnsupported, from_name, context, &n, 0));
    }
    let from_axis = match from.kind {
        EventKind::Absolute | EventKind::Relative => true,
        EventKind::Key => false,
    };
    let to_axis = match code.kind {
        EventKind::Absolute | EventKind::Relative => true,
        EventKind::Key => false,
    };
    if code.kind == EventKind::Relative && !from_axis {
        let n = chars_of(code.name().as_str());
        return Err(fail_at(ProfileErrorKind::RelativeTargetNeedsAxisSource, from_name, context, &n, 0));
    }
    if from.kind == EventKind::Relative && code.kind == EventKind::Absolute && (!is_mouse_motion_axis(
        from,
    ) || !is_mouse_stick_axis(code)) {
        return Err(fail(ProfileErrorKind::MouseToStickAxes, from_name, context));
    }
    if from.kind == EventKind::Relative && !to_axis {
        return Err(fail(ProfileErrorKind::RelativeSourceTarget, from_name, context));
    }
    Ok(code)
}

fn first_macro_code(events: &Vec<MacroEvent>) -> (r: Option<EventCode>)
    ensures
        r == first_step_code(crate::profiles::events_view(events@)),
{
    let ghost ev = crate::profiles::events_view(events@);
    let mut i: usize = 0;
    assert(ev.skip(0) =~= ev);
    while i < events.len()
        invariant
            i <= events@.len(),
            ev == crate::profiles::events_view(events@),
            first_step_code(ev) == first_step_code(ev.skip(i as int)),
        decreases events@.len() - i,
    {
        let ghost rest = ev.skip(i as int);
        assert(rest[0] == events@[i as int]@);
        assert(rest.drop_first() =~= ev.skip(i + 1));
        if events[i].code.is_some() {
            return events[i].code;
        }
        i = i + 1;
    }
    None
}

/// Reads one mapping (see [`mapping_of`]); `context` says where it stands,
/// such as `top-level mappings`.
pub fn parse_mapping(raw: &RawMapping, context: &[char]) -> (r: Result<Mapping, ProfileError>)
    ensures
        match r {
            Ok(m) => mapping_of(*raw, context@) == Ok::<MappingModel, ProfileErrorModel>(m@),
            Err(e) => mapping_of(*raw, context@) == Err::<MappingModel, ProfileErrorModel>(e@),
        },
{
    proof {
        reveal(mapping_of);
    }
    let fname = chars_of(raw.from.as_str());
    let from = match parse_event_code(raw.from.as_str()) {
        Some(f) => f,
        None => {
            return Err(fail(ProfileErrorKind::UnknownSourceEvent, &fname, context));
        },
    };
    let action = resolve_mapping_action(raw)?;
    let macro_settings = parse_macro_settings(
        &raw.macro_settings,
        &raw.macro_events,
        action,
        from,
        &fname,
        context,
    )?;
    let command = parse_command_settings(&raw.command, action, from, &fname, context)?;
    let activator = parse_mapping_activator(&raw.activator, from, &fname, context)?;
    let to = match action {
        MappingAction::Remap => parse_remap_target(&raw.to, from, &fname, context)?,
        MappingAction::Macro => match &macro_settings {
            Some(m) => match first_macro_code(&m.events) {
                Some(c) => c,
                None => from,
            },
            None => from,
        },
        _ => from,
    };
    let turbo = parse_turbo(raw.turbo, raw.turbo_interval_ms)?;
    if turbo.is_some() {
        if activator.kind != ActivatorKind::Press {
            return Err(fail(ProfileErrorKind::TurboNeedsPress, &fname, context));
        }
        if action == MappingAction::Disable {
            return Err(fail(ProfileErrorKind::DisabledTurbo, &fname, context));
        }
        if action == MappingAction::Macro {
            return Err(fail(ProfileErrorKind::MacroTurbo, &fname, context));
        }
        if action == MappingAction::Command {
            return Err(fail(ProfileErrorKind::CommandTurbo, &fname, context));
        }
        if from.kind != EventKind::Key || to.kind != EventKind::Key {
            return Err(fail(ProfileErrorKind::TurboNeedsButtons, &fname, context));
        }
    }
    let hold = match &macro_settings {
        Some(m) => m.mode == MacroMode::Hold,
        None => false,
    };
    if hold && activator.kind != ActivatorKind::Press {
        return Err(fail(ProfileErrorKind::HoldMacroNeedsPress, &fname, context));
    }
    Ok(
        Mapping {
            from,
            to,
            from_name: from.name(),
            to_name: to.name(),
            action,
            activator,
            turbo,
            macro_settings,
            command,
        },
    )
}

/// The items of an optional list (none when it is absent).
pub open spec fn listed<T>(o: Option<Vec<T>>) -> Seq<T> {
    match o {
        Some(v) => v@,
        None => Seq::empty(),
    }
}

proof fn lemma_mappings_error_stays(raws: Seq<RawMapping>, n: int, context: Seq<char>)
    requires
        0 <= n <= raws.len(),
        mappings_of(raws.subrange(0, n), context) is Err,
    ensures
        mappings_of(raws, context) == mappings_of(raws.subrange(0, n), context),
    decreases raws.len() - n,
{
    if n < raws.len() {
        assert(raws.subrange(0, n + 1).drop_last() =~= raws.subrange(0, n));
        lemma_mappings_error_stays(raws, n + 1, context);
    } else {
        assert(raws.subrange(0, n) =~= raws);
    }
}

/// Reads a list of mappings (none when the list is absent).
pub fn parse_mappings(mappings: &Option<Vec<RawMapping>>, context: &[char]) -> (r: Result<Vec<Mapping>, ProfileError>)
    ensures
        match r {
            Ok(v) => mappings_of(listed(*mappings), context@) == Ok::<Seq<MappingModel>, ProfileErrorModel>(mappings_view(v@)),
            Err(e) => mappings_of(listed(*mappings), context@) == Err::<Seq<MappingModel>, ProfileErrorModel>(e@),
        },
{
    let mut parsed: Vec<Mapping> = Vec::new();
    let raws = match mappings {
        Some(m) => m,
        None => {
            assert(mappings_view(parsed@) =~= Seq::<MappingModel>::empty());
            return Ok(parsed);
        },
    };
    let mut i: usize = 0;
    assert(raws@.subrange(0, 0) =~= Seq::<RawMapping>::empty());
    assert(mappings_view(parsed@) =~= Seq::<MappingModel>::empty());
    while i < raws.len()
        invariant
            i <= raws@.len(),
            listed(*mappings) == raws@,
            mappings_of(raws@.subrange(0, i as int), context@) == Ok::<Seq<MappingModel>, ProfileErrorModel>(mappings_view(parsed@)),
        decreases raws@.len() - i,
    {
        let ghost pre = raws@.subrange(0, i + 1);
        assert(pre.drop_last() =~= raws@.subrange(0, i as int));
        assert(pre.last() == raws@[i as int]);
        let m = match parse_mapping(&raws[i], context) {
            Ok(m) => m,
            Err(e) => {
                proof {
                    assert(mappings_of(pre, context@) == Err::<Seq<MappingModel>, ProfileErrorModel>(e@));
                    lemma_mappings_error_stays(raws@, i + 1, context@);
                    assert(mappings_of(raws@, context@) == Err::<Seq<MappingModel>, ProfileErrorModel>(e@));
                }
                return Err(e);
            },
        };
        let ghost before = mappings_view(parsed@);
        parsed.push(m);
        assert(mappings_view(parsed@) =~= before.push(m@));
        i = i + 1;
    }
    assert(raws@.subrange(0, raws@.len() as int) =~= raws@);
    Ok(parsed)
}

} // verus!
