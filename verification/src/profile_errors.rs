//! The text of a profile error, as the user reads it.

use vstd::prelude::*;
use crate::profile_build::{ProfileError, ProfileErrorKind, ProfileErrorModel};
use crate::profiles::MAX_SHIFT_LAYERS;
use crate::text::{chars_of, decimal, decimal_chars, string_from_chars};

verus! {

/// `i` in decimal, with a leading `-` when negative.
pub open spec fn signed_decimal(i: int) -> Seq<char> {
    if i < 0 {
        "-"@ + decimal((-i) as nat)
    } else {
        decimal(i as nat)
    }
}

/// The message for a profile error: what rule was broken, naming the
/// mapping's source (`subject`), where it occurs (`context`), a further name
/// (`detail`), the macro step by its position from 1, and an allowed range.
pub open spec fn error_message(e: ProfileErrorModel) -> Seq<char> {
    match e.kind {
        ProfileErrorKind::UnknownMappingAction => "unknown mapping action "@ + e.subject,
        ProfileErrorKind::UnknownActivator => "unknown mapping activator "@ + e.subject,
        ProfileErrorKind::ActivatorRequiresKind => "activator from "@ + e.subject + " in "@ + e.context + " requires kind"@,
        ProfileErrorKind::ActivatorNeedsButton => "activator from "@ + e.subject + " in "@ + e.context + " requires a button source"@,
        ProfileErrorKind::ActivatorDelayNotAllowed => "activator from "@ + e.subject + " in "@ + e.context + " cannot use delay_ms with "@ + e.detail,
        ProfileErrorKind::ActivatorDelayRange => "activator from "@ + e.subject + " in "@ + e.context + " delay_ms must be between 50 and 5000"@,
        ProfileErrorKind::TurboRate => "turbo rate_hz must be positive"@,
        ProfileErrorKind::TurboInterval => "turbo interval_ms must be between 10 and 5000"@,
        ProfileErrorKind::UnknownCommandAction => "unknown command action "@ + e.subject,
        ProfileErrorKind::CommandWithoutAction => "mapping from "@ + e.subject + " in "@ + e.context + " has a command but action is not command"@,
        ProfileErrorKind::CommandNeedsButton => "command mapping from "@ + e.subject + " in "@ + e.context + " requires a button source"@,
        ProfileErrorKind::CommandRequiresCommand => "command mapping from "@ + e.subject + " in "@ + e.context + " requires command"@,
        ProfileErrorKind::RunRequiresCommandLine => "run command mapping from "@ + e.subject + " in "@ + e.context + " requires command_line"@,
        ProfileErrorKind::CommandRequiresAction => "command mapping from "@ + e.subject + " in "@ + e.context + " requires command action"@,
        ProfileErrorKind::CommandLineNotAllowed => e.detail + " command mapping from "@ + e.subject + " in "@ + e.context + " cannot use command_line"@,
        ProfileErrorKind::RunProgramArgvArgs => "run command mapping from "@ + e.subject + " in "@ + e.context + " cannot combine argv and args with program"@,
        ProfileErrorKind::RunArgvAndArgs => "run command mapping from "@ + e.subject + " in "@ + e.context + " cannot combine argv and args"@,
        ProfileErrorKind::RunNeedsExactlyOne => "run command mapping from "@ + e.subject + " in "@ + e.context + " requires exactly one command_line, args, argv, program, executable, shell, command, or run value"@,
        ProfileErrorKind::RunEmpty => "run command mapping from "@ + e.subject + " in "@ + e.context + " requires a non-empty command_line"@,
        ProfileErrorKind::UnknownMacroMode => "unknown macro mode "@ + e.subject,
        ProfileErrorKind::MacroWithoutAction => "mapping from "@ + e.subject + " in "@ + e.context + " has macro events but action is not macro"@,
        ProfileErrorKind::MacroNeedsButton => "macro mapping from "@ + e.subject + " in "@ + e.context + " requires a button source"@,
        ProfileErrorKind::MacroBothForms => "macro mapping from "@ + e.subject + " in "@ + e.context + " cannot use both macro and macro_events"@,
        ProfileErrorKind::MacroRequiresEvents => "macro mapping from "@ + e.subject + " in "@ + e.context + " requires macro events"@,
        ProfileErrorKind::MacroNeedsEvent => "macro mapping from "@ + e.subject + " in "@ + e.context + " requires at least one event"@,
        ProfileErrorKind::PressMacroRelease => "press macro from "@ + e.subject + " in "@ + e.context + " cannot use release_events"@,
        ProfileErrorKind::HoldMacroNeedsRelease => "hold macro from "@ + e.subject + " in "@ + e.context + " requires at least one release event"@,
        ProfileErrorKind::MacroEventFieldCount => "macro event "@ + decimal((e.index + 1) as nat) + " from "@ + e.subject + " in "@ + e.context + " must set exactly one of down, up, tap, axis, stick, rel, pause_ms, cancel, break, or stop"@,
        ProfileErrorKind::MacroXYWithoutStick => "macro event "@ + decimal((e.index + 1) as nat) + " from "@ + e.subject + " in "@ + e.context + " can only use x or y with stick"@,
        ProfileErrorKind::MacroCancelMustBeTrue => "macro cancel event "@ + decimal((e.index + 1) as nat) + " from "@ + e.subject + " in "@ + e.context + " must be true"@,
        ProfileErrorKind::MacroPauseTooLong => "macro pause_ms for event "@ + decimal((e.index + 1) as nat) + " from "@ + e.subject + " in "@ + e.context + " must be at most 60000"@,
        ProfileErrorKind::MacroStickValue => "macro stick event "@ + decimal((e.index + 1) as nat) + " from "@ + e.subject + " in "@ + e.context + " must use x or y, not value"@,
        ProfileErrorKind::MacroUnknownStick => "macro stick event "@ + decimal((e.index + 1) as nat) + " from "@ + e.subject + " in "@ + e.context + " has unknown stick "@ + e.detail,
        ProfileErrorKind::MacroStickNeedsXY => "macro stick event "@ + decimal((e.index + 1) as nat) + " from "@ + e.subject + " in "@ + e.context + " requires x or y"@,
        ProfileErrorKind::MacroStickOutOfRange => "macro stick "@ + e.detail + " value for event "@ + decimal((e.index + 1) as nat) + " from "@ + e.subject + " in "@ + e.context + " must stay within -1.0..1.0"@,
        ProfileErrorKind::MacroRelRequiresValue => "macro relative event "@ + decimal((e.index + 1) as nat) + " from "@ + e.subject + " in "@ + e.context + " requires value"@,
        ProfileErrorKind::MacroRelOutOfRange => "macro relative value for event "@ + decimal((e.index + 1) as nat) + " from "@ + e.subject + " in "@ + e.context + " must stay within "@ + signed_decimal(e.low as int) + ".."@ + signed_decimal(e.high as int),
        ProfileErrorKind::MacroAxisRequiresValue => "macro axis event "@ + decimal((e.index + 1) as nat) + " from "@ + e.subject + " in "@ + e.context + " requires value"@,
        ProfileErrorKind::MacroAxisOutOfRange => "macro axis value for event "@ + decimal((e.index + 1) as nat) + " from "@ + e.subject + " in "@ + e.context + " must stay within "@ + signed_decimal(e.low as int) + ".."@ + signed_decimal(e.high as int),
        ProfileErrorKind::UnknownMacroTarget => "unknown macro target event "@ + e.detail + " for event "@ + decimal((e.index + 1) as nat) + " from "@ + e.subject + " in "@ + e.context,
        ProfileErrorKind::MacroTargetUnsupported => "macro target event "@ + e.detail + " for event "@ + decimal((e.index + 1) as nat) + " from "@ + e.subject + " in "@ + e.context + " is not supported by the current virtual output"@,
        ProfileErrorKind::MacroButtonTarget => "macro button event "@ + decimal((e.index + 1) as nat) + " from "@ + e.subject + " in "@ + e.context + " must target a button"@,
        ProfileErrorKind::MacroAxisTarget => "macro axis event "@ + decimal((e.index + 1) as nat) + " from "@ + e.subject + " in "@ + e.context + " must target an absolute axis"@,
        ProfileErrorKind::MacroRelativeTarget => "macro relative event "@ + decimal((e.index + 1) as nat) + " from "@ + e.subject + " in "@ + e.context + " must target a relative axis"@,
        ProfileErrorKind::UnknownSourceEvent => "unknown source event "@ + e.subject + " in "@ + e.context,
        ProfileErrorKind::MappingRequiresTo => "mapping from "@ + e.subject + " in "@ + e.context + " requires to"@,
        ProfileErrorKind::UnknownTargetEvent => "unknown target event "@ + e.detail + " in "@ + e.context,
        ProfileErrorKind::TargetUnsupported => "target event "@ + e.detail + " in "@ + e.context + " is not supported by the current virtual output"@,
        ProfileErrorKind::RelativeTargetNeedsAxisSource => "relative target event "@ + e.detail + " in "@ + e.context + " requires an absolute-axis source or a macro event with value"@,
        ProfileErrorKind::MouseToStickAxes => "mouse-to-stick mapping from "@ + e.subject + " in "@ + e.context + " must use rel:x or rel:y as the source and abs:x, abs:y, abs:rx, or abs:ry as the centered virtual stick target"@,
        ProfileErrorKind::RelativeSourceTarget => "relative source event "@ + e.subject + " in "@ + e.context + " can only map to a relative mouse axis or centered virtual stick axis"@,
        ProfileErrorKind::TurboNeedsPress => "turbo mapping from "@ + e.subject + " in "@ + e.context + " can only use press activator"@,
        ProfileErrorKind::DisabledTurbo => "disabled mapping from "@ + e.subject + " in "@ + e.context + " cannot use turbo"@,
        ProfileErrorKind::MacroTurbo => "macro mapping from "@ + e.subject + " in "@ + e.context + " cannot use turbo"@,
        ProfileErrorKind::CommandTurbo => "command mapping from "@ + e.subject + " in "@ + e.context + " cannot use turbo"@,
        ProfileErrorKind::TurboNeedsButtons => "turbo mapping from "@ + e.subject + " in "@ + e.context + " requires button source and target"@,
        ProfileErrorKind::HoldMacroNeedsPress => "hold macro from "@ + e.subject + " in "@ + e.context + " can only use press activator"@,
        ProfileErrorKind::EmptyLayerId => "layer id must contain at least one letter or number"@,
        ProfileErrorKind::UnknownActivationMode => "unknown layer activation mode "@ + e.subject,
        ProfileErrorKind::LayerActivationControl => "layer "@ + e.subject + " activation requires a control"@,
        ProfileErrorKind::UnknownActivationControl => "unknown activation control "@ + e.detail + " for layer "@ + e.subject,
        ProfileErrorKind::MainLayerActivation => "main layer cannot have an activation control"@,
        ProfileErrorKind::DuplicateLayer => "duplicate layer id "@ + e.subject,
        ProfileErrorKind::LayerRequiresActivation => "layer "@ + e.subject + " requires activation"@,
        ProfileErrorKind::TooManyShiftLayers => "profiles support up to "@ + decimal(MAX_SHIFT_LAYERS as nat) + " shift layers"@,
    }
}

fn push_str(out: &mut Vec<char>, s: &str)
    ensures
        final(out)@ == old(out)@ + s@,
{
    let c = chars_of(s);
    push_chars(out, &c);
}

pub(crate) fn push_chars(out: &mut Vec<char>, s: &Vec<char>)
    ensures
        final(out)@ == old(out)@ + s@,
{
    let ghost start = out@;
    let mut i: usize = 0;
    while i < s.len()
        invariant
            i <= s@.len(),
            out@ == start + s@.subrange(0, i as int),
        decreases s@.len() - i,
    {
        out.push(s[i]);
        assert(out@ =~= start + s@.subrange(0, i + 1));
        i = i + 1;
    }
    assert(s@.subrange(0, s@.len() as int) =~= s@);
}

pub(crate) fn signed_chars(x: i32) -> (r: Vec<char>)
    ensures
        r@ == signed_decimal(x as int),
{
    if x < 0 {
        let mut r = chars_of("-");
        let magnitude: i64 = -(x as i64);
        push_chars(&mut r, &decimal_chars(magnitude as u128));
        r
    } else {
        decimal_chars(x as u128)
    }
}

impl ProfileError {
    /// The error's message (see [`error_message`]).
    pub fn message(&self) -> (r: String)
        ensures
            r@ == error_message(self@),
    {
        let out: Vec<char> = match self.kind {
            ProfileErrorKind::UnknownMappingAction => {
                let mut out = chars_of("unknown mapping action ");
                push_chars(&mut out, &chars_of(self.subject.as_str()));
                out
            },
            ProfileErrorKind::UnknownActivator => {
                let mut out = chars_of("unknown mapping activator ");
                push_chars(&mut out, &chars_of(self.subject.as_str()));
                out
            },
            ProfileErrorKind::ActivatorRequiresKind => {
                let mut out = chars_of("activator from ");
                push_chars(&mut out, &chars_of(self.subject.as_str()));
                push_str(&mut out, " in ");
                push_chars(&mut out, &chars_of(self.context.as_str()));
                push_str(&mut out, " requires kind");
                out
            },
            ProfileErrorKind::ActivatorNeedsButton => {
                let mut out = chars_of("activator from ");
                push_chars(&mut out, &chars_of(self.subject.as_str()));
                push_str(&mut out, " in ");
                push_chars(&mut out, &chars_of(self.context.as_str()));
                push_str(&mut out, " requires a button source");
                out
            },
            ProfileErrorKind::ActivatorDelayNotAllowed => {
                let mut out = chars_of("activator from ");
                push_chars(&mut out, &chars_of(self.subject.as_str()));
                push_str(&mut out, " in ");
                push_chars(&mut out, &chars_of(self.context.as_str()));
                push_str(&mut out, " cannot use delay_ms with ");
                push_chars(&mut out, &chars_of(self.detail.as_str()));
                out
            },
            ProfileErrorKind::ActivatorDelayRange => {
                let mut out = chars_of("activator from ");
                push_chars(&mut out, &chars_of(self.subject.as_str()));
                push_str(&mut out, " in ");
                push_chars(&mut out, &chars_of(self.context.as_str()));
                push_str(&mut out, " delay_ms must be between 50 and 5000");
                out
            },
            ProfileErrorKind::TurboRate => {
                let mut out = chars_of("turbo rate_hz must be positive");
                out
            },
            ProfileErrorKind::TurboInterval => {
                let mut out = chars_of("turbo interval_ms must be between 10 and 5000");
                out
            },
            ProfileErrorKind::UnknownCommandAction => {
                let mut out = chars_of("unknown command action ");
                push_chars(&mut out, &chars_of(self.subject.as_str()));
                out
            },
            ProfileErrorKind::CommandWithoutAction => {
                let mut out = chars_of("mapping from ");
                push_chars(&mut out, &chars_of(self.subject.as_str()));
                push_str(&mut out, " in ");
                push_chars(&mut out, &chars_of(self.context.as_str()));
                push_str(&mut out, " has a command but action is not command");
                out
            },
            ProfileErrorKind::CommandNeedsButton => {
                let mut out = chars_of("command mapping from ");
                push_chars(&mut out, &chars_of(self.subject.as_str()));
                push_str(&mut out, " in ");
                push_chars(&mut out, &chars_of(self.context.as_str()));
                push_str(&mut out, " requires a button source");
                out
            },
            ProfileErrorKind::CommandRequiresCommand => {
                let mut out = chars_of("command mapping from ");
                push_chars(&mut out, &chars_of(self.subject.as_str()));
                push_str(&mut out, " in ");
                push_chars(&mut out, &chars_of(self.context.as_str()));
                push_str(&mut out, " requires command");
                out
            },
            ProfileErrorKind::RunRequiresCommandLine => {
                let mut out = chars_of("run command mapping from ");
                push_chars(&mut out, &chars_of(self.subject.as_str()));
                push_str(&mut out, " in ");
                push_chars(&mut out, &chars_of(self.context.as_str()));
                push_str(&mut out, " requires command_line");
                out
            },
            ProfileErrorKind::CommandRequiresAction => {
                let mut out = chars_of("command mapping from ");
                push_chars(&mut out, &chars_of(self.subject.as_str()));
                push_str(&mut out, " in ");
                push_chars(&mut out, &chars_of(self.context.as_str()));
                push_str(&mut out, " requires command action");
                out
            },
            ProfileErrorKind::CommandLineNotAllowed => {
                let mut out = chars_of(self.detail.as_str());
                push_str(&mut out, " command mapping from ");
                push_chars(&mut out, &chars_of(self.subject.as_str()));
                push_str(&mut out, " in ");
                push_chars(&mut out, &chars_of(self.context.as_str()));
                push_str(&mut out, " cannot use command_line");
                out
            },
            ProfileErrorKind::RunProgramArgvArgs => {
                let mut out = chars_of("run command mapping from ");
                push_chars(&mut out, &chars_of(self.subject.as_str()));
                push_str(&mut out, " in ");
                push_chars(&mut out, &chars_of(self.context.as_str()));
                push_str(&mut out, " cannot combine argv and args with program");
                out
            },
            ProfileErrorKind::RunArgvAndArgs => {
                let mut out = chars_of("run command mapping from ");
                push_chars(&mut out, &chars_of(self.subject.as_str()));
                push_str(&mut out, " in ");
                push_chars(&mut out, &chars_of(self.context.as_str()));
                push_str(&mut out, " cannot combine argv and args");
                out
            },
            ProfileErrorKind::RunNeedsExactlyOne => {
                let mut out = chars_of("run command mapping from ");
                push_chars(&mut out, &chars_of(self.subject.as_str()));
                push_str(&mut out, " in ");
                push_chars(&mut out, &chars_of(self.context.as_str()));
                push_str(&mut out, " requires exactly one command_line, args, argv, program, executable, shell, command, or run value");
                out
            },
            ProfileErrorKind::RunEmpty => {
                let mut out = chars_of("run command mapping from ");
                push_chars(&mut out, &chars_of(self.subject.as_str()));
                push_str(&mut out, " in ");
                push_chars(&mut out, &chars_of(self.context.as_str()));
                push_str(&mut out, " requires a non-empty command_line");
                out
            },
            ProfileErrorKind::UnknownMacroMode => {
                let mut out = chars_of("unknown macro mode ");
                push_chars(&mut out, &chars_of(self.subject.as_str()));
                out
            },
            ProfileErrorKind::MacroWithoutAction => {
                let mut out = chars_of("mapping from ");
                push_chars(&mut out, &chars_of(self.subject.as_str()));
                push_str(&mut out, " in ");
                push_chars(&mut out, &chars_of(self.context.as_str()));
                push_str(&mut out, " has macro events but action is not macro");
                out
            },
            ProfileErrorKind::MacroNeedsButton => {
                let mut out = chars_of("macro mapping from ");
                push_chars(&mut out, &chars_of(self.subject.as_str()));
                push_str(&mut out, " in ");
                push_chars(&mut out, &chars_of(self.context.as_str()));
                push_str(&mut out, " requires a button source");
                out
            },
            ProfileErrorKind::MacroBothForms => {
                let mut out = chars_of("macro mapping from ");
                push_chars(&mut out, &chars_of(self.subject.as_str()));
                push_str(&mut out, " in ");
                push_chars(&mut out, &chars_of(self.context.as_str()));
                push_str(&mut out, " cannot use both macro and macro_events");
                out
            },
            ProfileErrorKind::MacroRequiresEvents => {
                let mut out = chars_of("macro mapping from ");
                push_chars(&mut out, &chars_of(self.subject.as_str()));
                push_str(&mut out, " in ");
                push_chars(&mut out, &chars_of(self.context.as_str()));
                push_str(&mut out, " requires macro events");
                out
            },
            ProfileErrorKind::MacroNeedsEvent => {
                let mut out = chars_of("macro mapping from ");
                push_chars(&mut out, &chars_of(self.subject.as_str()));
                push_str(&mut out, " in ");
                push_chars(&mut out, &chars_of(self.context.as_str()));
                push_str(&mut out, " requires at least one event");
                out
            },
            ProfileErrorKind::PressMacroRelease => {
                let mut out = chars_of("press macro from ");
                push_chars(&mut out, &chars_of(self.subject.as_str()));
                push_str(&mut out, " in ");
                push_chars(&mut out, &chars_of(self.context.as_str()));
                push_str(&mut out, " cannot use release_events");
                out
            },
            ProfileErrorKind::HoldMacroNeedsRelease => {
                let mut out = chars_of("hold macro from ");
                push_chars(&mut out, &chars_of(self.subject.as_str()));
                push_str(&mut out, " in ");
                push_chars(&mut out, &chars_of(self.context.as_str()));
                push_str(&mut out, " requires at least one release event");
                out
            },
            ProfileErrorKind::MacroEventFieldCount => {
                let mut out = chars_of("macro event ");
                push_chars(&mut out, &decimal_chars(self.index as u128 + 1));
                push_str(&mut out, " from ");
                push_chars(&mut out, &chars_of(self.subject.as_str()));
                push_str(&mut out, " in ");
                push_chars(&mut out, &chars_of(self.context.as_str()));
                push_str(&mut out, " must set exactly one of down, up, tap, axis, stick, rel, pause_ms, cancel, break, or stop");
                out
            },
            ProfileErrorKind::MacroXYWithoutStick => {
                let mut out = chars_of("macro event ");
                push_chars(&mut out, &decimal_chars(self.index as u128 + 1));
                push_str(&mut out, " from ");
                push_chars(&mut out, &chars_of(self.subject.as_str()));
                push_str(&mut out, " in ");
                push_chars(&mut out, &chars_of(self.context.as_str()));
                push_str(&mut out, " can only use x or y with stick");
                out
            },
            ProfileErrorKind::MacroCancelMustBeTrue => {
                let mut out = chars_of("macro cancel event ");
                push_chars(&mut out, &decimal_chars(self.index as u128 + 1));
                push_str(&mut out, " from ");
                push_chars(&mut out, &chars_of(self.subject.as_str()));
                push_str(&mut out, " in ");
                push_chars(&mut out, &chars_of(self.context.as_str()));
                push_str(&mut out, " must be true");
                out
            },
            ProfileErrorKind::MacroPauseTooLong => {
                let mut out = chars_of("macro pause_ms for event ");
                push_chars(&mut out, &decimal_chars(self.index as u128 + 1));
                push_str(&mut out, " from ");
                push_chars(&mut out, &chars_of(self.subject.as_str()));
                push_str(&mut out, " in ");
                push_chars(&mut out, &chars_of(self.context.as_str()));
                push_str(&mut out, " must be at most 60000");
                out
            },
            ProfileErrorKind::MacroStickValue => {
                let mut out = chars_of("macro stick event ");
                push_chars(&mut out, &decimal_chars(self.index as u128 + 1));
                push_str(&mut out, " from ");
                push_chars(&mut out, &chars_of(self.subject.as_str()));
                push_str(&mut out, " in ");
                push_chars(&mut out, &chars_of(self.context.as_str()));
                push_str(&mut out, " must use x or y, not value");
                out
            },
            ProfileErrorKind::MacroUnknownStick => {
                let mut out = chars_of("macro stick event ");
                push_chars(&mut out, &decimal_chars(self.index as u128 + 1));
                push_str(&mut out, " from ");
                push_chars(&mut out, &chars_of(self.subject.as_str()));
                push_str(&mut out, " in ");
                push_chars(&mut out, &chars_of(self.context.as_str()));
                push_str(&mut out, " has unknown stick ");
                push_chars(&mut out, &chars_of(self.detail.as_str()));
                out
            },
            ProfileErrorKind::MacroStickNeedsXY => {
                let mut out = chars_of("macro stick event ");
                push_chars(&mut out, &decimal_chars(self.index as u128 + 1));
                push_str(&mut out, " from ");
                push_chars(&mut out, &chars_of(self.subject.as_str()));
                push_str(&mut out, " in ");
                push_chars(&mut out, &chars_of(self.context.as_str()));
                push_str(&mut out, " requires x or y");
                out
            },
            ProfileErrorKind::MacroStickOutOfRange => {
                let mut out = chars_of("macro stick ");
                push_chars(&mut out, &chars_of(self.detail.as_str()));
                push_str(&mut out, " value for event ");
                push_chars(&mut out, &decimal_chars(self.index as u128 + 1));
                push_str(&mut out, " from ");
                push_chars(&mut out, &chars_of(self.subject.as_str()));
                push_str(&mut out, " in ");
                push_chars(&mut out, &chars_of(self.context.as_str()));
                push_str(&mut out, " must stay within -1.0..1.0");
                out
            },
            ProfileErrorKind::MacroRelRequiresValue => {
                let mut out = chars_of("macro relative event ");
                push_chars(&mut out, &decimal_chars(self.index as u128 + 1));
                push_str(&mut out, " from ");
                push_chars(&mut out, &chars_of(self.subject.as_str()));
                push_str(&mut out, " in ");
                push_chars(&mut out, &chars_of(self.context.as_str()));
                push_str(&mut out, " requires value");
                out
            },
            ProfileErrorKind::MacroRelOutOfRange => {
                let mut out = chars_of("macro relative value for event ");
                push_chars(&mut out, &decimal_chars(self.index as u128 + 1));
                push_str(&mut out, " from ");
                push_chars(&mut out, &chars_of(self.subject.as_str()));
                push_str(&mut out, " in ");
                push_chars(&mut out, &chars_of(self.context.as_str()));
                push_str(&mut out, " must stay within ");
                push_chars(&mut out, &signed_chars(self.low));
                push_str(&mut out, "..");
                push_chars(&mut out, &signed_chars(self.high));
                out
            },
            ProfileErrorKind::MacroAxisRequiresValue => {
                let mut out = chars_of("macro axis event ");
                push_chars(&mut out, &decimal_chars(self.index as u128 + 1));
                push_str(&mut out, " from ");
                push_chars(&mut out, &chars_of(self.subject.as_str()));
                push_str(&mut out, " in ");
                push_chars(&mut out, &chars_of(self.context.as_str()));
                push_str(&mut out, " requires value");
                out
            },
            ProfileErrorKind::MacroAxisOutOfRange => {
                let mut out = chars_of("macro axis value for event ");
                push_chars(&mut out, &decimal_chars(self.index as u128 + 1));
                push_str(&mut out, " from ");
                push_chars(&mut out, &chars_of(self.subject.as_str()));
                push_str(&mut out, " in ");
                push_chars(&mut out, &chars_of(self.context.as_str()));
                push_str(&mut out, " must stay within ");
                push_chars(&mut out, &signed_chars(self.low));
                push_str(&mut out, "..");
                push_chars(&mut out, &signed_chars(self.high));
                out
            },
            ProfileErrorKind::UnknownMacroTarget => {
                let mut out = chars_of("unknown macro target event ");
                push_chars(&mut out, &chars_of(self.detail.as_str()));
                push_str(&mut out, " for event ");
                push_chars(&mut out, &decimal_chars(self.index as u128 + 1));
                push_str(&mut out, " from ");
                push_chars(&mut out, &chars_of(self.subject.as_str()));
                push_str(&mut out, " in ");
                push_chars(&mut out, &chars_of(self.context.as_str()));
                out
            },
            ProfileErrorKind::MacroTargetUnsupported => {
                let mut out = chars_of("macro target event ");
                push_chars(&mut out, &chars_of(self.detail.as_str()));
                push_str(&mut out, " for event ");
                push_chars(&mut out, &decimal_chars(self.index as u128 + 1));
                push_str(&mut out, " from ");
                push_chars(&mut out, &chars_of(self.subject.as_str()));
                push_str(&mut out, " in ");
                push_chars(&mut out, &chars_of(self.context.as_str()));
                push_str(&mut out, " is not supported by the current virtual output");
                out
            },
            ProfileErrorKind::MacroButtonTarget => {
                let mut out = chars_of("macro button event ");
                push_chars(&mut out, &decimal_chars(self.index as u128 + 1));
                push_str(&mut out, " from ");
                push_chars(&mut out, &chars_of(self.subject.as_str()));
                push_str(&mut out, " in ");
                push_chars(&mut out, &chars_of(self.context.as_str()));
                push_str(&mut out, " must target a button");
                out
            },
            ProfileErrorKind::MacroAxisTarget => {
                let mut out = chars_of("macro axis event ");
                push_chars(&mut out, &decimal_chars(self.index as u128 + 1));
                push_str(&mut out, " from ");
                push_chars(&mut out, &chars_of(self.subject.as_str()));
                push_str(&mut out, " in ");
                push_chars(&mut out, &chars_of(self.context.as_str()));
                push_str(&mut out, " must target an absolute axis");
                out
            },
            ProfileErrorKind::MacroRelativeTarget => {
                let mut out = chars_of("macro relative event ");
                push_chars(&mut out, &decimal_chars(self.index as u128 + 1));
                push_str(&mut out, " from ");
                push_chars(&mut out, &chars_of(self.subject.as_str()));
                push_str(&mut out, " in ");
                push_chars(&mut out, &chars_of(self.context.as_str()));
                push_str(&mut out, " must target a relative axis");
                out
            },
            ProfileErrorKind::UnknownSourceEvent => {
                let mut out = chars_of("unknown source event ");
                push_chars(&mut out, &chars_of(self.subject.as_str()));
                push_str(&mut out, " in ");
                push_chars(&mut out, &chars_of(self.context.as_str()));
                out
            },
            ProfileErrorKind::MappingRequiresTo => {
                let mut out = chars_of("mapping from ");
                push_chars(&mut out, &chars_of(self.subject.as_str()));
                push_str(&mut out, " in ");
                push_chars(&mut out, &chars_of(self.context.as_str()));
                push_str(&mut out, " requires to");
                out
            },
            ProfileErrorKind::UnknownTargetEvent => {
                let mut out = chars_of("unknown target event ");
                push_chars(&mut out, &chars_of(self.detail.as_str()));
                push_str(&mut out, " in ");
                push_chars(&mut out, &chars_of(self.context.as_str()));
                out
            },
            ProfileErrorKind::TargetUnsupported => {
                let mut out = chars_of("target event ");
                push_chars(&mut out, &chars_of(self.detail.as_str()));
                push_str(&mut out, " in ");
                push_chars(&mut out, &chars_of(self.context.as_str()));
                push_str(&mut out, " is not supported by the current virtual output");
                out
            },
            ProfileErrorKind::RelativeTargetNeedsAxisSource => {
                let mut out = chars_of("relative target event ");
                push_chars(&mut out, &chars_of(self.detail.as_str()));
                push_str(&mut out, " in ");
                push_chars(&mut out, &chars_of(self.context.as_str()));
                push_str(&mut out, " requires an absolute-axis source or a macro event with value");
                out
            },
            ProfileErrorKind::MouseToStickAxes => {
                let mut out = chars_of("mouse-to-stick mapping from ");
                push_chars(&mut out, &chars_of(self.subject.as_str()));
                push_str(&mut out, " in ");
                push_chars(&mut out, &chars_of(self.context.as_str()));
                push_str(&mut out, " must use rel:x or rel:y as the source and abs:x, abs:y, abs:rx, or abs:ry as the centered virtual stick target");
                out
            },
            ProfileErrorKind::RelativeSourceTarget => {
                let mut out = chars_of("relative source event ");
                push_chars(&mut out, &chars_of(self.subject.as_str()));
                push_str(&mut out, " in ");
                push_chars(&mut out, &chars_of(self.context.as_str()));
                push_str(&mut out, " can only map to a relative mouse axis or centered virtual stick axis");
                out
            },
            ProfileErrorKind::TurboNeedsPress => {
                let mut out = chars_of("turbo mapping from ");
                push_chars(&mut out, &chars_of(self.subject.as_str()));
                push_str(&mut out, " in ");
                push_chars(&mut out, &chars_of(self.context.as_str()));
                push_str(&mut out, " can only use press activator");
                out
            },
            ProfileErrorKind::DisabledTurbo => {
                let mut out = chars_of("disabled mapping from ");
                push_chars(&mut out, &chars_of(self.subject.as_str()));
                push_str(&mut out, " in ");
                push_chars(&mut out, &chars_of(self.context.as_str()));
                push_str(&mut out, " cannot use turbo");
                out
            },
            ProfileErrorKind::MacroTurbo => {
                let mut out = chars_of("macro mapping from ");
                push_chars(&mut out, &chars_of(self.subject.as_str()));
                push_str(&mut out, " in ");
                push_chars(&mut out, &chars_of(self.context.as_str()));
                push_str(&mut out, " cannot use turbo");
                out
            },
            ProfileErrorKind::CommandTurbo => {
                let mut out = chars_of("command mapping from ");
                push_chars(&mut out, &chars_of(self.subject.as_str()));
                push_str(&mut out, " in ");
                push_chars(&mut out, &chars_of(self.context.as_str()));
                push_str(&mut out, " cannot use turbo");
                out
            },
            ProfileErrorKind::TurboNeedsButtons => {
                let mut out = chars_of("turbo mapping from ");
                push_chars(&mut out, &chars_of(self.subject.as_str()));
                push_str(&mut out, " in ");
                push_chars(&mut out, &chars_of(self.context.as_str()));
                push_str(&mut out, " requires button source and target");
                out
            },
            ProfileErrorKind::HoldMacroNeedsPress => {
                let mut out = chars_of("hold macro from ");
                push_chars(&mut out, &chars_of(self.subject.as_str()));
                push_str(&mut out, " in ");
                push_chars(&mut out, &chars_of(self.context.as_str()));
                push_str(&mut out, " can only use press activator");
                out
            },
            ProfileErrorKind::EmptyLayerId => {
                let mut out = chars_of("layer id must contain at least one letter or number");
                out
            },
            ProfileErrorKind::UnknownActivationMode => {
                let mut out = chars_of("unknown layer activation mode ");
                push_chars(&mut out, &chars_of(self.subject.as_str()));
                out
            },
            ProfileErrorKind::LayerActivationControl => {
                let mut out = chars_of("layer ");
                push_chars(&mut out, &chars_of(self.subject.as_str()));
                push_str(&mut out, " activation requires a control");
                out
            },
            ProfileErrorKind::UnknownActivationControl => {
                let mut out = chars_of("unknown activation control ");
                push_chars(&mut out, &chars_of(self.detail.as_str()));
                push_str(&mut out, " for layer ");
                push_chars(&mut out, &chars_of(self.subject.as_str()));
                out
            },
            ProfileErrorKind::MainLayerActivation => {
                let mut out = chars_of("main layer cannot have an activation control");
                out
            },
            ProfileErrorKind::DuplicateLayer => {
                let mut out = chars_of("duplicate layer id ");
                push_chars(&mut out, &chars_of(self.subject.as_str()));
                out
            },
            ProfileErrorKind::LayerRequiresActivation => {
                let mut out = chars_of("layer ");
                push_chars(&mut out, &chars_of(self.subject.as_str()));
                push_str(&mut out, " requires activation");
                out
            },
            ProfileErrorKind::TooManyShiftLayers => {
                let mut out = chars_of("profiles support up to ");
                push_chars(&mut out, &decimal_chars(MAX_SHIFT_LAYERS as u128));
                push_str(&mut out, " shift layers");
                out
            },
        };
        string_from_chars(&out)
    }
}

} // verus!
