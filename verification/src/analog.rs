//! The rules of a profile's `analog:` section that do not depend on its
//! fractional settings: which axes may be tuned, their curves, output
//! ranges, zones and zone targets, stick rotation pairs and digital sticks,
//! and how stick transforms pair sources with outputs. The fractional
//! values (deadzones, sensitivities, exponents, zone bounds, thresholds,
//! rotations) are checked and applied outside the library, in between these
//! steps, so that errors come in document order.

use vstd::prelude::*;
use crate::event_code::{
    abs_event, event_name, output_supports, parse_event_code, parsed_event, virtual_output_supports,
    virtual_xbox_supports, xbox_supports, EventCode, EventKind, ABS_HAT0X, ABS_HAT0Y, ABS_RX, ABS_RY,
    ABS_X, ABS_Y,
};
use crate::macro_build::{axis_range, axis_value_range};
use crate::profile_errors::{push_chars, signed_chars, signed_decimal};
use crate::text::{chars_eq_str, chars_of, decimal, decimal_chars, normalize_keyword, normalize_keyword_str, string_from_chars};

verus! {

/// Which rule of the `analog:` section is broken.
#[derive(Clone, Copy, Debug, PartialEq, Eq, Structural)]
pub enum AnalogErrorKind {
    UnknownAxis,
    TuningNotAbsolute,
    TuningUnsupported,
    DuplicateTuning,
    DeadzoneRange,
    SensitivityRange,
    UnknownCurve,
    ExponentNeedsCustom,
    CustomNeedsExponent,
    ExponentRange,
    OutputRange,
    ZoneRange,
    ZoneRequiresTo,
    UnknownZoneTarget,
    ZoneTargetKind,
    DuplicateZoneTarget,
    UnknownZone,
    RequiresXAxis,
    RequiresYAxis,
    UnknownStickAxis,
    XAxisChoice,
    YAxisChoice,
    StickPairMismatch,
    DuplicateStickPair,
    RotationRange,
    SameAxes,
    ThresholdRange,
    AxisNotAbsolute,
    AxisNotCentered,
    AxisUnsupported,
    UnknownOutputAxis,
    OutputAxisChoice,
}

/// A broken `analog:` rule: `subject` is the axis as written (or the stick
/// being read, such as `stick 1`), `detail` a further name, and `low..high`
/// an allowed range.
#[derive(Clone, Debug)]
pub struct AnalogError {
    pub kind: AnalogErrorKind,
    pub subject: String,
    pub detail: String,
    pub low: i32,
    pub high: i32,
}

pub struct AnalogErrorModel {
    pub kind: AnalogErrorKind,
    pub subject: Seq<char>,
    pub detail: Seq<char>,
    pub low: i32,
    pub high: i32,
}

impl View for AnalogError {
    type V = AnalogErrorModel;

    open spec fn view(&self) -> AnalogErrorModel {
        AnalogErrorModel { kind: self.kind, subject: self.subject@, detail: self.detail@, low: self.low, high: self.high }
    }
}

pub open spec fn aerr(kind: AnalogErrorKind, subject: Seq<char>, detail: Seq<char>) -> AnalogErrorModel {
    AnalogErrorModel { kind, subject, detail, low: 0, high: 0 }
}

fn fail(kind: AnalogErrorKind, subject: &[char], detail: &[char]) -> (e: AnalogError)
    ensures
        e@ == aerr(kind, subject@, detail@),
{
    AnalogError { kind, subject: string_from_chars(subject), detail: string_from_chars(detail), low: 0, high: 0 }
}

/// The message of an `analog:` error.
pub open spec fn analog_message(e: AnalogErrorModel) -> Seq<char> {
    match e.kind {
        AnalogErrorKind::UnknownAxis => "unknown analog axis "@ + e.subject,
        AnalogErrorKind::TuningNotAbsolute => "analog tuning "@ + e.subject + " must target an absolute axis"@,
        AnalogErrorKind::TuningUnsupported => "analog tuning "@ + e.subject + " is not supported by the current virtual pad"@,
        AnalogErrorKind::DuplicateTuning => "duplicate analog tuning for "@ + e.subject,
        AnalogErrorKind::DeadzoneRange => "analog deadzone for "@ + e.subject + " must be between 0 and 0.99"@,
        AnalogErrorKind::SensitivityRange => "analog sensitivity for "@ + e.subject + " must be between 0.01 and 4.0"@,
        AnalogErrorKind::UnknownCurve => "unknown analog curve "@ + e.detail + " for "@ + e.subject,
        AnalogErrorKind::ExponentNeedsCustom => "analog curve_exponent for "@ + e.subject + " requires curve: custom"@,
        AnalogErrorKind::CustomNeedsExponent => "custom analog curve for "@ + e.subject + " requires curve_exponent"@,
        AnalogErrorKind::ExponentRange => "analog curve_exponent for "@ + e.subject + " must be between 0.25 and 4.0"@,
        AnalogErrorKind::OutputRange => "analog output range for "@ + e.subject + " must stay within "@ + signed_decimal(e.low as int) + ".."@ + signed_decimal(e.high as int),
        AnalogErrorKind::ZoneRange => "analog zone "@ + e.detail + " for "@ + e.subject + " must use min/max between 0.0 and 1.0"@,
        AnalogErrorKind::ZoneRequiresTo => "analog zone "@ + e.detail + " for "@ + e.subject + " requires to"@,
        AnalogErrorKind::UnknownZoneTarget => "unknown analog zone target "@ + e.detail + " for "@ + e.subject,
        AnalogErrorKind::ZoneTargetKind => "analog zone target "@ + e.detail + " for "@ + e.subject + " must be a virtual button, keyboard key, or mouse button"@,
        AnalogErrorKind::DuplicateZoneTarget => "duplicate analog zone target "@ + e.detail + " for "@ + e.subject,
        AnalogErrorKind::UnknownZone => "unknown analog zone "@ + e.detail,
        AnalogErrorKind::RequiresXAxis => e.subject + " requires x_axis"@,
        AnalogErrorKind::RequiresYAxis => e.subject + " requires y_axis"@,
        AnalogErrorKind::UnknownStickAxis => "unknown "@ + e.subject + " axis "@ + e.detail,
        AnalogErrorKind::XAxisChoice => e.subject + " x_axis must be abs:x or abs:rx"@,
        AnalogErrorKind::YAxisChoice => e.subject + " y_axis must be abs:y or abs:ry"@,
        AnalogErrorKind::StickPairMismatch => e.subject + " must use a matching left or right stick axis pair"@,
        AnalogErrorKind::DuplicateStickPair => e.subject + " duplicates a stick rotation pair"@,
        AnalogErrorKind::RotationRange => e.subject + " rotation_degrees must be between -180 and 180"@,
        AnalogErrorKind::SameAxes => e.subject + " requires different x_axis and y_axis"@,
        AnalogErrorKind::ThresholdRange => e.subject + " threshold must be between 0.01 and 1.0"@,
        AnalogErrorKind::AxisNotAbsolute => e.subject + " axis "@ + e.detail + " must be an absolute axis"@,
        AnalogErrorKind::AxisNotCentered => e.subject + " axis "@ + e.detail + " must be centered"@,
        AnalogErrorKind::AxisUnsupported => e.subject + " axis "@ + e.detail + " is not supported by the current virtual pad"@,
        AnalogErrorKind::UnknownOutputAxis => "unknown "@ + e.subject + " output axis "@ + e.detail,
        AnalogErrorKind::OutputAxisChoice => e.subject + " output axis must be "@ + e.detail,
    }
}

impl AnalogError {
    /// The error's message (see [`analog_message`]).
    pub fn message(&self) -> (r: String)
        ensures
            r@ == analog_message(self@),
    {
        let out: Vec<char> = match self.kind {
            AnalogErrorKind::UnknownAxis => {
                let mut out = chars_of("unknown analog axis ");
                push_chars(&mut out, &chars_of(self.subject.as_str()));
                out
            },
            AnalogErrorKind::TuningNotAbsolute => {
                let mut out = chars_of("analog tuning ");
                push_chars(&mut out, &chars_of(self.subject.as_str()));
                push_chars(&mut out, &chars_of(" must target an absolute axis"));
                out
            },
            AnalogErrorKind::TuningUnsupported => {
                let mut out = chars_of("analog tuning ");
                push_chars(&mut out, &chars_of(self.subject.as_str()));
                push_chars(&mut out, &chars_of(" is not supported by the current virtual pad"));
                out
            },
            AnalogErrorKind::DuplicateTuning => {
                let mut out = chars_of("duplicate analog tuning for ");
                push_chars(&mut out, &chars_of(self.subject.as_str()));
                out
            },
            AnalogErrorKind::DeadzoneRange => {
                let mut out = chars_of("analog deadzone for ");
                push_chars(&mut out, &chars_of(self.subject.as_str()));
                push_chars(&mut out, &chars_of(" must be between 0 and 0.99"));
                out
            },
            AnalogErrorKind::SensitivityRange => {
                let mut out = chars_of("analog sensitivity for ");
                push_chars(&mut out, &chars_of(self.subject.as_str()));
                push_chars(&mut out, &chars_of(" must be between 0.01 and 4.0"));
                out
            },
            AnalogErrorKind::UnknownCurve => {
                let mut out = chars_of("unknown analog curve ");
                push_chars(&mut out, &chars_of(self.detail.as_str()));
                push_chars(&mut out, &chars_of(" for "));
                push_chars(&mut out, &chars_of(self.subject.as_str()));
                out
            },
            AnalogErrorKind::ExponentNeedsCustom => {
                let mut out = chars_of("analog curve_exponent for ");
                push_chars(&mut out, &chars_of(self.subject.as_str()));
                push_chars(&mut out, &chars_of(" requires curve: custom"));
                out
            },
            AnalogErrorKind::CustomNeedsExponent => {
                let mut out = chars_of("custom analog curve for ");
                push_chars(&mut out, &chars_of(self.subject.as_str()));
                push_chars(&mut out, &chars_of(" requires curve_exponent"));
                out
            },
            AnalogErrorKind::ExponentRange => {
                let mut out = chars_of("analog curve_exponent for ");
                push_chars(&mut out, &chars_of(self.subject.as_str()));
                push_chars(&mut out, &chars_of(" must be between 0.25 and 4.0"));
                out
            },
            AnalogErrorKind::OutputRange => {
                let mut out = chars_of("analog output range for ");
                push_chars(&mut out, &chars_of(self.subject.as_str()));
                push_chars(&mut out, &chars_of(" must stay within "));
                push_chars(&mut out, &signed_chars(self.low));
                push_chars(&mut out, &chars_of(".."));
                push_chars(&mut out, &signed_chars(self.high));
                out
            },
            AnalogErrorKind::ZoneRange => {
                let mut out = chars_of("analog zone ");
                push_chars(&mut out, &chars_of(self.detail.as_str()));
                push_chars(&mut out, &chars_of(" for "));
                push_chars(&mut out, &chars_of(self.subject.as_str()));
                push_chars(&mut out, &chars_of(" must use min/max between 0.0 and 1.0"));
                out
            },
            AnalogErrorKind::ZoneRequiresTo => {
                let mut out = chars_of("analog zone ");
                push_chars(&mut out, &chars_of(self.detail.as_str()));
                push_chars(&mut out, &chars_of(" for "));
                push_chars(&mut out, &chars_of(self.subject.as_str()));
                push_chars(&mut out, &chars_of(" requires to"));
                out
            },
            AnalogErrorKind::UnknownZoneTarget => {
                let mut out = chars_of("unknown analog zone target ");
                push_chars(&mut out, &chars_of(self.detail.as_str()));
                push_chars(&mut out, &chars_of(" for "));
                push_chars(&mut out, &chars_of(self.subject.as_str()));
                out
            },
            AnalogErrorKind::ZoneTargetKind => {
                let mut out = chars_of("analog zone target ");
                push_chars(&mut out, &chars_of(self.detail.as_str()));
                push_chars(&mut out, &chars_of(" for "));
                push_chars(&mut out, &chars_of(self.subject.as_str()));
                push_chars(&mut out, &chars_of(" must be a virtual button, keyboard key, or mouse button"));
                out
            },
            AnalogErrorKind::DuplicateZoneTarget => {
                let mut out = chars_of("duplicate analog zone target ");
                push_chars(&mut out, &chars_of(self.detail.as_str()));
                push_chars(&mut out, &chars_of(" for "));
                push_chars(&mut out, &chars_of(self.subject.as_str()));
                out
            },
            AnalogErrorKind::UnknownZone => {
                let mut out = chars_of("unknown analog zone ");
                push_chars(&mut out, &chars_of(self.detail.as_str()));
                out
            },
            AnalogErrorKind::RequiresXAxis => {
                let mut out = chars_of(self.subject.as_str());
                push_chars(&mut out, &chars_of(" requires x_axis"));
                out
            },
            AnalogErrorKind::RequiresYAxis => {
                let mut out = chars_of(self.subject.as_str());
                push_chars(&mut out, &chars_of(" requires y_axis"));
                out
            },
            AnalogErrorKind::UnknownStickAxis => {
                let mut out = chars_of("unknown ");
                push_chars(&mut out, &chars_of(self.subject.as_str()));
                push_chars(&mut out, &chars_of(" axis "));
                push_chars(&mut out, &chars_of(self.detail.as_str()));
                out
            },
            AnalogErrorKind::XAxisChoice => {
                let mut out = chars_of(self.subject.as_str());
                push_chars(&mut out, &chars_of(" x_axis must be abs:x or abs:rx"));
                out
            },
            AnalogErrorKind::YAxisChoice => {
                let mut out = chars_of(self.subject.as_str());
                push_chars(&mut out, &chars_of(" y_axis must be abs:y or abs:ry"));
                out
            },
            AnalogErrorKind::StickPairMismatch => {
                let mut out = chars_of(self.subject.as_str());
                push_chars(&mut out, &chars_of(" must use a matching left or right stick axis pair"));
                out
            },
            AnalogErrorKind::DuplicateStickPair => {
                let mut out = chars_of(self.subject.as_str());
                push_chars(&mut out, &chars_of(" duplicates a stick rotation pair"));
                out
            },
            AnalogErrorKind::RotationRange => {
                let mut out = chars_of(self.subject.as_str());
                push_chars(&mut out, &chars_of(" rotation_degrees must be between -180 and 180"));
                out
            },
            AnalogErrorKind::SameAxes => {
                let mut out = chars_of(self.subject.as_str());
                push_chars(&mut out, &chars_of(" requires different x_axis and y_axis"));
                out
            },
            AnalogErrorKind::ThresholdRange => {
                let mut out = chars_of(self.subject.as_str());
                push_chars(&mut out, &chars_of(" threshold must be between 0.01 and 1.0"));
                out
            },
            AnalogErrorKind::AxisNotAbsolute => {
                let mut out = chars_of(self.subject.as_str());
                push_chars(&mut out, &chars_of(" axis "));
                push_chars(&mut out, &chars_of(self.detail.as_str()));
                push_chars(&mut out, &chars_of(" must be an absolute axis"));
                out
            },
            AnalogErrorKind::AxisNotCentered => {
                let mut out = chars_of(self.subject.as_str());
                push_chars(&mut out, &chars_of(" axis "));
                push_chars(&mut out, &chars_of(self.detail.as_str()));
                push_chars(&mut out, &chars_of(" must be centered"));
                out
            },
            AnalogErrorKind::AxisUnsupported => {
                let mut out = chars_of(self.subject.as_str());
                push_chars(&mut out, &chars_of(" axis "));
                push_chars(&mut out, &chars_of(self.detail.as_str()));
                push_chars(&mut out, &chars_of(" is not supported by the current virtual pad"));
                out
            },
            AnalogErrorKind::UnknownOutputAxis => {
                let mut out = chars_of("unknown ");
                push_chars(&mut out, &chars_of(self.subject.as_str()));
                push_chars(&mut out, &chars_of(" output axis "));
                push_chars(&mut out, &chars_of(self.detail.as_str()));
                out
            },
            AnalogErrorKind::OutputAxisChoice => {
                let mut out = chars_of(self.subject.as_str());
                push_chars(&mut out, &chars_of(" output axis must be "));
                push_chars(&mut out, &chars_of(self.detail.as_str()));
                out
            },
        };
        string_from_chars(&out)
    }
}

// ---------------------------------------------------------------------------
// Tuned axes

/// The axis a tuning entry names: a known absolute axis of the virtual pad
/// that no earlier entry tunes.
pub open spec fn tuned_axis(text: Seq<char>, earlier: Seq<EventCode>) -> Result<EventCode, AnalogErrorModel> {
    match parsed_event(text) {
        None => Err(aerr(AnalogErrorKind::UnknownAxis, text, Seq::empty())),
        Some(c) => if c.kind != EventKind::Absolute {
            Err(aerr(AnalogErrorKind::TuningNotAbsolute, text, Seq::empty()))
        } else if !xbox_supports(c) {
            Err(aerr(AnalogErrorKind::TuningUnsupported, text, Seq::empty()))
        } else if earlier.contains(c) {
            Err(aerr(AnalogErrorKind::DuplicateTuning, event_name(c), Seq::empty()))
        } else {
            Ok(c)
        },
    }
}

fn contains_code(v: &[EventCode], c: EventCode) -> (r: bool)
    ensures
        r == v@.contains(c),
{
    let mut i: usize = 0;
    while i < v.len()
        invariant
            i <= v@.len(),
            forall|k: int| 0 <= k < i ==> v@[k] != c,
        decreases v@.len() - i,
    {
        if v[i] == c {
            assert(v@[i as int] == c);
            return true;
        }
        i = i + 1;
    }
    false
}

/// Checks the axis a tuning entry names (see [`tuned_axis`]); `earlier`
/// holds the axes tuned by the entries before it.
pub fn analog_axis(text: &str, earlier: &[EventCode]) -> (r: Result<EventCode, AnalogError>)
    ensures
        match r {
            Ok(c) => tuned_axis(text@, earlier@) == Ok::<EventCode, AnalogErrorModel>(c),
            Err(e) => tuned_axis(text@, earlier@) == Err::<EventCode, AnalogErrorModel>(e@),
        },
{
    let t = chars_of(text);
    let empty: Vec<char> = Vec::new();
    match parse_event_code(text) {
        None => Err(fail(AnalogErrorKind::UnknownAxis, &t, &empty)),
        Some(c) => {
            if c.kind != EventKind::Absolute {
                Err(fail(AnalogErrorKind::TuningNotAbsolute, &t, &empty))
            } else if !virtual_xbox_supports(c) {
                Err(fail(AnalogErrorKind::TuningUnsupported, &t, &empty))
            } else if contains_code(earlier, c) {
                let n = chars_of(c.name().as_str());
                Err(fail(AnalogErrorKind::DuplicateTuning, &n, &empty))
            } else {
                Ok(c)
            }
        },
    }
}

/// A response curve.
#[derive(Clone, Copy, Debug, PartialEq, Eq, Structural)]
pub enum AnalogCurve {
    Linear,
    Soft,
    Aggressive,
    Custom,
}

/// The curve a tuning entry asks for: by keyword (`linear`/`default`,
/// `soft`/`smooth`/`relaxed`, `aggressive`/`precise`/`exponential`,
/// `custom`), or custom when only an exponent is given; an exponent goes
/// with the custom curve only, and the custom curve needs one.
pub open spec fn curve_of(curve: Option<Seq<char>>, has_exponent: bool, axis: Seq<char>) -> Result<AnalogCurve, AnalogErrorModel> {
    let picked: Result<AnalogCurve, AnalogErrorModel> = match curve {
        None => if has_exponent {
            Ok(AnalogCurve::Custom)
        } else {
            Ok(AnalogCurve::Linear)
        },
        Some(c) => {
            let k = normalize_keyword(c);
            if k == "linear"@ || k == "default"@ {
                Ok(AnalogCurve::Linear)
            } else if k == "soft"@ || k == "smooth"@ || k == "relaxed"@ {
                Ok(AnalogCurve::Soft)
            } else if k == "aggressive"@ || k == "precise"@ || k == "exponential"@ {
                Ok(AnalogCurve::Aggressive)
            } else if k == "custom"@ {
                Ok(AnalogCurve::Custom)
            } else {
                Err(aerr(AnalogErrorKind::UnknownCurve, axis, k))
            }
        },
    };
    match picked {
        Err(e) => Err(e),
        Ok(AnalogCurve::Custom) => if has_exponent {
            Ok(AnalogCurve::Custom)
        } else {
            Err(aerr(AnalogErrorKind::CustomNeedsExponent, axis, Seq::empty()))
        },
        Ok(k) => if has_exponent {
            Err(aerr(AnalogErrorKind::ExponentNeedsCustom, axis, Seq::empty()))
        } else {
            Ok(k)
        },
    }
}

/// The curve keywords: every keyword names exactly one curve, whatever its
/// case and spacing. Without an exponent, `linear`/`default` give the
/// linear curve, `soft`/`smooth`/`relaxed` the soft one and
/// `aggressive`/`precise`/`exponential` the aggressive one, and no curve at
/// all is linear; an exponent is taken exactly by `custom` or by no curve,
/// which then are the custom curve.
pub proof fn law_curve_keywords(c: Seq<char>, axis: Seq<char>)
    ensures
        (normalize_keyword(c) == "linear"@ || normalize_keyword(c) == "default"@) ==> curve_of(Some(c), false, axis)
            == Ok::<AnalogCurve, AnalogErrorModel>(AnalogCurve::Linear),
        (normalize_keyword(c) == "soft"@ || normalize_keyword(c) == "smooth"@ || normalize_keyword(c) == "relaxed"@)
            ==> curve_of(Some(c), false, axis) == Ok::<AnalogCurve, AnalogErrorModel>(AnalogCurve::Soft),
        (normalize_keyword(c) == "aggressive"@ || normalize_keyword(c) == "precise"@ || normalize_keyword(c)
            == "exponential"@) ==> curve_of(Some(c), false, axis) == Ok::<AnalogCurve, AnalogErrorModel>(AnalogCurve::Aggressive),
        curve_of(Some(c), true, axis) is Ok <==> normalize_keyword(c) == "custom"@,
        curve_of(Some(c), true, axis) is Ok ==> curve_of(Some(c), true, axis) == Ok::<AnalogCurve, AnalogErrorModel>(AnalogCurve::Custom),
        curve_of(Some(c), false, axis) != Ok::<AnalogCurve, AnalogErrorModel>(AnalogCurve::Custom),
        curve_of(None, false, axis) == Ok::<AnalogCurve, AnalogErrorModel>(AnalogCurve::Linear),
        curve_of(None, true, axis) == Ok::<AnalogCurve, AnalogErrorModel>(AnalogCurve::Custom),
{
    reveal_strlit("linear");
    reveal_strlit("default");
    reveal_strlit("soft");
    reveal_strlit("smooth");
    reveal_strlit("relaxed");
    reveal_strlit("aggressive");
    reveal_strlit("precise");
    reveal_strlit("exponential");
    reveal_strlit("custom");
    assert("precise"@[0] != "default"@[0] && "precise"@[0] != "relaxed"@[0]);
    assert("custom"@[0] != "linear"@[0] && "custom"@[0] != "smooth"@[0]);
    assert("relaxed"@[0] != "default"@[0]);
    assert("smooth"@[0] != "linear"@[0]);
    let k = normalize_keyword(c);
    if k == "precise"@ {
        assert(k[0] == 'p' && k.len() == 7);
    } else if k == "aggressive"@ {
        assert(k.len() == 10);
    } else if k == "exponential"@ {
        assert(k.len() == 11);
    }
}

/// Checks a tuning entry's curve (see [`curve_of`]).
pub fn analog_curve(curve: Option<&str>, has_exponent: bool, axis: &str) -> (r: Result<AnalogCurve, AnalogError>)
    ensures
        match r {
            Ok(k) => curve_of(
                match curve {
                    Some(c) => Some(c@),
                    None => None,
                },
                has_exponent,
                axis@,
            ) == Ok::<AnalogCurve, AnalogErrorModel>(k),
            Err(e) => curve_of(
                match curve {
                    Some(c) => Some(c@),
                    None => None,
                },
                has_exponent,
                axis@,
            ) == Err::<AnalogCurve, AnalogErrorModel>(e@),
        },
{
    let a = chars_of(axis);
    let empty: Vec<char> = Vec::new();
    let picked = match curve {
        None => {
            if has_exponent {
                AnalogCurve::Custom
            } else {
                AnalogCurve::Linear
            }
        },
        Some(c) => {
            let k = normalize_keyword_str(c);
            if chars_eq_str(&k, "linear") || chars_eq_str(&k, "default") {
                AnalogCurve::Linear
            } else if chars_eq_str(&k, "soft") || chars_eq_str(&k, "smooth") || chars_eq_str(&k, "relaxed") {
                AnalogCurve::Soft
            } else if chars_eq_str(&k, "aggressive") || chars_eq_str(&k, "precise") || chars_eq_str(&k, "exponential") {
                AnalogCurve::Aggressive
            } else if chars_eq_str(&k, "custom") {
                AnalogCurve::Custom
            } else {
                return Err(fail(AnalogErrorKind::UnknownCurve, &a, &k));
            }
        },
    };
    match picked {
        AnalogCurve::Custom => {
            if has_exponent {
                Ok(AnalogCurve::Custom)
            } else {
                Err(fail(AnalogErrorKind::CustomNeedsExponent, &a, &empty))
            }
        },
        k => {
            if has_exponent {
                Err(fail(AnalogErrorKind::ExponentNeedsCustom, &a, &empty))
            } else {
                Ok(k)
            }
        },
    }
}

/// The output range of a tuned axis: the given bounds, each defaulting to
/// the axis' own bound; they must lie within the axis' range, low below
/// high.
pub open spec fn output_range_of(code: EventCode, min: Option<i32>, max: Option<i32>, axis: Seq<char>) -> Result<(i32, i32), AnalogErrorModel> {
    let (low, high) = axis_range(code);
    let lo = match min {
        Some(v) => v,
        None => low,
    };
    let hi = match max {
        Some(v) => v,
        None => high,
    };
    if lo < low || hi > high || lo >= hi {
        Err(AnalogErrorModel { kind: AnalogErrorKind::OutputRange, subject: axis, detail: Seq::empty(), low, high })
    } else {
        Ok((lo, hi))
    }
}

/// Checks a tuned axis' output range (see [`output_range_of`]).
pub fn analog_output_range(code: EventCode, min: Option<i32>, max: Option<i32>, axis: &str) -> (r: Result<(i32, i32), AnalogError>)
    ensures
        match r {
            Ok(p) => output_range_of(code, min, max, axis@) == Ok::<(i32, i32), AnalogErrorModel>(p),
            Err(e) => output_range_of(code, min, max, axis@) == Err::<(i32, i32), AnalogErrorModel>(e@),
        },
{
    let (low, high) = axis_value_range(code);
    let lo = match min {
        Some(v) => v,
        None => low,
    };
    let hi = match max {
        Some(v) => v,
        None => high,
    };
    if lo < low || hi > high || lo >= hi {
        Err(AnalogError { kind: AnalogErrorKind::OutputRange, subject: string_from_chars(&chars_of(axis)), detail: String::new(), low, high })
    } else {
        Ok((lo, hi))
    }
}

// ---------------------------------------------------------------------------
// Zones

/// A named stretch of an axis' travel.
#[derive(Clone, Copy, Debug, PartialEq, Eq, Structural)]
pub enum ZoneKind {
    Low,
    Medium,
    High,
    Custom,
}

/// A zone's name and kind: the given name (by default `custom` when bounds
/// are given, else `high`) as a keyword, which must be `low`, `medium`
/// (or `mid`), `high` or `custom`.
pub open spec fn zone_of(name: Option<Seq<char>>, has_bounds: bool) -> Result<(Seq<char>, ZoneKind), AnalogErrorModel> {
    let n = match name {
        Some(n) => n,
        None => if has_bounds {
            "custom"@
        } else {
            "high"@
        },
    };
    let k = normalize_keyword(n);
    if k == "low"@ {
        Ok((k, ZoneKind::Low))
    } else if k == "medium"@ || k == "mid"@ {
        Ok((k, ZoneKind::Medium))
    } else if k == "high"@ {
        Ok((k, ZoneKind::High))
    } else if k == "custom"@ {
        Ok((k, ZoneKind::Custom))
    } else {
        Err(aerr(AnalogErrorKind::UnknownZone, Seq::empty(), k))
    }
}

/// Checks a zone's name (see [`zone_of`]).
pub fn analog_zone(name: Option<&str>, has_bounds: bool) -> (r: Result<(String, ZoneKind), AnalogError>)
    ensures
        match r {
            Ok((n, k)) => zone_of(
                match name {
                    Some(s) => Some(s@),
                    None => None,
                },
                has_bounds,
            ) == Ok::<(Seq<char>, ZoneKind), AnalogErrorModel>((n@, k)),
            Err(e) => zone_of(
                match name {
                    Some(s) => Some(s@),
                    None => None,
                },
                has_bounds,
            ) == Err::<(Seq<char>, ZoneKind), AnalogErrorModel>(e@),
        },
{
    let k = match name {
        Some(n) => normalize_keyword_str(n),
        None => {
            if has_bounds {
                normalize_keyword_str("custom")
            } else {
                normalize_keyword_str("high")
            }
        },
    };
    let kind = if chars_eq_str(&k, "low") {
        ZoneKind::Low
    } else if chars_eq_str(&k, "medium") || chars_eq_str(&k, "mid") {
        ZoneKind::Medium
    } else if chars_eq_str(&k, "high") {
        ZoneKind::High
    } else if chars_eq_str(&k, "custom") {
        ZoneKind::Custom
    } else {
        let empty: Vec<char> = Vec::new();
        return Err(fail(AnalogErrorKind::UnknownZone, &empty, &k));
    };
    Ok((string_from_chars(&k), kind))
}

/// A zone's target: it must be given, be known, be a key (button, keyboard
/// key or mouse button) the virtual device can send, and not be the target
/// of an earlier zone of the same axis.
pub open spec fn zone_target_of(to: Option<Seq<char>>, zone: Seq<char>, axis: Seq<char>, earlier: Seq<EventCode>) -> Result<EventCode, AnalogErrorModel> {
    match to {
        None => Err(aerr(AnalogErrorKind::ZoneRequiresTo, axis, zone)),
        Some(t) => match parsed_event(t) {
            None => Err(aerr(AnalogErrorKind::UnknownZoneTarget, axis, t)),
            Some(c) => if !output_supports(c) || c.kind != EventKind::Key {
                Err(aerr(AnalogErrorKind::ZoneTargetKind, axis, event_name(c)))
            } else if earlier.contains(c) {
                Err(aerr(AnalogErrorKind::DuplicateZoneTarget, axis, event_name(c)))
            } else {
                Ok(c)
            },
        },
    }
}

/// Checks a zone's target (see [`zone_target_of`]).
pub fn analog_zone_target(to: Option<&str>, zone: &str, axis: &str, earlier: &[EventCode]) -> (r: Result<EventCode, AnalogError>)
    ensures
        match r {
            Ok(c) => zone_target_of(
                match to {
                    Some(s) => Some(s@),
                    None => None,
                },
                zone@,
                axis@,
                earlier@,
            ) == Ok::<EventCode, AnalogErrorModel>(c),
            Err(e) => zone_target_of(
                match to {
                    Some(s) => Some(s@),
                    None => None,
                },
                zone@,
                axis@,
                earlier@,
            ) == Err::<EventCode, AnalogErrorModel>(e@),
        },
{
    let a = chars_of(axis);
    match to {
        None => Err(fail(AnalogErrorKind::ZoneRequiresTo, &a, &chars_of(zone))),
        Some(t) => match parse_event_code(t) {
            None => Err(fail(AnalogErrorKind::UnknownZoneTarget, &a, &chars_of(t))),
            Some(c) => {
                if !virtual_output_supports(c) || c.kind != EventKind::Key {
                    Err(fail(AnalogErrorKind::ZoneTargetKind, &a, &chars_of(c.name().as_str())))
                } else if contains_code(earlier, c) {
                    Err(fail(AnalogErrorKind::DuplicateZoneTarget, &a, &chars_of(c.name().as_str())))
                } else {
                    Ok(c)
                }
            },
        },
    }
}

// ---------------------------------------------------------------------------
// Stick rotation pairs

/// `stick N` or `digital stick N` for the entry at `index` (from 0).
pub open spec fn entry_name(prefix: Seq<char>, index: usize) -> Seq<char> {
    prefix + decimal((index + 1) as nat)
}

fn entry_label(prefix: &str, index: usize) -> (r: Vec<char>)
    ensures
        r@ == entry_name(prefix@, index),
{
    let mut out = chars_of(prefix);
    push_chars(&mut out, &decimal_chars(index as u128 + 1));
    out
}

/// Which stick a pair of axes is: left for `abs:x`/`abs:y`, right for
/// `abs:rx`/`abs:ry`.
pub open spec fn stick_side(x: EventCode, y: EventCode) -> Option<bool> {
    if x == abs_event(ABS_X) && y == abs_event(ABS_Y) {
        Some(true)
    } else if x == abs_event(ABS_RX) && y == abs_event(ABS_RY) {
        Some(false)
    } else {
        None
    }
}

/// The axes of a stick rotation entry: both given, known, `x` among
/// `abs:x`/`abs:rx` and `y` among `abs:y`/`abs:ry`, forming the left or the
/// right stick, which no earlier entry rotates.
pub open spec fn stick_pair_of(x: Option<Seq<char>>, y: Option<Seq<char>>, index: usize, earlier: Seq<(EventCode, EventCode)>) -> Result<(EventCode, EventCode), AnalogErrorModel> {
    let ctx = entry_name("stick "@, index);
    match (x, y) {
        (None, _) => Err(aerr(AnalogErrorKind::RequiresXAxis, ctx, Seq::empty())),
        (_, None) => Err(aerr(AnalogErrorKind::RequiresYAxis, ctx, Seq::empty())),
        (Some(xt), Some(yt)) => match parsed_event(xt) {
            None => Err(aerr(AnalogErrorKind::UnknownStickAxis, ctx, xt)),
            Some(xa) => if xa != abs_event(ABS_X) && xa != abs_event(ABS_RX) {
                Err(aerr(AnalogErrorKind::XAxisChoice, ctx, Seq::empty()))
            } else {
                match parsed_event(yt) {
                    None => Err(aerr(AnalogErrorKind::UnknownStickAxis, ctx, yt)),
                    Some(ya) => if ya != abs_event(ABS_Y) && ya != abs_event(ABS_RY) {
                        Err(aerr(AnalogErrorKind::YAxisChoice, ctx, Seq::empty()))
                    } else {
                        match stick_side(xa, ya) {
                            None => Err(aerr(AnalogErrorKind::StickPairMismatch, ctx, Seq::empty())),
                            Some(side) => if exists|k: int| 0 <= k < earlier.len() && #[trigger] stick_side(earlier[k].0, earlier[k].1) == Some(side) {
                                Err(aerr(AnalogErrorKind::DuplicateStickPair, ctx, Seq::empty()))
                            } else {
                                Ok((xa, ya))
                            },
                        }
                    },
                }
            },
        },
    }
}

fn side_of(x: EventCode, y: EventCode) -> (r: Option<bool>)
    ensures
        r == stick_side(x, y),
{
    let lx = EventCode { kind: EventKind::Absolute, code: ABS_X };
    let ly = EventCode { kind: EventKind::Absolute, code: ABS_Y };
    let rx = EventCode { kind: EventKind::Absolute, code: ABS_RX };
    let ry = EventCode { kind: EventKind::Absolute, code: ABS_RY };
    if x == lx && y == ly {
        Some(true)
    } else if x == rx && y == ry {
        Some(false)
    } else {
        None
    }
}

fn side_taken(earlier: &[(EventCode, EventCode)], side: bool) -> (r: bool)
    ensures
        r == exists|k: int| 0 <= k < earlier@.len() && #[trigger] stick_side(earlier@[k].0, earlier@[k].1) == Some(side),
{
    let mut k: usize = 0;
    while k < earlier.len()
        invariant
            k <= earlier@.len(),
            forall|j: int| 0 <= j < k ==> #[trigger] stick_side(earlier@[j].0, earlier@[j].1) != Some(side),
        decreases earlier@.len() - k,
    {
        if side_of(earlier[k].0, earlier[k].1) == Some(side) {
            assert(stick_side(earlier@[k as int].0, earlier@[k as int].1) == Some(side));
            return true;
        }
        k = k + 1;
    }
    false
}

/// Checks the axes of a stick rotation entry (see [`stick_pair_of`]);
/// `earlier` holds the pairs of the entries before it.
pub fn stick_pair_axes(x: Option<&str>, y: Option<&str>, index: usize, earlier: &[(EventCode, EventCode)]) -> (r: Result<(EventCode, EventCode), AnalogError>)
    ensures
        match r {
            Ok(p) => stick_pair_of(
                match x {
                    Some(s) => Some(s@),
                    None => None,
                },
                match y {
                    Some(s) => Some(s@),
                    None => None,
                },
                index,
                earlier@,
            ) == Ok::<(EventCode, EventCode), AnalogErrorModel>(p),
            Err(e) => stick_pair_of(
                match x {
                    Some(s) => Some(s@),
                    None => None,
                },
                match y {
                    Some(s) => Some(s@),
                    None => None,
                },
                index,
                earlier@,
            ) == Err::<(EventCode, EventCode), AnalogErrorModel>(e@),
        },
{
    let ctx = entry_label("stick ", index);
    let empty: Vec<char> = Vec::new();
    let (xt, yt) = match (x, y) {
        (None, _) => {
            return Err(fail(AnalogErrorKind::RequiresXAxis, &ctx, &empty));
        },
        (_, None) => {
            return Err(fail(AnalogErrorKind::RequiresYAxis, &ctx, &empty));
        },
        (Some(a), Some(b)) => (a, b),
    };
    let xa = match parse_event_code(xt) {
        None => {
            return Err(fail(AnalogErrorKind::UnknownStickAxis, &ctx, &chars_of(xt)));
        },
        Some(c) => c,
    };
    if xa != (EventCode { kind: EventKind::Absolute, code: ABS_X }) && xa != (EventCode { kind: EventKind::Absolute, code: ABS_RX }) {
        return Err(fail(AnalogErrorKind::XAxisChoice, &ctx, &empty));
    }
    let ya = match parse_event_code(yt) {
        None => {
            return Err(fail(AnalogErrorKind::UnknownStickAxis, &ctx, &chars_of(yt)));
        },
        Some(c) => c,
    };
    if ya != (EventCode { kind: EventKind::Absolute, code: ABS_Y }) && ya != (EventCode { kind: EventKind::Absolute, code: ABS_RY }) {
        return Err(fail(AnalogErrorKind::YAxisChoice, &ctx, &empty));
    }
    let side = match side_of(xa, ya) {
        None => {
            return Err(fail(AnalogErrorKind::StickPairMismatch, &ctx, &empty));
        },
        Some(s) => s,
    };
    if side_taken(earlier, side) {
        return Err(fail(AnalogErrorKind::DuplicateStickPair, &ctx, &empty));
    }
    Ok((xa, ya))
}

// ---------------------------------------------------------------------------
// Digital sticks

/// A digital stick's input axis: known, absolute, centered, and one the
/// virtual pad has.
pub open spec fn centered_axis_of(text: Seq<char>, ctx: Seq<char>) -> Result<EventCode, AnalogErrorModel> {
    match parsed_event(text) {
        None => Err(aerr(AnalogErrorKind::UnknownStickAxis, ctx, text)),
        Some(c) => if c.kind != EventKind::Absolute {
            Err(aerr(AnalogErrorKind::AxisNotAbsolute, ctx, event_name(c)))
        } else if axis_range(c).0 >= 0 {
            Err(aerr(AnalogErrorKind::AxisNotCentered, ctx, event_name(c)))
        } else if !xbox_supports(c) {
            Err(aerr(AnalogErrorKind::AxisUnsupported, ctx, event_name(c)))
        } else {
            Ok(c)
        },
    }
}

fn centered_axis(text: &str, ctx: &Vec<char>) -> (r: Result<EventCode, AnalogError>)
    ensures
        match r {
            Ok(c) => centered_axis_of(text@, ctx@) == Ok::<EventCode, AnalogErrorModel>(c),
            Err(e) => centered_axis_of(text@, ctx@) == Err::<EventCode, AnalogErrorModel>(e@),
        },
{
    match parse_event_code(text) {
        None => Err(fail(AnalogErrorKind::UnknownStickAxis, ctx, &chars_of(text))),
        Some(c) => {
            if c.kind != EventKind::Absolute {
                Err(fail(AnalogErrorKind::AxisNotAbsolute, ctx, &chars_of(c.name().as_str())))
            } else if axis_value_range(c).0 >= 0 {
                Err(fail(AnalogErrorKind::AxisNotCentered, ctx, &chars_of(c.name().as_str())))
            } else if !virtual_xbox_supports(c) {
                Err(fail(AnalogErrorKind::AxisUnsupported, ctx, &chars_of(c.name().as_str())))
            } else {
                Ok(c)
            }
        },
    }
}

/// A digital stick's input axes: both given, each a centered axis of the
/// pad, and different.
pub open spec fn digital_inputs_of(x: Option<Seq<char>>, y: Option<Seq<char>>, index: usize) -> Result<(EventCode, EventCode), AnalogErrorModel> {
    let ctx = entry_name("digital stick "@, index);
    match (x, y) {
        (None, _) => Err(aerr(AnalogErrorKind::RequiresXAxis, ctx, Seq::empty())),
        (_, None) => Err(aerr(AnalogErrorKind::RequiresYAxis, ctx, Seq::empty())),
        (Some(xt), Some(yt)) => match centered_axis_of(xt, ctx) {
            Err(e) => Err(e),
            Ok(xa) => match centered_axis_of(yt, ctx) {
                Err(e) => Err(e),
                Ok(ya) => if xa == ya {
                    Err(aerr(AnalogErrorKind::SameAxes, ctx, Seq::empty()))
                } else {
                    Ok((xa, ya))
                },
            },
        },
    }
}

/// Checks a digital stick's input axes (see [`digital_inputs_of`]).
pub fn digital_stick_inputs(x: Option<&str>, y: Option<&str>, index: usize) -> (r: Result<(EventCode, EventCode), AnalogError>)
    ensures
        match r {
            Ok(p) => digital_inputs_of(
                match x {
                    Some(s) => Some(s@),
                    None => None,
                },
                match y {
                    Some(s) => Some(s@),
                    None => None,
                },
                index,
            ) == Ok::<(EventCode, EventCode), AnalogErrorModel>(p),
            Err(e) => digital_inputs_of(
                match x {
                    Some(s) => Some(s@),
                    None => None,
                },
                match y {
                    Some(s) => Some(s@),
                    None => None,
                },
                index,
            ) == Err::<(EventCode, EventCode), AnalogErrorModel>(e@),
        },
{
    let ctx = entry_label("digital stick ", index);
    let empty: Vec<char> = Vec::new();
    let (xt, yt) = match (x, y) {
        (None, _) => {
            return Err(fail(AnalogErrorKind::RequiresXAxis, &ctx, &empty));
        },
        (_, None) => {
            return Err(fail(AnalogErrorKind::RequiresYAxis, &ctx, &empty));
        },
        (Some(a), Some(b)) => (a, b),
    };
    let xa = centered_axis(xt, &ctx)?;
    let ya = centered_axis(yt, &ctx)?;
    if xa == ya {
        return Err(fail(AnalogErrorKind::SameAxes, &ctx, &empty));
    }
    Ok((xa, ya))
}

/// A digital stick's output axis: the given name (by default the expected
/// hat axis) must be known and be the expected hat axis.
pub open spec fn hat_output_of(text: Option<Seq<char>>, expected: u16, expected_name: Seq<char>, ctx: Seq<char>) -> Result<EventCode, AnalogErrorModel> {
    let t = match text {
        Some(s) => s,
        None => expected_name,
    };
    match parsed_event(t) {
        None => Err(aerr(AnalogErrorKind::UnknownOutputAxis, ctx, t)),
        Some(c) => if c != abs_event(expected) {
            Err(aerr(AnalogErrorKind::OutputAxisChoice, ctx, expected_name))
        } else {
            Ok(c)
        },
    }
}

/// A digital stick's output axes: `abs:hat0x` and `abs:hat0y`.
pub open spec fn digital_outputs_of(x: Option<Seq<char>>, y: Option<Seq<char>>, index: usize) -> Result<(EventCode, EventCode), AnalogErrorModel> {
    let ctx = entry_name("digital stick "@, index);
    match hat_output_of(x, ABS_HAT0X, "abs:hat0x"@, ctx) {
        Err(e) => Err(e),
        Ok(ox) => match hat_output_of(y, ABS_HAT0Y, "abs:hat0y"@, ctx) {
            Err(e) => Err(e),
            Ok(oy) => Ok((ox, oy)),
        },
    }
}

fn hat_output(text: Option<&str>, expected: u16, expected_name: &str, ctx: &Vec<char>) -> (r: Result<EventCode, AnalogError>)
    ensures
        match r {
            Ok(c) => hat_output_of(
                match text {
                    Some(s) => Some(s@),
                    None => None,
                },
                expected,
                expected_name@,
                ctx@,
            ) == Ok::<EventCode, AnalogErrorModel>(c),
            Err(e) => hat_output_of(
                match text {
                    Some(s) => Some(s@),
                    None => None,
                },
                expected,
                expected_name@,
                ctx@,
            ) == Err::<EventCode, AnalogErrorModel>(e@),
        },
{
    let t = match text {
        Some(s) => s,
        None => expected_name,
    };
    match parse_event_code(t) {
        None => Err(fail(AnalogErrorKind::UnknownOutputAxis, ctx, &chars_of(t))),
        Some(c) => {
            if c != (EventCode { kind: EventKind::Absolute, code: expected }) {
                Err(fail(AnalogErrorKind::OutputAxisChoice, ctx, &chars_of(expected_name)))
            } else {
                Ok(c)
            }
        },
    }
}

/// Checks a digital stick's output axes (see [`digital_outputs_of`]).
pub fn digital_stick_outputs(x: Option<&str>, y: Option<&str>, index: usize) -> (r: Result<(EventCode, EventCode), AnalogError>)
    ensures
        match r {
            Ok(p) => digital_outputs_of(
                match x {
                    Some(s) => Some(s@),
                    None => None,
                },
                match y {
                    Some(s) => Some(s@),
                    None => None,
                },
                index,
            ) == Ok::<(EventCode, EventCode), AnalogErrorModel>(p),
            Err(e) => digital_outputs_of(
                match x {
                    Some(s) => Some(s@),
                    None => None,
                },
                match y {
                    Some(s) => Some(s@),
                    None => None,
                },
                index,
            ) == Err::<(EventCode, EventCode), AnalogErrorModel>(e@),
        },
{
    let ctx = entry_label("digital stick ", index);
    let ox = hat_output(x, ABS_HAT0X, "abs:hat0x", &ctx)?;
    let oy = hat_output(y, ABS_HAT0Y, "abs:hat0y", &ctx)?;
    Ok((ox, oy))
}

// ---------------------------------------------------------------------------
// Stick transforms

/// Stick output: which source pair drives which output pair, and which
/// rotation entry (if any) gives its rotation.
#[derive(Clone, Copy, Debug, PartialEq, Eq, Structural)]
pub struct StickTransform {
    pub source_x: EventCode,
    pub source_y: EventCode,
    pub output_x: EventCode,
    pub output_y: EventCode,
    pub rotation_from: Option<usize>,
}

/// The index of the first pair equal to (`x`, `y`).
pub open spec fn first_pair(sticks: Seq<(EventCode, EventCode)>, x: EventCode, y: EventCode) -> Option<usize>
    decreases sticks.len(),
{
    if sticks.len() == 0 {
        None
    } else {
        match first_pair(sticks.drop_last(), x, y) {
            Some(i) => Some(i),
            None => if sticks.last() == (x, y) {
                Some((sticks.len() - 1) as usize)
            } else {
                None
            },
        }
    }
}

/// The stick transforms of a profile: with the sticks swapped, the left
/// stick drives the right one and the other way round, each keeping the
/// rotation of its own entry (if any); otherwise each rotation entry
/// rotates its stick in place.
pub open spec fn transforms_of(sticks: Seq<(EventCode, EventCode)>, swap: bool) -> Seq<StickTransform> {
    let (lx, ly, rx, ry) = (abs_event(ABS_X), abs_event(ABS_Y), abs_event(ABS_RX), abs_event(ABS_RY));
    if swap {
        seq![
            StickTransform { source_x: lx, source_y: ly, output_x: rx, output_y: ry, rotation_from: first_pair(sticks, lx, ly) },
            StickTransform { source_x: rx, source_y: ry, output_x: lx, output_y: ly, rotation_from: first_pair(sticks, rx, ry) },
        ]
    } else {
        Seq::new(sticks.len(), |i: int| StickTransform {
            source_x: sticks[i].0,
            source_y: sticks[i].1,
            output_x: sticks[i].0,
            output_y: sticks[i].1,
            rotation_from: Some(i as usize),
        })
    }
}

fn find_pair(sticks: &[(EventCode, EventCode)], x: EventCode, y: EventCode) -> (r: Option<usize>)
    ensures
        r == first_pair(sticks@, x, y),
{
    let mut i: usize = 0;
    let mut found: Option<usize> = None;
    while i < sticks.len()
        invariant
            i <= sticks@.len(),
            found == first_pair(sticks@.subrange(0, i as int), x, y),
        decreases sticks@.len() - i,
    {
        let ghost pre = sticks@.subrange(0, i + 1);
        assert(pre.drop_last() =~= sticks@.subrange(0, i as int));
        if found.is_none() && sticks[i].0 == x && sticks[i].1 == y {
            found = Some(i);
        }
        i = i + 1;
    }
    assert(sticks@.subrange(0, sticks@.len() as int) =~= sticks@);
    found
}

/// The stick transforms for the rotation entries' pairs (see
/// [`transforms_of`]).
pub fn stick_transforms(sticks: &[(EventCode, EventCode)], swap: bool) -> (r: Vec<StickTransform>)
    ensures
        r@ == transforms_of(sticks@, swap),
{
    let lx = EventCode { kind: EventKind::Absolute, code: ABS_X };
    let ly = EventCode { kind: EventKind::Absolute, code: ABS_Y };
    let rx = EventCode { kind: EventKind::Absolute, code: ABS_RX };
    let ry = EventCode { kind: EventKind::Absolute, code: ABS_RY };
    let mut r: Vec<StickTransform> = Vec::new();
    if swap {
        r.push(StickTransform { source_x: lx, source_y: ly, output_x: rx, output_y: ry, rotation_from: find_pair(sticks, lx, ly) });
        r.push(StickTransform { source_x: rx, source_y: ry, output_x: lx, output_y: ly, rotation_from: find_pair(sticks, rx, ry) });
        assert(r@ =~= transforms_of(sticks@, swap));
        return r;
    }
    let mut i: usize = 0;
    while i < sticks.len()
        invariant
            i <= sticks@.len(),
            !swap,
            r@ =~= transforms_of(sticks@, swap).subrange(0, i as int),
        decreases sticks@.len() - i,
    {
        let (x, y) = sticks[i];
        r.push(StickTransform { source_x: x, source_y: y, output_x: x, output_y: y, rotation_from: Some(i) });
        i = i + 1;
    }
    r
}

/// The indexes of the entries whose x or y axis is `source`, in order.
pub open spec fn indexes_of(pairs: Seq<(EventCode, EventCode)>, source: EventCode) -> Seq<usize>
    decreases pairs.len(),
{
    if pairs.len() == 0 {
        Seq::empty()
    } else {
        let prev = indexes_of(pairs.drop_last(), source);
        if pairs.last().0 == source || pairs.last().1 == source {
            prev.push((pairs.len() - 1) as usize)
        } else {
            prev
        }
    }
}

/// The entries (stick transforms or digital sticks, by their source pairs)
/// an axis drives (see [`indexes_of`]).
pub fn entries_for(pairs: &[(EventCode, EventCode)], source: EventCode) -> (r: Vec<usize>)
    ensures
        r@ == indexes_of(pairs@, source),
{
    let mut r: Vec<usize> = Vec::new();
    let mut i: usize = 0;
    while i < pairs.len()
        invariant
            i <= pairs@.len(),
            r@ == indexes_of(pairs@.subrange(0, i as int), source),
        decreases pairs@.len() - i,
    {
        let ghost pre = pairs@.subrange(0, i + 1);
        assert(pre.drop_last() =~= pairs@.subrange(0, i as int));
        if pairs[i].0 == source || pairs[i].1 == source {
            r.push(i);
        }
        i = i + 1;
    }
    assert(pairs@.subrange(0, pairs@.len() as int) =~= pairs@);
    r
}

} // verus!
