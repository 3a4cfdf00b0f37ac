//! A phone or tablet acting as a controller: each state packet it sends
//! (buttons by name, stick and trigger axes by name) becomes virtual gamepad
//! events. Decoding the packet and scaling the axis values from their unit
//! range happen before the state reaches the library.

use vstd::prelude::*;
use crate::event_code::{
    EventCode, EventKind, ABS_HAT0X, ABS_HAT0Y, ABS_RX, ABS_RY, ABS_RZ, ABS_X, ABS_Y, ABS_Z,
    BTN_EAST, BTN_MODE, BTN_NORTH, BTN_SELECT, BTN_SOUTH, BTN_START, BTN_THUMBL, BTN_THUMBR,
    BTN_TL, BTN_TR, BTN_WEST,
};
use crate::text::str_eq;

verus! {

/// The gamepad button a mobile button name stands for (d-pad directions
/// drive the hat axes instead).
pub open spec fn mobile_button(name: Seq<char>) -> Option<u16> {
    if name == "a"@ {
        Some(BTN_SOUTH)
    } else if name == "b"@ {
        Some(BTN_EAST)
    } else if name == "x"@ {
        Some(BTN_NORTH)
    } else if name == "y"@ {
        Some(BTN_WEST)
    } else if name == "lb"@ || name == "l1"@ {
        Some(BTN_TL)
    } else if name == "rb"@ || name == "r1"@ {
        Some(BTN_TR)
    } else if name == "back"@ || name == "select"@ {
        Some(BTN_SELECT)
    } else if name == "start"@ {
        Some(BTN_START)
    } else if name == "guide"@ || name == "home"@ {
        Some(BTN_MODE)
    } else if name == "ls"@ || name == "l3"@ {
        Some(BTN_THUMBL)
    } else if name == "rs"@ || name == "r3"@ {
        Some(BTN_THUMBR)
    } else {
        None
    }
}

/// The gamepad key a mobile button name stands for.
pub fn button_key(name: &str) -> (r: Option<EventCode>)
    ensures
        r == (match mobile_button(name@) {
            Some(c) => Some(EventCode { kind: EventKind::Key, code: c }),
            None => None,
        }),
{
    let code: Option<u16> = if str_eq(name, "a") {
        Some(BTN_SOUTH)
    } else if str_eq(name, "b") {
        Some(BTN_EAST)
    } else if str_eq(name, "x") {
        Some(BTN_NORTH)
    } else if str_eq(name, "y") {
        Some(BTN_WEST)
    } else if str_eq(name, "lb") || str_eq(name, "l1") {
        Some(BTN_TL)
    } else if str_eq(name, "rb") || str_eq(name, "r1") {
        Some(BTN_TR)
    } else if str_eq(name, "back") || str_eq(name, "select") {
        Some(BTN_SELECT)
    } else if str_eq(name, "start") {
        Some(BTN_START)
    } else if str_eq(name, "guide") || str_eq(name, "home") {
        Some(BTN_MODE)
    } else if str_eq(name, "ls") || str_eq(name, "l3") {
        Some(BTN_THUMBL)
    } else if str_eq(name, "rs") || str_eq(name, "r3") {
        Some(BTN_THUMBR)
    } else {
        None
    };
    match code {
        Some(c) => Some(EventCode { kind: EventKind::Key, code: c }),
        None => None,
    }
}

/// A stick or trigger axis: the absolute axis it drives and its value range.
#[derive(Clone, Copy, Debug, PartialEq, Eq, Structural)]
pub struct AxisSetup {
    pub axis: EventCode,
    pub min: i32,
    pub max: i32,
}

/// A stick axis, spanning -32768..32767.
pub open spec fn stick(c: u16) -> Option<AxisSetup> {
    Some(AxisSetup { axis: EventCode { kind: EventKind::Absolute, code: c }, min: -32768i32, max: 32767i32 })
}

/// A trigger axis, spanning 0..255.
pub open spec fn trigger(c: u16) -> Option<AxisSetup> {
    Some(AxisSetup { axis: EventCode { kind: EventKind::Absolute, code: c }, min: 0i32, max: 255i32 })
}

/// The axis a mobile axis name stands for: sticks span -32768..32767,
/// triggers 0..255.
pub open spec fn mobile_axis(name: Seq<char>) -> Option<AxisSetup> {
    if name == "lx"@ {
        stick(ABS_X)
    } else if name == "ly"@ {
        stick(ABS_Y)
    } else if name == "rx"@ {
        stick(ABS_RX)
    } else if name == "ry"@ {
        stick(ABS_RY)
    } else if name == "lt"@ || name == "l2"@ {
        trigger(ABS_Z)
    } else if name == "rt"@ || name == "r2"@ {
        trigger(ABS_RZ)
    } else {
        None
    }
}

/// The axis and range of a mobile axis name.
pub fn axis_setup(name: &str) -> (r: Option<AxisSetup>)
    ensures
        r == mobile_axis(name@),
{
    let (code, trigger): (u16, bool) = if str_eq(name, "lx") {
        (ABS_X, false)
    } else if str_eq(name, "ly") {
        (ABS_Y, false)
    } else if str_eq(name, "rx") {
        (ABS_RX, false)
    } else if str_eq(name, "ry") {
        (ABS_RY, false)
    } else if str_eq(name, "lt") || str_eq(name, "l2") {
        (ABS_Z, true)
    } else if str_eq(name, "rt") || str_eq(name, "r2") {
        (ABS_RZ, true)
    } else {
        return None;
    };
    let axis = EventCode { kind: EventKind::Absolute, code };
    if trigger {
        Some(AxisSetup { axis, min: 0, max: 255 })
    } else {
        Some(AxisSetup { axis, min: -32768, max: 32767 })
    }
}

/// Whether the first entry named `name` is pressed.
pub open spec fn pressed(buttons: Seq<(String, bool)>, name: Seq<char>) -> bool
    decreases buttons.len(),
{
    if buttons.len() == 0 {
        false
    } else if buttons[0].0@ == name {
        buttons[0].1
    } else {
        pressed(buttons.drop_first(), name)
    }
}

/// A hat axis from two opposing directions: +1, -1, or 0 when both or
/// neither are pressed.
pub open spec fn hat(buttons: Seq<(String, bool)>, positive: Seq<char>, negative: Seq<char>) -> i32 {
    ((if pressed(buttons, positive) { 1int } else { 0int }) - (if pressed(buttons, negative) { 1int } else { 0int })) as i32
}

/// Key events for the named buttons, in order, skipping unknown names.
pub open spec fn button_events(buttons: Seq<(String, bool)>) -> Seq<(EventCode, i32)>
    decreases buttons.len(),
{
    if buttons.len() == 0 {
        Seq::empty()
    } else {
        let prev = button_events(buttons.drop_last());
        match mobile_button(buttons.last().0@) {
            Some(c) => prev.push((EventCode { kind: EventKind::Key, code: c }, if buttons.last().1 { 1i32 } else { 0i32 })),
            None => prev,
        }
    }
}

/// Axis events for the named (already scaled) axes, in order, skipping
/// unknown names.
pub open spec fn axis_events(axes: Seq<(String, i32)>) -> Seq<(EventCode, i32)>
    decreases axes.len(),
{
    if axes.len() == 0 {
        Seq::empty()
    } else {
        let prev = axis_events(axes.drop_last());
        match mobile_axis(axes.last().0@) {
            Some(s) => prev.push((s.axis, axes.last().1)),
            None => prev,
        }
    }
}

/// The events for a state: the buttons, then the d-pad as the hat axes
/// (right minus left, down minus up), then the axes.
pub open spec fn state_events(buttons: Seq<(String, bool)>, axes: Seq<(String, i32)>) -> Seq<(EventCode, i32)> {
    button_events(buttons)
        + seq![
            (EventCode { kind: EventKind::Absolute, code: ABS_HAT0X }, hat(buttons, "right"@, "left"@)),
            (EventCode { kind: EventKind::Absolute, code: ABS_HAT0Y }, hat(buttons, "down"@, "up"@)),
        ]
        + axis_events(axes)
}

fn is_pressed(buttons: &Vec<(String, bool)>, name: &str) -> (r: bool)
    ensures
        r == pressed(buttons@, name@),
{
    let mut i: usize = 0;
    assert(buttons@.skip(0) =~= buttons@);
    while i < buttons.len()
        invariant
            i <= buttons@.len(),
            pressed(buttons@, name@) == pressed(buttons@.skip(i as int), name@),
        decreases buttons@.len() - i,
    {
        assert(buttons@.skip(i as int)[0] == buttons@[i as int]);
        assert(buttons@.skip(i as int).drop_first() =~= buttons@.skip(i + 1));
        if str_eq(buttons[i].0.as_str(), name) {
            return buttons[i].1;
        }
        i = i + 1;
    }
    assert(buttons@.skip(i as int).len() == 0);
    false
}

/// The gamepad events for a controller state: `buttons` by name and `axes`
/// by name with values already scaled to each axis' range (see
/// [`state_events`]).
pub fn events_for_state(buttons: &Vec<(String, bool)>, axes: &Vec<(String, i32)>) -> (r: Vec<(EventCode, i32)>)
    ensures
        r@ == state_events(buttons@, axes@),
{
    let mut r: Vec<(EventCode, i32)> = Vec::new();
    let mut i: usize = 0;
    while i < buttons.len()
        invariant
            i <= buttons@.len(),
            r@ == button_events(buttons@.subrange(0, i as int)),
        decreases buttons@.len() - i,
    {
        let ghost pre = buttons@.subrange(0, i + 1);
        assert(pre.drop_last() =~= buttons@.subrange(0, i as int));
        if let Some(key) = button_key(buttons[i].0.as_str()) {
            r.push((key, if buttons[i].1 { 1 } else { 0 }));
        }
        i = i + 1;
    }
    assert(buttons@.subrange(0, buttons@.len() as int) =~= buttons@);
    let right: i32 = if is_pressed(buttons, "right") { 1 } else { 0 };
    let left: i32 = if is_pressed(buttons, "left") { 1 } else { 0 };
    let down: i32 = if is_pressed(buttons, "down") { 1 } else { 0 };
    let up: i32 = if is_pressed(buttons, "up") { 1 } else { 0 };
    r.push((EventCode { kind: EventKind::Absolute, code: ABS_HAT0X }, right - left));
    r.push((EventCode { kind: EventKind::Absolute, code: ABS_HAT0Y }, down - up));
    let ghost mid = r@;
    let mut j: usize = 0;
    while j < axes.len()
        invariant
            j <= axes@.len(),
            r@ == mid + axis_events(axes@.subrange(0, j as int)),
        decreases axes@.len() - j,
    {
        let ghost pre = axes@.subrange(0, j + 1);
        assert(pre.drop_last() =~= axes@.subrange(0, j as int));
        if let Some(s) = axis_setup(axes[j].0.as_str()) {
            r.push((s.axis, axes[j].1));
        }
        assert(r@ =~= mid + axis_events(pre));
        j = j + 1;
    }
    assert(axes@.subrange(0, axes@.len() as int) =~= axes@);
    assert(r@ =~= state_events(buttons@, axes@));
    r
}

} // verus!
