//! Input event codes: the kinds of controller, keyboard and mouse events, their
//! textual names (`btn:south`, `abs:x`, `key:space`, ...), parsing of those
//! names, and which events the virtual output devices can emit.

use std::str::FromStr;
use vstd::prelude::*;
use crate::text::{
    chars_eq_str, chars_of, concat_chars, decimal, decimal_chars, normalize_keyword,
    normalize_keyword_str, string_from_chars, strip_prefix_str, sub_chars, upper, upper_chars,
};

verus! {

// Linux input event type and code numbers (`linux/input-event-codes.h`).
pub const EV_KEY: u16 = 0x01;
pub const EV_REL: u16 = 0x02;
pub const EV_ABS: u16 = 0x03;

pub const BTN_SOUTH: u16 = 0x130;
pub const BTN_EAST: u16 = 0x131;
pub const BTN_NORTH: u16 = 0x133;
pub const BTN_WEST: u16 = 0x134;
pub const BTN_TL: u16 = 0x136;
pub const BTN_TR: u16 = 0x137;
pub const BTN_TL2: u16 = 0x138;
pub const BTN_TR2: u16 = 0x139;
pub const BTN_SELECT: u16 = 0x13a;
pub const BTN_START: u16 = 0x13b;
pub const BTN_MODE: u16 = 0x13c;
pub const BTN_THUMBL: u16 = 0x13d;
pub const BTN_THUMBR: u16 = 0x13e;
pub const BTN_LEFT: u16 = 0x110;
pub const BTN_RIGHT: u16 = 0x111;
pub const BTN_MIDDLE: u16 = 0x112;
pub const BTN_SIDE: u16 = 0x113;
pub const BTN_EXTRA: u16 = 0x114;
pub const BTN_FORWARD: u16 = 0x115;
pub const BTN_BACK: u16 = 0x116;
/// The paddles of an Elite controller (`BTN_TRIGGER_HAPPY1` to `4`).
pub const BTN_PADDLE1: u16 = 0x2c0;
pub const BTN_PADDLE2: u16 = 0x2c1;
pub const BTN_PADDLE3: u16 = 0x2c2;
pub const BTN_PADDLE4: u16 = 0x2c3;
pub const KEY_SPACE: u16 = 57;
pub const KEY_ENTER: u16 = 28;
pub const KEY_ESC: u16 = 1;
pub const KEY_TAB: u16 = 15;
pub const KEY_BACKSPACE: u16 = 14;
pub const KEY_LEFTCTRL: u16 = 29;
pub const KEY_RIGHTCTRL: u16 = 97;
pub const KEY_LEFTSHIFT: u16 = 42;
pub const KEY_RIGHTSHIFT: u16 = 54;
pub const KEY_LEFTALT: u16 = 56;
pub const KEY_RIGHTALT: u16 = 100;
pub const KEY_LEFTMETA: u16 = 125;
pub const KEY_RIGHTMETA: u16 = 126;
pub const KEY_UP: u16 = 103;
pub const KEY_DOWN: u16 = 108;
pub const KEY_LEFT: u16 = 105;
pub const KEY_RIGHT: u16 = 106;
pub const KEY_HOME: u16 = 102;
pub const KEY_END: u16 = 107;
pub const KEY_PAGEUP: u16 = 104;
pub const KEY_PAGEDOWN: u16 = 109;
pub const KEY_DELETE: u16 = 111;
pub const KEY_INSERT: u16 = 110;
pub const KEY_MINUS: u16 = 12;
pub const KEY_EQUAL: u16 = 13;
pub const KEY_LEFTBRACE: u16 = 26;
pub const KEY_RIGHTBRACE: u16 = 27;
pub const KEY_BACKSLASH: u16 = 43;
pub const KEY_SEMICOLON: u16 = 39;
pub const KEY_APOSTROPHE: u16 = 40;
pub const KEY_GRAVE: u16 = 41;
pub const KEY_COMMA: u16 = 51;
pub const KEY_DOT: u16 = 52;
pub const KEY_SLASH: u16 = 53;
pub const KEY_1: u16 = 2;
pub const KEY_2: u16 = 3;
pub const KEY_3: u16 = 4;
pub const KEY_4: u16 = 5;
pub const KEY_5: u16 = 6;
pub const KEY_6: u16 = 7;
pub const KEY_7: u16 = 8;
pub const KEY_8: u16 = 9;
pub const KEY_9: u16 = 10;
pub const KEY_0: u16 = 11;
pub const KEY_A: u16 = 30;
pub const KEY_B: u16 = 48;
pub const KEY_C: u16 = 46;
pub const KEY_D: u16 = 32;
pub const KEY_E: u16 = 18;
pub const KEY_F: u16 = 33;
pub const KEY_G: u16 = 34;
pub const KEY_H: u16 = 35;
pub const KEY_I: u16 = 23;
pub const KEY_J: u16 = 36;
pub const KEY_K: u16 = 37;
pub const KEY_L: u16 = 38;
pub const KEY_M: u16 = 50;
pub const KEY_N: u16 = 49;
pub const KEY_O: u16 = 24;
pub const KEY_P: u16 = 25;
pub const KEY_Q: u16 = 16;
pub const KEY_R: u16 = 19;
pub const KEY_S: u16 = 31;
pub const KEY_T: u16 = 20;
pub const KEY_U: u16 = 22;
pub const KEY_V: u16 = 47;
pub const KEY_W: u16 = 17;
pub const KEY_X: u16 = 45;
pub const KEY_Y: u16 = 21;
pub const KEY_Z: u16 = 44;
pub const KEY_F1: u16 = 59;
pub const KEY_F2: u16 = 60;
pub const KEY_F3: u16 = 61;
pub const KEY_F4: u16 = 62;
pub const KEY_F5: u16 = 63;
pub const KEY_F6: u16 = 64;
pub const KEY_F7: u16 = 65;
pub const KEY_F8: u16 = 66;
pub const KEY_F9: u16 = 67;
pub const KEY_F10: u16 = 68;
pub const KEY_F11: u16 = 87;
pub const KEY_F12: u16 = 88;
pub const ABS_X: u16 = 0x00;
pub const ABS_Y: u16 = 0x01;
pub const ABS_RX: u16 = 0x03;
pub const ABS_RY: u16 = 0x04;
pub const ABS_Z: u16 = 0x02;
pub const ABS_RZ: u16 = 0x05;
pub const ABS_HAT0X: u16 = 0x10;
pub const ABS_HAT0Y: u16 = 0x11;
pub const REL_X: u16 = 0x00;
pub const REL_Y: u16 = 0x01;
pub const REL_WHEEL: u16 = 0x08;
pub const REL_HWHEEL: u16 = 0x06;

/// The three event families PadProxy reads and writes.
#[derive(Clone, Copy, Debug, PartialEq, Eq, Hash, Structural)]
pub enum EventKind {
    Key,
    Absolute,
    Relative,
}

/// An event family plus its code within that family.
#[derive(Clone, Copy, Debug, PartialEq, Eq, Hash, Structural)]
pub struct EventCode {
    pub kind: EventKind,
    pub code: u16,
}

/// The view of an optional static string.
pub open spec fn opt_str(o: Option<&str>) -> Option<Seq<char>> {
    match o {
        Some(s) => Some(s@),
        None => None,
    }
}

pub open spec fn key_event(code: u16) -> EventCode {
    EventCode { kind: EventKind::Key, code }
}

pub open spec fn abs_event(code: u16) -> EventCode {
    EventCode { kind: EventKind::Absolute, code }
}

pub open spec fn rel_event(code: u16) -> EventCode {
    EventCode { kind: EventKind::Relative, code }
}

/// Names of the controller and mouse buttons.
pub open spec fn button_name(code: u16) -> Option<Seq<char>> {
    if code == BTN_SOUTH {
        Some("btn:south"@)
    } else if code == BTN_EAST {
        Some("btn:east"@)
    } else if code == BTN_NORTH {
        Some("btn:north"@)
    } else if code == BTN_WEST {
        Some("btn:west"@)
    } else if code == BTN_TL {
        Some("btn:tl"@)
    } else if code == BTN_TR {
        Some("btn:tr"@)
    } else if code == BTN_TL2 {
        Some("btn:tl2"@)
    } else if code == BTN_TR2 {
        Some("btn:tr2"@)
    } else if code == BTN_SELECT {
        Some("btn:select"@)
    } else if code == BTN_START {
        Some("btn:start"@)
    } else if code == BTN_MODE {
        Some("btn:mode"@)
    } else if code == BTN_THUMBL {
        Some("btn:thumbl"@)
    } else if code == BTN_THUMBR {
        Some("btn:thumbr"@)
    } else if code == BTN_LEFT {
        Some("mouse:left"@)
    } else if code == BTN_RIGHT {
        Some("mouse:right"@)
    } else if code == BTN_MIDDLE {
        Some("mouse:middle"@)
    } else if code == BTN_SIDE {
        Some("mouse:side"@)
    } else if code == BTN_EXTRA {
        Some("mouse:extra"@)
    } else if code == BTN_FORWARD {
        Some("mouse:forward"@)
    } else if code == BTN_BACK {
        Some("mouse:back"@)
    } else if code == BTN_PADDLE1 {
        Some("btn:paddle1"@)
    } else if code == BTN_PADDLE2 {
        Some("btn:paddle2"@)
    } else if code == BTN_PADDLE3 {
        Some("btn:paddle3"@)
    } else if code == BTN_PADDLE4 {
        Some("btn:paddle4"@)
    } else {
        None
    }
}

fn button_name_str(code: u16) -> (r: Option<&'static str>)
    ensures
        opt_str(r) == button_name(code),
{
    if code == BTN_SOUTH {
        Some("btn:south")
    } else if code == BTN_EAST {
        Some("btn:east")
    } else if code == BTN_NORTH {
        Some("btn:north")
    } else if code == BTN_WEST {
        Some("btn:west")
    } else if code == BTN_TL {
        Some("btn:tl")
    } else if code == BTN_TR {
        Some("btn:tr")
    } else if code == BTN_TL2 {
        Some("btn:tl2")
    } else if code == BTN_TR2 {
        Some("btn:tr2")
    } else if code == BTN_SELECT {
        Some("btn:select")
    } else if code == BTN_START {
        Some("btn:start")
    } else if code == BTN_MODE {
        Some("btn:mode")
    } else if code == BTN_THUMBL {
        Some("btn:thumbl")
    } else if code == BTN_THUMBR {
        Some("btn:thumbr")
    } else if code == BTN_LEFT {
        Some("mouse:left")
    } else if code == BTN_RIGHT {
        Some("mouse:right")
    } else if code == BTN_MIDDLE {
        Some("mouse:middle")
    } else if code == BTN_SIDE {
        Some("mouse:side")
    } else if code == BTN_EXTRA {
        Some("mouse:extra")
    } else if code == BTN_FORWARD {
        Some("mouse:forward")
    } else if code == BTN_BACK {
        Some("mouse:back")
    } else if code == BTN_PADDLE1 {
        Some("btn:paddle1")
    } else if code == BTN_PADDLE2 {
        Some("btn:paddle2")
    } else if code == BTN_PADDLE3 {
        Some("btn:paddle3")
    } else if code == BTN_PADDLE4 {
        Some("btn:paddle4")
    } else {
        None
    }
}

/// Names of the keyboard keys that have one.
pub open spec fn keyboard_key_name(code: u16) -> Option<Seq<char>> {
    if code == KEY_SPACE {
        Some("key:space"@)
    } else if code == KEY_ENTER {
        Some("key:enter"@)
    } else if code == KEY_ESC {
        Some("key:escape"@)
    } else if code == KEY_TAB {
        Some("key:tab"@)
    } else if code == KEY_BACKSPACE {
        Some("key:backspace"@)
    } else if code == KEY_LEFTCTRL {
        Some("key:leftctrl"@)
    } else if code == KEY_RIGHTCTRL {
        Some("key:rightctrl"@)
    } else if code == KEY_LEFTSHIFT {
        Some("key:leftshift"@)
    } else if code == KEY_RIGHTSHIFT {
        Some("key:rightshift"@)
    } else if code == KEY_LEFTALT {
        Some("key:leftalt"@)
    } else if code == KEY_RIGHTALT {
        Some("key:rightalt"@)
    } else if code == KEY_LEFTMETA {
        Some("key:leftmeta"@)
    } else if code == KEY_RIGHTMETA {
        Some("key:rightmeta"@)
    } else if code == KEY_UP {
        Some("key:up"@)
    } else if code == KEY_DOWN {
        Some("key:down"@)
    } else if code == KEY_LEFT {
        Some("key:left"@)
    } else if code == KEY_RIGHT {
        Some("key:right"@)
    } else if code == KEY_HOME {
        Some("key:home"@)
    } else if code == KEY_END {
        Some("key:end"@)
    } else if code == KEY_PAGEUP {
        Some("key:pageup"@)
    } else if code == KEY_PAGEDOWN {
        Some("key:pagedown"@)
    } else if code == KEY_DELETE {
        Some("key:delete"@)
    } else if code == KEY_INSERT {
        Some("key:insert"@)
    } else if code == KEY_MINUS {
        Some("key:minus"@)
    } else if code == KEY_EQUAL {
        Some("key:equal"@)
    } else if code == KEY_LEFTBRACE {
        Some("key:leftbrace"@)
    } else if code == KEY_RIGHTBRACE {
        Some("key:rightbrace"@)
    } else if code == KEY_BACKSLASH {
        Some("key:backslash"@)
    } else if code == KEY_SEMICOLON {
        Some("key:semicolon"@)
    } else if code == KEY_APOSTROPHE {
        Some("key:apostrophe"@)
    } else if code == KEY_GRAVE {
        Some("key:grave"@)
    } else if code == KEY_COMMA {
        Some("key:comma"@)
    } else if code == KEY_DOT {
        Some("key:dot"@)
    } else if code == KEY_SLASH {
        Some("key:slash"@)
    } else if code == KEY_1 {
        Some("key:1"@)
    } else if code == KEY_2 {
        Some("key:2"@)
    } else if code == KEY_3 {
        Some("key:3"@)
    } else if code == KEY_4 {
        Some("key:4"@)
    } else if code == KEY_5 {
        Some("key:5"@)
    } else if code == KEY_6 {
        Some("key:6"@)
    } else if code == KEY_7 {
        Some("key:7"@)
    } else if code == KEY_8 {
        Some("key:8"@)
    } else if code == KEY_9 {
        Some("key:9"@)
    } else if code == KEY_0 {
        Some("key:0"@)
    } else if code == KEY_A {
        Some("key:a"@)
    } else if code == KEY_B {
        Some("key:b"@)
    } else if code == KEY_C {
        Some("key:c"@)
    } else if code == KEY_D {
        Some("key:d"@)
    } else if code == KEY_E {
        Some("key:e"@)
    } else if code == KEY_F {
        Some("key:f"@)
    } else if code == KEY_G {
        Some("key:g"@)
    } else if code == KEY_H {
        Some("key:h"@)
    } else if code == KEY_I {
        Some("key:i"@)
    } else if code == KEY_J {
        Some("key:j"@)
    } else if code == KEY_K {
        Some("key:k"@)
    } else if code == KEY_L {
        Some("key:l"@)
    } else if code == KEY_M {
        Some("key:m"@)
    } else if code == KEY_N {
        Some("key:n"@)
    } else if code == KEY_O {
        Some("key:o"@)
    } else if code == KEY_P {
        Some("key:p"@)
    } else if code == KEY_Q {
        Some("key:q"@)
    } else if code == KEY_R {
        Some("key:r"@)
    } else if code == KEY_S {
        Some("key:s"@)
    } else if code == KEY_T {
        Some("key:t"@)
    } else if code == KEY_U {
        Some("key:u"@)
    } else if code == KEY_V {
        Some("key:v"@)
    } else if code == KEY_W {
        Some("key:w"@)
    } else if code == KEY_X {
        Some("key:x"@)
    } else if code == KEY_Y {
        Some("key:y"@)
    } else if code == KEY_Z {
        Some("key:z"@)
    } else if code == KEY_F1 {
        Some("key:f1"@)
    } else if code == KEY_F2 {
        Some("key:f2"@)
    } else if code == KEY_F3 {
        Some("key:f3"@)
    } else if code == KEY_F4 {
        Some("key:f4"@)
    } else if code == KEY_F5 {
        Some("key:f5"@)
    } else if code == KEY_F6 {
        Some("key:f6"@)
    } else if code == KEY_F7 {
        Some("key:f7"@)
    } else if code == KEY_F8 {
        Some("key:f8"@)
    } else if code == KEY_F9 {
        Some("key:f9"@)
    } else if code == KEY_F10 {
        Some("key:f10"@)
    } else if code == KEY_F11 {
        Some("key:f11"@)
    } else if code == KEY_F12 {
        Some("key:f12"@)
    } else {
        None
    }
}

fn keyboard_key_name_str(code: u16) -> (r: Option<&'static str>)
    ensures
        opt_str(r) == keyboard_key_name(code),
{
    if code == KEY_SPACE {
        Some("key:space")
    } else if code == KEY_ENTER {
        Some("key:enter")
    } else if code == KEY_ESC {
        Some("key:escape")
    } else if code == KEY_TAB {
        Some("key:tab")
    } else if code == KEY_BACKSPACE {
        Some("key:backspace")
    } else if code == KEY_LEFTCTRL {
        Some("key:leftctrl")
    } else if code == KEY_RIGHTCTRL {
        Some("key:rightctrl")
    } else if code == KEY_LEFTSHIFT {
        Some("key:leftshift")
    } else if code == KEY_RIGHTSHIFT {
        Some("key:rightshift")
    } else if code == KEY_LEFTALT {
        Some("key:leftalt")
    } else if code == KEY_RIGHTALT {
        Some("key:rightalt")
    } else if code == KEY_LEFTMETA {
        Some("key:leftmeta")
    } else if code == KEY_RIGHTMETA {
        Some("key:rightmeta")
    } else if code == KEY_UP {
        Some("key:up")
    } else if code == KEY_DOWN {
        Some("key:down")
    } else if code == KEY_LEFT {
        Some("key:left")
    } else if code == KEY_RIGHT {
        Some("key:right")
    } else if code == KEY_HOME {
        Some("key:home")
    } else if code == KEY_END {
        Some("key:end")
    } else if code == KEY_PAGEUP {
        Some("key:pageup")
    } else if code == KEY_PAGEDOWN {
        Some("key:pagedown")
    } else if code == KEY_DELETE {
        Some("key:delete")
    } else if code == KEY_INSERT {
        Some("key:insert")
    } else if code == KEY_MINUS {
        Some("key:minus")
    } else if code == KEY_EQUAL {
        Some("key:equal")
    } else if code == KEY_LEFTBRACE {
        Some("key:leftbrace")
    } else if code == KEY_RIGHTBRACE {
        Some("key:rightbrace")
    } else if code == KEY_BACKSLASH {
        Some("key:backslash")
    } else if code == KEY_SEMICOLON {
        Some("key:semicolon")
    } else if code == KEY_APOSTROPHE {
        Some("key:apostrophe")
    } else if code == KEY_GRAVE {
        Some("key:grave")
    } else if code == KEY_COMMA {
        Some("key:comma")
    } else if code == KEY_DOT {
        Some("key:dot")
    } else if code == KEY_SLASH {
        Some("key:slash")
    } else if code == KEY_1 {
        Some("key:1")
    } else if code == KEY_2 {
        Some("key:2")
    } else if code == KEY_3 {
        Some("key:3")
    } else if code == KEY_4 {
        Some("key:4")
    } else if code == KEY_5 {
        Some("key:5")
    } else if code == KEY_6 {
        Some("key:6")
    } else if code == KEY_7 {
        Some("key:7")
    } else if code == KEY_8 {
        Some("key:8")
    } else if code == KEY_9 {
        Some("key:9")
    } else if code == KEY_0 {
        Some("key:0")
    } else if code == KEY_A {
        Some("key:a")
    } else if code == KEY_B {
        Some("key:b")
    } else if code == KEY_C {
        Some("key:c")
    } else if code == KEY_D {
        Some("key:d")
    } else if code == KEY_E {
        Some("key:e")
    } else if code == KEY_F {
        Some("key:f")
    } else if code == KEY_G {
        Some("key:g")
    } else if code == KEY_H {
        Some("key:h")
    } else if code == KEY_I {
        Some("key:i")
    } else if code == KEY_J {
        Some("key:j")
    } else if code == KEY_K {
        Some("key:k")
    } else if code == KEY_L {
        Some("key:l")
    } else if code == KEY_M {
        Some("key:m")
    } else if code == KEY_N {
        Some("key:n")
    } else if code == KEY_O {
        Some("key:o")
    } else if code == KEY_P {
        Some("key:p")
    } else if code == KEY_Q {
        Some("key:q")
    } else if code == KEY_R {
        Some("key:r")
    } else if code == KEY_S {
        Some("key:s")
    } else if code == KEY_T {
        Some("key:t")
    } else if code == KEY_U {
        Some("key:u")
    } else if code == KEY_V {
        Some("key:v")
    } else if code == KEY_W {
        Some("key:w")
    } else if code == KEY_X {
        Some("key:x")
    } else if code == KEY_Y {
        Some("key:y")
    } else if code == KEY_Z {
        Some("key:z")
    } else if code == KEY_F1 {
        Some("key:f1")
    } else if code == KEY_F2 {
        Some("key:f2")
    } else if code == KEY_F3 {
        Some("key:f3")
    } else if code == KEY_F4 {
        Some("key:f4")
    } else if code == KEY_F5 {
        Some("key:f5")
    } else if code == KEY_F6 {
        Some("key:f6")
    } else if code == KEY_F7 {
        Some("key:f7")
    } else if code == KEY_F8 {
        Some("key:f8")
    } else if code == KEY_F9 {
        Some("key:f9")
    } else if code == KEY_F10 {
        Some("key:f10")
    } else if code == KEY_F11 {
        Some("key:f11")
    } else if code == KEY_F12 {
        Some("key:f12")
    } else {
        None
    }
}

/// Names of the absolute axes that have one.
pub open spec fn abs_axis_name(code: u16) -> Option<Seq<char>> {
    if code == ABS_X {
        Some("abs:x"@)
    } else if code == ABS_Y {
        Some("abs:y"@)
    } else if code == ABS_RX {
        Some("abs:rx"@)
    } else if code == ABS_RY {
        Some("abs:ry"@)
    } else if code == ABS_Z {
        Some("abs:z"@)
    } else if code == ABS_RZ {
        Some("abs:rz"@)
    } else if code == ABS_HAT0X {
        Some("abs:hat0x"@)
    } else if code == ABS_HAT0Y {
        Some("abs:hat0y"@)
    } else {
        None
    }
}

fn abs_axis_name_str(code: u16) -> (r: Option<&'static str>)
    ensures
        opt_str(r) == abs_axis_name(code),
{
    if code == ABS_X {
        Some("abs:x")
    } else if code == ABS_Y {
        Some("abs:y")
    } else if code == ABS_RX {
        Some("abs:rx")
    } else if code == ABS_RY {
        Some("abs:ry")
    } else if code == ABS_Z {
        Some("abs:z")
    } else if code == ABS_RZ {
        Some("abs:rz")
    } else if code == ABS_HAT0X {
        Some("abs:hat0x")
    } else if code == ABS_HAT0Y {
        Some("abs:hat0y")
    } else {
        None
    }
}

/// Names of the relative axes that have one.
pub open spec fn rel_axis_name(code: u16) -> Option<Seq<char>> {
    if code == REL_X {
        Some("rel:x"@)
    } else if code == REL_Y {
        Some("rel:y"@)
    } else if code == REL_WHEEL {
        Some("rel:wheel"@)
    } else if code == REL_HWHEEL {
        Some("rel:hwheel"@)
    } else {
        None
    }
}

fn rel_axis_name_str(code: u16) -> (r: Option<&'static str>)
    ensures
        opt_str(r) == rel_axis_name(code),
{
    if code == REL_X {
        Some("rel:x")
    } else if code == REL_Y {
        Some("rel:y")
    } else if code == REL_WHEEL {
        Some("rel:wheel")
    } else if code == REL_HWHEEL {
        Some("rel:hwheel")
    } else {
        None
    }
}

/// The textual name of an event code, as [`EventCode::name`] writes it.
pub open spec fn event_name(e: EventCode) -> Seq<char> {
    match e.kind {
        EventKind::Key => match button_name(e.code) {
            Some(n) => n,
            None => match keyboard_key_name(e.code) {
                Some(n) => n,
                None => "key:"@ + decimal(e.code as nat),
            },
        },
        EventKind::Absolute => match abs_axis_name(e.code) {
            Some(n) => n,
            None => "abs:"@ + decimal(e.code as nat),
        },
        EventKind::Relative => match rel_axis_name(e.code) {
            Some(n) => n,
            None => "rel:"@ + decimal(e.code as nat),
        },
    }
}

fn prefixed_number(prefix: &str, code: u16) -> (r: String)
    ensures
        r@ == prefix@ + decimal(code as nat),
{
    let p = chars_of(prefix);
    let d = decimal_chars(code as u128);
    let all = concat_chars(&p, &d);
    string_from_chars(&all)
}

impl EventCode {
    /// The Linux event type number of this code's family.
    pub fn event_type(self) -> (r: u16)
        ensures
            r == match self.kind {
                EventKind::Key => EV_KEY,
                EventKind::Absolute => EV_ABS,
                EventKind::Relative => EV_REL,
            },
    {
        match self.kind {
            EventKind::Key => EV_KEY,
            EventKind::Absolute => EV_ABS,
            EventKind::Relative => EV_REL,
        }
    }

    /// The textual name, e.g. `btn:south`, `key:space`, `abs:x` or `rel:7`.
    pub fn name(self) -> (r: String)
        ensures
            r@ == event_name(self),
    {
        match self.kind {
            EventKind::Key => {
                if let Some(n) = button_name_str(self.code) {
                    n.to_owned()
                } else if let Some(n) = keyboard_key_name_str(self.code) {
                    n.to_owned()
                } else {
                    prefixed_number("key:", self.code)
                }
            },
            EventKind::Absolute => {
                if let Some(n) = abs_axis_name_str(self.code) {
                    n.to_owned()
                } else {
                    prefixed_number("abs:", self.code)
                }
            },
            EventKind::Relative => {
                if let Some(n) = rel_axis_name_str(self.code) {
                    n.to_owned()
                } else {
                    prefixed_number("rel:", self.code)
                }
            },
        }
    }
}

/// Event codes spelled by one of the built-in names or aliases (already
/// normalized).
pub open spec fn builtin_event(n: Seq<char>) -> Option<EventCode> {
    if n == "btn:south"@ || n == "btn:a"@ || n == "button:south"@ || n == "button:a"@ {
        Some(key_event(BTN_SOUTH))
    } else if n == "btn:east"@ || n == "btn:b"@ || n == "button:east"@ || n == "button:b"@ {
        Some(key_event(BTN_EAST))
    } else if n == "btn:north"@ || n == "btn:y"@ || n == "button:north"@ || n == "button:y"@ {
        Some(key_event(BTN_NORTH))
    } else if n == "btn:west"@ || n == "btn:x"@ || n == "button:west"@ || n == "button:x"@ {
        Some(key_event(BTN_WEST))
    } else if n == "btn:tl"@ || n == "btn:l1"@ {
        Some(key_event(BTN_TL))
    } else if n == "btn:tr"@ || n == "btn:r1"@ {
        Some(key_event(BTN_TR))
    } else if n == "btn:tl2"@ || n == "btn:l2"@ {
        Some(key_event(BTN_TL2))
    } else if n == "btn:tr2"@ || n == "btn:r2"@ {
        Some(key_event(BTN_TR2))
    } else if n == "btn:select"@ || n == "btn:back"@ {
        Some(key_event(BTN_SELECT))
    } else if n == "btn:start"@ {
        Some(key_event(BTN_START))
    } else if n == "btn:mode"@ {
        Some(key_event(BTN_MODE))
    } else if n == "btn:thumbl"@ || n == "btn:l3"@ {
        Some(key_event(BTN_THUMBL))
    } else if n == "btn:thumbr"@ || n == "btn:r3"@ {
        Some(key_event(BTN_THUMBR))
    } else if n == "mouse:left"@ || n == "mouse:primary"@ || n == "btn:left"@ {
        Some(key_event(BTN_LEFT))
    } else if n == "mouse:right"@ || n == "mouse:secondary"@ || n == "btn:right"@ {
        Some(key_event(BTN_RIGHT))
    } else if n == "mouse:middle"@ || n == "mouse:wheel_button"@ || n == "btn:middle"@ {
        Some(key_event(BTN_MIDDLE))
    } else if n == "mouse:side"@ || n == "mouse:button4"@ {
        Some(key_event(BTN_SIDE))
    } else if n == "mouse:extra"@ || n == "mouse:button5"@ {
        Some(key_event(BTN_EXTRA))
    } else if n == "mouse:forward"@ {
        Some(key_event(BTN_FORWARD))
    } else if n == "mouse:back"@ {
        Some(key_event(BTN_BACK))
    } else if n == "abs:x"@ || n == "axis:x"@ {
        Some(abs_event(ABS_X))
    } else if n == "abs:y"@ || n == "axis:y"@ {
        Some(abs_event(ABS_Y))
    } else if n == "abs:rx"@ || n == "axis:rx"@ {
        Some(abs_event(ABS_RX))
    } else if n == "abs:ry"@ || n == "axis:ry"@ {
        Some(abs_event(ABS_RY))
    } else if n == "abs:z"@ || n == "axis:z"@ {
        Some(abs_event(ABS_Z))
    } else if n == "abs:rz"@ || n == "axis:rz"@ {
        Some(abs_event(ABS_RZ))
    } else if n == "abs:hat0x"@ || n == "axis:hat0x"@ {
        Some(abs_event(ABS_HAT0X))
    } else if n == "abs:hat0y"@ || n == "axis:hat0y"@ {
        Some(abs_event(ABS_HAT0Y))
    } else if n == "rel:x"@ || n == "mouse:x"@ {
        Some(rel_event(REL_X))
    } else if n == "rel:y"@ || n == "mouse:y"@ {
        Some(rel_event(REL_Y))
    } else if n == "rel:wheel"@ || n == "mouse:wheel"@ || n == "wheel:vertical"@ {
        Some(rel_event(REL_WHEEL))
    } else if n == "rel:hwheel"@ || n == "mouse:hwheel"@ || n == "wheel:horizontal"@ {
        Some(rel_event(REL_HWHEEL))
    } else if n == "btn:paddle1"@ {
        Some(key_event(BTN_PADDLE1))
    } else if n == "btn:paddle2"@ {
        Some(key_event(BTN_PADDLE2))
    } else if n == "btn:paddle3"@ {
        Some(key_event(BTN_PADDLE3))
    } else if n == "btn:paddle4"@ {
        Some(key_event(BTN_PADDLE4))
    } else {
        None
    }
}

fn builtin_event_of(n: &[char]) -> (r: Option<EventCode>)
    ensures
        r == builtin_event(n@),
{
    if chars_eq_str(n, "btn:south") || chars_eq_str(n, "btn:a") || chars_eq_str(n, "button:south") || chars_eq_str(n, "button:a") {
        Some(EventCode { kind: EventKind::Key, code: BTN_SOUTH })
    } else if chars_eq_str(n, "btn:east") || chars_eq_str(n, "btn:b") || chars_eq_str(n, "button:east") || chars_eq_str(n, "button:b") {
        Some(EventCode { kind: EventKind::Key, code: BTN_EAST })
    } else if chars_eq_str(n, "btn:north") || chars_eq_str(n, "btn:y") || chars_eq_str(n, "button:north") || chars_eq_str(n, "button:y") {
        Some(EventCode { kind: EventKind::Key, code: BTN_NORTH })
    } else if chars_eq_str(n, "btn:west") || chars_eq_str(n, "btn:x") || chars_eq_str(n, "button:west") || chars_eq_str(n, "button:x") {
        Some(EventCode { kind: EventKind::Key, code: BTN_WEST })
    } else if chars_eq_str(n, "btn:tl") || chars_eq_str(n, "btn:l1") {
        Some(EventCode { kind: EventKind::Key, code: BTN_TL })
    } else if chars_eq_str(n, "btn:tr") || chars_eq_str(n, "btn:r1") {
        Some(EventCode { kind: EventKind::Key, code: BTN_TR })
    } else if chars_eq_str(n, "btn:tl2") || chars_eq_str(n, "btn:l2") {
        Some(EventCode { kind: EventKind::Key, code: BTN_TL2 })
    } else if chars_eq_str(n, "btn:tr2") || chars_eq_str(n, "btn:r2") {
        Some(EventCode { kind: EventKind::Key, code: BTN_TR2 })
    } else if chars_eq_str(n, "btn:select") || chars_eq_str(n, "btn:back") {
        Some(EventCode { kind: EventKind::Key, code: BTN_SELECT })
    } else if chars_eq_str(n, "btn:start") {
        Some(EventCode { kind: EventKind::Key, code: BTN_START })
    } else if chars_eq_str(n, "btn:mode") {
        Some(EventCode { kind: EventKind::Key, code: BTN_MODE })
    } else if chars_eq_str(n, "btn:thumbl") || chars_eq_str(n, "btn:l3") {
        Some(EventCode { kind: EventKind::Key, code: BTN_THUMBL })
    } else if chars_eq_str(n, "btn:thumbr") || chars_eq_str(n, "btn:r3") {
        Some(EventCode { kind: EventKind::Key, code: BTN_THUMBR })
    } else if chars_eq_str(n, "mouse:left") || chars_eq_str(n, "mouse:primary") || chars_eq_str(n, "btn:left") {
        Some(EventCode { kind: EventKind::Key, code: BTN_LEFT })
    } else if chars_eq_str(n, "mouse:right") || chars_eq_str(n, "mouse:secondary") || chars_eq_str(n, "btn:right") {
        Some(EventCode { kind: EventKind::Key, code: BTN_RIGHT })
    } else if chars_eq_str(n, "mouse:middle") || chars_eq_str(n, "mouse:wheel_button") || chars_eq_str(n, "btn:middle") {
        Some(EventCode { kind: EventKind::Key, code: BTN_MIDDLE })
    } else if chars_eq_str(n, "mouse:side") || chars_eq_str(n, "mouse:button4") {
        Some(EventCode { kind: EventKind::Key, code: BTN_SIDE })
    } else if chars_eq_str(n, "mouse:extra") || chars_eq_str(n, "mouse:button5") {
        Some(EventCode { kind: EventKind::Key, code: BTN_EXTRA })
    } else if chars_eq_str(n, "mouse:forward") {
        Some(EventCode { kind: EventKind::Key, code: BTN_FORWARD })
    } else if chars_eq_str(n, "mouse:back") {
        Some(EventCode { kind: EventKind::Key, code: BTN_BACK })
    } else if chars_eq_str(n, "abs:x") || chars_eq_str(n, "axis:x") {
        Some(EventCode { kind: EventKind::Absolute, code: ABS_X })
    } else if chars_eq_str(n, "abs:y") || chars_eq_str(n, "axis:y") {
        Some(EventCode { kind: EventKind::Absolute, code: ABS_Y })
    } else if chars_eq_str(n, "abs:rx") || chars_eq_str(n, "axis:rx") {
        Some(EventCode { kind: EventKind::Absolute, code: ABS_RX })
    } else if chars_eq_str(n, "abs:ry") || chars_eq_str(n, "axis:ry") {
        Some(EventCode { kind: EventKind::Absolute, code: ABS_RY })
    } else if chars_eq_str(n, "abs:z") || chars_eq_str(n, "axis:z") {
        Some(EventCode { kind: EventKind::Absolute, code: ABS_Z })
    } else if chars_eq_str(n, "abs:rz") || chars_eq_str(n, "axis:rz") {
        Some(EventCode { kind: EventKind::Absolute, code: ABS_RZ })
    } else if chars_eq_str(n, "abs:hat0x") || chars_eq_str(n, "axis:hat0x") {
        Some(EventCode { kind: EventKind::Absolute, code: ABS_HAT0X })
    } else if chars_eq_str(n, "abs:hat0y") || chars_eq_str(n, "axis:hat0y") {
        Some(EventCode { kind: EventKind::Absolute, code: ABS_HAT0Y })
    } else if chars_eq_str(n, "rel:x") || chars_eq_str(n, "mouse:x") {
        Some(EventCode { kind: EventKind::Relative, code: REL_X })
    } else if chars_eq_str(n, "rel:y") || chars_eq_str(n, "mouse:y") {
        Some(EventCode { kind: EventKind::Relative, code: REL_Y })
    } else if chars_eq_str(n, "rel:wheel") || chars_eq_str(n, "mouse:wheel") || chars_eq_str(n, "wheel:vertical") {
        Some(EventCode { kind: EventKind::Relative, code: REL_WHEEL })
    } else if chars_eq_str(n, "rel:hwheel") || chars_eq_str(n, "mouse:hwheel") || chars_eq_str(n, "wheel:horizontal") {
        Some(EventCode { kind: EventKind::Relative, code: REL_HWHEEL })
    } else if chars_eq_str(n, "btn:paddle1") {
        Some(EventCode { kind: EventKind::Key, code: BTN_PADDLE1 })
    } else if chars_eq_str(n, "btn:paddle2") {
        Some(EventCode { kind: EventKind::Key, code: BTN_PADDLE2 })
    } else if chars_eq_str(n, "btn:paddle3") {
        Some(EventCode { kind: EventKind::Key, code: BTN_PADDLE3 })
    } else if chars_eq_str(n, "btn:paddle4") {
        Some(EventCode { kind: EventKind::Key, code: BTN_PADDLE4 })
    } else {
        None
    }
}

/// Short spellings accepted for some keyboard keys.
pub open spec fn keyboard_alias(s: Seq<char>) -> Seq<char> {
    if s == "esc"@ {
        "escape"@
    } else if s == "return"@ {
        "enter"@
    } else if s == "ctrl"@ {
        "leftctrl"@
    } else if s == "control"@ {
        "leftctrl"@
    } else if s == "shift"@ {
        "leftshift"@
    } else if s == "alt"@ {
        "leftalt"@
    } else if s == "super"@ {
        "leftmeta"@
    } else if s == "meta"@ {
        "leftmeta"@
    } else if s == "win"@ {
        "leftmeta"@
    } else {
        s
    }
}

fn keyboard_alias_of(s: &[char]) -> (r: Vec<char>)
    ensures
        r@ == keyboard_alias(s@),
{
    if chars_eq_str(s, "esc") {
        chars_of("escape")
    } else if chars_eq_str(s, "return") {
        chars_of("enter")
    } else if chars_eq_str(s, "ctrl") {
        chars_of("leftctrl")
    } else if chars_eq_str(s, "control") {
        chars_of("leftctrl")
    } else if chars_eq_str(s, "shift") {
        chars_of("leftshift")
    } else if chars_eq_str(s, "alt") {
        chars_of("leftalt")
    } else if chars_eq_str(s, "super") {
        chars_of("leftmeta")
    } else if chars_eq_str(s, "meta") {
        chars_of("leftmeta")
    } else if chars_eq_str(s, "win") {
        chars_of("leftmeta")
    } else {
        sub_chars(s, 0, s.len())
    }
}
/// The name `evdev::KeyCode::from_str` maps to a key code, when it knows it.
pub uninterp spec fn evdev_key_code_named(name: Seq<char>) -> Option<u16>;

/// `evdev::KeyCode::from_str`: looks a constant name such as `KEY_SPACE` up in
/// evdev's table of key names. The contract names the result and claims
/// nothing about the table itself.
#[verifier::external_body]
fn key_code_from_name(name: &str) -> (r: Option<u16>)
    ensures
        r == evdev_key_code_named(name@),
{
    evdev::KeyCode::from_str(name).ok().map(|key| key.0)
}

/// The part after `key:` or `keyboard:` of a normalized keyboard event name.
pub open spec fn keyboard_key_suffix(n: Seq<char>) -> Option<Seq<char>> {
    if "key:"@.is_prefix_of(n) {
        Some(n.skip("key:"@.len() as int))
    } else if "keyboard:"@.is_prefix_of(n) {
        Some(n.skip("keyboard:"@.len() as int))
    } else {
        None
    }
}

/// The evdev constant name looked up for a keyboard key suffix.
pub open spec fn keyboard_lookup_name(suffix: Seq<char>) -> Seq<char> {
    let alias = keyboard_alias(suffix);
    if alias.len() == 1 && '0' <= alias[0] && alias[0] <= '9' {
        "KEY_"@ + alias
    } else {
        "KEY_"@ + upper(alias)
    }
}

/// The keyboard key event a normalized `key:`/`keyboard:` name denotes.
pub open spec fn keyboard_event(n: Seq<char>) -> Option<EventCode> {
    match keyboard_key_suffix(n) {
        Some(suffix) => match evdev_key_code_named(keyboard_lookup_name(suffix)) {
            Some(code) => Some(key_event(code)),
            None => None,
        },
        None => None,
    }
}

/// What [`parse_event_code`] returns for a text.
pub open spec fn parsed_event(value: Seq<char>) -> Option<EventCode> {
    let n = normalize_keyword(value);
    match builtin_event(n) {
        Some(e) => Some(e),
        None => keyboard_event(n),
    }
}

fn parse_keyboard_key(normalized: &[char]) -> (r: Option<EventCode>)
    ensures
        r == keyboard_event(normalized@),
{
    let suffix = match strip_prefix_str(normalized, "key:") {
        Some(s) => s,
        None => match strip_prefix_str(normalized, "keyboard:") {
            Some(s) => s,
            None => return None,
        },
    };
    let alias = keyboard_alias_of(&suffix);
    let prefix = chars_of("KEY_");
    let key_name = if alias.len() == 1 && '0' <= alias[0] && alias[0] <= '9' {
        concat_chars(&prefix, &alias)
    } else {
        let up = upper_chars(&alias);
        concat_chars(&prefix, &up)
    };
    let key_name = string_from_chars(&key_name);
    match key_code_from_name(key_name.as_str()) {
        Some(code) => Some(EventCode { kind: EventKind::Key, code }),
        None => None,
    }
}

/// Parses an event name such as `btn:a`, `abs:x`, `mouse:left` or `key:space`.
/// Case, surrounding whitespace, spaces and hyphens do not matter.
pub fn parse_event_code(value: &str) -> (r: Option<EventCode>)
    ensures
        r == parsed_event(value@),
{
    let normalized = normalize_keyword_str(value);
    match builtin_event_of(&normalized) {
        Some(e) => Some(e),
        None => parse_keyboard_key(&normalized),
    }
}

/// Buttons and axes of the virtual Xbox-style gamepad.
pub open spec fn xbox_supports(event: EventCode) -> bool {
    match event.kind {
        EventKind::Key => {
            ||| event.code == BTN_SOUTH
            ||| event.code == BTN_EAST
            ||| event.code == BTN_NORTH
            ||| event.code == BTN_WEST
            ||| event.code == BTN_TL
            ||| event.code == BTN_TR
            ||| event.code == BTN_TL2
            ||| event.code == BTN_TR2
            ||| event.code == BTN_SELECT
            ||| event.code == BTN_START
            ||| event.code == BTN_MODE
            ||| event.code == BTN_THUMBL
            ||| event.code == BTN_THUMBR
        },
        EventKind::Absolute => {
            ||| event.code == ABS_X
            ||| event.code == ABS_Y
            ||| event.code == ABS_RX
            ||| event.code == ABS_RY
            ||| event.code == ABS_Z
            ||| event.code == ABS_RZ
            ||| event.code == ABS_HAT0X
            ||| event.code == ABS_HAT0Y
        },
        EventKind::Relative => false,
    }
}

/// Whether the virtual gamepad can emit `event`.
pub fn virtual_xbox_supports(event: EventCode) -> (r: bool)
    ensures
        r == xbox_supports(event),
{
    match event.kind {
        EventKind::Key => {
            let c = event.code;
            c == BTN_SOUTH || c == BTN_EAST || c == BTN_NORTH || c == BTN_WEST || c == BTN_TL
                || c == BTN_TR || c == BTN_TL2 || c == BTN_TR2 || c == BTN_SELECT || c
                == BTN_START || c == BTN_MODE || c == BTN_THUMBL || c == BTN_THUMBR
        },
        EventKind::Absolute => {
            let c = event.code;
            c == ABS_X || c == ABS_Y || c == ABS_RX || c == ABS_RY || c == ABS_Z || c == ABS_RZ
                || c == ABS_HAT0X || c == ABS_HAT0Y
        },
        EventKind::Relative => false,
    }
}

/// Mouse buttons.
pub open spec fn mouse_button(event: EventCode) -> bool {
    event.kind == EventKind::Key && (event.code == BTN_LEFT || event.code == BTN_RIGHT
        || event.code == BTN_MIDDLE || event.code == BTN_SIDE || event.code == BTN_EXTRA
        || event.code == BTN_FORWARD || event.code == BTN_BACK)
}

/// Whether `event` is a mouse button.
pub fn is_mouse_button(event: EventCode) -> (r: bool)
    ensures
        r == mouse_button(event),
{
    let c = event.code;
    event.kind == EventKind::Key && (c == BTN_LEFT || c == BTN_RIGHT || c == BTN_MIDDLE || c
        == BTN_SIDE || c == BTN_EXTRA || c == BTN_FORWARD || c == BTN_BACK)
}

/// Keys that are neither gamepad buttons nor mouse buttons.
pub open spec fn keyboard_key(event: EventCode) -> bool {
    event.kind == EventKind::Key && !xbox_supports(event) && !mouse_button(event)
}

/// Whether `event` is a keyboard key.
pub fn is_keyboard_key(event: EventCode) -> (r: bool)
    ensures
        r == keyboard_key(event),
{
    event.kind == EventKind::Key && !virtual_xbox_supports(event) && !is_mouse_button(event)
}

/// Events of the virtual keyboard/mouse device.
pub open spec fn keyboard_mouse_supports(event: EventCode) -> bool {
    match event.kind {
        EventKind::Key => keyboard_key(event) || mouse_button(event),
        EventKind::Relative => event.code == REL_X || event.code == REL_Y || event.code
            == REL_WHEEL || event.code == REL_HWHEEL,
        EventKind::Absolute => false,
    }
}

/// Whether the virtual keyboard/mouse device can emit `event`.
pub fn virtual_keyboard_mouse_supports(event: EventCode) -> (r: bool)
    ensures
        r == keyboard_mouse_supports(event),
{
    match event.kind {
        EventKind::Key => is_keyboard_key(event) || is_mouse_button(event),
        EventKind::Relative => {
            let c = event.code;
            c == REL_X || c == REL_Y || c == REL_WHEEL || c == REL_HWHEEL
        },
        EventKind::Absolute => false,
    }
}

/// Events some virtual output device can emit.
pub open spec fn output_supports(event: EventCode) -> bool {
    xbox_supports(event) || keyboard_mouse_supports(event)
}

/// Whether a virtual output device can emit `event`.
pub fn virtual_output_supports(event: EventCode) -> (r: bool)
    ensures
        r == output_supports(event),
{
    virtual_xbox_supports(event) || virtual_keyboard_mouse_supports(event)
}

/// The event code of a raw input event of the given type, for key, absolute
/// and relative events.
pub open spec fn event_of(event_type: u16, code: u16) -> Option<EventCode> {
    if event_type == EV_KEY {
        Some(key_event(code))
    } else if event_type == EV_ABS {
        Some(abs_event(code))
    } else if event_type == EV_REL {
        Some(rel_event(code))
    } else {
        None
    }
}

/// Classifies a raw input event (its Linux type and code numbers).
pub fn event_from_input(event_type: u16, code: u16) -> (r: Option<EventCode>)
    ensures
        r == event_of(event_type, code),
{
    if event_type == EV_KEY {
        Some(EventCode { kind: EventKind::Key, code })
    } else if event_type == EV_ABS {
        Some(EventCode { kind: EventKind::Absolute, code })
    } else if event_type == EV_REL {
        Some(EventCode { kind: EventKind::Relative, code })
    } else {
        None
    }
}

/// The event code of a raw input event that signals activity: a pressed key
/// or a moved axis (any nonzero value).
pub fn capture_event_code(event_type: u16, code: u16, value: i32) -> (r: Option<EventCode>)
    ensures
        r == (if value != 0 {
            event_of(event_type, code)
        } else {
            None
        }),
{
    let event = event_from_input(event_type, code)?;
    if value != 0 {
        Some(event)
    } else {
        None
    }
}


/// A name made of lower-case letters, digits, `_` and `:` is already
/// normalized.
proof fn lemma_plain_keyword(n: Seq<char>)
    requires
        forall|i: int| 0 <= i < n.len() ==> ('a' <= #[trigger] n[i] && n[i] <= 'z') || ('0' <= n[i] && n[i] <= '9') || n[i] == ':' || n[i] == '_',
    ensures
        normalize_keyword(n) == n,
{
    crate::text::lemma_trim_plain(n);
    assert(n.map_values(|c: char| crate::text::keyword_char(c)) =~= n);
}

/// The fixed names of the controller buttons, mouse buttons and axes read
/// back as the codes they name.
proof fn lemma_builtin_names()
    ensures
        builtin_event("btn:south"@) == Some(key_event(BTN_SOUTH)),
        builtin_event("btn:east"@) == Some(key_event(BTN_EAST)),
        builtin_event("btn:north"@) == Some(key_event(BTN_NORTH)),
        builtin_event("btn:west"@) == Some(key_event(BTN_WEST)),
        builtin_event("btn:tl"@) == Some(key_event(BTN_TL)),
        builtin_event("btn:tr"@) == Some(key_event(BTN_TR)),
        builtin_event("btn:tl2"@) == Some(key_event(BTN_TL2)),
        builtin_event("btn:tr2"@) == Some(key_event(BTN_TR2)),
        builtin_event("btn:select"@) == Some(key_event(BTN_SELECT)),
        builtin_event("btn:start"@) == Some(key_event(BTN_START)),
        builtin_event("btn:mode"@) == Some(key_event(BTN_MODE)),
        builtin_event("btn:thumbl"@) == Some(key_event(BTN_THUMBL)),
        builtin_event("btn:thumbr"@) == Some(key_event(BTN_THUMBR)),
        builtin_event("mouse:left"@) == Some(key_event(BTN_LEFT)),
        builtin_event("mouse:right"@) == Some(key_event(BTN_RIGHT)),
        builtin_event("mouse:middle"@) == Some(key_event(BTN_MIDDLE)),
        builtin_event("mouse:side"@) == Some(key_event(BTN_SIDE)),
        builtin_event("mouse:extra"@) == Some(key_event(BTN_EXTRA)),
        builtin_event("mouse:forward"@) == Some(key_event(BTN_FORWARD)),
        builtin_event("mouse:back"@) == Some(key_event(BTN_BACK)),
        builtin_event("btn:paddle1"@) == Some(key_event(BTN_PADDLE1)),
        builtin_event("btn:paddle2"@) == Some(key_event(BTN_PADDLE2)),
        builtin_event("btn:paddle3"@) == Some(key_event(BTN_PADDLE3)),
        builtin_event("btn:paddle4"@) == Some(key_event(BTN_PADDLE4)),
        builtin_event("abs:x"@) == Some(abs_event(ABS_X)),
        builtin_event("abs:y"@) == Some(abs_event(ABS_Y)),
        builtin_event("abs:rx"@) == Some(abs_event(ABS_RX)),
        builtin_event("abs:ry"@) == Some(abs_event(ABS_RY)),
        builtin_event("abs:z"@) == Some(abs_event(ABS_Z)),
        builtin_event("abs:rz"@) == Some(abs_event(ABS_RZ)),
        builtin_event("abs:hat0x"@) == Some(abs_event(ABS_HAT0X)),
        builtin_event("abs:hat0y"@) == Some(abs_event(ABS_HAT0Y)),
        builtin_event("rel:x"@) == Some(rel_event(REL_X)),
        builtin_event("rel:y"@) == Some(rel_event(REL_Y)),
        builtin_event("rel:wheel"@) == Some(rel_event(REL_WHEEL)),
        builtin_event("rel:hwheel"@) == Some(rel_event(REL_HWHEEL)),
        normalize_keyword("btn:south"@) == "btn:south"@,
        normalize_keyword("btn:east"@) == "btn:east"@,
        normalize_keyword("btn:north"@) == "btn:north"@,
        normalize_keyword("btn:west"@) == "btn:west"@,
        normalize_keyword("btn:tl"@) == "btn:tl"@,
        normalize_keyword("btn:tr"@) == "btn:tr"@,
        normalize_keyword("btn:tl2"@) == "btn:tl2"@,
        normalize_keyword("btn:tr2"@) == "btn:tr2"@,
        normalize_keyword("btn:select"@) == "btn:select"@,
        normalize_keyword("btn:start"@) == "btn:start"@,
        normalize_keyword("btn:mode"@) == "btn:mode"@,
        normalize_keyword("btn:thumbl"@) == "btn:thumbl"@,
        normalize_keyword("btn:thumbr"@) == "btn:thumbr"@,
        normalize_keyword("mouse:left"@) == "mouse:left"@,
        normalize_keyword("mouse:right"@) == "mouse:right"@,
        normalize_keyword("mouse:middle"@) == "mouse:middle"@,
        normalize_keyword("mouse:side"@) == "mouse:side"@,
        normalize_keyword("mouse:extra"@) == "mouse:extra"@,
        normalize_keyword("mouse:forward"@) == "mouse:forward"@,
        normalize_keyword("mouse:back"@) == "mouse:back"@,
        normalize_keyword("btn:paddle1"@) == "btn:paddle1"@,
        normalize_keyword("btn:paddle2"@) == "btn:paddle2"@,
        normalize_keyword("btn:paddle3"@) == "btn:paddle3"@,
        normalize_keyword("btn:paddle4"@) == "btn:paddle4"@,
        normalize_keyword("abs:x"@) == "abs:x"@,
        normalize_keyword("abs:y"@) == "abs:y"@,
        normalize_keyword("abs:rx"@) == "abs:rx"@,
        normalize_keyword("abs:ry"@) == "abs:ry"@,
        normalize_keyword("abs:z"@) == "abs:z"@,
        normalize_keyword("abs:rz"@) == "abs:rz"@,
        normalize_keyword("abs:hat0x"@) == "abs:hat0x"@,
        normalize_keyword("abs:hat0y"@) == "abs:hat0y"@,
        normalize_keyword("rel:x"@) == "rel:x"@,
        normalize_keyword("rel:y"@) == "rel:y"@,
        normalize_keyword("rel:wheel"@) == "rel:wheel"@,
        normalize_keyword("rel:hwheel"@) == "rel:hwheel"@,
{
    reveal_strlit("btn:south");
    reveal_strlit("btn:a");
    reveal_strlit("button:south");
    reveal_strlit("button:a");
    reveal_strlit("btn:east");
    reveal_strlit("btn:b");
    reveal_strlit("button:east");
    reveal_strlit("button:b");
    reveal_strlit("btn:north");
    reveal_strlit("btn:y");
    reveal_strlit("button:north");
    reveal_strlit("button:y");
    reveal_strlit("btn:west");
    reveal_strlit("btn:x");
    reveal_strlit("button:west");
    reveal_strlit("button:x");
    reveal_strlit("btn:tl");
    reveal_strlit("btn:l1");
    reveal_strlit("btn:tr");
    reveal_strlit("btn:r1");
    reveal_strlit("btn:tl2");
    reveal_strlit("btn:l2");
    reveal_strlit("btn:tr2");
    reveal_strlit("btn:r2");
    reveal_strlit("btn:select");
    reveal_strlit("btn:back");
    reveal_strlit("btn:start");
    reveal_strlit("btn:mode");
    reveal_strlit("btn:thumbl");
    reveal_strlit("btn:l3");
    reveal_strlit("btn:thumbr");
    reveal_strlit("btn:r3");
    reveal_strlit("mouse:left");
    reveal_strlit("mouse:primary");
    reveal_strlit("btn:left");
    reveal_strlit("mouse:right");
    reveal_strlit("mouse:secondary");
    reveal_strlit("btn:right");
    reveal_strlit("mouse:middle");
    reveal_strlit("mouse:wheel_button");
    reveal_strlit("btn:middle");
    reveal_strlit("mouse:side");
    reveal_strlit("mouse:button4");
    reveal_strlit("mouse:extra");
    reveal_strlit("mouse:button5");
    reveal_strlit("mouse:forward");
    reveal_strlit("mouse:back");
    reveal_strlit("btn:paddle1");
    reveal_strlit("btn:paddle2");
    reveal_strlit("btn:paddle3");
    reveal_strlit("btn:paddle4");
    reveal_strlit("abs:x");
    reveal_strlit("axis:x");
    reveal_strlit("abs:y");
    reveal_strlit("axis:y");
    reveal_strlit("abs:rx");
    reveal_strlit("axis:rx");
    reveal_strlit("abs:ry");
    reveal_strlit("axis:ry");
    reveal_strlit("abs:z");
    reveal_strlit("axis:z");
    reveal_strlit("abs:rz");
    reveal_strlit("axis:rz");
    reveal_strlit("abs:hat0x");
    reveal_strlit("axis:hat0x");
    reveal_strlit("abs:hat0y");
    reveal_strlit("axis:hat0y");
    reveal_strlit("rel:x");
    reveal_strlit("mouse:x");
    reveal_strlit("rel:y");
    reveal_strlit("mouse:y");
    reveal_strlit("rel:wheel");
    reveal_strlit("mouse:wheel");
    reveal_strlit("wheel:vertical");
    reveal_strlit("rel:hwheel");
    reveal_strlit("mouse:hwheel");
    reveal_strlit("wheel:horizontal");
    // Names of equal length that come earlier in the table differ from
    // these at the given position.
    assert("btn:north"@[4] != "btn:south"@[4]);
    assert("btn:west"@[1] != "button:a"@[1]);
    assert("btn:west"@[4] != "btn:east"@[4]);
    assert("btn:west"@[1] != "button:b"@[1]);
    assert("btn:west"@[1] != "button:y"@[1]);
    assert("btn:tr2"@[5] != "btn:tl2"@[5]);
    assert("abs:rx"@[0] != "btn:tl"@[0]);
    assert("abs:rx"@[0] != "btn:l1"@[0]);
    assert("abs:rx"@[0] != "btn:tr"@[0]);
    assert("abs:rx"@[0] != "btn:r1"@[0]);
    assert("abs:rx"@[0] != "btn:l2"@[0]);
    assert("abs:rx"@[0] != "btn:r2"@[0]);
    assert("abs:rx"@[0] != "btn:l3"@[0]);
    assert("abs:rx"@[0] != "btn:r3"@[0]);
    assert("abs:rx"@[1] != "axis:x"@[1]);
    assert("abs:rx"@[1] != "axis:y"@[1]);
    assert("abs:ry"@[0] != "btn:tl"@[0]);
    assert("abs:ry"@[0] != "btn:l1"@[0]);
    assert("abs:ry"@[0] != "btn:tr"@[0]);
    assert("abs:ry"@[0] != "btn:r1"@[0]);
    assert("abs:ry"@[0] != "btn:l2"@[0]);
    assert("abs:ry"@[0] != "btn:r2"@[0]);
    assert("abs:ry"@[0] != "btn:l3"@[0]);
    assert("abs:ry"@[0] != "btn:r3"@[0]);
    assert("abs:ry"@[1] != "axis:x"@[1]);
    assert("abs:ry"@[1] != "axis:y"@[1]);
    assert("abs:ry"@[5] != "abs:rx"@[5]);
    assert("abs:rz"@[0] != "btn:tl"@[0]);
    assert("abs:rz"@[0] != "btn:l1"@[0]);
    assert("abs:rz"@[0] != "btn:tr"@[0]);
    assert("abs:rz"@[0] != "btn:r1"@[0]);
    assert("abs:rz"@[0] != "btn:l2"@[0]);
    assert("abs:rz"@[0] != "btn:r2"@[0]);
    assert("abs:rz"@[0] != "btn:l3"@[0]);
    assert("abs:rz"@[0] != "btn:r3"@[0]);
    assert("abs:rz"@[1] != "axis:x"@[1]);
    assert("abs:rz"@[1] != "axis:y"@[1]);
    assert("abs:rz"@[5] != "abs:rx"@[5]);
    assert("abs:rz"@[5] != "abs:ry"@[5]);
    assert("abs:rz"@[1] != "axis:z"@[1]);
    lemma_plain_keyword("btn:south"@);
    lemma_plain_keyword("btn:east"@);
    lemma_plain_keyword("btn:north"@);
    lemma_plain_keyword("btn:west"@);
    lemma_plain_keyword("btn:tl"@);
    lemma_plain_keyword("btn:tr"@);
    lemma_plain_keyword("btn:tl2"@);
    lemma_plain_keyword("btn:tr2"@);
    lemma_plain_keyword("btn:select"@);
    lemma_plain_keyword("btn:start"@);
    lemma_plain_keyword("btn:mode"@);
    lemma_plain_keyword("btn:thumbl"@);
    lemma_plain_keyword("btn:thumbr"@);
    lemma_plain_keyword("mouse:left"@);
    lemma_plain_keyword("mouse:right"@);
    lemma_plain_keyword("mouse:middle"@);
    lemma_plain_keyword("mouse:side"@);
    lemma_plain_keyword("mouse:extra"@);
    lemma_plain_keyword("mouse:forward"@);
    lemma_plain_keyword("mouse:back"@);
    lemma_plain_keyword("btn:paddle1"@);
    lemma_plain_keyword("btn:paddle2"@);
    lemma_plain_keyword("btn:paddle3"@);
    lemma_plain_keyword("btn:paddle4"@);
    lemma_plain_keyword("abs:x"@);
    lemma_plain_keyword("abs:y"@);
    lemma_plain_keyword("abs:rx"@);
    lemma_plain_keyword("abs:ry"@);
    lemma_plain_keyword("abs:z"@);
    lemma_plain_keyword("abs:rz"@);
    lemma_plain_keyword("abs:hat0x"@);
    lemma_plain_keyword("abs:hat0y"@);
    lemma_plain_keyword("rel:x"@);
    lemma_plain_keyword("rel:y"@);
    lemma_plain_keyword("rel:wheel"@);
    lemma_plain_keyword("rel:hwheel"@);
}

/// Reading a written event name gives the code back, for every code with a
/// fixed name: the controller and mouse buttons, the gamepad axes and the
/// mouse axes. (Keyboard key names are read back through evdev's key table.)
pub proof fn law_event_name_round_trip(e: EventCode)
    requires
        match e.kind {
            EventKind::Key => button_name(e.code) is Some,
            EventKind::Absolute => abs_axis_name(e.code) is Some,
            EventKind::Relative => rel_axis_name(e.code) is Some,
        },
    ensures
        parsed_event(event_name(e)) == Some(e),
{
    lemma_builtin_names();
}

/// Every alias in the table of built-in names reads as its code.
proof fn lemma_builtin_aliases()
    ensures
        builtin_event("btn:a"@) == Some(key_event(BTN_SOUTH)),
        builtin_event("button:south"@) == Some(key_event(BTN_SOUTH)),
        builtin_event("button:a"@) == Some(key_event(BTN_SOUTH)),
        builtin_event("btn:b"@) == Some(key_event(BTN_EAST)),
        builtin_event("button:east"@) == Some(key_event(BTN_EAST)),
        builtin_event("button:b"@) == Some(key_event(BTN_EAST)),
        builtin_event("btn:y"@) == Some(key_event(BTN_NORTH)),
        builtin_event("button:north"@) == Some(key_event(BTN_NORTH)),
        builtin_event("button:y"@) == Some(key_event(BTN_NORTH)),
        builtin_event("btn:x"@) == Some(key_event(BTN_WEST)),
        builtin_event("button:west"@) == Some(key_event(BTN_WEST)),
        builtin_event("button:x"@) == Some(key_event(BTN_WEST)),
        builtin_event("btn:l1"@) == Some(key_event(BTN_TL)),
        builtin_event("btn:r1"@) == Some(key_event(BTN_TR)),
        builtin_event("btn:l2"@) == Some(key_event(BTN_TL2)),
        builtin_event("btn:r2"@) == Some(key_event(BTN_TR2)),
        builtin_event("btn:back"@) == Some(key_event(BTN_SELECT)),
        builtin_event("btn:l3"@) == Some(key_event(BTN_THUMBL)),
        builtin_event("btn:r3"@) == Some(key_event(BTN_THUMBR)),
        builtin_event("mouse:primary"@) == Some(key_event(BTN_LEFT)),
        builtin_event("btn:left"@) == Some(key_event(BTN_LEFT)),
        builtin_event("mouse:secondary"@) == Some(key_event(BTN_RIGHT)),
        builtin_event("btn:right"@) == Some(key_event(BTN_RIGHT)),
        builtin_event("mouse:wheel_button"@) == Some(key_event(BTN_MIDDLE)),
        builtin_event("btn:middle"@) == Some(key_event(BTN_MIDDLE)),
        builtin_event("mouse:button4"@) == Some(key_event(BTN_SIDE)),
        builtin_event("mouse:button5"@) == Some(key_event(BTN_EXTRA)),
        builtin_event("axis:x"@) == Some(abs_event(ABS_X)),
        builtin_event("axis:y"@) == Some(abs_event(ABS_Y)),
        builtin_event("axis:rx"@) == Some(abs_event(ABS_RX)),
        builtin_event("axis:ry"@) == Some(abs_event(ABS_RY)),
        builtin_event("axis:z"@) == Some(abs_event(ABS_Z)),
        builtin_event("axis:rz"@) == Some(abs_event(ABS_RZ)),
        builtin_event("axis:hat0x"@) == Some(abs_event(ABS_HAT0X)),
        builtin_event("axis:hat0y"@) == Some(abs_event(ABS_HAT0Y)),
        builtin_event("mouse:x"@) == Some(rel_event(REL_X)),
        builtin_event("mouse:y"@) == Some(rel_event(REL_Y)),
        builtin_event("mouse:wheel"@) == Some(rel_event(REL_WHEEL)),
        builtin_event("wheel:vertical"@) == Some(rel_event(REL_WHEEL)),
        builtin_event("mouse:hwheel"@) == Some(rel_event(REL_HWHEEL)),
        builtin_event("wheel:horizontal"@) == Some(rel_event(REL_HWHEEL)),
        normalize_keyword("btn:a"@) == "btn:a"@,
        normalize_keyword("button:south"@) == "button:south"@,
        normalize_keyword("button:a"@) == "button:a"@,
        normalize_keyword("btn:b"@) == "btn:b"@,
        normalize_keyword("button:east"@) == "button:east"@,
        normalize_keyword("button:b"@) == "button:b"@,
        normalize_keyword("btn:y"@) == "btn:y"@,
        normalize_keyword("button:north"@) == "button:north"@,
        normalize_keyword("button:y"@) == "button:y"@,
        normalize_keyword("btn:x"@) == "btn:x"@,
        normalize_keyword("button:west"@) == "button:west"@,
        normalize_keyword("button:x"@) == "button:x"@,
        normalize_keyword("btn:l1"@) == "btn:l1"@,
        normalize_keyword("btn:r1"@) == "btn:r1"@,
        normalize_keyword("btn:l2"@) == "btn:l2"@,
        normalize_keyword("btn:r2"@) == "btn:r2"@,
        normalize_keyword("btn:back"@) == "btn:back"@,
        normalize_keyword("btn:l3"@) == "btn:l3"@,
        normalize_keyword("btn:r3"@) == "btn:r3"@,
        normalize_keyword("mouse:primary"@) == "mouse:primary"@,
        normalize_keyword("btn:left"@) == "btn:left"@,
        normalize_keyword("mouse:secondary"@) == "mouse:secondary"@,
        normalize_keyword("btn:right"@) == "btn:right"@,
        normalize_keyword("mouse:wheel_button"@) == "mouse:wheel_button"@,
        normalize_keyword("btn:middle"@) == "btn:middle"@,
        normalize_keyword("mouse:button4"@) == "mouse:button4"@,
        normalize_keyword("mouse:button5"@) == "mouse:button5"@,
        normalize_keyword("axis:x"@) == "axis:x"@,
        normalize_keyword("axis:y"@) == "axis:y"@,
        normalize_keyword("axis:rx"@) == "axis:rx"@,
        normalize_keyword("axis:ry"@) == "axis:ry"@,
        normalize_keyword("axis:z"@) == "axis:z"@,
        normalize_keyword("axis:rz"@) == "axis:rz"@,
        normalize_keyword("axis:hat0x"@) == "axis:hat0x"@,
        normalize_keyword("axis:hat0y"@) == "axis:hat0y"@,
        normalize_keyword("mouse:x"@) == "mouse:x"@,
        normalize_keyword("mouse:y"@) == "mouse:y"@,
        normalize_keyword("mouse:wheel"@) == "mouse:wheel"@,
        normalize_keyword("wheel:vertical"@) == "wheel:vertical"@,
        normalize_keyword("mouse:hwheel"@) == "mouse:hwheel"@,
        normalize_keyword("wheel:horizontal"@) == "wheel:horizontal"@,
{
    reveal_strlit("btn:south");
    reveal_strlit("btn:a");
    reveal_strlit("button:south");
    reveal_strlit("button:a");
    reveal_strlit("btn:east");
    reveal_strlit("btn:b");
    reveal_strlit("button:east");
    reveal_strlit("button:b");
    reveal_strlit("btn:north");
    reveal_strlit("btn:y");
    reveal_strlit("button:north");
    reveal_strlit("button:y");
    reveal_strlit("btn:west");
    reveal_strlit("btn:x");
    reveal_strlit("button:west");
    reveal_strlit("button:x");
    reveal_strlit("btn:tl");
    reveal_strlit("btn:l1");
    reveal_strlit("btn:tr");
    reveal_strlit("btn:r1");
    reveal_strlit("btn:tl2");
    reveal_strlit("btn:l2");
    reveal_strlit("btn:tr2");
    reveal_strlit("btn:r2");
    reveal_strlit("btn:select");
    reveal_strlit("btn:back");
    reveal_strlit("btn:start");
    reveal_strlit("btn:mode");
    reveal_strlit("btn:thumbl");
    reveal_strlit("btn:l3");
    reveal_strlit("btn:thumbr");
    reveal_strlit("btn:r3");
    reveal_strlit("mouse:left");
    reveal_strlit("mouse:primary");
    reveal_strlit("btn:left");
    reveal_strlit("mouse:right");
    reveal_strlit("mouse:secondary");
    reveal_strlit("btn:right");
    reveal_strlit("mouse:middle");
    reveal_strlit("mouse:wheel_button");
    reveal_strlit("btn:middle");
    reveal_strlit("mouse:side");
    reveal_strlit("mouse:button4");
    reveal_strlit("mouse:extra");
    reveal_strlit("mouse:button5");
    reveal_strlit("mouse:forward");
    reveal_strlit("mouse:back");
    reveal_strlit("abs:x");
    reveal_strlit("axis:x");
    reveal_strlit("abs:y");
    reveal_strlit("axis:y");
    reveal_strlit("abs:rx");
    reveal_strlit("axis:rx");
    reveal_strlit("abs:ry");
    reveal_strlit("axis:ry");
    reveal_strlit("abs:z");
    reveal_strlit("axis:z");
    reveal_strlit("abs:rz");
    reveal_strlit("axis:rz");
    reveal_strlit("abs:hat0x");
    reveal_strlit("axis:hat0x");
    reveal_strlit("abs:hat0y");
    reveal_strlit("axis:hat0y");
    reveal_strlit("rel:x");
    reveal_strlit("mouse:x");
    reveal_strlit("rel:y");
    reveal_strlit("mouse:y");
    reveal_strlit("rel:wheel");
    reveal_strlit("mouse:wheel");
    reveal_strlit("wheel:vertical");
    reveal_strlit("rel:hwheel");
    reveal_strlit("mouse:hwheel");
    reveal_strlit("wheel:horizontal");
    reveal_strlit("btn:paddle1");
    reveal_strlit("btn:paddle2");
    reveal_strlit("btn:paddle3");
    reveal_strlit("btn:paddle4");
    // Names of equal length that come earlier in the table differ from
    // these at the given position.
    assert("btn:b"@[4] != "btn:a"@[4]);
    assert("button:b"@[7] != "button:a"@[7]);
    assert("btn:y"@[4] != "btn:a"@[4]);
    assert("btn:y"@[4] != "btn:b"@[4]);
    assert("button:north"@[7] != "button:south"@[7]);
    assert("button:y"@[7] != "button:a"@[7]);
    assert("button:y"@[1] != "btn:east"@[1]);
    assert("button:y"@[7] != "button:b"@[7]);
    assert("btn:x"@[4] != "btn:a"@[4]);
    assert("btn:x"@[4] != "btn:b"@[4]);
    assert("btn:x"@[4] != "btn:y"@[4]);
    assert("button:west"@[7] != "button:east"@[7]);
    assert("button:x"@[7] != "button:a"@[7]);
    assert("button:x"@[1] != "btn:east"@[1]);
    assert("button:x"@[7] != "button:b"@[7]);
    assert("button:x"@[7] != "button:y"@[7]);
    assert("btn:r1"@[4] != "btn:tl"@[4]);
    assert("btn:r1"@[4] != "btn:l1"@[4]);
    assert("btn:l2"@[4] != "btn:tl"@[4]);
    assert("btn:l2"@[5] != "btn:l1"@[5]);
    assert("btn:l2"@[4] != "btn:tr"@[4]);
    assert("btn:l2"@[4] != "btn:r1"@[4]);
    assert("btn:r2"@[4] != "btn:tl"@[4]);
    assert("btn:r2"@[4] != "btn:l1"@[4]);
    assert("btn:r2"@[4] != "btn:tr"@[4]);
    assert("btn:r2"@[5] != "btn:r1"@[5]);
    assert("btn:r2"@[4] != "btn:l2"@[4]);
    assert("btn:back"@[1] != "button:a"@[1]);
    assert("btn:back"@[4] != "btn:east"@[4]);
    assert("btn:back"@[1] != "button:b"@[1]);
    assert("btn:back"@[1] != "button:y"@[1]);
    assert("btn:back"@[4] != "btn:west"@[4]);
    assert("btn:back"@[1] != "button:x"@[1]);
    assert("btn:l3"@[4] != "btn:tl"@[4]);
    assert("btn:l3"@[5] != "btn:l1"@[5]);
    assert("btn:l3"@[4] != "btn:tr"@[4]);
    assert("btn:l3"@[4] != "btn:r1"@[4]);
    assert("btn:l3"@[5] != "btn:l2"@[5]);
    assert("btn:l3"@[4] != "btn:r2"@[4]);
    assert("btn:r3"@[4] != "btn:tl"@[4]);
    assert("btn:r3"@[4] != "btn:l1"@[4]);
    assert("btn:r3"@[4] != "btn:tr"@[4]);
    assert("btn:r3"@[5] != "btn:r1"@[5]);
    assert("btn:r3"@[4] != "btn:l2"@[4]);
    assert("btn:r3"@[5] != "btn:r2"@[5]);
    assert("btn:r3"@[4] != "btn:l3"@[4]);
    assert("btn:left"@[1] != "button:a"@[1]);
    assert("btn:left"@[4] != "btn:east"@[4]);
    assert("btn:left"@[1] != "button:b"@[1]);
    assert("btn:left"@[1] != "button:y"@[1]);
    assert("btn:left"@[4] != "btn:west"@[4]);
    assert("btn:left"@[1] != "button:x"@[1]);
    assert("btn:left"@[4] != "btn:back"@[4]);
    assert("btn:left"@[4] != "btn:mode"@[4]);
    assert("btn:right"@[4] != "btn:south"@[4]);
    assert("btn:right"@[4] != "btn:north"@[4]);
    assert("btn:right"@[4] != "btn:start"@[4]);
    assert("btn:middle"@[4] != "btn:select"@[4]);
    assert("btn:middle"@[4] != "btn:thumbl"@[4]);
    assert("btn:middle"@[4] != "btn:thumbr"@[4]);
    assert("btn:middle"@[0] != "mouse:left"@[0]);
    assert("mouse:button4"@[6] != "mouse:primary"@[6]);
    assert("mouse:button5"@[6] != "mouse:primary"@[6]);
    assert("mouse:button5"@[12] != "mouse:button4"@[12]);
    assert("axis:x"@[0] != "btn:tl"@[0]);
    assert("axis:x"@[0] != "btn:l1"@[0]);
    assert("axis:x"@[0] != "btn:tr"@[0]);
    assert("axis:x"@[0] != "btn:r1"@[0]);
    assert("axis:x"@[0] != "btn:l2"@[0]);
    assert("axis:x"@[0] != "btn:r2"@[0]);
    assert("axis:x"@[0] != "btn:l3"@[0]);
    assert("axis:x"@[0] != "btn:r3"@[0]);
    assert("axis:y"@[0] != "btn:tl"@[0]);
    assert("axis:y"@[0] != "btn:l1"@[0]);
    assert("axis:y"@[0] != "btn:tr"@[0]);
    assert("axis:y"@[0] != "btn:r1"@[0]);
    assert("axis:y"@[0] != "btn:l2"@[0]);
    assert("axis:y"@[0] != "btn:r2"@[0]);
    assert("axis:y"@[0] != "btn:l3"@[0]);
    assert("axis:y"@[0] != "btn:r3"@[0]);
    assert("axis:y"@[5] != "axis:x"@[5]);
    assert("axis:rx"@[0] != "btn:tl2"@[0]);
    assert("axis:rx"@[0] != "btn:tr2"@[0]);
    assert("axis:ry"@[0] != "btn:tl2"@[0]);
    assert("axis:ry"@[0] != "btn:tr2"@[0]);
    assert("axis:ry"@[6] != "axis:rx"@[6]);
    assert("axis:z"@[0] != "btn:tl"@[0]);
    assert("axis:z"@[0] != "btn:l1"@[0]);
    assert("axis:z"@[0] != "btn:tr"@[0]);
    assert("axis:z"@[0] != "btn:r1"@[0]);
    assert("axis:z"@[0] != "btn:l2"@[0]);
    assert("axis:z"@[0] != "btn:r2"@[0]);
    assert("axis:z"@[0] != "btn:l3"@[0]);
    assert("axis:z"@[0] != "btn:r3"@[0]);
    assert("axis:z"@[5] != "axis:x"@[5]);
    assert("axis:z"@[5] != "axis:y"@[5]);
    assert("axis:z"@[1] != "abs:rx"@[1]);
    assert("axis:z"@[1] != "abs:ry"@[1]);
    assert("axis:rz"@[0] != "btn:tl2"@[0]);
    assert("axis:rz"@[0] != "btn:tr2"@[0]);
    assert("axis:rz"@[6] != "axis:rx"@[6]);
    assert("axis:rz"@[6] != "axis:ry"@[6]);
    assert("axis:hat0x"@[0] != "btn:select"@[0]);
    assert("axis:hat0x"@[0] != "btn:thumbl"@[0]);
    assert("axis:hat0x"@[0] != "btn:thumbr"@[0]);
    assert("axis:hat0x"@[0] != "mouse:left"@[0]);
    assert("axis:hat0x"@[0] != "btn:middle"@[0]);
    assert("axis:hat0x"@[0] != "mouse:side"@[0]);
    assert("axis:hat0x"@[0] != "mouse:back"@[0]);
    assert("axis:hat0y"@[0] != "btn:select"@[0]);
    assert("axis:hat0y"@[0] != "btn:thumbl"@[0]);
    assert("axis:hat0y"@[0] != "btn:thumbr"@[0]);
    assert("axis:hat0y"@[0] != "mouse:left"@[0]);
    assert("axis:hat0y"@[0] != "btn:middle"@[0]);
    assert("axis:hat0y"@[0] != "mouse:side"@[0]);
    assert("axis:hat0y"@[0] != "mouse:back"@[0]);
    assert("axis:hat0y"@[9] != "axis:hat0x"@[9]);
    assert("mouse:x"@[0] != "btn:tl2"@[0]);
    assert("mouse:x"@[0] != "btn:tr2"@[0]);
    assert("mouse:x"@[0] != "axis:rx"@[0]);
    assert("mouse:x"@[0] != "axis:ry"@[0]);
    assert("mouse:x"@[0] != "axis:rz"@[0]);
    assert("mouse:y"@[0] != "btn:tl2"@[0]);
    assert("mouse:y"@[0] != "btn:tr2"@[0]);
    assert("mouse:y"@[0] != "axis:rx"@[0]);
    assert("mouse:y"@[0] != "axis:ry"@[0]);
    assert("mouse:y"@[0] != "axis:rz"@[0]);
    assert("mouse:y"@[6] != "mouse:x"@[6]);
    assert("mouse:wheel"@[0] != "button:east"@[0]);
    assert("mouse:wheel"@[0] != "button:west"@[0]);
    assert("mouse:wheel"@[6] != "mouse:right"@[6]);
    assert("mouse:wheel"@[6] != "mouse:extra"@[6]);
    assert("mouse:hwheel"@[0] != "button:south"@[0]);
    assert("mouse:hwheel"@[0] != "button:north"@[0]);
    assert("mouse:hwheel"@[6] != "mouse:middle"@[6]);
    lemma_plain_keyword("btn:a"@);
    lemma_plain_keyword("button:south"@);
    lemma_plain_keyword("button:a"@);
    lemma_plain_keyword("btn:b"@);
    lemma_plain_keyword("button:east"@);
    lemma_plain_keyword("button:b"@);
    lemma_plain_keyword("btn:y"@);
    lemma_plain_keyword("button:north"@);
    lemma_plain_keyword("button:y"@);
    lemma_plain_keyword("btn:x"@);
    lemma_plain_keyword("button:west"@);
    lemma_plain_keyword("button:x"@);
    lemma_plain_keyword("btn:l1"@);
    lemma_plain_keyword("btn:r1"@);
    lemma_plain_keyword("btn:l2"@);
    lemma_plain_keyword("btn:r2"@);
    lemma_plain_keyword("btn:back"@);
    lemma_plain_keyword("btn:l3"@);
    lemma_plain_keyword("btn:r3"@);
    lemma_plain_keyword("mouse:primary"@);
    lemma_plain_keyword("btn:left"@);
    lemma_plain_keyword("mouse:secondary"@);
    lemma_plain_keyword("btn:right"@);
    lemma_plain_keyword("mouse:wheel_button"@);
    lemma_plain_keyword("btn:middle"@);
    lemma_plain_keyword("mouse:button4"@);
    lemma_plain_keyword("mouse:button5"@);
    lemma_plain_keyword("axis:x"@);
    lemma_plain_keyword("axis:y"@);
    lemma_plain_keyword("axis:rx"@);
    lemma_plain_keyword("axis:ry"@);
    lemma_plain_keyword("axis:z"@);
    lemma_plain_keyword("axis:rz"@);
    lemma_plain_keyword("axis:hat0x"@);
    lemma_plain_keyword("axis:hat0y"@);
    lemma_plain_keyword("mouse:x"@);
    lemma_plain_keyword("mouse:y"@);
    lemma_plain_keyword("mouse:wheel"@);
    lemma_plain_keyword("wheel:vertical"@);
    lemma_plain_keyword("mouse:hwheel"@);
    lemma_plain_keyword("wheel:horizontal"@);
}

/// Every alias of a built-in name reads as the same code as the name it
/// stands for, whatever its case, surrounding whitespace, spaces or
/// hyphens: `btn:back` is `btn:select`, `btn:a` is `btn:south`, `btn:l2`
/// is `btn:tl2`, `mouse:primary` is `mouse:left`, `axis:x` is `abs:x`, and
/// so on; and that code is the one whose written name is the canonical name.
pub proof fn law_event_aliases(s: Seq<char>)
    ensures
        normalize_keyword(s) == "btn:a"@ ==> parsed_event(s) == parsed_event("btn:south"@),
        normalize_keyword(s) == "button:south"@ ==> parsed_event(s) == parsed_event("btn:south"@),
        normalize_keyword(s) == "button:a"@ ==> parsed_event(s) == parsed_event("btn:south"@),
        normalize_keyword(s) == "btn:b"@ ==> parsed_event(s) == parsed_event("btn:east"@),
        normalize_keyword(s) == "button:east"@ ==> parsed_event(s) == parsed_event("btn:east"@),
        normalize_keyword(s) == "button:b"@ ==> parsed_event(s) == parsed_event("btn:east"@),
        normalize_keyword(s) == "btn:y"@ ==> parsed_event(s) == parsed_event("btn:north"@),
        normalize_keyword(s) == "button:north"@ ==> parsed_event(s) == parsed_event("btn:north"@),
        normalize_keyword(s) == "button:y"@ ==> parsed_event(s) == parsed_event("btn:north"@),
        normalize_keyword(s) == "btn:x"@ ==> parsed_event(s) == parsed_event("btn:west"@),
        normalize_keyword(s) == "button:west"@ ==> parsed_event(s) == parsed_event("btn:west"@),
        normalize_keyword(s) == "button:x"@ ==> parsed_event(s) == parsed_event("btn:west"@),
        normalize_keyword(s) == "btn:l1"@ ==> parsed_event(s) == parsed_event("btn:tl"@),
        normalize_keyword(s) == "btn:r1"@ ==> parsed_event(s) == parsed_event("btn:tr"@),
        normalize_keyword(s) == "btn:l2"@ ==> parsed_event(s) == parsed_event("btn:tl2"@),
        normalize_keyword(s) == "btn:r2"@ ==> parsed_event(s) == parsed_event("btn:tr2"@),
        normalize_keyword(s) == "btn:back"@ ==> parsed_event(s) == parsed_event("btn:select"@),
        normalize_keyword(s) == "btn:l3"@ ==> parsed_event(s) == parsed_event("btn:thumbl"@),
        normalize_keyword(s) == "btn:r3"@ ==> parsed_event(s) == parsed_event("btn:thumbr"@),
        normalize_keyword(s) == "mouse:primary"@ ==> parsed_event(s) == parsed_event("mouse:left"@),
        normalize_keyword(s) == "btn:left"@ ==> parsed_event(s) == parsed_event("mouse:left"@),
        normalize_keyword(s) == "mouse:secondary"@ ==> parsed_event(s) == parsed_event("mouse:right"@),
        normalize_keyword(s) == "btn:right"@ ==> parsed_event(s) == parsed_event("mouse:right"@),
        normalize_keyword(s) == "mouse:wheel_button"@ ==> parsed_event(s) == parsed_event("mouse:middle"@),
        normalize_keyword(s) == "btn:middle"@ ==> parsed_event(s) == parsed_event("mouse:middle"@),
        normalize_keyword(s) == "mouse:button4"@ ==> parsed_event(s) == parsed_event("mouse:side"@),
        normalize_keyword(s) == "mouse:button5"@ ==> parsed_event(s) == parsed_event("mouse:extra"@),
        normalize_keyword(s) == "axis:x"@ ==> parsed_event(s) == parsed_event("abs:x"@),
        normalize_keyword(s) == "axis:y"@ ==> parsed_event(s) == parsed_event("abs:y"@),
        normalize_keyword(s) == "axis:rx"@ ==> parsed_event(s) == parsed_event("abs:rx"@),
        normalize_keyword(s) == "axis:ry"@ ==> parsed_event(s) == parsed_event("abs:ry"@),
        normalize_keyword(s) == "axis:z"@ ==> parsed_event(s) == parsed_event("abs:z"@),
        normalize_keyword(s) == "axis:rz"@ ==> parsed_event(s) == parsed_event("abs:rz"@),
        normalize_keyword(s) == "axis:hat0x"@ ==> parsed_event(s) == parsed_event("abs:hat0x"@),
        normalize_keyword(s) == "axis:hat0y"@ ==> parsed_event(s) == parsed_event("abs:hat0y"@),
        normalize_keyword(s) == "mouse:x"@ ==> parsed_event(s) == parsed_event("rel:x"@),
        normalize_keyword(s) == "mouse:y"@ ==> parsed_event(s) == parsed_event("rel:y"@),
        normalize_keyword(s) == "mouse:wheel"@ ==> parsed_event(s) == parsed_event("rel:wheel"@),
        normalize_keyword(s) == "wheel:vertical"@ ==> parsed_event(s) == parsed_event("rel:wheel"@),
        normalize_keyword(s) == "mouse:hwheel"@ ==> parsed_event(s) == parsed_event("rel:hwheel"@),
        normalize_keyword(s) == "wheel:horizontal"@ ==> parsed_event(s) == parsed_event("rel:hwheel"@),
        parsed_event("btn:south"@) == Some(key_event(BTN_SOUTH)) && event_name(key_event(BTN_SOUTH)) == "btn:south"@,
        parsed_event("btn:east"@) == Some(key_event(BTN_EAST)) && event_name(key_event(BTN_EAST)) == "btn:east"@,
        parsed_event("btn:north"@) == Some(key_event(BTN_NORTH)) && event_name(key_event(BTN_NORTH)) == "btn:north"@,
        parsed_event("btn:west"@) == Some(key_event(BTN_WEST)) && event_name(key_event(BTN_WEST)) == "btn:west"@,
        parsed_event("btn:tl"@) == Some(key_event(BTN_TL)) && event_name(key_event(BTN_TL)) == "btn:tl"@,
        parsed_event("btn:tr"@) == Some(key_event(BTN_TR)) && event_name(key_event(BTN_TR)) == "btn:tr"@,
        parsed_event("btn:tl2"@) == Some(key_event(BTN_TL2)) && event_name(key_event(BTN_TL2)) == "btn:tl2"@,
        parsed_event("btn:tr2"@) == Some(key_event(BTN_TR2)) && event_name(key_event(BTN_TR2)) == "btn:tr2"@,
        parsed_event("btn:select"@) == Some(key_event(BTN_SELECT)) && event_name(key_event(BTN_SELECT)) == "btn:select"@,
        parsed_event("btn:thumbl"@) == Some(key_event(BTN_THUMBL)) && event_name(key_event(BTN_THUMBL)) == "btn:thumbl"@,
        parsed_event("btn:thumbr"@) == Some(key_event(BTN_THUMBR)) && event_name(key_event(BTN_THUMBR)) == "btn:thumbr"@,
        parsed_event("mouse:left"@) == Some(key_event(BTN_LEFT)) && event_name(key_event(BTN_LEFT)) == "mouse:left"@,
        parsed_event("mouse:right"@) == Some(key_event(BTN_RIGHT)) && event_name(key_event(BTN_RIGHT)) == "mouse:right"@,
        parsed_event("mouse:middle"@) == Some(key_event(BTN_MIDDLE)) && event_name(key_event(BTN_MIDDLE)) == "mouse:middle"@,
        parsed_event("mouse:side"@) == Some(key_event(BTN_SIDE)) && event_name(key_event(BTN_SIDE)) == "mouse:side"@,
        parsed_event("mouse:extra"@) == Some(key_event(BTN_EXTRA)) && event_name(key_event(BTN_EXTRA)) == "mouse:extra"@,
        parsed_event("abs:x"@) == Some(abs_event(ABS_X)) && event_name(abs_event(ABS_X)) == "abs:x"@,
        parsed_event("abs:y"@) == Some(abs_event(ABS_Y)) && event_name(abs_event(ABS_Y)) == "abs:y"@,
        parsed_event("abs:rx"@) == Some(abs_event(ABS_RX)) && event_name(abs_event(ABS_RX)) == "abs:rx"@,
        parsed_event("abs:ry"@) == Some(abs_event(ABS_RY)) && event_name(abs_event(ABS_RY)) == "abs:ry"@,
        parsed_event("abs:z"@) == Some(abs_event(ABS_Z)) && event_name(abs_event(ABS_Z)) == "abs:z"@,
        parsed_event("abs:rz"@) == Some(abs_event(ABS_RZ)) && event_name(abs_event(ABS_RZ)) == "abs:rz"@,
        parsed_event("abs:hat0x"@) == Some(abs_event(ABS_HAT0X)) && event_name(abs_event(ABS_HAT0X)) == "abs:hat0x"@,
        parsed_event("abs:hat0y"@) == Some(abs_event(ABS_HAT0Y)) && event_name(abs_event(ABS_HAT0Y)) == "abs:hat0y"@,
        parsed_event("rel:x"@) == Some(rel_event(REL_X)) && event_name(rel_event(REL_X)) == "rel:x"@,
        parsed_event("rel:y"@) == Some(rel_event(REL_Y)) && event_name(rel_event(REL_Y)) == "rel:y"@,
        parsed_event("rel:wheel"@) == Some(rel_event(REL_WHEEL)) && event_name(rel_event(REL_WHEEL)) == "rel:wheel"@,
        parsed_event("rel:hwheel"@) == Some(rel_event(REL_HWHEEL)) && event_name(rel_event(REL_HWHEEL)) == "rel:hwheel"@,
{
    lemma_builtin_names();
    lemma_builtin_aliases();
}

} // verus!
