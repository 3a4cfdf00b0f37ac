//! Classifying Linux input devices from what they report: which ones to list,
//! whether a device is virtual, its capability names and its id.

use vstd::prelude::*;
use crate::devices::{
    controller_name, find_device, is_absolute, is_absolute_path, motion_sensor_name,
    name_has_controller_hint, name_has_motion_sensor_hint, selects, DeviceInfo,
};
use crate::event_code::{
    ABS_HAT0X, ABS_HAT0Y, ABS_RX, ABS_RY, ABS_RZ, ABS_X, ABS_Y, ABS_Z, BTN_EAST, BTN_LEFT,
    BTN_MODE, BTN_NORTH, BTN_RIGHT, BTN_SELECT, BTN_SOUTH, BTN_START, BTN_THUMBL, BTN_THUMBR,
    BTN_TL, BTN_TL2, BTN_TR, BTN_TR2, BTN_WEST, KEY_A, KEY_D, KEY_ENTER, KEY_ESC, KEY_LEFTALT,
    KEY_LEFTCTRL, KEY_LEFTSHIFT, KEY_S, KEY_SPACE, KEY_TAB, KEY_W, REL_HWHEEL, REL_WHEEL, REL_X,
    REL_Y,
};
use crate::text::{
    chars_of, concat_chars, contains_seq, contains_str, hex4, hex4_chars, lower, lower_chars,
    string_from_chars,
};

verus! {

/// What a device reports it can send: its key, absolute-axis and
/// relative-axis codes (none when it reports no such event type), and
/// whether it takes force feedback.
#[derive(Clone, Debug)]
pub struct DeviceCapabilities {
    pub keys: Option<Vec<u16>>,
    pub abs: Option<Vec<u16>>,
    pub rel: Option<Vec<u16>>,
    pub force_feedback: bool,
}

fn has_code(codes: &[u16], code: u16) -> (r: bool)
    ensures
        r == codes@.contains(code),
{
    let mut i: usize = 0;
    while i < codes.len()
        invariant
            i <= codes@.len(),
            forall|k: int| 0 <= k < i ==> codes@[k] != code,
        decreases codes@.len() - i,
    {
        if codes[i] == code {
            assert(codes@[i as int] == code);
            return true;
        }
        i = i + 1;
    }
    false
}

pub open spec fn count_in(keys: Seq<u16>, a: u16, b: u16, c: u16, d: u16) -> int {
    (if keys.contains(a) { 1int } else { 0int }) + (if keys.contains(b) { 1int } else { 0int }) + (
    if keys.contains(c) { 1int } else { 0int }) + (if keys.contains(d) { 1int } else { 0int })
}

/// A keyboard: at least two of A, S, D, W and one of Space, Enter, Esc, Tab,
/// left Ctrl, left Shift or left Alt.
pub open spec fn keyboard_keys(keys: Seq<u16>) -> bool {
    count_in(keys, KEY_A, KEY_S, KEY_D, KEY_W) >= 2 && (keys.contains(KEY_SPACE) || keys.contains(
        KEY_ENTER,
    ) || keys.contains(KEY_ESC) || keys.contains(KEY_TAB) || keys.contains(KEY_LEFTCTRL)
        || keys.contains(KEY_LEFTSHIFT) || keys.contains(KEY_LEFTALT))
}

/// Whether a key set looks like a keyboard's.
pub fn key_set_has_keyboard_keys(keys: &[u16]) -> (r: bool)
    ensures
        r == keyboard_keys(keys@),
{
    let mut letters: u8 = 0;
    if has_code(keys, KEY_A) {
        letters = letters + 1;
    }
    if has_code(keys, KEY_S) {
        letters = letters + 1;
    }
    if has_code(keys, KEY_D) {
        letters = letters + 1;
    }
    if has_code(keys, KEY_W) {
        letters = letters + 1;
    }
    let control = has_code(keys, KEY_SPACE) || has_code(keys, KEY_ENTER) || has_code(keys, KEY_ESC)
        || has_code(keys, KEY_TAB) || has_code(keys, KEY_LEFTCTRL) || has_code(keys, KEY_LEFTSHIFT)
        || has_code(keys, KEY_LEFTALT);
    letters >= 2 && control
}

/// Mouse buttons: the left or the right one.
pub open spec fn mouse_buttons(keys: Seq<u16>) -> bool {
    keys.contains(BTN_LEFT) || keys.contains(BTN_RIGHT)
}

pub fn key_set_has_mouse_buttons(keys: &[u16]) -> (r: bool)
    ensures
        r == mouse_buttons(keys@),
{
    has_code(keys, BTN_LEFT) || has_code(keys, BTN_RIGHT)
}

/// Mouse motion: both X and Y relative axes.
pub open spec fn mouse_motion(rel: Seq<u16>) -> bool {
    rel.contains(REL_X) && rel.contains(REL_Y)
}

pub fn relative_set_has_mouse_motion(rel: &[u16]) -> (r: bool)
    ensures
        r == mouse_motion(rel@),
{
    has_code(rel, REL_X) && has_code(rel, REL_Y)
}

pub open spec fn codes(o: Option<Vec<u16>>) -> Option<Seq<u16>> {
    match o {
        Some(v) => Some(v@),
        None => None,
    }
}

pub open spec fn face_button(keys: Seq<u16>) -> bool {
    keys.contains(BTN_SOUTH) || keys.contains(BTN_EAST) || keys.contains(BTN_NORTH)
        || keys.contains(BTN_WEST)
}

fn has_face_button(keys: &[u16]) -> (r: bool)
    ensures
        r == face_button(keys@),
{
    has_code(keys, BTN_SOUTH) || has_code(keys, BTN_EAST) || has_code(keys, BTN_NORTH) || has_code(
        keys,
        BTN_WEST,
    )
}

/// A standalone motion sensor: gyro/accelerometer rotation axes (RX, RY, RZ)
/// without controller face buttons.
pub open spec fn motion_sensor(caps: DeviceCapabilities) -> bool {
    match codes(caps.abs) {
        None => false,
        Some(abs) => abs.contains(ABS_RX) && abs.contains(ABS_RY) && abs.contains(ABS_RZ) && !(
        match codes(caps.keys) {
            Some(keys) => face_button(keys),
            None => false,
        }),
    }
}

pub fn looks_like_motion_sensor(caps: &DeviceCapabilities) -> (r: bool)
    ensures
        r == motion_sensor(*caps),
{
    let abs = match &caps.abs {
        Some(a) => a,
        None => {
            return false;
        },
    };
    let rotation = has_code(abs, ABS_RX) && has_code(abs, ABS_RY) && has_code(abs, ABS_RZ);
    let face = match &caps.keys {
        Some(k) => has_face_button(k),
        None => false,
    };
    rotation && !face
}

/// A controller: a face button and both X and Y axes.
pub open spec fn controller_like(caps: DeviceCapabilities) -> bool {
    match (codes(caps.keys), codes(caps.abs)) {
        (Some(keys), Some(abs)) => face_button(keys) && abs.contains(ABS_X) && abs.contains(ABS_Y),
        _ => false,
    }
}

pub fn looks_like_controller(caps: &DeviceCapabilities) -> (r: bool)
    ensures
        r == controller_like(*caps),
{
    match (&caps.keys, &caps.abs) {
        (Some(keys), Some(abs)) => has_face_button(keys) && has_code(abs, ABS_X) && has_code(abs, ABS_Y),
        _ => false,
    }
}

pub open spec fn keyboard_like(caps: DeviceCapabilities) -> bool {
    match codes(caps.keys) {
        Some(keys) => keyboard_keys(keys),
        None => false,
    }
}

pub fn looks_like_keyboard(caps: &DeviceCapabilities) -> (r: bool)
    ensures
        r == keyboard_like(*caps),
{
    match &caps.keys {
        Some(keys) => key_set_has_keyboard_keys(keys),
        None => false,
    }
}

pub open spec fn mouse_like(caps: DeviceCapabilities) -> bool {
    match (codes(caps.keys), codes(caps.rel)) {
        (Some(keys), Some(rel)) => mouse_buttons(keys) && mouse_motion(rel),
        _ => false,
    }
}

pub fn looks_like_mouse(caps: &DeviceCapabilities) -> (r: bool)
    ensures
        r == mouse_like(*caps),
{
    match (&caps.keys, &caps.rel) {
        (Some(keys), Some(rel)) => key_set_has_mouse_buttons(keys) && relative_set_has_mouse_motion(rel),
        _ => false,
    }
}

/// Which devices are listed: controllers and motion sensors by name, devices
/// with a joystick link, keyboards, mice, motion sensors, and virtual devices
/// that look like controllers.
pub open spec fn shown(name: Seq<char>, device_kind: Seq<char>, joystick_link: bool, caps: DeviceCapabilities) -> bool {
    controller_name(name) || motion_sensor_name(name) || joystick_link || keyboard_like(caps)
        || mouse_like(caps) || motion_sensor(caps) || (device_kind == "virtual"@ && controller_like(caps))
}

pub fn should_show_device(name: &str, device_kind: &str, joystick_link: bool, caps: &DeviceCapabilities) -> (r: bool)
    ensures
        r == shown(name@, device_kind@, joystick_link, *caps),
{
    name_has_controller_hint(name) || name_has_motion_sensor_hint(name) || joystick_link
        || looks_like_keyboard(caps) || looks_like_mouse(caps) || looks_like_motion_sensor(caps) || (
    crate::text::str_eq(device_kind, "virtual") && looks_like_controller(caps))
}

/// Whether a device is virtual: its sysfs node lies under the virtual input
/// devices, its name mentions "virtual" or "padproxy", its physical path
/// mentions "uinput" (ignoring ASCII case), or it sits on the virtual bus
/// (0x06).
pub open spec fn virtual_device(sysfs_virtual: bool, name: Seq<char>, phys: Seq<char>, bus: u16) -> bool {
    sysfs_virtual || contains_seq(lower(name), "virtual"@) || contains_seq(lower(name), "padproxy"@)
        || contains_seq(lower(phys), "uinput"@) || bus == 0x06
}

/// `virtual` or `physical`.
pub fn device_kind(sysfs_virtual: bool, name: &str, phys: &str, bus: u16) -> (r: String)
    ensures
        r@ == (if virtual_device(sysfs_virtual, name@, phys@, bus) {
            "virtual"@
        } else {
            "physical"@
        }),
{
    let n = lower_chars(&chars_of(name));
    let p = lower_chars(&chars_of(phys));
    if sysfs_virtual || contains_str(&n, "virtual") || contains_str(&n, "padproxy") || contains_str(
        &p,
        "uinput",
    ) || bus == 0x06 {
        "virtual".to_owned()
    } else {
        "physical".to_owned()
    }
}

/// The id of a listed device: `linux:<vendor>:<product>:` (four lower-case
/// hex digits each) then its unique name, or its name and path when it has
/// none.
pub open spec fn linux_device_id(vendor: u16, product: u16, name: Seq<char>, uniq: Seq<char>, path: Seq<char>) -> Seq<char> {
    "linux:"@ + hex4(vendor) + ":"@ + hex4(product) + ":"@ + if uniq.len() == 0 {
        name + ":"@ + path
    } else {
        uniq
    }
}

pub fn device_id(vendor: u16, product: u16, name: &str, uniq: &str, path: &str) -> (r: String)
    ensures
        r@ == linux_device_id(vendor, product, name@, uniq@, path@),
{
    let mut s = chars_of("linux:");
    s = concat_chars(&s, &hex4_chars(vendor));
    s = concat_chars(&s, &chars_of(":"));
    s = concat_chars(&s, &hex4_chars(product));
    s = concat_chars(&s, &chars_of(":"));
    let u = chars_of(uniq);
    if u.len() == 0 {
        s = concat_chars(&s, &chars_of(name));
        s = concat_chars(&s, &chars_of(":"));
        s = concat_chars(&s, &chars_of(path));
    } else {
        s = concat_chars(&s, &u);
    }
    string_from_chars(&s)
}

/// The capability name of a key code, for the codes that are named.
pub open spec fn key_capability(code: u16) -> Option<Seq<char>> {
    if code == BTN_SOUTH { Some("BTN_SOUTH"@) }
    else if code == BTN_EAST { Some("BTN_EAST"@) }
    else if code == BTN_NORTH { Some("BTN_NORTH"@) }
    else if code == BTN_WEST { Some("BTN_WEST"@) }
    else if code == BTN_TL { Some("BTN_TL"@) }
    else if code == BTN_TR { Some("BTN_TR"@) }
    else if code == BTN_TL2 { Some("BTN_TL2"@) }
    else if code == BTN_TR2 { Some("BTN_TR2"@) }
    else if code == BTN_SELECT { Some("BTN_SELECT"@) }
    else if code == BTN_START { Some("BTN_START"@) }
    else if code == BTN_MODE { Some("BTN_MODE"@) }
    else if code == BTN_THUMBL { Some("BTN_THUMBL"@) }
    else if code == BTN_THUMBR { Some("BTN_THUMBR"@) }
    else if code == KEY_SPACE { Some("KEY_SPACE"@) }
    else if code == KEY_ENTER { Some("KEY_ENTER"@) }
    else if code == KEY_ESC { Some("KEY_ESC"@) }
    else if code == KEY_TAB { Some("KEY_TAB"@) }
    else if code == KEY_LEFTCTRL { Some("KEY_LEFTCTRL"@) }
    else if code == KEY_LEFTSHIFT { Some("KEY_LEFTSHIFT"@) }
    else if code == KEY_LEFTALT { Some("KEY_LEFTALT"@) }
    else if code == KEY_A { Some("KEY_A"@) }
    else if code == KEY_S { Some("KEY_S"@) }
    else if code == KEY_D { Some("KEY_D"@) }
    else if code == KEY_W { Some("KEY_W"@) }
    else { None }
}

fn key_capability_str(code: u16) -> (r: Option<&'static str>)
    ensures
        match r {
            Some(s) => key_capability(code) == Some(s@),
            None => key_capability(code) is None,
        },
{
    if code == BTN_SOUTH { Some("BTN_SOUTH") }
    else if code == BTN_EAST { Some("BTN_EAST") }
    else if code == BTN_NORTH { Some("BTN_NORTH") }
    else if code == BTN_WEST { Some("BTN_WEST") }
    else if code == BTN_TL { Some("BTN_TL") }
    else if code == BTN_TR { Some("BTN_TR") }
    else if code == BTN_TL2 { Some("BTN_TL2") }
    else if code == BTN_TR2 { Some("BTN_TR2") }
    else if code == BTN_SELECT { Some("BTN_SELECT") }
    else if code == BTN_START { Some("BTN_START") }
    else if code == BTN_MODE { Some("BTN_MODE") }
    else if code == BTN_THUMBL { Some("BTN_THUMBL") }
    else if code == BTN_THUMBR { Some("BTN_THUMBR") }
    else if code == KEY_SPACE { Some("KEY_SPACE") }
    else if code == KEY_ENTER { Some("KEY_ENTER") }
    else if code == KEY_ESC { Some("KEY_ESC") }
    else if code == KEY_TAB { Some("KEY_TAB") }
    else if code == KEY_LEFTCTRL { Some("KEY_LEFTCTRL") }
    else if code == KEY_LEFTSHIFT { Some("KEY_LEFTSHIFT") }
    else if code == KEY_LEFTALT { Some("KEY_LEFTALT") }
    else if code == KEY_A { Some("KEY_A") }
    else if code == KEY_S { Some("KEY_S") }
    else if code == KEY_D { Some("KEY_D") }
    else if code == KEY_W { Some("KEY_W") }
    else { None }
}

/// The capability name of an absolute-axis code, for the named ones.
pub open spec fn abs_capability(code: u16) -> Option<Seq<char>> {
    if code == ABS_X { Some("ABS_X"@) }
    else if code == ABS_Y { Some("ABS_Y"@) }
    else if code == ABS_RX { Some("ABS_RX"@) }
    else if code == ABS_RY { Some("ABS_RY"@) }
    else if code == ABS_Z { Some("ABS_Z"@) }
    else if code == ABS_RZ { Some("ABS_RZ"@) }
    else if code == ABS_HAT0X { Some("ABS_HAT0X"@) }
    else if code == ABS_HAT0Y { Some("ABS_HAT0Y"@) }
    else { None }
}

fn abs_capability_str(code: u16) -> (r: Option<&'static str>)
    ensures
        match r {
            Some(s) => abs_capability(code) == Some(s@),
            None => abs_capability(code) is None,
        },
{
    if code == ABS_X { Some("ABS_X") }
    else if code == ABS_Y { Some("ABS_Y") }
    else if code == ABS_RX { Some("ABS_RX") }
    else if code == ABS_RY { Some("ABS_RY") }
    else if code == ABS_Z { Some("ABS_Z") }
    else if code == ABS_RZ { Some("ABS_RZ") }
    else if code == ABS_HAT0X { Some("ABS_HAT0X") }
    else if code == ABS_HAT0Y { Some("ABS_HAT0Y") }
    else { None }
}

/// The capability name of a relative-axis code, for the named ones.
pub open spec fn rel_capability(code: u16) -> Option<Seq<char>> {
    if code == REL_X { Some("REL_X"@) }
    else if code == REL_Y { Some("REL_Y"@) }
    else if code == REL_WHEEL { Some("REL_WHEEL"@) }
    else if code == REL_HWHEEL { Some("REL_HWHEEL"@) }
    else { None }
}

fn rel_capability_str(code: u16) -> (r: Option<&'static str>)
    ensures
        match r {
            Some(s) => rel_capability(code) == Some(s@),
            None => rel_capability(code) is None,
        },
{
    if code == REL_X { Some("REL_X") }
    else if code == REL_Y { Some("REL_Y") }
    else if code == REL_WHEEL { Some("REL_WHEEL") }
    else if code == REL_HWHEEL { Some("REL_HWHEEL") }
    else { None }
}

/// The names of the codes that have one, in order.
pub open spec fn named(codes: Seq<u16>, f: spec_fn(u16) -> Option<Seq<char>>) -> Seq<Seq<char>>
    decreases codes.len(),
{
    if codes.len() == 0 {
        Seq::empty()
    } else {
        let prev = named(codes.drop_last(), f);
        match f(codes.last()) {
            Some(n) => prev.push(n),
            None => prev,
        }
    }
}

/// The capability names of a device: `KEYBOARD` and `MOUSE_BUTTONS` when its
/// keys say so, then its named keys, its named absolute axes, `MOUSE_MOTION`
/// when its relative axes say so, its named relative axes, and `EV_FF` when it
/// takes force feedback.
pub open spec fn capability_names(caps: DeviceCapabilities) -> Seq<Seq<char>> {
    let k = match codes(caps.keys) {
        Some(keys) => (if keyboard_keys(keys) { seq!["KEYBOARD"@] } else { Seq::empty() }) + (
        if mouse_buttons(keys) { seq!["MOUSE_BUTTONS"@] } else { Seq::empty() }) + named(
            keys,
            |c: u16| key_capability(c),
        ),
        None => Seq::empty(),
    };
    let a = match codes(caps.abs) {
        Some(abs) => named(abs, |c: u16| abs_capability(c)),
        None => Seq::empty(),
    };
    let r = match codes(caps.rel) {
        Some(rel) => (if mouse_motion(rel) { seq!["MOUSE_MOTION"@] } else { Seq::empty() }) + named(
            rel,
            |c: u16| rel_capability(c),
        ),
        None => Seq::empty(),
    };
    k + a + r + if caps.force_feedback { seq!["EV_FF"@] } else { Seq::empty() }
}

fn push_str(out: &mut Vec<String>, s: &str)
    ensures
        crate::profiles::strings_view(final(out)@) == crate::profiles::strings_view(old(out)@).push(s@),
{
    let ghost before = crate::profiles::strings_view(out@);
    out.push(s.to_owned());
    assert(crate::profiles::strings_view(out@) =~= before.push(s@));
}

fn push_named_keys(out: &mut Vec<String>, codes: &[u16])
    ensures
        crate::profiles::strings_view(final(out)@) == crate::profiles::strings_view(old(out)@) + named(
            codes@,
            |c: u16| key_capability(c),
        ),
{
    let ghost base = crate::profiles::strings_view(out@);
    let mut i: usize = 0;
    assert(base + named(codes@.subrange(0, 0), |c: u16| key_capability(c)) =~= base);
    while i < codes.len()
        invariant
            i <= codes@.len(),
            crate::profiles::strings_view(out@) == base + named(codes@.subrange(0, i as int), |c: u16| key_capability(c)),
        decreases codes@.len() - i,
    {
        let ghost pre = codes@.subrange(0, i + 1);
        assert(pre.drop_last() =~= codes@.subrange(0, i as int));
        if let Some(n) = key_capability_str(codes[i]) {
            push_str(out, n);
        }
        assert(crate::profiles::strings_view(out@) =~= base + named(pre, |c: u16| key_capability(c)));
        i = i + 1;
    }
    assert(codes@.subrange(0, codes@.len() as int) =~= codes@);
}

fn push_named_abs(out: &mut Vec<String>, codes: &[u16])
    ensures
        crate::profiles::strings_view(final(out)@) == crate::profiles::strings_view(old(out)@) + named(
            codes@,
            |c: u16| abs_capability(c),
        ),
{
    let ghost base = crate::profiles::strings_view(out@);
    let mut i: usize = 0;
    assert(base + named(codes@.subrange(0, 0), |c: u16| abs_capability(c)) =~= base);
    while i < codes.len()
        invariant
            i <= codes@.len(),
            crate::profiles::strings_view(out@) == base + named(codes@.subrange(0, i as int), |c: u16| abs_capability(c)),
        decreases codes@.len() - i,
    {
        let ghost pre = codes@.subrange(0, i + 1);
        assert(pre.drop_last() =~= codes@.subrange(0, i as int));
        if let Some(n) = abs_capability_str(codes[i]) {
            push_str(out, n);
        }
        assert(crate::profiles::strings_view(out@) =~= base + named(pre, |c: u16| abs_capability(c)));
        i = i + 1;
    }
    assert(codes@.subrange(0, codes@.len() as int) =~= codes@);
}

fn push_named_rel(out: &mut Vec<String>, codes: &[u16])
    ensures
        crate::profiles::strings_view(final(out)@) == crate::profiles::strings_view(old(out)@) + named(
            codes@,
            |c: u16| rel_capability(c),
        ),
{
    let ghost base = crate::profiles::strings_view(out@);
    let mut i: usize = 0;
    assert(base + named(codes@.subrange(0, 0), |c: u16| rel_capability(c)) =~= base);
    while i < codes.len()
        invariant
            i <= codes@.len(),
            crate::profiles::strings_view(out@) == base + named(codes@.subrange(0, i as int), |c: u16| rel_capability(c)),
        decreases codes@.len() - i,
    {
        let ghost pre = codes@.subrange(0, i + 1);
        assert(pre.drop_last() =~= codes@.subrange(0, i as int));
        if let Some(n) = rel_capability_str(codes[i]) {
            push_str(out, n);
        }
        assert(crate::profiles::strings_view(out@) =~= base + named(pre, |c: u16| rel_capability(c)));
        i = i + 1;
    }
    assert(codes@.subrange(0, codes@.len() as int) =~= codes@);
}

/// The capability names listed for a device (see [`capability_names`]).
pub fn capabilities(caps: &DeviceCapabilities) -> (r: Vec<String>)
    ensures
        crate::profiles::strings_view(r@) == capability_names(*caps),
{
    let mut out: Vec<String> = Vec::new();
    assert(crate::profiles::strings_view(out@) =~= Seq::<Seq<char>>::empty());
    if let Some(keys) = &caps.keys {
        if key_set_has_keyboard_keys(keys) {
            push_str(&mut out, "KEYBOARD");
        }
        if key_set_has_mouse_buttons(keys) {
            push_str(&mut out, "MOUSE_BUTTONS");
        }
        push_named_keys(&mut out, keys);
    }
    let ghost after_keys = crate::profiles::strings_view(out@);
    if let Some(abs) = &caps.abs {
        push_named_abs(&mut out, abs);
    }
    let ghost after_abs = crate::profiles::strings_view(out@);
    if let Some(rel) = &caps.rel {
        if relative_set_has_mouse_motion(rel) {
            push_str(&mut out, "MOUSE_MOTION");
        }
        push_named_rel(&mut out, rel);
    }
    let ghost after_rel = crate::profiles::strings_view(out@);
    if caps.force_feedback {
        push_str(&mut out, "EV_FF");
    }
    proof {
        let k = match codes(caps.keys) {
            Some(keys) => (if keyboard_keys(keys) { seq!["KEYBOARD"@] } else { Seq::empty() }) + (
            if mouse_buttons(keys) { seq!["MOUSE_BUTTONS"@] } else { Seq::empty() }) + named(
                keys,
                |c: u16| key_capability(c),
            ),
            None => Seq::empty(),
        };
        assert(after_keys =~= k);
        let a = match codes(caps.abs) {
            Some(abs) => named(abs, |c: u16| abs_capability(c)),
            None => Seq::empty(),
        };
        assert(after_abs =~= k + a);
        let r = match codes(caps.rel) {
            Some(rel) => (if mouse_motion(rel) { seq!["MOUSE_MOTION"@] } else { Seq::empty() }) + named(
                rel,
                |c: u16| rel_capability(c),
            ),
            None => Seq::empty(),
        };
        assert(after_rel =~= k + a + r);
    }
    assert(crate::profiles::strings_view(out@) =~= capability_names(*caps));
    out
}

/// The device path a selector resolves to: an absolute path as it is,
/// otherwise the path of the first device whose id, name or path it equals.
pub fn resolve_device(devices: &Vec<DeviceInfo>, selector: &str) -> (r: Option<String>)
    ensures
        is_absolute_path(selector@) ==> (r matches Some(p) && p@ == selector@),
        !is_absolute_path(selector@) ==> match r {
            Some(p) => exists|i: int|
                0 <= i < devices@.len() && selects(devices@[i], selector@) && p@ == devices@[i].path@
                    && forall|k: int| 0 <= k < i ==> !selects(#[trigger] devices@[k], selector@),
            None => forall|k: int| 0 <= k < devices@.len() ==> !selects(#[trigger] devices@[k], selector@),
        },
{
    if is_absolute(selector) {
        return Some(selector.to_owned());
    }
    match find_device(devices, selector) {
        Some(i) => Some(devices[i].path.clone()),
        None => None,
    }
}

} // verus!
