//! Input devices as the library sees them, and the name-based hints that
//! classify them.

use vstd::prelude::*;
use crate::text::{
    chars_eq, chars_of, concat_chars, contains_seq, contains_str, hex4, hex4_chars, lower,
    lower_chars, string_from_chars,
};

verus! {

/// An input device found on the system.
#[derive(Clone, Debug)]
pub struct DeviceInfo {
    pub id: String,
    pub name: String,
    pub path: String,
    pub device_kind: String,
    pub phys: String,
    pub uniq: String,
    pub bus: u16,
    pub vendor: u16,
    pub product: u16,
    pub version: u16,
    pub capabilities: Vec<String>,
}

impl DeviceInfo {
    /// `vendor:product` as two groups of four lower-case hex digits.
    pub fn hardware_id(&self) -> (r: String)
        ensures
            r@ == hex4(self.vendor) + seq![':'] + hex4(self.product),
    {
        let v = hex4_chars(self.vendor);
        let colon = chars_of(":");
        let p = hex4_chars(self.product);
        proof {
            reveal_strlit(":");
        }
        let head = concat_chars(&v, &colon);
        let all = concat_chars(&head, &p);
        assert(colon@ =~= seq![':']);
        string_from_chars(&all)
    }
}

/// Two device records hold the same values.
pub open spec fn same_device(a: DeviceInfo, b: DeviceInfo) -> bool {
    &&& a.id@ == b.id@
    &&& a.name@ == b.name@
    &&& a.path@ == b.path@
    &&& a.device_kind@ == b.device_kind@
    &&& a.phys@ == b.phys@
    &&& a.uniq@ == b.uniq@
    &&& a.bus == b.bus && a.vendor == b.vendor && a.product == b.product && a.version == b.version
    &&& a.capabilities@.len() == b.capabilities@.len()
    &&& forall|i: int|
        0 <= i < a.capabilities@.len() ==> #[trigger] a.capabilities@[i]@ == b.capabilities@[i]@
}

/// A copy of a list of strings.
pub fn copy_strings(v: &Vec<String>) -> (r: Vec<String>)
    ensures
        r@.len() == v@.len(),
        forall|i: int| 0 <= i < v@.len() ==> #[trigger] r@[i]@ == v@[i]@,
{
    let mut r: Vec<String> = Vec::new();
    let mut i: usize = 0;
    while i < v.len()
        invariant
            i <= v@.len(),
            r@.len() == i,
            forall|k: int| 0 <= k < i ==> #[trigger] r@[k]@ == v@[k]@,
        decreases v@.len() - i,
    {
        r.push(v[i].clone());
        i = i + 1;
    }
    r
}

impl DeviceInfo {
    /// A copy of this record.
    pub fn copy(&self) -> (r: DeviceInfo)
        ensures
            same_device(r, *self),
    {
        DeviceInfo {
            id: self.id.clone(),
            name: self.name.clone(),
            path: self.path.clone(),
            device_kind: self.device_kind.clone(),
            phys: self.phys.clone(),
            uniq: self.uniq.clone(),
            bus: self.bus,
            vendor: self.vendor,
            product: self.product,
            version: self.version,
            capabilities: copy_strings(&self.capabilities),
        }
    }
}

fn any_hint(lowered: &[char], hints: &Vec<&str>) -> (r: bool)
    ensures
        r == exists|i: int| 0 <= i < hints@.len() && contains_seq(lowered@, #[trigger] hints@[i]@),
{
    let mut i: usize = 0;
    while i < hints.len()
        invariant
            i <= hints@.len(),
            forall|k: int| 0 <= k < i ==> !contains_seq(lowered@, #[trigger] hints@[k]@),
        decreases hints@.len() - i,
    {
        if contains_str(lowered, hints[i]) {
            return true;
        }
        i = i + 1;
    }
    false
}

/// Name fragments that mark a motion sensor (gyro/accelerometer) node.
pub open spec fn motion_sensor_hints() -> Seq<&'static str> {
    seq!["motion sensor", "motion sensors", "gyro", "accelerometer", "imu"]
}

fn motion_sensor_hint_list() -> (r: Vec<&'static str>)
    ensures
        r@ == motion_sensor_hints(),
{
    let r = vec!["motion sensor", "motion sensors", "gyro", "accelerometer", "imu"];
    assert(r@ =~= motion_sensor_hints());
    r
}

/// Whether the lower-cased `name` mentions a motion sensor.
pub open spec fn motion_sensor_name(name: Seq<char>) -> bool {
    exists|i: int|
        0 <= i < motion_sensor_hints().len() && contains_seq(
            lower(name),
            #[trigger] motion_sensor_hints()[i]@,
        )
}

/// Whether a device name looks like a motion sensor.
pub fn name_has_motion_sensor_hint(name: &str) -> (r: bool)
    ensures
        r == motion_sensor_name(name@),
{
    let chars = chars_of(name);
    let lowered = lower_chars(&chars);
    let hints = motion_sensor_hint_list();
    any_hint(&lowered, &hints)
}

/// Name fragments that on their own identify a controller family.
pub open spec fn controller_family_hints() -> Seq<&'static str> {
    seq![
        "gamepad",
        "joystick",
        "joypad",
        "joy-con",
        "joycon",
        "joy con",
        "x-box",
        "xbox",
        "xinput",
        "dualshock",
        "dualsense",
        "playstation",
        "sony interactive",
        "steam controller",
        "steam deck",
        "steam virtual",
        "nintendo",
        "switch pro",
        "gamecube",
        "gc controller",
        "stadia",
        "shield",
        "8bitdo",
        "horipad",
        "hori ",
        "powera",
        "azeron",
        "elite",
        "navigation",
    ]
}

/// Name fragments that identify a controller when the name also says
/// "controller".
pub open spec fn controller_word_hints() -> Seq<&'static str> {
    seq![
        "8bitdo",
        "dual",
        "game",
        "nintendo",
        "playstation",
        "pro",
        "sony",
        "steam",
        "switch",
        "wireless",
        "x-box",
        "xbox",
        "xinput",
    ]
}

fn controller_family_hint_list() -> (r: Vec<&'static str>)
    ensures
        r@ == controller_family_hints(),
{
    let r = vec![
        "gamepad",
        "joystick",
        "joypad",
        "joy-con",
        "joycon",
        "joy con",
        "x-box",
        "xbox",
        "xinput",
        "dualshock",
        "dualsense",
        "playstation",
        "sony interactive",
        "steam controller",
        "steam deck",
        "steam virtual",
        "nintendo",
        "switch pro",
        "gamecube",
        "gc controller",
        "stadia",
        "shield",
        "8bitdo",
        "horipad",
        "hori ",
        "powera",
        "azeron",
        "elite",
        "navigation",
    ];
    assert(r@ =~= controller_family_hints());
    r
}

fn controller_word_hint_list() -> (r: Vec<&'static str>)
    ensures
        r@ == controller_word_hints(),
{
    let r = vec![
        "8bitdo",
        "dual",
        "game",
        "nintendo",
        "playstation",
        "pro",
        "sony",
        "steam",
        "switch",
        "wireless",
        "x-box",
        "xbox",
        "xinput",
    ];
    assert(r@ =~= controller_word_hints());
    r
}

/// Whether `name` (lower-cased) contains one of `hints`.
pub open spec fn mentions_any(name: Seq<char>, hints: Seq<&'static str>) -> bool {
    exists|i: int| 0 <= i < hints.len() && contains_seq(lower(name), #[trigger] hints[i]@)
}

/// Whether a device name identifies a game controller: it names a controller
/// family, or it says "controller" together with a brand or style word.
pub open spec fn controller_name(name: Seq<char>) -> bool {
    mentions_any(name, controller_family_hints()) || (contains_seq(lower(name), "controller"@)
        && mentions_any(name, controller_word_hints()))
}

/// Whether a device name looks like a game controller.
pub fn name_has_controller_hint(name: &str) -> (r: bool)
    ensures
        r == controller_name(name@),
{
    let chars = chars_of(name);
    let lowered = lower_chars(&chars);
    let family = controller_family_hint_list();
    if any_hint(&lowered, &family) {
        return true;
    }
    let words = controller_word_hint_list();
    contains_str(&lowered, "controller") && any_hint(&lowered, &words)
}

/// Picks the device whose id, name or path equals `selector` (the first such
/// device in `devices`).
pub open spec fn selects(device: DeviceInfo, selector: Seq<char>) -> bool {
    device.id@ == selector || device.name@ == selector || device.path@ == selector
}

/// Index of the first device `selector` picks, if any.
pub fn find_device(devices: &Vec<DeviceInfo>, selector: &str) -> (r: Option<usize>)
    ensures
        match r {
            Some(i) => i < devices@.len() && selects(devices@[i as int], selector@) && forall|
                k: int,
            | 0 <= k < i ==> !selects(#[trigger] devices@[k], selector@),
            None => forall|k: int| 0 <= k < devices@.len() ==> !selects(#[trigger] devices@[k], selector@),
        },
{
    let sel = chars_of(selector);
    let mut i: usize = 0;
    while i < devices.len()
        invariant
            i <= devices@.len(),
            sel@ == selector@,
            forall|k: int| 0 <= k < i ==> !selects(#[trigger] devices@[k], selector@),
        decreases devices@.len() - i,
    {
        let d = &devices[i];
        let id = chars_of(d.id.as_str());
        let name = chars_of(d.name.as_str());
        let path = chars_of(d.path.as_str());
        if chars_eq(&id, &sel) || chars_eq(&name, &sel) || chars_eq(&path, &sel) {
            return Some(i);
        }
        i = i + 1;
    }
    None
}

/// `Path::is_absolute` on Unix: the path starts at the root.
pub open spec fn is_absolute_path(path: Seq<char>) -> bool {
    path.len() > 0 && path[0] == '/'
}

pub fn is_absolute(path: &str) -> (r: bool)
    ensures
        r == is_absolute_path(path@),
{
    let chars = chars_of(path);
    chars.len() > 0 && chars[0] == '/'
}

/// The device record used for an absolute path that matches no known device.
pub open spec fn is_path_device(d: DeviceInfo, selector: Seq<char>) -> bool {
    &&& d.id@ == "path:"@ + selector
    &&& d.name@ == selector
    &&& d.path@ == selector
    &&& d.device_kind@ == "path"@
    &&& d.phys@.len() == 0
    &&& d.uniq@.len() == 0
    &&& d.bus == 0 && d.vendor == 0 && d.product == 0 && d.version == 0
    &&& d.capabilities@.len() == 0
}

/// The raw-path device for an absolute `selector`, or `None` for a relative one.
pub fn fallback_absolute_device(selector: &str) -> (r: Option<DeviceInfo>)
    ensures
        match r {
            Some(d) => is_absolute_path(selector@) && is_path_device(d, selector@),
            None => !is_absolute_path(selector@),
        },
{
    if !is_absolute(selector) {
        return None;
    }
    let prefix = chars_of("path:");
    let sel = chars_of(selector);
    let id = concat_chars(&prefix, &sel);
    Some(
        DeviceInfo {
            id: string_from_chars(&id),
            name: selector.to_owned(),
            path: selector.to_owned(),
            device_kind: "path".to_owned(),
            phys: String::new(),
            uniq: String::new(),
            bus: 0,
            vendor: 0,
            product: 0,
            version: 0,
            capabilities: Vec::new(),
        },
    )
}

/// Resolves a selector (device id, name or path) against the listed devices;
/// an absolute path that matches none becomes a raw path device.
pub fn resolve_device_info(devices: &Vec<DeviceInfo>, selector: &str) -> (r: Option<DeviceInfo>)
    ensures
        match r {
            Some(d) => (exists|i: int|
                0 <= i < devices@.len() && selects(devices@[i], selector@) && same_device(d, devices@[i])
                    && forall|k: int| 0 <= k < i ==> !selects(#[trigger] devices@[k], selector@))
                || ((forall|k: int|
                0 <= k < devices@.len() ==> !selects(#[trigger] devices@[k], selector@))
                && is_absolute_path(selector@) && is_path_device(d, selector@)),
            None => (forall|k: int|
                0 <= k < devices@.len() ==> !selects(#[trigger] devices@[k], selector@))
                && !is_absolute_path(selector@),
        },
{
    match find_device(devices, selector) {
        Some(i) => Some(devices[i].copy()),
        None => fallback_absolute_device(selector),
    }
}

/// How a device is shown in messages: its id when its name is just its path,
/// otherwise `name (id)`.
pub open spec fn device_label_text(d: DeviceInfo) -> Seq<char> {
    if d.name@ == d.path@ {
        d.id@
    } else {
        d.name@ + " ("@ + d.id@ + ")"@
    }
}

pub fn device_label(device: &DeviceInfo) -> (r: String)
    ensures
        r@ == device_label_text(*device),
{
    let name = chars_of(device.name.as_str());
    let path = chars_of(device.path.as_str());
    if chars_eq(&name, &path) {
        device.id.clone()
    } else {
        let id = chars_of(device.id.as_str());
        let open = chars_of(" (");
        let close = chars_of(")");
        let a = concat_chars(&name, &open);
        let b = concat_chars(&a, &id);
        let c = concat_chars(&b, &close);
        string_from_chars(&c)
    }
}

} // verus!
