//! Remapping profiles: what a profile holds, the models its contracts speak
//! of, device and process matchers, and mapping lookups.

use vstd::prelude::*;
use crate::devices::DeviceInfo;
use crate::event_code::{event_name, EventCode};
use crate::glob::{glob_ci, glob_matches_ci};
use crate::text::{
    chars_eq, chars_of, contains_chars, contains_seq, lower, lower_chars, trim, trim_chars,
    trim_str,
};

verus! {

pub const MAIN_LAYER_ID: &'static str = "main";

pub const MAX_SHIFT_LAYERS: usize = 10;

pub const DEFAULT_TURBO_INTERVAL_MS: u64 = 75;

pub const DEFAULT_LONG_PRESS_MS: u64 = 450;

pub const DEFAULT_MULTI_PRESS_MS: u64 = 300;

pub const MACRO_TAP_RELEASE_MS: u64 = 20;

/// A USB vendor or product id.
#[derive(Clone, Copy, Debug, PartialEq, Eq, Structural)]
pub struct IdValue(pub u16);

/// The value of digit `c` in base `radix` (10 or 16, either case).
pub open spec fn digit_value(c: char, radix: nat) -> Option<nat> {
    if '0' <= c && c <= '9' {
        Some((c as nat - '0' as nat) as nat)
    } else if radix == 16 && 'a' <= c && c <= 'f' {
        Some((c as nat - 'a' as nat + 10) as nat)
    } else if radix == 16 && 'A' <= c && c <= 'F' {
        Some((c as nat - 'A' as nat + 10) as nat)
    } else {
        None
    }
}

/// The number the digits of `s` write in base `radix`, if all are digits.
pub open spec fn digits_value(s: Seq<char>, radix: nat) -> Option<nat>
    decreases s.len(),
{
    if s.len() == 0 {
        Some(0)
    } else {
        match (digits_value(s.drop_last(), radix), digit_value(s.last(), radix)) {
            (Some(v), Some(d)) => Some(v * radix + d),
            _ => None,
        }
    }
}

/// `u16::from_str_radix`: an optional `+`, then at least one digit, for a
/// value that fits in 16 bits.
pub open spec fn u16_in_radix(s: Seq<char>, radix: nat) -> Option<u16> {
    let body = if s.len() > 0 && s[0] == '+' {
        s.drop_first()
    } else {
        s
    };
    if body.len() == 0 {
        None
    } else {
        match digits_value(body, radix) {
            Some(v) => if v <= 0xffff {
                Some(v as u16)
            } else {
                None
            },
            None => None,
        }
    }
}

/// A device id written as text: trimmed, hexadecimal after `0x` or `0X`,
/// decimal otherwise.
pub open spec fn id_value_of(text: Seq<char>) -> Option<u16> {
    let t = trim(text);
    if t.len() >= 2 && t[0] == '0' && (t[1] == 'x' || t[1] == 'X') {
        u16_in_radix(t.skip(2), 16)
    } else {
        u16_in_radix(t, 10)
    }
}

fn digit_of(c: char, radix: u32) -> (r: Option<u32>)
    requires
        radix == 10 || radix == 16,
    ensures
        match r {
            Some(d) => digit_value(c, radix as nat) == Some(d as nat) && d < radix,
            None => digit_value(c, radix as nat) is None,
        },
{
    if '0' <= c && c <= '9' {
        Some((c as u32) - ('0' as u32))
    } else if radix == 16 && 'a' <= c && c <= 'f' {
        Some((c as u32) - ('a' as u32) + 10)
    } else if radix == 16 && 'A' <= c && c <= 'F' {
        Some((c as u32) - ('A' as u32) + 10)
    } else {
        None
    }
}

proof fn lemma_digits_grow(s: Seq<char>, radix: nat, k: int)
    requires
        radix >= 2,
        0 <= k <= s.len(),
        digits_value(s, radix) is Some,
    ensures
        digits_value(s.subrange(0, k), radix) is Some,
        digits_value(s.subrange(0, k), radix)->0 <= digits_value(s, radix)->0,
    decreases s.len() - k,
{
    if k < s.len() {
        let t = s.drop_last();
        assert(s.subrange(0, k) =~= t.subrange(0, k));
        lemma_digits_grow(t, radix, k);
        let v = digits_value(t, radix)->0;
        let d = digit_value(s.last(), radix)->0;
        assert(v <= v * radix + d) by (nonlinear_arith)
            requires radix >= 2;
    } else {
        assert(s.subrange(0, k) =~= s);
    }
}

fn u16_from_radix(s: &[char], radix: u32) -> (r: Option<u16>)
    requires
        radix == 10 || radix == 16,
    ensures
        r == u16_in_radix(s@, radix as nat),
{
    let start: usize = if s.len() > 0 && s[0] == '+' { 1 } else { 0 };
    let ghost body = if s@.len() > 0 && s@[0] == '+' { s@.drop_first() } else { s@ };
    assert(s@.subrange(start as int, s@.len() as int) =~= body);
    if start >= s.len() {
        return None;
    }
    let mut value: u32 = 0;
    let mut i: usize = start;
    while i < s.len()
        invariant
            start <= i <= s@.len(),
            body == s@.subrange(start as int, s@.len() as int),
            body == (if s@.len() > 0 && s@[0] == '+' { s@.drop_first() } else { s@ }),
            digits_value(body.subrange(0, i - start), radix as nat) == Some(value as nat),
            value <= 0xffff,
            radix == 10 || radix == 16,
        decreases s@.len() - i,
    {
        let ghost pre = body.subrange(0, i + 1 - start);
        assert(pre.drop_last() =~= body.subrange(0, i - start));
        assert(pre.last() == s@[i as int]);
        match digit_of(s[i], radix) {
            Some(d) => {
                let next: u32 = value * radix + d;
                assert(digits_value(pre, radix as nat) == Some(next as nat));
                if next > 0xffff {
                    proof {
                        if digits_value(body, radix as nat) is Some {
                            lemma_digits_grow(body, radix as nat, i + 1 - start);
                        }
                    }
                    return None;
                }
                value = next;
            },
            None => {
                assert(digits_value(pre, radix as nat) is None);
                proof {
                    if digits_value(body, radix as nat) is Some {
                        lemma_digits_grow(body, radix as nat, i + 1 - start);
                    }
                }
                return None;
            },
        }
        i = i + 1;
    }
    assert(body.subrange(0, i - start) =~= body);
    Some(value as u16)
}

impl IdValue {
    pub fn as_u16(self) -> (r: u16)
        ensures
            r == self.0,
    {
        self.0
    }

    /// A device id given as text: hexadecimal after `0x`, decimal
    /// otherwise (see [`id_value_of`]).
    pub fn parse(text: &str) -> (r: Option<IdValue>)
        ensures
            r == (match id_value_of(text@) {
                Some(v) => Some(IdValue(v)),
                None => None,
            }),
    {
        let t = trim_str(text);
        let n = if t.len() >= 2 && t[0] == '0' && (t[1] == 'x' || t[1] == 'X') {
            let hex = crate::text::sub_chars(&t, 2, t.len());
            assert(hex@ =~= t@.skip(2));
            u16_from_radix(&hex, 16)
        } else {
            u16_from_radix(&t, 10)
        };
        match n {
            Some(v) => Some(IdValue(v)),
            None => None,
        }
    }

    /// A device id given as a number: it must lie in 0..=65535.
    pub fn from_integer(value: i128) -> (r: Option<IdValue>)
        ensures
            r == (if 0 <= value <= 0xffff {
                Some(IdValue(value as u16))
            } else {
                None
            }),
    {
        if 0 <= value && value <= 0xffff {
            Some(IdValue(value as u16))
        } else {
            None
        }
    }
}

/// Which physical devices a profile applies to; every given field must match.
#[derive(Clone, Debug, Default)]
pub struct DeviceMatch {
    pub name: Option<String>,
    pub serial: Option<String>,
    pub phys: Option<String>,
    pub vendor_id: Option<IdValue>,
    pub product_id: Option<IdValue>,
}

/// Whether `matcher` accepts `device`: the name (unless `*`) occurs in the
/// device name ignoring ASCII case; serial, phys and ids are equal.
pub open spec fn device_matches(matcher: DeviceMatch, device: DeviceInfo) -> bool {
    &&& (matcher.name matches Some(n) ==> n@ == "*"@ || contains_seq(lower(device.name@), lower(n@)))
    &&& (matcher.serial matches Some(s) ==> device.uniq@ == s@)
    &&& (matcher.phys matches Some(p) ==> device.phys@ == p@)
    &&& (matcher.vendor_id matches Some(v) ==> device.vendor == v.0)
    &&& (matcher.product_id matches Some(p) ==> device.product == p.0)
}

impl DeviceMatch {
    pub fn matches(&self, device: &DeviceInfo) -> (r: bool)
        ensures
            r == device_matches(*self, *device),
    {
        if let Some(name) = &self.name {
            let n = chars_of(name.as_str());
            let star = chars_of("*");
            if !chars_eq(&n, &star) {
                let dn = chars_of(device.name.as_str());
                let dl = lower_chars(&dn);
                let nl = lower_chars(&n);
                if !contains_chars(&dl, &nl) {
                    return false;
                }
            }
        }
        if let Some(serial) = &self.serial {
            let a = chars_of(device.uniq.as_str());
            let b = chars_of(serial.as_str());
            if !chars_eq(&a, &b) {
                return false;
            }
        }
        if let Some(phys) = &self.phys {
            let a = chars_of(device.phys.as_str());
            let b = chars_of(phys.as_str());
            if !chars_eq(&a, &b) {
                return false;
            }
        }
        if let Some(vendor_id) = self.vendor_id {
            if device.vendor != vendor_id.as_u16() {
                return false;
            }
        }
        if let Some(product_id) = self.product_id {
            if device.product != product_id.as_u16() {
                return false;
            }
        }
        true
    }
}

/// Whether `path` occurs among the strings of `v`.
pub open spec fn has_path(v: Seq<String>, path: Seq<char>) -> bool {
    exists|i: int| 0 <= i < v.len() && (#[trigger] v[i])@ == path
}

fn contains_path(v: &Vec<String>, path: &str) -> (r: bool)
    ensures
        r == has_path(v@, path@),
{
    let p = chars_of(path);
    let mut i: usize = 0;
    while i < v.len()
        invariant
            i <= v@.len(),
            p@ == path@,
            forall|k: int| 0 <= k < i ==> (#[trigger] v@[k])@ != path@,
        decreases v@.len() - i,
    {
        let c = chars_of(v[i].as_str());
        if chars_eq(&c, &p) {
            return true;
        }
        i = i + 1;
    }
    false
}

/// A copy of a list of strings.
pub fn copy_string_vec(v: &Vec<String>) -> (r: Vec<String>)
    ensures
        strings_view(r@) == strings_view(v@),
{
    let r = crate::devices::copy_strings(v);
    assert(strings_view(r@) =~= strings_view(v@));
    r
}

/// A device `matcher` may take: it matches, is not excluded and not already
/// taken.
pub open spec fn group_candidate(
    matcher: DeviceMatch,
    device: DeviceInfo,
    exclude: Seq<String>,
    chosen: Seq<Seq<char>>,
) -> bool {
    device_matches(matcher, device) && !has_path(exclude, device.path@) && !chosen.contains(
        device.path@,
    )
}

/// The device paths a group of matchers resolves to: each matcher, in order,
/// takes the first device it accepts that is neither excluded nor taken by an
/// earlier matcher; a matcher with no such device adds nothing.
pub open spec fn group_paths(
    matchers: Seq<DeviceMatch>,
    devices: Seq<DeviceInfo>,
    exclude: Seq<String>,
) -> Seq<Seq<char>>
    decreases matchers.len(),
{
    if matchers.len() == 0 {
        Seq::empty()
    } else {
        let chosen = group_paths(matchers.drop_last(), devices, exclude);
        let m = matchers.last();
        if exists|i: int| 0 <= i < devices.len() && group_candidate(m, #[trigger] devices[i], exclude, chosen) {
            let i = choose|i: int|
                0 <= i < devices.len() && group_candidate(m, #[trigger] devices[i], exclude, chosen)
                    && forall|k: int| 0 <= k < i ==> !group_candidate(m, #[trigger] devices[k], exclude, chosen);
            chosen.push(devices[i].path@)
        } else {
            chosen
        }
    }
}

/// The view of a list of strings.
pub open spec fn strings_view(v: Seq<String>) -> Seq<Seq<char>> {
    v.map_values(|s: String| s@)
}

fn seq_has_path(chosen: &Vec<String>, path: &str) -> (r: bool)
    ensures
        r == strings_view(chosen@).contains(path@),
{
    let r = contains_path(chosen, path);
    proof {
        if r {
            let i = choose|i: int| 0 <= i < chosen@.len() && (#[trigger] chosen@[i])@ == path@;
            assert(strings_view(chosen@)[i] == path@);
        } else {
            assert forall|i: int| 0 <= i < strings_view(chosen@).len() implies strings_view(
                chosen@,
            )[i] != path@ by {
                assert(strings_view(chosen@)[i] == chosen@[i]@);
            }
        }
    }
    r
}

/// When some device is a candidate, a first one is.
proof fn lemma_first_candidate_exists(
    m: DeviceMatch,
    devices: Seq<DeviceInfo>,
    exclude: Seq<String>,
    chosen: Seq<Seq<char>>,
    i: int,
)
    requires
        0 <= i < devices.len(),
        group_candidate(m, devices[i], exclude, chosen),
    ensures
        exists|j: int|
            0 <= j < devices.len() && group_candidate(m, #[trigger] devices[j], exclude, chosen)
                && forall|k: int| 0 <= k < j ==> !group_candidate(m, #[trigger] devices[k], exclude, chosen),
    decreases i,
{
    if exists|k: int| 0 <= k < i && group_candidate(m, #[trigger] devices[k], exclude, chosen) {
        let k = choose|k: int| 0 <= k < i && group_candidate(m, #[trigger] devices[k], exclude, chosen);
        lemma_first_candidate_exists(m, devices, exclude, chosen, k);
    } else {
        assert(forall|k: int| 0 <= k < i ==> !group_candidate(m, #[trigger] devices[k], exclude, chosen));
    }
}

/// The grouped paths are at most one per matcher, all different, and none
/// of them excluded.
proof fn lemma_group_paths(matchers: Seq<DeviceMatch>, devices: Seq<DeviceInfo>, exclude: Seq<String>)
    ensures
        group_paths(matchers, devices, exclude).len() <= matchers.len(),
        forall|a: int, b: int| #![trigger group_paths(matchers, devices, exclude)[a], group_paths(matchers, devices, exclude)[b]]
            0 <= a < b < group_paths(matchers, devices, exclude).len() ==> group_paths(matchers, devices, exclude)[a]
                != group_paths(matchers, devices, exclude)[b],
        forall|a: int| 0 <= a < group_paths(matchers, devices, exclude).len() ==> !has_path(
            exclude,
            #[trigger] group_paths(matchers, devices, exclude)[a],
        ),
    decreases matchers.len(),
{
    if matchers.len() > 0 {
        let chosen = group_paths(matchers.drop_last(), devices, exclude);
        lemma_group_paths(matchers.drop_last(), devices, exclude);
        let m = matchers.last();
        if exists|i: int| 0 <= i < devices.len() && group_candidate(m, #[trigger] devices[i], exclude, chosen) {
            let w = choose|i: int| 0 <= i < devices.len() && group_candidate(m, #[trigger] devices[i], exclude, chosen);
            lemma_first_candidate_exists(m, devices, exclude, chosen, w);
            let i = choose|i: int|
                0 <= i < devices.len() && group_candidate(m, #[trigger] devices[i], exclude, chosen)
                    && forall|k: int| 0 <= k < i ==> !group_candidate(m, #[trigger] devices[k], exclude, chosen);
            let r = group_paths(matchers, devices, exclude);
            assert(r == chosen.push(devices[i].path@));
            assert forall|a: int, b: int| 0 <= a < b < r.len() implies #[trigger] r[a] != #[trigger] r[b] by {
                if b < chosen.len() {
                    assert(r[a] == chosen[a] && r[b] == chosen[b]);
                } else {
                    assert(r[a] == chosen[a]);
                    assert(chosen.contains(chosen[a]));
                }
            }
            assert forall|a: int| 0 <= a < r.len() implies !has_path(exclude, #[trigger] r[a]) by {
                if a < chosen.len() {
                    assert(r[a] == chosen[a]);
                }
            }
        }
    }
}

proof fn lemma_first_candidate_unique(
    m: DeviceMatch,
    devices: Seq<DeviceInfo>,
    exclude: Seq<String>,
    chosen: Seq<Seq<char>>,
    i: int,
)
    requires
        0 <= i < devices.len(),
        group_candidate(m, devices[i], exclude, chosen),
        forall|k: int| 0 <= k < i ==> !group_candidate(m, #[trigger] devices[k], exclude, chosen),
    ensures
        (choose|j: int|
            0 <= j < devices.len() && group_candidate(m, #[trigger] devices[j], exclude, chosen)
                && forall|k: int| 0 <= k < j ==> !group_candidate(m, #[trigger] devices[k], exclude, chosen)) == i,
{
    let j = choose|j: int|
        0 <= j < devices.len() && group_candidate(m, #[trigger] devices[j], exclude, chosen)
            && forall|k: int| 0 <= k < j ==> !group_candidate(m, #[trigger] devices[k], exclude, chosen);
    assert(0 <= j < devices.len() && group_candidate(m, devices[j], exclude, chosen)
        && forall|k: int| 0 <= k < j ==> !group_candidate(m, #[trigger] devices[k], exclude, chosen));
    if j < i {
        assert(!group_candidate(m, devices[j], exclude, chosen));
    }
    if i < j {
        assert(!group_candidate(m, devices[i], exclude, chosen));
    }
}

fn first_candidate(
    matcher: &DeviceMatch,
    devices: &Vec<DeviceInfo>,
    exclude_paths: &Vec<String>,
    chosen: &Vec<String>,
) -> (r: Option<usize>)
    ensures
        match r {
            Some(i) => i < devices@.len() && group_candidate(*matcher, devices@[i as int], exclude_paths@, strings_view(chosen@))
                && forall|k: int| 0 <= k < i ==> !group_candidate(*matcher, #[trigger] devices@[k], exclude_paths@, strings_view(chosen@)),
            None => forall|k: int| 0 <= k < devices@.len() ==> !group_candidate(*matcher, #[trigger] devices@[k], exclude_paths@, strings_view(chosen@)),
        },
{
    let mut d: usize = 0;
    while d < devices.len()
        invariant
            d <= devices@.len(),
            forall|k: int| 0 <= k < d ==> !group_candidate(*matcher, #[trigger] devices@[k], exclude_paths@, strings_view(chosen@)),
        decreases devices@.len() - d,
    {
        let device = &devices[d];
        if matcher.matches(device) && !contains_path(exclude_paths, device.path.as_str())
            && !seq_has_path(chosen, device.path.as_str()) {
            return Some(d);
        }
        d = d + 1;
    }
    None
}

/// Resolves grouped device matchers to source device paths: each matcher
/// takes the first device it matches that is not in `exclude_paths` and not
/// already taken by an earlier matcher, so two matchers for the same kind of
/// controller resolve to two distinct devices.
pub fn resolve_group_paths(
    matchers: &Vec<DeviceMatch>,
    devices: &Vec<DeviceInfo>,
    exclude_paths: &Vec<String>,
) -> (r: Vec<String>)
    ensures
        strings_view(r@) == group_paths(matchers@, devices@, exclude_paths@),
        r@.len() <= matchers@.len(),
        forall|a: int, b: int| 0 <= a < b < r@.len() ==> (#[trigger] r@[a])@ != (#[trigger] r@[b])@,
        forall|a: int| 0 <= a < r@.len() ==> !has_path(exclude_paths@, (#[trigger] r@[a])@),
{
    proof {
        lemma_group_paths(matchers@, devices@, exclude_paths@);
    }
    let mut chosen: Vec<String> = Vec::new();
    let mut m: usize = 0;
    while m < matchers.len()
        invariant
            m <= matchers@.len(),
            strings_view(chosen@) == group_paths(matchers@.subrange(0, m as int), devices@, exclude_paths@),
        decreases matchers@.len() - m,
    {
        let matcher = &matchers[m];
        let ghost prefix = matchers@.subrange(0, m as int);
        let ghost cur = strings_view(chosen@);
        assert(matchers@.subrange(0, m + 1).drop_last() =~= prefix);
        let found = first_candidate(matcher, devices, exclude_paths, &chosen);
        proof {
            let ms = matchers@.subrange(0, m + 1);
            assert(ms.last() == matchers@[m as int]);
            assert(group_paths(ms, devices@, exclude_paths@) == {
                let m2 = ms.last();
                if exists|i: int| 0 <= i < devices@.len() && group_candidate(m2, #[trigger] devices@[i], exclude_paths@, cur) {
                    let i = choose|i: int|
                        0 <= i < devices@.len() && group_candidate(m2, #[trigger] devices@[i], exclude_paths@, cur)
                            && forall|k: int| 0 <= k < i ==> !group_candidate(m2, #[trigger] devices@[k], exclude_paths@, cur);
                    cur.push(devices@[i].path@)
                } else {
                    cur
                }
            });
        }
        match found {
            Some(i) => {
                proof {
                    lemma_first_candidate_unique(*matcher, devices@, exclude_paths@, cur, i as int);
                }
                chosen.push(devices[i].path.clone());
                assert(strings_view(chosen@) =~= cur.push(devices@[i as int].path@));
            },
            None => {},
        }
        m = m + 1;
    }
    assert(matchers@.subrange(0, matchers@.len() as int) =~= matchers@);
    proof {
        let g = group_paths(matchers@, devices@, exclude_paths@);
        assert forall|a: int| 0 <= a < chosen@.len() implies (#[trigger] chosen@[a])@ == g[a] by {}
    }
    chosen
}

/// Patterns that identify the game or app a profile is for (process
/// autodetection).
#[derive(Clone, Debug, Default)]
pub struct ProcessMatch {
    pub patterns: Vec<String>,
}

/// Whether `s` holds a glob wildcard.
pub open spec fn has_wildcard(s: Seq<char>) -> bool {
    s.contains('*') || s.contains('?')
}

/// `str::rsplit('/').next()`: the part of `s` after its last `/`.
pub open spec fn basename(s: Seq<char>) -> Seq<char>
    decreases s.len(),
{
    if s.len() == 0 {
        s
    } else if s.last() == '/' {
        Seq::empty()
    } else {
        basename(s.drop_last()).push(s.last())
    }
}

/// Whether one pattern matches a process: a pattern with `*` or `?` glob
/// matches the full name or its basename; any other pattern equals one of
/// them ignoring ASCII case. Patterns are trimmed; an empty one matches
/// nothing.
pub open spec fn pattern_accepts(pattern: Seq<char>, candidate: Seq<char>, base: Seq<char>) -> bool {
    let p = trim(pattern);
    if p.len() == 0 {
        false
    } else if has_wildcard(p) {
        glob_ci(p, candidate) || glob_ci(p, base)
    } else {
        lower(p) == lower(base) || lower(p) == lower(candidate)
    }
}

/// Whether any of `patterns` matches the (trimmed, non-empty) process name.
pub open spec fn process_matches(patterns: Seq<String>, process_name: Seq<char>) -> bool {
    let candidate = trim(process_name);
    candidate.len() > 0 && exists|i: int|
        0 <= i < patterns.len() && pattern_accepts(
            (#[trigger] patterns[i])@,
            candidate,
            basename(candidate),
        )
}

/// What one pattern means for a process whose trimmed name is `candidate`
/// and whose base name is `base`: the trimmed pattern is not empty, and
/// either holds a `*` or `?` and, ignoring ASCII case, globs the whole name
/// or base name (`*` any run, `?` any one character), or equals one of them
/// ignoring ASCII case.
pub open spec fn pattern_means(pattern: Seq<char>, candidate: Seq<char>, base: Seq<char>) -> bool {
    let q = trim(pattern);
    &&& q.len() > 0
    &&& if has_wildcard(q) {
        crate::glob::wildcard_match(lower(q), lower(candidate)) || crate::glob::wildcard_match(lower(q), lower(base))
    } else {
        lower(q) == lower(base) || lower(q) == lower(candidate)
    }
}

/// A process matches some patterns exactly when its trimmed name is not
/// empty and some pattern, by [`pattern_means`], matches that name or its
/// base name.
pub proof fn law_process_match_meaning(patterns: Seq<String>, process_name: Seq<char>)
    ensures
        process_matches(patterns, process_name) == (trim(process_name).len() > 0 && exists|i: int|
            0 <= i < patterns.len() && pattern_means(
                (#[trigger] patterns[i])@,
                trim(process_name),
                basename(trim(process_name)),
            )),
{
    let c = trim(process_name);
    assert forall|i: int| 0 <= i < patterns.len() implies pattern_accepts((#[trigger] patterns[i])@, c, basename(c))
        == pattern_means(patterns[i]@, c, basename(c)) by {
        let q = trim(patterns[i]@);
        crate::glob::law_glob_meaning(q, c);
        crate::glob::law_glob_meaning(q, basename(c));
    }
}

fn basename_of(s: &[char]) -> (r: Vec<char>)
    ensures
        r@ == basename(s@),
{
    let n = s.len();
    let mut j: usize = n;
    assert(s@.subrange(0, n as int) == s@);
    assert(s@.subrange(n as int, n as int) =~= Seq::<char>::empty());
    assert(basename(s@) =~= basename(s@.subrange(0, n as int)) + s@.subrange(n as int, n as int));
    while j > 0 && s[j - 1] != '/'
        invariant
            j <= n,
            n == s@.len(),
            basename(s@) == basename(s@.subrange(0, j as int)) + s@.subrange(j as int, n as int),
        decreases j,
    {
        let ghost pre = s@.subrange(0, j as int);
        assert(pre.drop_last() =~= s@.subrange(0, j - 1));
        assert(basename(pre) == basename(s@.subrange(0, j - 1)).push(s@[j - 1]));
        assert(s@.subrange(j - 1, n as int) =~= seq![s@[j - 1]] + s@.subrange(j as int, n as int));
        assert(basename(s@.subrange(0, j - 1)).push(s@[j - 1]) + s@.subrange(j as int, n as int)
            =~= basename(s@.subrange(0, j - 1)) + s@.subrange(j - 1, n as int));
        j = j - 1;
    }
    let r = sub_vec(s, j, n);
    proof {
        let pre = s@.subrange(0, j as int);
        if j > 0 {
            assert(pre.last() == '/');
            assert(basename(pre) == Seq::<char>::empty());
        } else {
            assert(pre.len() == 0);
        }
        assert(basename(pre) + s@.subrange(j as int, n as int) =~= s@.subrange(j as int, n as int));
    }
    r
}

fn sub_vec(s: &[char], from: usize, to: usize) -> (r: Vec<char>)
    requires
        from <= to <= s@.len(),
    ensures
        r@ == s@.subrange(from as int, to as int),
{
    crate::text::sub_chars(s, from, to)
}

fn has_wildcard_chars(s: &[char]) -> (r: bool)
    ensures
        r == has_wildcard(s@),
{
    let mut i: usize = 0;
    while i < s.len()
        invariant
            i <= s@.len(),
            forall|k: int| 0 <= k < i ==> s@[k] != '*' && s@[k] != '?',
        decreases s@.len() - i,
    {
        if s[i] == '*' || s[i] == '?' {
            assert(s@.contains(s@[i as int]));
            return true;
        }
        i = i + 1;
    }
    false
}

fn pattern_matches(pattern: &str, candidate: &[char], base: &[char]) -> (r: bool)
    ensures
        r == pattern_accepts(pattern@, candidate@, base@),
{
    let p = trim_str(pattern);
    if p.len() == 0 {
        return false;
    }
    if has_wildcard_chars(&p) {
        let ps = crate::text::string_from_chars(&p);
        let cs = crate::text::string_from_chars(candidate);
        let bs = crate::text::string_from_chars(base);
        glob_matches_ci(ps.as_str(), cs.as_str()) || glob_matches_ci(ps.as_str(), bs.as_str())
    } else {
        let pl = lower_chars(&p);
        let bl = lower_chars(base);
        let cl = lower_chars(candidate);
        chars_eq(&pl, &bl) || chars_eq(&pl, &cl)
    }
}

impl ProcessMatch {
    pub fn is_empty(&self) -> (r: bool)
        ensures
            r == (self.patterns@.len() == 0),
    {
        self.patterns.len() == 0
    }

    /// Whether any pattern matches the process name, which may be a short
    /// `comm` value or a full executable path; both the name and its basename
    /// are tried.
    pub fn matches(&self, process_name: &str) -> (r: bool)
        ensures
            r == process_matches(self.patterns@, process_name@),
    {
        let candidate = trim_str(process_name);
        if candidate.len() == 0 {
            return false;
        }
        let base = basename_of(&candidate);
        let mut i: usize = 0;
        while i < self.patterns.len()
            invariant
                i <= self.patterns@.len(),
                candidate@ == trim(process_name@),
                candidate@.len() > 0,
                base@ == basename(candidate@),
                forall|k: int| 0 <= k < i ==> !pattern_accepts((#[trigger] self.patterns@[k])@, candidate@, base@),
            decreases self.patterns@.len() - i,
        {
            if pattern_matches(self.patterns[i].as_str(), &candidate, &base) {
                assert(pattern_accepts((self.patterns@[i as int])@, candidate@, base@));
                return true;
            }
            i = i + 1;
        }
        false
    }
}

/// What a mapping does with its source control.
#[derive(Clone, Copy, Debug, PartialEq, Eq, Structural)]
pub enum MappingAction {
    Remap,
    Disable,
    Macro,
    Command,
}

/// When a mapping fires.
#[derive(Clone, Copy, Debug, PartialEq, Eq, Structural)]
pub enum ActivatorKind {
    Press,
    Release,
    LongPress,
    DoublePress,
    TriplePress,
}

/// A mapping's activator and its timing.
#[derive(Clone, Copy, Debug, PartialEq, Eq, Structural)]
pub struct ActivatorSettings {
    pub kind: ActivatorKind,
    pub delay_ms: u64,
}

impl Default for ActivatorSettings {
    fn default() -> (r: Self)
        ensures
            r == (ActivatorSettings { kind: ActivatorKind::Press, delay_ms: 0 }),
    {
        ActivatorSettings { kind: ActivatorKind::Press, delay_ms: 0 }
    }
}

/// Auto-fire while a button is held.
#[derive(Clone, Copy, Debug, PartialEq, Eq, Structural)]
pub struct TurboSettings {
    pub interval_ms: u64,
}

/// What a command mapping does.
#[derive(Clone, Copy, Debug, PartialEq, Eq, Structural)]
pub enum CommandAction {
    StopMacros,
    RunCommand,
    /// Emergency "turn remap off": stop the running remap, release the virtual
    /// device, and ungrab the source controller.
    RemapOff,
}

/// Whether a macro runs once per press or holds until the source is released.
#[derive(Clone, Copy, Debug, PartialEq, Eq, Structural)]
pub enum MacroMode {
    Press,
    Hold,
}

/// The steps a macro can take.
#[derive(Clone, Copy, Debug, PartialEq, Eq, Structural)]
pub enum MacroEventKind {
    Down,
    Up,
    Tap,
    Axis,
    Relative,
    Pause,
    Cancel,
}

/// One macro step.
#[derive(Clone, Debug)]
pub struct MacroEvent {
    pub kind: MacroEventKind,
    pub code: Option<EventCode>,
    pub code_name: String,
    pub value: i32,
    pub pause_ms: u64,
}

pub struct MacroEventModel {
    pub kind: MacroEventKind,
    pub code: Option<EventCode>,
    pub code_name: Seq<char>,
    pub value: i32,
    pub pause_ms: u64,
}

impl View for MacroEvent {
    type V = MacroEventModel;

    open spec fn view(&self) -> MacroEventModel {
        MacroEventModel {
            kind: self.kind,
            code: self.code,
            code_name: self.code_name@,
            value: self.value,
            pause_ms: self.pause_ms,
        }
    }
}

/// The view of a list of macro steps.
pub open spec fn events_view(v: Seq<MacroEvent>) -> Seq<MacroEventModel> {
    v.map_values(|e: MacroEvent| e@)
}

/// A macro: its steps, the steps run on release for a hold macro, and how
/// long each sequence takes.
#[derive(Clone, Debug)]
pub struct MacroSettings {
    pub mode: MacroMode,
    pub events: Vec<MacroEvent>,
    pub release_events: Vec<MacroEvent>,
    pub duration_ms: u64,
    pub release_duration_ms: u64,
}

pub struct MacroSettingsModel {
    pub mode: MacroMode,
    pub events: Seq<MacroEventModel>,
    pub release_events: Seq<MacroEventModel>,
    pub duration_ms: u64,
    pub release_duration_ms: u64,
}

impl View for MacroSettings {
    type V = MacroSettingsModel;

    open spec fn view(&self) -> MacroSettingsModel {
        MacroSettingsModel {
            mode: self.mode,
            events: events_view(self.events@),
            release_events: events_view(self.release_events@),
            duration_ms: self.duration_ms,
            release_duration_ms: self.release_duration_ms,
        }
    }
}

/// A command mapping's action and, for `RunCommand`, the argv to launch.
#[derive(Clone, Debug)]
pub struct CommandSettings {
    pub action: CommandAction,
    pub command_line: Vec<String>,
}

pub struct CommandSettingsModel {
    pub action: CommandAction,
    pub command_line: Seq<Seq<char>>,
}

impl View for CommandSettings {
    type V = CommandSettingsModel;

    open spec fn view(&self) -> CommandSettingsModel {
        CommandSettingsModel { action: self.action, command_line: strings_view(self.command_line@) }
    }
}

/// One mapping of a source control.
#[derive(Clone, Debug)]
pub struct Mapping {
    pub from: EventCode,
    pub to: EventCode,
    pub from_name: String,
    pub to_name: String,
    pub action: MappingAction,
    pub activator: ActivatorSettings,
    pub turbo: Option<TurboSettings>,
    pub macro_settings: Option<MacroSettings>,
    pub command: Option<CommandSettings>,
}

pub struct MappingModel {
    pub from: EventCode,
    pub to: EventCode,
    pub from_name: Seq<char>,
    pub to_name: Seq<char>,
    pub action: MappingAction,
    pub activator: ActivatorSettings,
    pub turbo: Option<TurboSettings>,
    pub macro_settings: Option<MacroSettingsModel>,
    pub command: Option<CommandSettingsModel>,
}

pub open spec fn macro_view(m: Option<MacroSettings>) -> Option<MacroSettingsModel> {
    match m {
        Some(x) => Some(x@),
        None => None,
    }
}

pub open spec fn command_view(c: Option<CommandSettings>) -> Option<CommandSettingsModel> {
    match c {
        Some(x) => Some(x@),
        None => None,
    }
}

impl View for Mapping {
    type V = MappingModel;

    open spec fn view(&self) -> MappingModel {
        MappingModel {
            from: self.from,
            to: self.to,
            from_name: self.from_name@,
            to_name: self.to_name@,
            action: self.action,
            activator: self.activator,
            turbo: self.turbo,
            macro_settings: macro_view(self.macro_settings),
            command: command_view(self.command),
        }
    }
}

/// The view of a list of mappings.
pub open spec fn mappings_view(v: Seq<Mapping>) -> Seq<MappingModel> {
    v.map_values(|m: Mapping| m@)
}

/// Whether holding or toggling the activation control selects a layer.
#[derive(Clone, Copy, Debug, PartialEq, Eq, Structural)]
pub enum LayerActivationMode {
    Hold,
    Toggle,
}

/// The control that selects a shift layer.
#[derive(Clone, Debug)]
pub struct LayerActivation {
    pub mode: LayerActivationMode,
    pub control: EventCode,
    pub control_name: String,
    pub consume: bool,
}

pub struct LayerActivationModel {
    pub mode: LayerActivationMode,
    pub control: EventCode,
    pub control_name: Seq<char>,
    pub consume: bool,
}

impl View for LayerActivation {
    type V = LayerActivationModel;

    open spec fn view(&self) -> LayerActivationModel {
        LayerActivationModel {
            mode: self.mode,
            control: self.control,
            control_name: self.control_name@,
            consume: self.consume,
        }
    }
}

pub open spec fn activation_view(a: Option<LayerActivation>) -> Option<LayerActivationModel> {
    match a {
        Some(x) => Some(x@),
        None => None,
    }
}

/// A layer of mappings: the main layer, or a shift layer with its activation.
#[derive(Clone, Debug)]
pub struct Layer {
    pub id: String,
    pub name: String,
    pub activation: Option<LayerActivation>,
    pub mappings: Vec<Mapping>,
}

pub struct LayerModel {
    pub id: Seq<char>,
    pub name: Seq<char>,
    pub activation: Option<LayerActivationModel>,
    pub mappings: Seq<MappingModel>,
}

impl View for Layer {
    type V = LayerModel;

    open spec fn view(&self) -> LayerModel {
        LayerModel {
            id: self.id@,
            name: self.name@,
            activation: activation_view(self.activation),
            mappings: mappings_view(self.mappings@),
        }
    }
}

/// The view of a list of layers.
pub open spec fn layers_view(v: Seq<Layer>) -> Seq<LayerModel> {
    v.map_values(|l: Layer| l@)
}

/// A remapping profile (analog tuning aside).
#[derive(Clone, Debug)]
pub struct Profile {
    pub id: String,
    pub name: String,
    pub description: String,
    pub device_match: DeviceMatch,
    /// Additional source devices grouped into the same virtual controller.
    pub groups: Vec<DeviceMatch>,
    pub process_match: ProcessMatch,
    pub output_type: String,
    /// Additional virtual output devices emitted alongside the primary one.
    pub outputs: Vec<String>,
    pub passthrough: bool,
    pub grab_source: bool,
    pub source_path: String,
    pub mappings: Vec<Mapping>,
    pub layers: Vec<Layer>,
}

/// What a profile holds, as its contracts see it.
pub struct ProfileModel {
    pub id: Seq<char>,
    pub name: Seq<char>,
    pub description: Seq<char>,
    pub device_match: DeviceMatch,
    pub groups: Seq<DeviceMatch>,
    pub process_patterns: Seq<Seq<char>>,
    pub output_type: Seq<char>,
    pub outputs: Seq<Seq<char>>,
    pub passthrough: bool,
    pub grab_source: bool,
    pub source_path: Seq<char>,
    pub mappings: Seq<MappingModel>,
    pub layers: Seq<LayerModel>,
}

impl View for Profile {
    type V = ProfileModel;

    open spec fn view(&self) -> ProfileModel {
        ProfileModel {
            id: self.id@,
            name: self.name@,
            description: self.description@,
            device_match: self.device_match,
            groups: self.groups@,
            process_patterns: strings_view(self.process_match.patterns@),
            output_type: self.output_type@,
            outputs: strings_view(self.outputs@),
            passthrough: self.passthrough,
            grab_source: self.grab_source,
            source_path: self.source_path@,
            mappings: mappings_view(self.mappings@),
            layers: layers_view(self.layers@),
        }
    }
}

impl MacroEvent {
    /// A copy of this step.
    pub fn copy(&self) -> (r: MacroEvent)
        ensures
            r@ == self@,
    {
        MacroEvent {
            kind: self.kind,
            code: self.code,
            code_name: self.code_name.clone(),
            value: self.value,
            pause_ms: self.pause_ms,
        }
    }
}

/// A copy of a list of macro steps.
pub fn copy_events(v: &Vec<MacroEvent>) -> (r: Vec<MacroEvent>)
    ensures
        events_view(r@) == events_view(v@),
{
    let mut r: Vec<MacroEvent> = Vec::new();
    let mut i: usize = 0;
    while i < v.len()
        invariant
            i <= v@.len(),
            r@.len() == i,
            forall|k: int| 0 <= k < i ==> (#[trigger] r@[k])@ == v@[k]@,
        decreases v@.len() - i,
    {
        r.push(v[i].copy());
        i = i + 1;
    }
    assert(events_view(r@) =~= events_view(v@));
    r
}

impl MacroSettings {
    /// A copy of this macro.
    pub fn copy(&self) -> (r: MacroSettings)
        ensures
            r@ == self@,
    {
        MacroSettings {
            mode: self.mode,
            events: copy_events(&self.events),
            release_events: copy_events(&self.release_events),
            duration_ms: self.duration_ms,
            release_duration_ms: self.release_duration_ms,
        }
    }
}

impl CommandSettings {
    /// A copy of these settings.
    pub fn copy(&self) -> (r: CommandSettings)
        ensures
            r@ == self@,
    {
        CommandSettings { action: self.action, command_line: copy_string_vec(&self.command_line) }
    }
}

impl Mapping {
    /// A copy of this mapping.
    pub fn copy(&self) -> (r: Mapping)
        ensures
            r@ == self@,
    {
        let macro_settings = match &self.macro_settings {
            Some(m) => Some(m.copy()),
            None => None,
        };
        let command = match &self.command {
            Some(c) => Some(c.copy()),
            None => None,
        };
        Mapping {
            from: self.from,
            to: self.to,
            from_name: self.from_name.clone(),
            to_name: self.to_name.clone(),
            action: self.action,
            activator: self.activator,
            turbo: self.turbo,
            macro_settings,
            command,
        }
    }
}

/// A copy of a list of mappings.
pub fn copy_mappings(v: &Vec<Mapping>) -> (r: Vec<Mapping>)
    ensures
        mappings_view(r@) == mappings_view(v@),
{
    let mut r: Vec<Mapping> = Vec::new();
    let mut i: usize = 0;
    while i < v.len()
        invariant
            i <= v@.len(),
            r@.len() == i,
            forall|k: int| 0 <= k < i ==> (#[trigger] r@[k])@ == v@[k]@,
        decreases v@.len() - i,
    {
        r.push(v[i].copy());
        i = i + 1;
    }
    assert(mappings_view(r@) =~= mappings_view(v@));
    r
}

/// The target of the last plain remapping of `from` among the mappings.
pub open spec fn remap_target(ms: Seq<MappingModel>, from: EventCode) -> Option<EventCode>
    decreases ms.len(),
{
    if ms.len() == 0 {
        None
    } else if ms.last().action == MappingAction::Remap && ms.last().from == from {
        Some(ms.last().to)
    } else {
        remap_target(ms.drop_last(), from)
    }
}

/// The index of the last mapping of `from`, if any.
pub open spec fn last_mapping_of(ms: Seq<MappingModel>, from: EventCode) -> Option<int>
    decreases ms.len(),
{
    if ms.len() == 0 {
        None
    } else if ms.last().from == from {
        Some(ms.len() - 1)
    } else {
        last_mapping_of(ms.drop_last(), from)
    }
}

/// Whether `m` is the last mapping of `from` among the mappings.
pub open spec fn last_mapping_is(ms: Seq<MappingModel>, from: EventCode, m: MappingModel) -> bool {
    match last_mapping_of(ms, from) {
        Some(j) => m == ms[j],
        None => false,
    }
}

/// Whether no two entries of a table share a key.
pub open spec fn unique_keys<V>(t: Seq<(EventCode, V)>) -> bool {
    forall|i: int, j: int| 0 <= i < j < t.len() ==> (#[trigger] t[i]).0 != (#[trigger] t[j]).0
}

proof fn lemma_last_mapping_bounds(ms: Seq<MappingModel>, from: EventCode)
    ensures
        last_mapping_of(ms, from) matches Some(i) ==> 0 <= i < ms.len() && ms[i].from == from,
        last_mapping_of(ms, from) is None ==> forall|i: int| 0 <= i < ms.len() ==> (#[trigger] ms[i]).from != from,
    decreases ms.len(),
{
    if ms.len() > 0 {
        lemma_last_mapping_bounds(ms.drop_last(), from);
        if ms.last().from != from {
            assert forall|i: int| 0 <= i < ms.len() - 1 implies ms[i] == ms.drop_last()[i] by {}
        }
    }
}

fn find_key<V>(t: &Vec<(EventCode, V)>, k: EventCode) -> (r: Option<usize>)
    ensures
        r matches Some(i) ==> i < t@.len() && t@[i as int].0 == k,
        r is None ==> forall|i: int| 0 <= i < t@.len() ==> (#[trigger] t@[i]).0 != k,
{
    let mut i: usize = 0;
    while i < t.len()
        invariant
            i <= t@.len(),
            forall|j: int| 0 <= j < i ==> (#[trigger] t@[j]).0 != k,
        decreases t@.len() - i,
    {
        if t[i].0 == k {
            return Some(i);
        }
        i = i + 1;
    }
    None
}

impl Layer {
    /// The plain remappings of this layer as a table from source to target;
    /// when a source is remapped twice the later mapping wins.
    pub fn mapping_table(&self) -> (r: Vec<(EventCode, EventCode)>)
        ensures
            unique_keys(r@),
            forall|i: int| 0 <= i < r@.len() ==> remap_target(mappings_view(self.mappings@), (#[trigger] r@[i]).0) == Some(r@[i].1),
            forall|k: EventCode| remap_target(mappings_view(self.mappings@), k) is Some ==> exists|i: int| 0 <= i < r@.len() && (#[trigger] r@[i]).0 == k,
    {
        let ghost ms = mappings_view(self.mappings@);
        let mut table: Vec<(EventCode, EventCode)> = Vec::new();
        let mut n: usize = 0;
        while n < self.mappings.len()
            invariant
                n <= self.mappings@.len(),
                ms == mappings_view(self.mappings@),
                unique_keys(table@),
                forall|i: int| 0 <= i < table@.len() ==> remap_target(ms.subrange(0, n as int), (#[trigger] table@[i]).0) == Some(table@[i].1),
                forall|k: EventCode| remap_target(ms.subrange(0, n as int), k) is Some ==> exists|i: int| 0 <= i < table@.len() && (#[trigger] table@[i]).0 == k,
            decreases self.mappings@.len() - n,
        {
            let ghost pre = ms.subrange(0, n + 1);
            assert(pre.drop_last() =~= ms.subrange(0, n as int));
            assert(pre.last() == self.mappings@[n as int]@);
            let m = &self.mappings[n];
            let ghost before = table@;
            if m.action == MappingAction::Remap {
                let ghost mut pos: int = 0;
                match find_key(&table, m.from) {
                    Some(j) => {
                        table.set(j, (m.from, m.to));
                        proof {
                            pos = j as int;
                        }
                    },
                    None => {
                        table.push((m.from, m.to));
                        proof {
                            pos = before.len() as int;
                        }
                    },
                }
                assert(table@[pos].0 == m.from);
                assert forall|k: EventCode| remap_target(pre, k) is Some implies exists|i: int| 0 <= i < table@.len() && (#[trigger] table@[i]).0 == k by {
                    if k != m.from {
                        assert(remap_target(pre, k) == remap_target(ms.subrange(0, n as int), k));
                        let i = choose|i: int| 0 <= i < before.len() && (#[trigger] before[i]).0 == k;
                        assert(table@[i].0 == k);
                    } else {
                        assert(table@[pos].0 == k);
                    }
                }
            } else {
                assert forall|k: EventCode| remap_target(pre, k) == remap_target(ms.subrange(0, n as int), k) by {}
            }
            n = n + 1;
        }
        assert(ms.subrange(0, self.mappings@.len() as int) =~= ms);
        table
    }

    /// Every mapping of this layer by its source; when a source is mapped
    /// twice the later mapping wins.
    pub fn mapping_behavior_table(&self) -> (r: Vec<(EventCode, Mapping)>)
        ensures
            unique_keys(r@),
            forall|i: int| 0 <= i < r@.len() ==> last_mapping_is(mappings_view(self.mappings@), (#[trigger] r@[i]).0, r@[i].1@),
            forall|k: EventCode| last_mapping_of(mappings_view(self.mappings@), k) is Some ==> exists|i: int| 0 <= i < r@.len() && (#[trigger] r@[i]).0 == k,
    {
        let ghost ms = mappings_view(self.mappings@);
        let mut table: Vec<(EventCode, Mapping)> = Vec::new();
        let mut n: usize = 0;
        while n < self.mappings.len()
            invariant
                n <= self.mappings@.len(),
                ms == mappings_view(self.mappings@),
                unique_keys(table@),
                forall|i: int| 0 <= i < table@.len() ==> last_mapping_is(ms.subrange(0, n as int), (#[trigger] table@[i]).0, table@[i].1@),
                forall|k: EventCode| last_mapping_of(ms.subrange(0, n as int), k) is Some ==> exists|i: int| 0 <= i < table@.len() && (#[trigger] table@[i]).0 == k,
            decreases self.mappings@.len() - n,
        {
            let ghost pre = ms.subrange(0, n + 1);
            assert(pre.drop_last() =~= ms.subrange(0, n as int));
            assert(pre.last() == self.mappings@[n as int]@);
            let m = &self.mappings[n];
            let c = m.copy();
            let ghost before = table@;
            let ghost mut pos: int = 0;
            match find_key(&table, m.from) {
                Some(j) => {
                    table.set(j, (m.from, c));
                    proof {
                        pos = j as int;
                    }
                },
                None => {
                    table.push((m.from, c));
                    proof {
                        pos = before.len() as int;
                    }
                },
            }
            assert(table@[pos].0 == m.from);
            assert forall|k: EventCode| last_mapping_of(pre, k) is Some implies exists|i: int| 0 <= i < table@.len() && (#[trigger] table@[i]).0 == k by {
                if k != m.from {
                    assert(last_mapping_of(pre, k) == last_mapping_of(ms.subrange(0, n as int), k));
                    let i = choose|i: int| 0 <= i < before.len() && (#[trigger] before[i]).0 == k;
                    assert(table@[i].0 == k);
                } else {
                    assert(table@[pos].0 == k);
                }
            }
            assert forall|i: int| 0 <= i < table@.len() implies last_mapping_is(pre, (#[trigger] table@[i]).0, table@[i].1@) by {
                let k = table@[i].0;
                if k != m.from {
                    proof_from_prefix(ms, n as int, k);
                    lemma_last_mapping_bounds(ms.subrange(0, n as int), k);
                }
            }
            n = n + 1;
        }
        assert(ms.subrange(0, self.mappings@.len() as int) =~= ms);
        table
    }
}

proof fn proof_from_prefix(ms: Seq<MappingModel>, n: int, k: EventCode)
    requires
        0 <= n < ms.len(),
    ensures
        last_mapping_of(ms.subrange(0, n), k) matches Some(j) ==> 0 <= j < n && ms.subrange(0, n)[j] == ms[j],
{
    lemma_last_mapping_bounds(ms.subrange(0, n), k);
}

/// The index of the first layer from `i` on whose id is `main`.
pub open spec fn first_main_from(layers: Seq<Layer>, i: int) -> Option<int>
    decreases layers.len() - i,
{
    if i < 0 || i >= layers.len() {
        None
    } else if layers[i].id@ == "main"@ {
        Some(i)
    } else {
        first_main_from(layers, i + 1)
    }
}

/// The main layer of a profile: the first layer with id `main`, else the
/// first layer.
pub open spec fn main_layer_of(layers: Seq<Layer>) -> Layer {
    match first_main_from(layers, 0) {
        Some(i) => layers[i],
        None => layers[0],
    }
}

proof fn lemma_first_main_skip(layers: Seq<Layer>, i: int, k: int)
    requires
        0 <= i <= k <= layers.len(),
        forall|j: int| i <= j < k ==> (#[trigger] layers[j]).id@ != "main"@,
    ensures
        first_main_from(layers, i) == first_main_from(layers, k),
    decreases k - i,
{
    if i < k {
        lemma_first_main_skip(layers, i + 1, k);
    }
}

impl Profile {
    /// The main layer: the layer with id `main`, else the first layer.
    pub fn main_layer(&self) -> (r: &Layer)
        requires
            self.layers@.len() > 0,
        ensures
            *r == main_layer_of(self.layers@),
            (exists|i: int| 0 <= i < self.layers@.len() && (#[trigger] self.layers@[i]).id@ == "main"@) ==> r.id@ == "main"@ && exists|i: int| 0 <= i < self.layers@.len() && self.layers@[i] == *r && (forall|j: int| 0 <= j < i ==> (#[trigger] self.layers@[j]).id@ != "main"@),
            (forall|i: int| 0 <= i < self.layers@.len() ==> (#[trigger] self.layers@[i]).id@ != "main"@) ==> *r == self.layers@[0],
    {
        let mut i: usize = 0;
        while i < self.layers.len()
            invariant
                i <= self.layers@.len(),
                forall|j: int| 0 <= j < i ==> (#[trigger] self.layers@[j]).id@ != "main"@,
            decreases self.layers@.len() - i,
        {
            if crate::text::str_eq(self.layers[i].id.as_str(), MAIN_LAYER_ID) {
                proof {
                    lemma_first_main_skip(self.layers@, 0, i as int);
                }
                return &self.layers[i];
            }
            i = i + 1;
        }
        proof {
            lemma_first_main_skip(self.layers@, 0, self.layers@.len() as int);
        }
        &self.layers[0]
    }

    /// The plain remappings of the main layer (see [`Layer::mapping_table`]
    /// and [`main_layer_of`]).
    pub fn mapping_table(&self) -> (r: Vec<(EventCode, EventCode)>)
        requires
            self.layers@.len() > 0,
        ensures
            unique_keys(r@),
            forall|i: int| 0 <= i < r@.len() ==> remap_target(mappings_view(main_layer_of(self.layers@).mappings@), (#[trigger] r@[i]).0) == Some(r@[i].1),
            forall|k: EventCode| remap_target(mappings_view(main_layer_of(self.layers@).mappings@), k) is Some ==> exists|i: int| 0 <= i < r@.len() && (#[trigger] r@[i]).0 == k,
    {
        let main = self.main_layer();
        main.mapping_table()
    }
}

} // verus!
