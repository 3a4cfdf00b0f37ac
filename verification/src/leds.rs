//! Controller LEDs (player lights, RGB light bars) as Linux lists them under
//! `/sys/class/leds`: reading their state, and the values written to set
//! them.

use vstd::prelude::*;
use crate::power::{all_digits, digits_value, non_empty_value};
use crate::text::{chars_lt, chars_of, concat_chars, contains_str, decimal, decimal_chars, seq_lt, string_from_chars, trim, trim_chars, trim_str};

verus! {

/// An LED node.
#[derive(Clone, Debug, PartialEq, Eq)]
pub struct LedInfo {
    /// LED node name, e.g. `input5::numlock` or `0005:054C:09CC.0003:rgb:indicator`.
    pub name: String,
    /// Current brightness, when readable.
    pub brightness: Option<u32>,
    /// Maximum brightness, when readable.
    pub max_brightness: Option<u32>,
    /// Space-separated per-channel intensities for RGB LEDs (`multi_intensity`).
    pub multi_intensity: Option<String>,
}

pub struct LedModel {
    pub name: Seq<char>,
    pub brightness: Option<u32>,
    pub max_brightness: Option<u32>,
    pub multi_intensity: Option<Seq<char>>,
}

impl View for LedInfo {
    type V = LedModel;

    open spec fn view(&self) -> LedModel {
        LedModel {
            name: self.name@,
            brightness: self.brightness,
            max_brightness: self.max_brightness,
            multi_intensity: match self.multi_intensity {
                Some(s) => Some(s@),
                None => None,
            },
        }
    }
}

/// What was read from one LED node: its name and the raw contents of its
/// `brightness`, `max_brightness` and `multi_intensity` files (none when a
/// file could not be read).
#[derive(Clone, Debug)]
pub struct LedFiles {
    pub name: String,
    pub brightness: Option<String>,
    pub max_brightness: Option<String>,
    pub multi_intensity: Option<String>,
}

/// Why an LED request was refused.
#[derive(Clone, Copy, Debug, PartialEq, Eq, Structural)]
pub enum LedError {
    /// The name is empty or holds `/` or `..`.
    InvalidName,
    /// A color needs at least one channel.
    EmptyColor,
}

/// `u32::from_str`: an optional `+`, then at least one digit, at most
/// `u32::MAX`.
pub open spec fn parsed_u32(s: Seq<char>) -> Option<u32> {
    let d = if s.len() > 0 && s[0] == '+' {
        s.skip(1)
    } else {
        s
    };
    if d.len() > 0 && all_digits(d) && digits_value(d) <= u32::MAX {
        Some(digits_value(d) as u32)
    } else {
        None
    }
}

fn parse_u32_chars(s: &[char]) -> (r: Option<u32>)
    ensures
        r == parsed_u32(s@),
{
    let start: usize = if s.len() > 0 && s[0] == '+' {
        1
    } else {
        0
    };
    let ghost d = if s@.len() > 0 && s@[0] == '+' {
        s@.skip(1)
    } else {
        s@
    };
    assert(d =~= s@.skip(start as int));
    if start >= s.len() {
        return None;
    }
    let cap: u64 = 0x1_0000_0000;
    let mut acc: u64 = 0;
    let mut i: usize = start;
    while i < s.len()
        invariant
            start <= i <= s@.len(),
            cap == 0x1_0000_0000,
            d == s@.skip(start as int),
            d == (if s@.len() > 0 && s@[0] == '+' {
                s@.skip(1)
            } else {
                s@
            }),
            all_digits(s@.subrange(start as int, i as int)),
            acc == (if digits_value(s@.subrange(start as int, i as int)) > cap {
                cap as nat
            } else {
                digits_value(s@.subrange(start as int, i as int))
            }),
        decreases s@.len() - i,
    {
        let c = s[i];
        if !('0' <= c && c <= '9') {
            assert(d[i - start] == c);
            assert(!all_digits(d));
            return None;
        }
        let ghost pre = s@.subrange(start as int, i + 1);
        assert(pre.drop_last() =~= s@.subrange(start as int, i as int));
        let digit = (c as u64) - ('0' as u64);
        let next = acc * 10 + digit;
        acc = if next > cap {
            cap
        } else {
            next
        };
        i = i + 1;
    }
    assert(s@.subrange(start as int, s@.len() as int) =~= d);
    if acc > 0xffff_ffff {
        None
    } else {
        Some(acc as u32)
    }
}

/// A number read from a sysfs file: its trimmed contents as a `u32`.
pub open spec fn read_number(contents: Option<Seq<char>>) -> Option<u32> {
    match contents {
        Some(c) => parsed_u32(trim(c)),
        None => None,
    }
}

fn read_u32(contents: &Option<String>) -> (r: Option<u32>)
    ensures
        r == read_number(match *contents {
            Some(c) => Some(c@),
            None => None,
        }),
{
    match contents {
        Some(c) => {
            let t = trim_str(c.as_str());
            parse_u32_chars(&t)
        },
        None => None,
    }
}

fn read_trimmed(contents: &Option<String>) -> (r: Option<String>)
    ensures
        match r {
            Some(s) => non_empty_value(match *contents {
                Some(c) => Some(c@),
                None => None,
            }) == Some(s@),
            None => non_empty_value(match *contents {
                Some(c) => Some(c@),
                None => None,
            }) is None,
        },
{
    match contents {
        Some(c) => {
            let t = trim_str(c.as_str());
            if t.len() > 0 {
                Some(string_from_chars(&t))
            } else {
                None
            }
        },
        None => None,
    }
}

/// The LED a node's files describe.
pub open spec fn led_of(f: LedFiles) -> LedModel {
    LedModel {
        name: f.name@,
        brightness: read_number(match f.brightness { Some(c) => Some(c@), None => None }),
        max_brightness: read_number(match f.max_brightness { Some(c) => Some(c@), None => None }),
        multi_intensity: non_empty_value(match f.multi_intensity { Some(c) => Some(c@), None => None }),
    }
}

/// `s` with `x` placed after every element whose name does not sort after
/// `x`'s: the stable insertion of `x` into a list sorted by name.
pub open spec fn insert_by_name(s: Seq<LedModel>, x: LedModel) -> Seq<LedModel>
    decreases s.len(),
{
    if s.len() == 0 {
        seq![x]
    } else if seq_lt(x.name, s.last().name) {
        insert_by_name(s.drop_last(), x).push(s.last())
    } else {
        s.push(x)
    }
}

/// A list sorted by name, keeping the order of equal names (a stable sort).
pub open spec fn sort_by_name(s: Seq<LedModel>) -> Seq<LedModel>
    decreases s.len(),
{
    if s.len() == 0 {
        Seq::empty()
    } else {
        insert_by_name(sort_by_name(s.drop_last()), s.last())
    }
}

pub open spec fn leds_view(v: Seq<LedInfo>) -> Seq<LedModel> {
    v.map_values(|l: LedInfo| l@)
}

fn sorts_before(xn: &Vec<char>, v: &Vec<LedInfo>, k: usize) -> (r: bool)
    requires
        k < v@.len(),
    ensures
        r == seq_lt(xn@, v@[k as int].name@),
{
    let yn = chars_of(v[k].name.as_str());
    chars_lt(xn, &yn)
}

fn insert_led(v: &mut Vec<LedInfo>, x: LedInfo)
    ensures
        leds_view(final(v)@) == insert_by_name(leds_view(old(v)@), x@),
{
    let ghost s = leds_view(v@);
    let xn = chars_of(x.name.as_str());
    let mut j: usize = v.len();
    assert(s.subrange(0, j as int) =~= s);
    while j > 0 && sorts_before(&xn, v, j - 1)
        invariant
            j <= v@.len(),
            s == leds_view(v@),
            xn@ == x.name@,
            insert_by_name(s, x@) == insert_by_name(s.subrange(0, j as int), x@) + s.subrange(j as int, s.len() as int),
        decreases j,
    {
        let ghost pre = s.subrange(0, j as int);
        assert(pre.drop_last() =~= s.subrange(0, j - 1));
        assert(pre.last() == s[j - 1]);
        assert(insert_by_name(pre, x@) == insert_by_name(s.subrange(0, j - 1), x@).push(s[j - 1]));
        assert(insert_by_name(s.subrange(0, j - 1), x@).push(s[j - 1]) + s.subrange(j as int, s.len() as int)
            =~= insert_by_name(s.subrange(0, j - 1), x@) + s.subrange(j - 1, s.len() as int));
        j = j - 1;
    }
    proof {
        let pre = s.subrange(0, j as int);
        if j > 0 {
            assert(pre.last() == s[j - 1]);
            assert(insert_by_name(pre, x@) == pre.push(x@));
        } else {
            assert(insert_by_name(pre, x@) =~= seq![x@]);
        }
    }
    let ghost xv = x@;
    v.insert(j, x);
    assert(leds_view(v@) =~= s.subrange(0, j as int).push(xv) + s.subrange(j as int, s.len() as int));
}

/// The LEDs read from their nodes' files, sorted by name.
pub fn list_leds(entries: &Vec<LedFiles>) -> (r: Vec<LedInfo>)
    ensures
        leds_view(r@) == sort_by_name(entries@.map_values(|f: LedFiles| led_of(f))),
{
    let ghost all = entries@.map_values(|f: LedFiles| led_of(f));
    let mut leds: Vec<LedInfo> = Vec::new();
    let mut i: usize = 0;
    assert(all.subrange(0, 0) =~= Seq::<LedModel>::empty());
    assert(leds_view(leds@) =~= Seq::<LedModel>::empty());
    while i < entries.len()
        invariant
            i <= entries@.len(),
            all == entries@.map_values(|f: LedFiles| led_of(f)),
            leds_view(leds@) == sort_by_name(all.subrange(0, i as int)),
        decreases entries@.len() - i,
    {
        let e = &entries[i];
        let led = LedInfo {
            name: e.name.clone(),
            brightness: read_u32(&e.brightness),
            max_brightness: read_u32(&e.max_brightness),
            multi_intensity: read_trimmed(&e.multi_intensity),
        };
        assert(led@ == all[i as int]);
        let ghost pre = all.subrange(0, i + 1);
        assert(pre.drop_last() =~= all.subrange(0, i as int));
        insert_led(&mut leds, led);
        i = i + 1;
    }
    assert(all.subrange(0, all.len() as int) =~= all);
    leds
}

/// No name sorts before a name that comes earlier in the list.
pub open spec fn led_names_in_order(s: Seq<LedModel>) -> bool {
    forall|i: int, j: int| #![trigger s[i], s[j]] 0 <= i < j < s.len() ==> !seq_lt(s[j].name, s[i].name)
}

proof fn lemma_insert_by_name(s: Seq<LedModel>, x: LedModel)
    requires
        led_names_in_order(s),
    ensures
        led_names_in_order(insert_by_name(s, x)),
        insert_by_name(s, x).to_multiset() =~= s.to_multiset().insert(x),
    decreases s.len(),
{
    broadcast use vstd::seq_lib::group_to_multiset_ensures;
    let r = insert_by_name(s, x);
    if s.len() == 0 {
        assert(r =~= Seq::<LedModel>::empty().push(x));
    } else {
        let t = s.drop_last();
        let last = s.last();
        assert(s =~= t.push(last));
        assert(led_names_in_order(t)) by {
            assert forall|i: int, j: int| #![trigger t[i], t[j]] 0 <= i < j < t.len() implies !seq_lt(t[j].name, t[i].name) by {
                assert(t[i] == s[i] && t[j] == s[j]);
            }
        }
        if seq_lt(x.name, last.name) {
            lemma_insert_by_name(t, x);
            let r1 = insert_by_name(t, x);
            assert(r == r1.push(last));
            crate::text::lemma_seq_lt_order(x.name, last.name, last.name);
            assert forall|k: int| 0 <= k < r1.len() implies !seq_lt(last.name, (#[trigger] r1[k]).name) by {
                assert(r1.contains(r1[k]));
                assert(r1.to_multiset().count(r1[k]) > 0);
                if r1[k] != x {
                    assert(t.to_multiset().count(r1[k]) > 0);
                    assert(t.contains(r1[k]));
                    let m = choose|m: int| 0 <= m < t.len() && t[m] == r1[k];
                    assert(s[m] == t[m] && s[s.len() - 1] == last);
                }
            }
            assert forall|i: int, j: int| #![trigger r[i], r[j]] 0 <= i < j < r.len() implies !seq_lt(r[j].name, r[i].name) by {
                assert(r[i] == r1[i]);
                if j < r1.len() {
                    assert(r[j] == r1[j]);
                }
            }
        } else {
            assert(r == s.push(x));
            assert forall|i: int, j: int| #![trigger r[i], r[j]] 0 <= i < j < r.len() implies !seq_lt(r[j].name, r[i].name) by {
                assert(r[i] == s[i]);
                if j < s.len() {
                    assert(r[j] == s[j]);
                } else {
                    assert(r[j] == x);
                    if i < s.len() - 1 {
                        assert(s[s.len() - 1] == last);
                    }
                    crate::text::lemma_seq_lt_order(x.name, last.name, s[i].name);
                    crate::text::lemma_seq_lt_order(last.name, x.name, s[i].name);
                }
            }
        }
    }
}

proof fn lemma_sort_by_name(s: Seq<LedModel>)
    ensures
        led_names_in_order(sort_by_name(s)),
        sort_by_name(s).to_multiset() =~= s.to_multiset(),
    decreases s.len(),
{
    broadcast use vstd::seq_lib::group_to_multiset_ensures;
    if s.len() > 0 {
        lemma_sort_by_name(s.drop_last());
        lemma_insert_by_name(sort_by_name(s.drop_last()), s.last());
        assert(s =~= s.drop_last().push(s.last()));
    }
}

/// LEDs are listed sorted by name, each LED read from the entries appearing
/// exactly as often as it was read.
pub proof fn law_leds_sorted_by_name(entries: Seq<LedFiles>)
    ensures
        led_names_in_order(sort_by_name(entries.map_values(|f: LedFiles| led_of(f)))),
        sort_by_name(entries.map_values(|f: LedFiles| led_of(f))).to_multiset()
            == entries.map_values(|f: LedFiles| led_of(f)).to_multiset(),
{
    lemma_sort_by_name(entries.map_values(|f: LedFiles| led_of(f)));
}

/// An LED name must be non-empty and hold no `/` or `..`, so it cannot leave
/// the LED directory.
pub open spec fn valid_led_name(name: Seq<char>) -> bool {
    name.len() > 0 && !name.contains('/') && !crate::text::contains_seq(name, ".."@)
}

proof fn lemma_contains_slash(s: Seq<char>)
    ensures
        crate::text::contains_seq(s, "/"@) <==> s.contains('/'),
{
    reveal_strlit("/");
    if s.contains('/') {
        let k = choose|k: int| 0 <= k < s.len() && s[k] == '/';
        assert(s.subrange(k, k + 1) =~= "/"@);
        assert(crate::text::occurs_at(s, "/"@, k));
    }
    if crate::text::contains_seq(s, "/"@) {
        let k = choose|k: int| crate::text::occurs_at(s, "/"@, k);
        assert(s.subrange(k, k + 1)[0] == s[k]);
        assert(s[k] == '/');
    }
}

/// Checks an LED name (see [`valid_led_name`]).
pub fn validate_led_name(name: &str) -> (r: Result<(), LedError>)
    ensures
        r is Ok <==> valid_led_name(name@),
        r matches Err(e) ==> e == LedError::InvalidName,
{
    let n = chars_of(name);
    proof {
        lemma_contains_slash(n@);
    }
    if n.len() == 0 || contains_str(&n, "/") || contains_str(&n, "..") {
        return Err(LedError::InvalidName);
    }
    Ok(())
}

/// The brightness written: the requested one, at most the LED's maximum when
/// that is known.
pub open spec fn brightness_to_write(brightness: u32, max_brightness: Option<u32>) -> u32 {
    match max_brightness {
        Some(m) => if brightness < m {
            brightness
        } else {
            m
        },
        None => brightness,
    }
}

/// The brightness written never exceeds a known maximum, and is the
/// requested one whenever that is within it (or no maximum is known).
pub proof fn law_brightness_clamped(brightness: u32, max_brightness: Option<u32>)
    ensures
        max_brightness matches Some(m) ==> brightness_to_write(brightness, max_brightness) <= m,
        max_brightness matches Some(m) ==> (brightness <= m ==> brightness_to_write(brightness, max_brightness)
            == brightness),
        max_brightness is None ==> brightness_to_write(brightness, max_brightness) == brightness,
{
}

/// The text written to set an LED's brightness, clamped to its maximum.
pub fn set_led_brightness(name: &str, brightness: u32, max_brightness: Option<u32>) -> (r: Result<String, LedError>)
    ensures
        match r {
            Ok(t) => valid_led_name(name@) && t@ == decimal(brightness_to_write(brightness, max_brightness) as nat),
            Err(e) => !valid_led_name(name@) && e == LedError::InvalidName,
        },
{
    validate_led_name(name)?;
    let value = match max_brightness {
        Some(m) => if brightness < m {
            brightness
        } else {
            m
        },
        None => brightness,
    };
    Ok(string_from_chars(&decimal_chars(value as u128)))
}

/// Channel intensities written as decimal numbers separated by spaces.
pub open spec fn joined(channels: Seq<u32>) -> Seq<char>
    decreases channels.len(),
{
    if channels.len() == 0 {
        Seq::empty()
    } else if channels.len() == 1 {
        decimal(channels[0] as nat)
    } else {
        joined(channels.drop_last()) + " "@ + decimal(channels.last() as nat)
    }
}

/// The `multi_intensity` text that sets an RGB LED's color. Refused for no
/// channel at all, then for an invalid name.
pub fn set_led_color(name: &str, channels: &[u32]) -> (r: Result<String, LedError>)
    ensures
        match r {
            Ok(t) => channels@.len() > 0 && valid_led_name(name@) && t@ == joined(channels@),
            Err(e) => if channels@.len() == 0 {
                e == LedError::EmptyColor
            } else {
                !valid_led_name(name@) && e == LedError::InvalidName
            },
        },
{
    if channels.len() == 0 {
        return Err(LedError::EmptyColor);
    }
    validate_led_name(name)?;
    let mut text = decimal_chars(channels[0] as u128);
    let mut i: usize = 1;
    assert(channels@.subrange(0, 1).drop_last() =~= Seq::<u32>::empty());
    assert(text@ == joined(channels@.subrange(0, 1)));
    while i < channels.len()
        invariant
            1 <= i <= channels@.len(),
            text@ == joined(channels@.subrange(0, i as int)),
        decreases channels@.len() - i,
    {
        let ghost pre = channels@.subrange(0, i + 1);
        assert(pre.drop_last() =~= channels@.subrange(0, i as int));
        text = concat_chars(&text, &chars_of(" "));
        text = concat_chars(&text, &decimal_chars(channels[i] as u128));
        i = i + 1;
    }
    assert(channels@.subrange(0, channels@.len() as int) =~= channels@);
    Ok(string_from_chars(&text))
}

/// The text of an LED error about the LED `name`.
pub open spec fn led_error_text(e: LedError, name: Seq<char>) -> Seq<char> {
    match e {
        LedError::InvalidName => "invalid LED name "@ + name,
        LedError::EmptyColor => "LED color requires at least one channel intensity"@,
    }
}

impl LedError {
    /// The error's message for the LED `name`.
    pub fn message(&self, name: &str) -> (r: String)
        ensures
            r@ == led_error_text(*self, name@),
    {
        match self {
            LedError::InvalidName => {
                let text = concat_chars(&chars_of("invalid LED name "), &chars_of(name));
                string_from_chars(&text)
            },
            LedError::EmptyColor => "LED color requires at least one channel intensity".to_owned(),
        }
    }
}

} // verus!
