//! Recognizing the Bluetooth address of a wireless controller, which powering
//! it off (a Bluetooth disconnect) needs.

use vstd::prelude::*;
use crate::devices::DeviceInfo;
use crate::text::{chars_of, string_from_chars, upper, upper_chars};

verus! {

/// An ASCII hexadecimal digit.
pub open spec fn hex_digit(c: char) -> bool {
    ('0' <= c && c <= '9') || ('a' <= c && c <= 'f') || ('A' <= c && c <= 'F')
}

/// `AA:BB:CC:DD:EE:FF`: six groups of two hex digits joined by `:`.
pub open spec fn mac_address(s: Seq<char>) -> bool {
    s.len() == 17 && forall|i: int|
        0 <= i < 17 ==> if i % 3 == 2 {
            #[trigger] s[i] == ':'
        } else {
            hex_digit(s[i])
        }
}

fn is_hex_digit(c: char) -> (r: bool)
    ensures
        r == hex_digit(c),
{
    ('0' <= c && c <= '9') || ('a' <= c && c <= 'f') || ('A' <= c && c <= 'F')
}

fn is_mac_chars(s: &[char]) -> (r: bool)
    ensures
        r == mac_address(s@),
{
    if s.len() != 17 {
        return false;
    }
    let mut i: usize = 0;
    while i < 17
        invariant
            i <= 17,
            s@.len() == 17,
            forall|k: int| 0 <= k < i ==> if k % 3 == 2 {
                #[trigger] s@[k] == ':'
            } else {
                hex_digit(s@[k])
            },
        decreases 17 - i,
    {
        let ok = if i % 3 == 2 {
            s[i] == ':'
        } else {
            is_hex_digit(s[i])
        };
        if !ok {
            return false;
        }
        i = i + 1;
    }
    true
}

/// Returns true if `value` looks like a Bluetooth MAC address (`AA:BB:..:FF`).
pub fn is_mac_address(value: &str) -> (r: bool)
    ensures
        r == mac_address(value@),
{
    let s = chars_of(value);
    is_mac_chars(&s)
}

/// The index of the first `/` in `s`, if any.
pub open spec fn first_slash(s: Seq<char>) -> Option<int> {
    if exists|i: int| 0 <= i < s.len() && s[i] == '/' {
        Some(choose|i: int| 0 <= i < s.len() && s[i] == '/' && forall|k: int| 0 <= k < i ==> s[k] != '/')
    } else {
        None
    }
}

/// The address of a device: its `uniq` when that is an address, else the part
/// of `phys` after its first `/` when that is one (`hostmac/devicemac`),
/// written in upper case.
pub open spec fn device_address(uniq: Seq<char>, phys: Seq<char>) -> Option<Seq<char>> {
    if mac_address(uniq) {
        Some(upper(uniq))
    } else {
        match first_slash(phys) {
            Some(i) => if mac_address(phys.skip(i + 1)) {
                Some(upper(phys.skip(i + 1)))
            } else {
                None
            },
            None => None,
        }
    }
}

/// Finds the Bluetooth address of a device from its `uniq` or `phys` fields.
pub fn bluetooth_address(device: &DeviceInfo) -> (r: Option<String>)
    ensures
        match r {
            Some(a) => device_address(device.uniq@, device.phys@) == Some(a@),
            None => device_address(device.uniq@, device.phys@) is None,
        },
{
    let uniq = chars_of(device.uniq.as_str());
    if is_mac_chars(&uniq) {
        let up = upper_chars(&uniq);
        return Some(string_from_chars(&up));
    }
    let phys = chars_of(device.phys.as_str());
    let mut i: usize = 0;
    while i < phys.len()
        invariant
            i <= phys@.len(),
            phys@ == device.phys@,
            !mac_address(device.uniq@),
            forall|k: int| 0 <= k < i ==> phys@[k] != '/',
        decreases phys@.len() - i,
    {
        if phys[i] == '/' {
            proof {
                let j = first_slash(phys@)->0;
                assert(phys@[i as int] == '/');
                assert(j == i as int) by {
                    if j < i as int {
                        assert(phys@[j] != '/');
                    } else if j > i as int {
                        assert(phys@[i as int] != '/');
                    }
                }
            }
            let rest = crate::text::sub_chars(&phys, i + 1, phys.len());
            assert(rest@ =~= phys@.skip(i + 1));
            if is_mac_chars(&rest) {
                let up = upper_chars(&rest);
                return Some(string_from_chars(&up));
            }
            return None;
        }
        i = i + 1;
    }
    assert(first_slash(phys@) is None);
    None
}

} // verus!
