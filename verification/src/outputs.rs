//! The virtual output devices PadProxy can present, and the names users may
//! give them.

use vstd::prelude::*;
use crate::text::{chars_eq_str, chars_of, lower, lower_chars, string_from_chars, trim, trim_str};

verus! {

/// A virtual output device and the USB identity it advertises.
#[derive(Clone, Copy, Debug)]
pub struct OutputDeviceInfo {
    pub id: &'static str,
    pub label: &'static str,
    pub supported: bool,
    pub note: &'static str,
    /// Name advertised by the virtual uinput device.
    pub virtual_name: &'static str,
    /// USB vendor id reported by the virtual device so games and Steam Input
    /// recognize it as the emulated controller type.
    pub vendor: u16,
    /// USB product id reported by the virtual device.
    pub product: u16,
    /// Device version reported by the virtual device.
    pub version: u16,
}

/// The table of output devices.
pub open spec fn output_table() -> Seq<OutputDeviceInfo> {
    seq![
        OutputDeviceInfo {
            id: "xbox360",
            label: "Xbox 360",
            supported: true,
            note: "Implemented through Linux uinput.",
            virtual_name: "PadProxy Virtual Xbox 360 Controller",
            vendor: 0x045e,
            product: 0x028e,
            version: 0x0114,
        },
        OutputDeviceInfo {
            id: "xboxone",
            label: "Xbox One / Series",
            supported: true,
            note: "Implemented through Linux uinput.",
            virtual_name: "PadProxy Virtual Xbox One Controller",
            vendor: 0x045e,
            product: 0x02ea,
            version: 0x0408,
        },
        OutputDeviceInfo {
            id: "ds4",
            label: "DualShock 4",
            supported: true,
            note: "Implemented through Linux uinput.",
            virtual_name: "PadProxy Virtual DualShock 4 Controller",
            vendor: 0x054c,
            product: 0x09cc,
            version: 0x8111,
        },
        OutputDeviceInfo {
            id: "dualsense",
            label: "DualSense",
            supported: true,
            note: "Implemented through Linux uinput.",
            virtual_name: "PadProxy Virtual DualSense Controller",
            vendor: 0x054c,
            product: 0x0ce6,
            version: 0x8111,
        },
        OutputDeviceInfo {
            id: "switchpro",
            label: "Switch Pro",
            supported: true,
            note: "Implemented through Linux uinput.",
            virtual_name: "PadProxy Virtual Switch Pro Controller",
            vendor: 0x057e,
            product: 0x2009,
            version: 0x0001,
        },
    ]
}

/// All output devices, in table order.
pub fn output_devices() -> (r: Vec<OutputDeviceInfo>)
    ensures
        r@ == output_table(),
{
    let r = vec![
        OutputDeviceInfo {
            id: "xbox360",
            label: "Xbox 360",
            supported: true,
            note: "Implemented through Linux uinput.",
            virtual_name: "PadProxy Virtual Xbox 360 Controller",
            vendor: 0x045e,
            product: 0x028e,
            version: 0x0114,
        },
        OutputDeviceInfo {
            id: "xboxone",
            label: "Xbox One / Series",
            supported: true,
            note: "Implemented through Linux uinput.",
            virtual_name: "PadProxy Virtual Xbox One Controller",
            vendor: 0x045e,
            product: 0x02ea,
            version: 0x0408,
        },
        OutputDeviceInfo {
            id: "ds4",
            label: "DualShock 4",
            supported: true,
            note: "Implemented through Linux uinput.",
            virtual_name: "PadProxy Virtual DualShock 4 Controller",
            vendor: 0x054c,
            product: 0x09cc,
            version: 0x8111,
        },
        OutputDeviceInfo {
            id: "dualsense",
            label: "DualSense",
            supported: true,
            note: "Implemented through Linux uinput.",
            virtual_name: "PadProxy Virtual DualSense Controller",
            vendor: 0x054c,
            product: 0x0ce6,
            version: 0x8111,
        },
        OutputDeviceInfo {
            id: "switchpro",
            label: "Switch Pro",
            supported: true,
            note: "Implemented through Linux uinput.",
            virtual_name: "PadProxy Virtual Switch Pro Controller",
            vendor: 0x057e,
            product: 0x2009,
            version: 0x0001,
        },
    ];
    assert(r@ =~= output_table());
    r
}

/// A lower-cased, trimmed output name with spaces, hyphens and underscores
/// removed.
pub open spec fn squeezed(v: Seq<char>) -> Seq<char> {
    lower(trim(v)).filter(|c: char| c != ' ' && c != '-' && c != '_')
}

/// The canonical output id for a user-given name: known aliases map to their
/// id; anything else is just trimmed and lower-cased.
pub open spec fn normalized_output(v: Seq<char>) -> Seq<char> {
    let n = squeezed(v);
    if n == "xbox360"@ || n == "x360"@ || n == "xinput"@ {
        "xbox360"@
    } else if n == "xboxone"@ || n == "xboxseries"@ || n == "xboxseriesxs"@ || n == "seriesxs"@ {
        "xboxone"@
    } else if n == "dualshock4"@ || n == "dualschock"@ || n == "ds4"@ {
        "ds4"@
    } else if n == "dualsense"@ || n == "dualsense5"@ || n == "ps5"@ {
        "dualsense"@
    } else if n == "switchpro"@ || n == "switch"@ || n == "nintendoswitchpro"@ {
        "switchpro"@
    } else {
        lower(trim(v))
    }
}

fn squeeze(lowered: &[char]) -> (r: Vec<char>)
    ensures
        r@ == lowered@.filter(|c: char| c != ' ' && c != '-' && c != '_'),
{
    let mut r: Vec<char> = Vec::new();
    let mut i: usize = 0;
    while i < lowered.len()
        invariant
            i <= lowered@.len(),
            r@ == lowered@.subrange(0, i as int).filter(|c: char| c != ' ' && c != '-' && c != '_'),
        decreases lowered@.len() - i,
    {
        let c = lowered[i];
        proof {
            let f = |c: char| c != ' ' && c != '-' && c != '_';
            assert(lowered@.subrange(0, i + 1).drop_last() =~= lowered@.subrange(0, i as int));
            reveal_with_fuel(Seq::filter, 1);
        }
        if c != ' ' && c != '-' && c != '_' {
            r.push(c);
        }
        i = i + 1;
    }
    assert(lowered@.subrange(0, lowered@.len() as int) =~= lowered@);
    r
}

/// Maps a user-given output name to its canonical id.
pub fn normalize_output_type(value: &str) -> (r: String)
    ensures
        r@ == normalized_output(value@),
{
    let t = trim_str(value);
    let l = lower_chars(&t);
    let n = squeeze(&l);
    if chars_eq_str(&n, "xbox360") || chars_eq_str(&n, "x360") || chars_eq_str(&n, "xinput") {
        "xbox360".to_owned()
    } else if chars_eq_str(&n, "xboxone") || chars_eq_str(&n, "xboxseries") || chars_eq_str(
        &n,
        "xboxseriesxs",
    ) || chars_eq_str(&n, "seriesxs") {
        "xboxone".to_owned()
    } else if chars_eq_str(&n, "dualshock4") || chars_eq_str(&n, "dualschock") || chars_eq_str(
        &n,
        "ds4",
    ) {
        "ds4".to_owned()
    } else if chars_eq_str(&n, "dualsense") || chars_eq_str(&n, "dualsense5") || chars_eq_str(
        &n,
        "ps5",
    ) {
        "dualsense".to_owned()
    } else if chars_eq_str(&n, "switchpro") || chars_eq_str(&n, "switch") || chars_eq_str(
        &n,
        "nintendoswitchpro",
    ) {
        "switchpro".to_owned()
    } else {
        string_from_chars(&l)
    }
}

/// Looks an output device up by (any accepted spelling of) its id.
pub fn output_device(id: &str) -> (r: Option<OutputDeviceInfo>)
    ensures
        match r {
            Some(o) => exists|i: int|
                0 <= i < output_table().len() && output_table()[i] == o && o.id@
                    == normalized_output(id@) && forall|k: int|
                    0 <= k < i ==> (#[trigger] output_table()[k]).id@ != normalized_output(id@),
            None => forall|i: int|
                0 <= i < output_table().len() ==> (#[trigger] output_table()[i]).id@ != normalized_output(id@),
        },
{
    let normalized = normalize_output_type(id);
    let devices = output_devices();
    let n = chars_of(normalized.as_str());
    let mut i: usize = 0;
    while i < devices.len()
        invariant
            i <= devices@.len(),
            devices@ == output_table(),
            n@ == normalized_output(id@),
            forall|k: int| 0 <= k < i ==> (#[trigger] output_table()[k]).id@ != normalized_output(id@),
        decreases devices@.len() - i,
    {
        let d = devices[i];
        if chars_eq_str(&n, d.id) {
            return Some(d);
        }
        i = i + 1;
    }
    None
}

/// Whether the named output device exists and is implemented.
pub fn output_type_supported(id: &str) -> (r: bool)
    ensures
        r == (exists|i: int|
            0 <= i < output_table().len() && (#[trigger] output_table()[i]).id@ == normalized_output(id@)
                && output_table()[i].supported && forall|k: int|
                0 <= k < i ==> (#[trigger] output_table()[k]).id@ != normalized_output(id@)),
{
    match output_device(id) {
        Some(o) => {
            if !o.supported {
                assert forall|i: int|
                    0 <= i < output_table().len() && (#[trigger] output_table()[i]).id@ == normalized_output(id@)
                        && output_table()[i].supported implies exists|k: int|
                    0 <= k < i && (#[trigger] output_table()[k]).id@ == normalized_output(id@) by {
                    let j = choose|j: int|
                        0 <= j < output_table().len() && output_table()[j] == o && o.id@
                            == normalized_output(id@) && forall|k: int|
                            0 <= k < j ==> (#[trigger] output_table()[k]).id@ != normalized_output(id@);
                    if i < j {
                    } else if i > j {
                        assert(output_table()[j].id@ == normalized_output(id@));
                    }
                }
            }
            o.supported
        },
        None => false,
    }
}

/// Ids of the implemented output devices, in table order.
pub fn supported_output_ids() -> (r: Vec<&'static str>)
    ensures
        r@ == output_table().filter(|o: OutputDeviceInfo| o.supported).map_values(|o: OutputDeviceInfo| o.id),
{
    let devices = output_devices();
    let mut r: Vec<&'static str> = Vec::new();
    let mut i: usize = 0;
    while i < devices.len()
        invariant
            i <= devices@.len(),
            devices@ == output_table(),
            r@ == devices@.subrange(0, i as int).filter(|o: OutputDeviceInfo| o.supported).map_values(
                |o: OutputDeviceInfo| o.id,
            ),
        decreases devices@.len() - i,
    {
        proof {
            assert(devices@.subrange(0, i + 1).drop_last() =~= devices@.subrange(0, i as int));
            reveal_with_fuel(Seq::filter, 1);
        }
        if devices[i].supported {
            r.push(devices[i].id);
            assert(r@ =~= devices@.subrange(0, i + 1).filter(|o: OutputDeviceInfo| o.supported).map_values(
                |o: OutputDeviceInfo| o.id,
            ));
        } else {
            assert(r@ =~= devices@.subrange(0, i + 1).filter(|o: OutputDeviceInfo| o.supported).map_values(
                |o: OutputDeviceInfo| o.id,
            ));
        }
        i = i + 1;
    }
    assert(devices@.subrange(0, devices@.len() as int) =~= devices@);
    r
}

// ---------------------------------------------------------------------------
// Normalizing twice

proof fn lemma_lower_idempotent(s: Seq<char>)
    ensures
        lower(lower(s)) == lower(s),
{
    assert forall|i: int| 0 <= i < s.len() implies #[trigger] lower(lower(s))[i] == lower(s)[i] by {
        let c = s[i];
        if 'A' <= c && c <= 'Z' {
            let d = ((c as u32) + 32) as char;
            assert('a' <= d && d <= 'z');
        }
    }
    assert(lower(lower(s)) =~= lower(s));
}

proof fn lemma_lower_keeps_ws(c: char)
    ensures
        crate::text::is_ws(crate::text::lower_char(c)) == crate::text::is_ws(c),
{
    if 'A' <= c && c <= 'Z' {
        let d = ((c as u32) + 32) as char;
        assert('a' <= d && d <= 'z');
    }
}

proof fn lemma_trim_start_edge(s: Seq<char>)
    ensures
        crate::text::trim_start(s).len() == 0 || !crate::text::is_ws(crate::text::trim_start(s)[0]),
        crate::text::trim_start(s).len() <= s.len(),
    decreases s.len(),
{
    if s.len() > 0 && crate::text::is_ws(s[0]) {
        lemma_trim_start_edge(s.subrange(1, s.len() as int));
    }
}

proof fn lemma_trim_end_prefix(s: Seq<char>)
    ensures
        crate::text::trim_end(s).len() <= s.len(),
        crate::text::trim_end(s) == s.subrange(0, crate::text::trim_end(s).len() as int),
        crate::text::trim_end(s).len() == 0 || !crate::text::is_ws(crate::text::trim_end(s)[crate::text::trim_end(s).len() - 1]),
    decreases s.len(),
{
    if s.len() > 0 && crate::text::is_ws(s[s.len() - 1]) {
        let t = s.subrange(0, s.len() - 1);
        lemma_trim_end_prefix(t);
        assert(t.subrange(0, crate::text::trim_end(t).len() as int) =~= s.subrange(0, crate::text::trim_end(t).len() as int));
    } else {
        assert(s.subrange(0, s.len() as int) =~= s);
    }
}

proof fn lemma_trim_edges(s: Seq<char>)
    ensures
        trim(s).len() == 0 || (!crate::text::is_ws(trim(s)[0]) && !crate::text::is_ws(trim(s)[trim(s).len() - 1])),
{
    let t = crate::text::trim_start(s);
    lemma_trim_start_edge(s);
    lemma_trim_end_prefix(t);
    if trim(s).len() > 0 {
        assert(trim(s)[0] == t[0]);
    }
}

proof fn lemma_plain_lower(s: Seq<char>)
    requires
        forall|i: int| 0 <= i < s.len() ==> !('A' <= #[trigger] s[i] && s[i] <= 'Z'),
    ensures
        lower(s) == s,
{
    assert(lower(s) =~= s);
}

proof fn lemma_filter_keeps(s: Seq<char>)
    requires
        forall|i: int| 0 <= i < s.len() ==> #[trigger] s[i] != ' ' && s[i] != '-' && s[i] != '_',
    ensures
        s.filter(|c: char| c != ' ' && c != '-' && c != '_') == s,
    decreases s.len(),
{
    reveal(Seq::filter);
    if s.len() > 0 {
        lemma_filter_keeps(s.drop_last());
        assert(s.drop_last().push(s.last()) =~= s);
    }
}

proof fn lemma_canonical_id(s: Seq<char>)
    requires
        s.len() > 0,
        forall|i: int| 0 <= i < s.len() ==> ('a' <= #[trigger] s[i] && s[i] <= 'z') || ('0' <= s[i] && s[i] <= '9'),
    ensures
        squeezed(s) == s,
{
    crate::text::lemma_trim_plain(s);
    lemma_plain_lower(s);
    lemma_filter_keeps(s);
}

/// Every accepted spelling of an output names its device, whatever its case
/// and its spaces, hyphens and underscores: `xbox360`, `x360` and `xinput`
/// the Xbox 360 pad; `xboxone`, `xboxseries`, `xboxseriesxs` and `seriesxs`
/// the Xbox One / Series pad; `dualshock4`, `dualschock` and `ds4` the
/// DualShock 4; `dualsense`, `dualsense5` and `ps5` the DualSense;
/// `switchpro`, `switch` and `nintendoswitchpro` the Switch Pro.
pub proof fn law_output_aliases(v: Seq<char>)
    ensures
        (squeezed(v) == "xbox360"@ || squeezed(v) == "x360"@ || squeezed(v) == "xinput"@) ==> normalized_output(v) == "xbox360"@,
        (squeezed(v) == "xboxone"@ || squeezed(v) == "xboxseries"@ || squeezed(v) == "xboxseriesxs"@ || squeezed(v) == "seriesxs"@) ==> normalized_output(v) == "xboxone"@,
        (squeezed(v) == "dualshock4"@ || squeezed(v) == "dualschock"@ || squeezed(v) == "ds4"@) ==> normalized_output(v) == "ds4"@,
        (squeezed(v) == "dualsense"@ || squeezed(v) == "dualsense5"@ || squeezed(v) == "ps5"@) ==> normalized_output(v) == "dualsense"@,
        (squeezed(v) == "switchpro"@ || squeezed(v) == "switch"@ || squeezed(v) == "nintendoswitchpro"@) ==> normalized_output(v) == "switchpro"@,
{
    reveal_strlit("xbox360");
    reveal_strlit("x360");
    reveal_strlit("xinput");
    reveal_strlit("xboxone");
    reveal_strlit("xboxseries");
    reveal_strlit("xboxseriesxs");
    reveal_strlit("seriesxs");
    reveal_strlit("dualshock4");
    reveal_strlit("dualschock");
    reveal_strlit("ds4");
    reveal_strlit("dualsense");
    reveal_strlit("dualsense5");
    reveal_strlit("ps5");
    reveal_strlit("switchpro");
    reveal_strlit("switch");
    reveal_strlit("nintendoswitchpro");
    let n = squeezed(v);
    if n == "xbox360"@ {
        assert(n[4] == '3');
    } else if n == "xinput"@ {
        assert(n[0] == 'x');
    } else if n == "xboxone"@ {
        assert(n[4] == 'o');
    } else if n == "xboxseries"@ {
        assert(n[0] == 'x');
    } else if n == "dualshock4"@ {
        assert(n[0] == 'd' && n[5] == 'h');
    } else if n == "dualschock"@ {
        assert(n[0] == 'd' && n[5] == 'c');
    } else if n == "ds4"@ {
        assert(n[0] == 'd');
    } else if n == "dualsense"@ {
        assert(n[0] == 'd');
    } else if n == "dualsense5"@ {
        assert(n[0] == 'd' && n[5] == 'e');
    } else if n == "ps5"@ {
        assert(n[0] == 'p');
    } else if n == "switchpro"@ {
        assert(n[0] == 's');
    } else if n == "switch"@ {
        assert(n[0] == 's');
    }
}

/// Every output device has its own id and its own USB identity (vendor and
/// product), so games and Steam Input tell the emulated controllers apart.
pub proof fn law_outputs_distinct(i: int, j: int)
    requires
        0 <= i < output_table().len(),
        0 <= j < output_table().len(),
        i != j,
    ensures
        output_table()[i].id@ != output_table()[j].id@,
        output_table()[i].vendor != output_table()[j].vendor || output_table()[i].product != output_table()[j].product,
{
    reveal_strlit("xbox360");
    reveal_strlit("xboxone");
    reveal_strlit("ds4");
    reveal_strlit("dualsense");
    reveal_strlit("switchpro");
    assert("xboxone"@[4] != "xbox360"@[4]);
    assert("switchpro"@[0] != "dualsense"@[0]);
    let t = output_table();
    assert(t[0].id@ == "xbox360"@ && t[1].id@ == "xboxone"@ && t[2].id@ == "ds4"@ && t[3].id@ == "dualsense"@
        && t[4].id@ == "switchpro"@);
    assert(t[i].id@.len() != t[j].id@.len() || t[i].id@[4] != t[j].id@[4] || t[i].id@[0] != t[j].id@[0]);
}

/// Normalizing an output name twice gives what normalizing it once gives:
/// a canonical id, or a trimmed lower-case name, is its own normal form.
pub proof fn law_normalize_output_idempotent(v: Seq<char>)
    ensures
        normalized_output(normalized_output(v)) == normalized_output(v),
{
    reveal_strlit("xbox360");
    reveal_strlit("xboxone");
    reveal_strlit("ds4");
    reveal_strlit("dualsense");
    reveal_strlit("switchpro");
    reveal_strlit("x360");
    reveal_strlit("xinput");
    reveal_strlit("xboxseries");
    reveal_strlit("xboxseriesxs");
    reveal_strlit("seriesxs");
    reveal_strlit("dualshock4");
    reveal_strlit("dualschock");
    reveal_strlit("dualsense5");
    reveal_strlit("ps5");
    reveal_strlit("switch");
    reveal_strlit("nintendoswitchpro");
    assert("xboxone"@[4] != "xbox360"@[4]);
    assert("switchpro"@[0] != "dualsense"@[0]);
    let w = lower(trim(v));
    lemma_trim_edges(v);
    if w.len() > 0 {
        lemma_lower_keeps_ws(trim(v)[0]);
        lemma_lower_keeps_ws(trim(v)[trim(v).len() - 1]);
    }
    crate::text::lemma_trim_plain(w);
    lemma_lower_idempotent(trim(v));
    assert(lower(trim(w)) == w);
    assert(squeezed(w) == squeezed(v));
    lemma_canonical_id("xbox360"@);
    lemma_canonical_id("xboxone"@);
    lemma_canonical_id("ds4"@);
    lemma_canonical_id("dualsense"@);
    lemma_canonical_id("switchpro"@);
}

} // verus!
