//! Battery and wireless status of controllers and other peripherals, read
//! from the `uevent` bodies of `/sys/class/power_supply` nodes.

use vstd::prelude::*;
use crate::text::{
    chars_lt, seq_lt, char_index, chars_eq_str, chars_of, find_char, lines, lines_of, lower, lower_chars,
    starts_with_chars, string_from_chars, sub_chars, trim, trim_chars,
};

verus! {

/// A device-scoped battery.
#[derive(Clone, Debug, PartialEq, Eq)]
pub struct BatteryInfo {
    /// Power-supply node name, e.g. `hid-<id>-battery`.
    pub name: String,
    /// Human-readable model name, when the device reports one.
    pub model: Option<String>,
    /// Charging status, e.g. `Charging`, `Discharging`, `Full`, `Unknown`.
    pub status: Option<String>,
    /// Remaining charge as a percentage, when reported.
    pub capacity: Option<u8>,
    /// Coarse charge level, e.g. `Low`, `Normal`, `High`, `Full`.
    pub capacity_level: Option<String>,
    /// Whether the device is currently present/connected.
    pub present: Option<bool>,
    /// Whether the supply is online (powered/linked).
    pub online: Option<bool>,
}

pub struct BatteryModel {
    pub name: Seq<char>,
    pub model: Option<Seq<char>>,
    pub status: Option<Seq<char>>,
    pub capacity: Option<u8>,
    pub capacity_level: Option<Seq<char>>,
    pub present: Option<bool>,
    pub online: Option<bool>,
}

pub open spec fn opt_chars(o: Option<String>) -> Option<Seq<char>> {
    match o {
        Some(s) => Some(s@),
        None => None,
    }
}

impl View for BatteryInfo {
    type V = BatteryModel;

    open spec fn view(&self) -> BatteryModel {
        BatteryModel {
            name: self.name@,
            model: opt_chars(self.model),
            status: opt_chars(self.status),
            capacity: self.capacity,
            capacity_level: opt_chars(self.capacity_level),
            present: self.present,
            online: self.online,
        }
    }
}

/// The key and value a `uevent` line sets: `POWER_SUPPLY_<KEY>=<value>`,
/// the line, key and value trimmed; the value runs from the first `=`.
pub open spec fn uevent_pair(line: Seq<char>) -> Option<(Seq<char>, Seq<char>)> {
    let t = trim(line);
    match char_index(t, '=') {
        None => None,
        Some(i) => {
            let key = trim(t.take(i));
            if "POWER_SUPPLY_"@.is_prefix_of(key) {
                Some((key.skip(13), trim(t.skip(i + 1))))
            } else {
                None
            }
        },
    }
}

/// The key/value pairs of some lines, in order.
pub open spec fn uevent_pairs(ls: Seq<Seq<char>>) -> Seq<(Seq<char>, Seq<char>)>
    decreases ls.len(),
{
    if ls.len() == 0 {
        Seq::empty()
    } else {
        let prev = uevent_pairs(ls.drop_last());
        match uevent_pair(ls.last()) {
            Some(p) => prev.push(p),
            None => prev,
        }
    }
}

/// The value the last pair with `key` sets.
pub open spec fn field(pairs: Seq<(Seq<char>, Seq<char>)>, key: Seq<char>) -> Option<Seq<char>>
    decreases pairs.len(),
{
    if pairs.len() == 0 {
        None
    } else if pairs.last().0 == key {
        Some(pairs.last().1)
    } else {
        field(pairs.drop_last(), key)
    }
}

/// Digits only.
pub open spec fn all_digits(s: Seq<char>) -> bool {
    forall|i: int| 0 <= i < s.len() ==> '0' <= #[trigger] s[i] && s[i] <= '9'
}

/// The number some decimal digits write.
pub open spec fn digits_value(s: Seq<char>) -> nat
    decreases s.len(),
{
    if s.len() == 0 {
        0
    } else {
        digits_value(s.drop_last()) * 10 + ((s.last() as int) - ('0' as int)) as nat
    }
}

/// `u8::from_str`: an optional `+`, then at least one digit, at most 255.
pub open spec fn parsed_u8(s: Seq<char>) -> Option<u8> {
    let d = if s.len() > 0 && s[0] == '+' {
        s.skip(1)
    } else {
        s
    };
    if d.len() > 0 && all_digits(d) && digits_value(d) <= 255 {
        Some(digits_value(d) as u8)
    } else {
        None
    }
}

/// A trimmed value unless it is empty.
pub open spec fn non_empty_value(v: Option<Seq<char>>) -> Option<Seq<char>> {
    match v {
        Some(s) => if trim(s).len() > 0 {
            Some(trim(s))
        } else {
            None
        },
        None => None,
    }
}

/// `1` is true and `0` false (after trimming); anything else is unknown.
pub open spec fn flag_value(v: Option<Seq<char>>) -> Option<bool> {
    match v {
        Some(s) => if trim(s) == "1"@ {
            Some(true)
        } else if trim(s) == "0"@ {
            Some(false)
        } else {
            None
        },
        None => None,
    }
}

/// The battery a `uevent` body describes: only a supply whose `TYPE` is
/// `Battery` and whose `SCOPE` is `Device` (ignoring ASCII case) is one; its
/// name is `NAME`, else the node name.
pub open spec fn battery_of(name: Seq<char>, contents: Seq<char>) -> Option<BatteryModel> {
    let pairs = uevent_pairs(lines(contents));
    let kind = field(pairs, "TYPE"@);
    let scope = field(pairs, "SCOPE"@);
    if !(kind matches Some(k) && lower(k) == "battery"@) {
        None
    } else if !(scope matches Some(s) && lower(s) == "device"@) {
        None
    } else {
        Some(
            BatteryModel {
                name: match field(pairs, "NAME"@) {
                    Some(n) => n,
                    None => name,
                },
                model: non_empty_value(field(pairs, "MODEL_NAME"@)),
                status: non_empty_value(field(pairs, "STATUS"@)),
                capacity: match field(pairs, "CAPACITY"@) {
                    Some(c) => parsed_u8(c),
                    None => None,
                },
                capacity_level: non_empty_value(field(pairs, "CAPACITY_LEVEL"@)),
                present: flag_value(field(pairs, "PRESENT"@)),
                online: flag_value(field(pairs, "ONLINE"@)),
            },
        )
    }
}

/// A `uevent` body describes a battery exactly when its (last) `TYPE` is
/// `Battery` and its (last) `SCOPE` is `Device`, both ignoring ASCII case, so
/// a laptop's system battery and a mains adapter are none; the battery is
/// named by `NAME`, else by the node name.
pub proof fn law_battery_of_device(name: Seq<char>, contents: Seq<char>)
    ensures
        battery_of(name, contents) is Some <==> ({
            let pairs = uevent_pairs(lines(contents));
            &&& field(pairs, "TYPE"@) matches Some(k) && lower(k) == "battery"@
            &&& field(pairs, "SCOPE"@) matches Some(s) && lower(s) == "device"@
        }),
        battery_of(name, contents) matches Some(b) ==> b.name == (match field(uevent_pairs(lines(contents)), "NAME"@) {
            Some(n) => n,
            None => name,
        }),
{
}

fn line_pair(line: &[char]) -> (r: Option<(Vec<char>, Vec<char>)>)
    ensures
        match r {
            Some(p) => uevent_pair(line@) == Some((p.0@, p.1@)),
            None => uevent_pair(line@) is None,
        },
{
    let t = trim_chars(line);
    let i = match find_char(&t, '=') {
        Some(i) => i,
        None => {
            return None;
        },
    };
    proof {
        crate::text::lemma_char_index(t@, '=');
        assert(i < t@.len());
    }
    let head = sub_chars(&t, 0, i);
    assert(head@ =~= t@.take(i as int));
    let key = trim_chars(&head);
    let prefix = chars_of("POWER_SUPPLY_");
    proof {
        reveal_strlit("POWER_SUPPLY_");
    }
    if !starts_with_chars(&key, &prefix) {
        return None;
    }
    let k = sub_chars(&key, 13, key.len());
    assert(k@ =~= key@.skip(13));
    assert(i < t.len());
    let tail = sub_chars(&t, i + 1, t.len());
    assert(tail@ =~= t@.skip(i + 1));
    let v = trim_chars(&tail);
    Some((k, v))
}

fn field_of(pairs: &Vec<(Vec<char>, Vec<char>)>, key: &str) -> (r: Option<Vec<char>>)
    ensures
        match r {
            Some(v) => field(pairs_view(pairs@), key@) == Some(v@),
            None => field(pairs_view(pairs@), key@) is None,
        },
{
    let ghost pv = pairs_view(pairs@);
    let mut j: usize = pairs.len();
    assert(pv.subrange(0, j as int) =~= pv);
    while j > 0
        invariant
            j <= pairs@.len(),
            pv == pairs_view(pairs@),
            field(pv, key@) == field(pv.subrange(0, j as int), key@),
        decreases j,
    {
        let ghost pre = pv.subrange(0, j as int);
        assert(pre.drop_last() =~= pv.subrange(0, j - 1));
        assert(pre.last() == (pairs@[j - 1].0@, pairs@[j - 1].1@));
        if chars_eq_str(&pairs[j - 1].0, key) {
            return Some(sub_chars(&pairs[j - 1].1, 0, pairs[j - 1].1.len()));
        }
        j = j - 1;
    }
    None
}

/// The view of a list of key/value pairs.
pub open spec fn pairs_view(v: Seq<(Vec<char>, Vec<char>)>) -> Seq<(Seq<char>, Seq<char>)> {
    v.map_values(|p: (Vec<char>, Vec<char>)| (p.0@, p.1@))
}

fn parse_u8_chars(s: &[char]) -> (r: Option<u8>)
    ensures
        r == parsed_u8(s@),
{
    let start: usize = if s.len() > 0 && s[0] == '+' {
        1
    } else {
        0
    };
    let ghost d = if s@.len() > 0 && s@[0] == '+' {
        s@.skip(1)
    } else {
        s@
    };
    assert(d =~= s@.skip(start as int));
    if start >= s.len() {
        return None;
    }
    let mut acc: u32 = 0;
    let mut i: usize = start;
    while i < s.len()
        invariant
            start <= i <= s@.len(),
            d == s@.skip(start as int),
            d == (if s@.len() > 0 && s@[0] == '+' {
                s@.skip(1)
            } else {
                s@
            }),
            all_digits(s@.subrange(start as int, i as int)),
            acc == (if digits_value(s@.subrange(start as int, i as int)) > 1000 {
                1000
            } else {
                digits_value(s@.subrange(start as int, i as int))
            }),
        decreases s@.len() - i,
    {
        let c = s[i];
        if !('0' <= c && c <= '9') {
            assert(d[i - start] == c);
            assert(!all_digits(d));
            return None;
        }
        let ghost pre = s@.subrange(start as int, i + 1);
        assert(pre.drop_last() =~= s@.subrange(start as int, i as int));
        let digit = (c as u32) - ('0' as u32);
        let next = acc * 10 + digit;
        acc = if next > 1000 {
            1000
        } else {
            next
        };
        i = i + 1;
    }
    assert(s@.subrange(start as int, s@.len() as int) =~= d);
    if acc > 255 {
        None
    } else {
        Some(acc as u8)
    }
}

fn non_empty(value: &Option<Vec<char>>) -> (r: Option<String>)
    ensures
        opt_chars(r) == non_empty_value(match *value {
            Some(v) => Some(v@),
            None => None,
        }),
{
    match value {
        Some(v) => {
            let t = trim_chars(v);
            if t.len() > 0 {
                Some(string_from_chars(&t))
            } else {
                None
            }
        },
        None => None,
    }
}

fn parse_bool(value: &Option<Vec<char>>) -> (r: Option<bool>)
    ensures
        r == flag_value(match *value {
            Some(v) => Some(v@),
            None => None,
        }),
{
    match value {
        Some(v) => {
            let t = trim_chars(v);
            if chars_eq_str(&t, "1") {
                Some(true)
            } else if chars_eq_str(&t, "0") {
                Some(false)
            } else {
                None
            }
        },
        None => None,
    }
}

/// Reads a `uevent` body of a `/sys/class/power_supply/*` node named `name`.
/// Returns `None` for supplies that are not a device-scoped battery (such as
/// a laptop's system battery or a mains adapter).
pub fn parse_power_supply_uevent(name: &str, contents: &str) -> (r: Option<BatteryInfo>)
    ensures
        match r {
            Some(b) => battery_of(name@, contents@) == Some(b@),
            None => battery_of(name@, contents@) is None,
        },
{
    let chars = chars_of(contents);
    let ls = lines_of(&chars);
    let ghost all = lines(contents@);
    let mut pairs: Vec<(Vec<char>, Vec<char>)> = Vec::new();
    let mut i: usize = 0;
    assert(all.subrange(0, 0) =~= Seq::<Seq<char>>::empty());
    assert(pairs_view(pairs@) =~= Seq::<(Seq<char>, Seq<char>)>::empty());
    while i < ls.len()
        invariant
            i <= ls@.len(),
            all == lines(contents@),
            ls@.len() == all.len(),
            forall|k: int| 0 <= k < ls@.len() ==> #[trigger] ls@[k]@ == all[k],
            pairs_view(pairs@) == uevent_pairs(all.subrange(0, i as int)),
        decreases ls@.len() - i,
    {
        let ghost pre = all.subrange(0, i + 1);
        assert(pre.drop_last() =~= all.subrange(0, i as int));
        assert(pre.last() == ls@[i as int]@);
        let ghost before = pairs_view(pairs@);
        match line_pair(&ls[i]) {
            Some(p) => {
                let ghost pv = (p.0@, p.1@);
                pairs.push(p);
                assert(pairs_view(pairs@) =~= before.push(pv));
            },
            None => {},
        }
        i = i + 1;
    }
    assert(all.subrange(0, all.len() as int) =~= all);
    let kind = field_of(&pairs, "TYPE");
    let is_battery = match &kind {
        Some(k) => {
            let l = lower_chars(k);
            chars_eq_str(&l, "battery")
        },
        None => false,
    };
    if !is_battery {
        return None;
    }
    let scope = field_of(&pairs, "SCOPE");
    let is_device = match &scope {
        Some(s) => {
            let l = lower_chars(s);
            chars_eq_str(&l, "device")
        },
        None => false,
    };
    if !is_device {
        return None;
    }
    let node_name = match field_of(&pairs, "NAME") {
        Some(n) => string_from_chars(&n),
        None => string_from_chars(&chars_of(name)),
    };
    let capacity = match field_of(&pairs, "CAPACITY") {
        Some(c) => parse_u8_chars(&c),
        None => None,
    };
    let model = non_empty(&field_of(&pairs, "MODEL_NAME"));
    let status = non_empty(&field_of(&pairs, "STATUS"));
    let capacity_level = non_empty(&field_of(&pairs, "CAPACITY_LEVEL"));
    let present = parse_bool(&field_of(&pairs, "PRESENT"));
    let online = parse_bool(&field_of(&pairs, "ONLINE"));
    Some(BatteryInfo { name: node_name, model, status, capacity, capacity_level, present, online })
}

/// `s` with `x` placed after every element whose name does not sort after
/// `x`'s: the stable insertion of `x` into a list sorted by name.
pub open spec fn insert_battery(s: Seq<BatteryModel>, x: BatteryModel) -> Seq<BatteryModel>
    decreases s.len(),
{
    if s.len() == 0 {
        seq![x]
    } else if seq_lt(x.name, s.last().name) {
        insert_battery(s.drop_last(), x).push(s.last())
    } else {
        s.push(x)
    }
}

/// The batteries the nodes describe, in node order, then sorted by name
/// (stably).
pub open spec fn batteries_of(nodes: Seq<(String, String)>) -> Seq<BatteryModel>
    decreases nodes.len(),
{
    if nodes.len() == 0 {
        Seq::empty()
    } else {
        let prev = batteries_of(nodes.drop_last());
        match battery_of(nodes.last().0@, nodes.last().1@) {
            Some(b) => insert_battery(prev, b),
            None => prev,
        }
    }
}

pub open spec fn batteries_view(v: Seq<BatteryInfo>) -> Seq<BatteryModel> {
    v.map_values(|b: BatteryInfo| b@)
}

/// The batteries the nodes describe, in node order.
pub open spec fn parsed_batteries(nodes: Seq<(String, String)>) -> Seq<BatteryModel>
    decreases nodes.len(),
{
    if nodes.len() == 0 {
        Seq::empty()
    } else {
        let prev = parsed_batteries(nodes.drop_last());
        match battery_of(nodes.last().0@, nodes.last().1@) {
            Some(b) => prev.push(b),
            None => prev,
        }
    }
}

/// No name sorts before a name that comes earlier in the list.
pub open spec fn battery_names_in_order(s: Seq<BatteryModel>) -> bool {
    forall|i: int, j: int| #![trigger s[i], s[j]] 0 <= i < j < s.len() ==> !seq_lt(s[j].name, s[i].name)
}

proof fn lemma_insert_battery(s: Seq<BatteryModel>, x: BatteryModel)
    requires
        battery_names_in_order(s),
    ensures
        battery_names_in_order(insert_battery(s, x)),
        insert_battery(s, x).to_multiset() =~= s.to_multiset().insert(x),
    decreases s.len(),
{
    broadcast use vstd::seq_lib::group_to_multiset_ensures;
    let r = insert_battery(s, x);
    if s.len() == 0 {
        assert(r =~= Seq::<BatteryModel>::empty().push(x));
    } else {
        let t = s.drop_last();
        let last = s.last();
        assert(s =~= t.push(last));
        assert(battery_names_in_order(t)) by {
            assert forall|i: int, j: int| #![trigger t[i], t[j]] 0 <= i < j < t.len() implies !seq_lt(t[j].name, t[i].name) by {
                assert(t[i] == s[i] && t[j] == s[j]);
            }
        }
        if seq_lt(x.name, last.name) {
            lemma_insert_battery(t, x);
            let r1 = insert_battery(t, x);
            assert(r == r1.push(last));
            crate::text::lemma_seq_lt_order(x.name, last.name, last.name);
            assert forall|k: int| 0 <= k < r1.len() implies !seq_lt(last.name, (#[trigger] r1[k]).name) by {
                assert(r1.contains(r1[k]));
                assert(r1.to_multiset().count(r1[k]) > 0);
                if r1[k] != x {
                    assert(t.to_multiset().count(r1[k]) > 0);
                    assert(t.contains(r1[k]));
                    let m = choose|m: int| 0 <= m < t.len() && t[m] == r1[k];
                    assert(s[m] == t[m] && s[s.len() - 1] == last);
                }
            }
            assert forall|i: int, j: int| #![trigger r[i], r[j]] 0 <= i < j < r.len() implies !seq_lt(r[j].name, r[i].name) by {
                assert(r[i] == r1[i]);
                if j < r1.len() {
                    assert(r[j] == r1[j]);
                }
            }
        } else {
            assert(r == s.push(x));
            assert forall|i: int, j: int| #![trigger r[i], r[j]] 0 <= i < j < r.len() implies !seq_lt(r[j].name, r[i].name) by {
                assert(r[i] == s[i]);
                if j < s.len() {
                    assert(r[j] == s[j]);
                } else {
                    assert(r[j] == x);
                    if i < s.len() - 1 {
                        assert(s[s.len() - 1] == last);
                    }
                    crate::text::lemma_seq_lt_order(x.name, last.name, s[i].name);
                    crate::text::lemma_seq_lt_order(last.name, x.name, s[i].name);
                }
            }
        }
    }
}

/// Batteries are listed sorted by name, each battery the nodes describe
/// appearing exactly as often as it is described.
pub proof fn law_batteries_sorted_by_name(nodes: Seq<(String, String)>)
    ensures
        battery_names_in_order(batteries_of(nodes)),
        batteries_of(nodes).to_multiset() == parsed_batteries(nodes).to_multiset(),
    decreases nodes.len(),
{
    broadcast use vstd::seq_lib::group_to_multiset_ensures;
    if nodes.len() > 0 {
        law_batteries_sorted_by_name(nodes.drop_last());
        match battery_of(nodes.last().0@, nodes.last().1@) {
            Some(b) => lemma_insert_battery(batteries_of(nodes.drop_last()), b),
            None => {},
        }
    }
}

fn battery_sorts_before(xn: &Vec<char>, v: &Vec<BatteryInfo>, k: usize) -> (r: bool)
    requires
        k < v@.len(),
    ensures
        r == seq_lt(xn@, v@[k as int].name@),
{
    let yn = chars_of(v[k].name.as_str());
    chars_lt(xn, &yn)
}

fn insert_sorted_battery(v: &mut Vec<BatteryInfo>, x: BatteryInfo)
    ensures
        batteries_view(final(v)@) == insert_battery(batteries_view(old(v)@), x@),
{
    let ghost s = batteries_view(v@);
    let xn = chars_of(x.name.as_str());
    let mut j: usize = v.len();
    assert(s.subrange(0, j as int) =~= s);
    while j > 0 && battery_sorts_before(&xn, v, j - 1)
        invariant
            j <= v@.len(),
            s == batteries_view(v@),
            xn@ == x.name@,
            insert_battery(s, x@) == insert_battery(s.subrange(0, j as int), x@) + s.subrange(j as int, s.len() as int),
        decreases j,
    {
        let ghost pre = s.subrange(0, j as int);
        assert(pre.drop_last() =~= s.subrange(0, j - 1));
        assert(pre.last() == s[j - 1]);
        assert(insert_battery(pre, x@) == insert_battery(s.subrange(0, j - 1), x@).push(s[j - 1]));
        assert(insert_battery(s.subrange(0, j - 1), x@).push(s[j - 1]) + s.subrange(j as int, s.len() as int)
            =~= insert_battery(s.subrange(0, j - 1), x@) + s.subrange(j - 1, s.len() as int));
        j = j - 1;
    }
    proof {
        let pre = s.subrange(0, j as int);
        if j > 0 {
            assert(pre.last() == s[j - 1]);
            assert(insert_battery(pre, x@) == pre.push(x@));
        } else {
            assert(insert_battery(pre, x@) =~= seq![x@]);
        }
    }
    let ghost xv = x@;
    v.insert(j, x);
    assert(batteries_view(v@) =~= s.subrange(0, j as int).push(xv) + s.subrange(j as int, s.len() as int));
}

/// The device-scoped batteries among the power-supply nodes read, each given
/// as its node name and `uevent` contents, sorted by name.
pub fn list_batteries(nodes: &Vec<(String, String)>) -> (r: Vec<BatteryInfo>)
    ensures
        batteries_view(r@) == batteries_of(nodes@),
{
    let mut out: Vec<BatteryInfo> = Vec::new();
    let mut i: usize = 0;
    assert(nodes@.subrange(0, 0) =~= Seq::<(String, String)>::empty());
    assert(batteries_view(out@) =~= Seq::<BatteryModel>::empty());
    while i < nodes.len()
        invariant
            i <= nodes@.len(),
            batteries_view(out@) == batteries_of(nodes@.subrange(0, i as int)),
        decreases nodes@.len() - i,
    {
        let ghost pre = nodes@.subrange(0, i + 1);
        assert(pre.drop_last() =~= nodes@.subrange(0, i as int));
        assert(pre.last() == nodes@[i as int]);
        match parse_power_supply_uevent(nodes[i].0.as_str(), nodes[i].1.as_str()) {
            Some(b) => insert_sorted_battery(&mut out, b),
            None => {},
        }
        i = i + 1;
    }
    assert(nodes@.subrange(0, nodes@.len() as int) =~= nodes@);
    out
}

} // verus!
