//! The profile catalog: the profiles read from the profile directories, in
//! reading order, become one list with one profile per id (a profile read
//! later replaces an earlier one with the same id) sorted by name.

use vstd::prelude::*;
use crate::profiles::Profile;
use crate::text::{chars_lt, chars_of, lemma_seq_lt_order, seq_lt, str_eq};

verus! {

/// The index of the first profile with id `id`.
pub open spec fn id_index(s: Seq<Profile>, id: Seq<char>) -> Option<int>
    decreases s.len(),
{
    if s.len() == 0 {
        None
    } else {
        match id_index(s.drop_last(), id) {
            Some(i) => Some(i),
            None => if s.last().id@ == id {
                Some(s.len() - 1)
            } else {
                None
            },
        }
    }
}

/// `p` in place of the profile with its id, or added at the end.
pub open spec fn replace_or_push(kept: Seq<Profile>, p: Profile) -> Seq<Profile> {
    match id_index(kept, p.id@) {
        Some(j) => kept.update(j, p),
        None => kept.push(p),
    }
}

/// One profile per id, the latest read, in the order ids were first read.
pub open spec fn latest_by_id(loaded: Seq<Profile>) -> Seq<Profile>
    decreases loaded.len(),
{
    if loaded.len() == 0 {
        Seq::empty()
    } else {
        replace_or_push(latest_by_id(loaded.drop_last()), loaded.last())
    }
}

/// `s` with `x` placed after every profile whose name does not sort after
/// `x`'s: the stable insertion of `x` into a list sorted by name.
pub open spec fn insert_by_name(s: Seq<Profile>, x: Profile) -> Seq<Profile>
    decreases s.len(),
{
    if s.len() == 0 {
        seq![x]
    } else if seq_lt(x.name@, s.last().name@) {
        insert_by_name(s.drop_last(), x).push(s.last())
    } else {
        s.push(x)
    }
}

/// `s` sorted by name, stably.
pub open spec fn sorted_by_name(s: Seq<Profile>) -> Seq<Profile>
    decreases s.len(),
{
    if s.len() == 0 {
        Seq::empty()
    } else {
        insert_by_name(sorted_by_name(s.drop_last()), s.last())
    }
}

/// The catalog of the profiles read, in reading order.
pub open spec fn profile_catalog(loaded: Seq<Profile>) -> Seq<Profile> {
    sorted_by_name(latest_by_id(loaded))
}

proof fn lemma_id_index(s: Seq<Profile>, id: Seq<char>)
    ensures
        id_index(s, id) matches Some(i) ==> 0 <= i < s.len() && s[i].id@ == id,
    decreases s.len(),
{
    if s.len() > 0 {
        lemma_id_index(s.drop_last(), id);
    }
}

fn find_id(kept: &Vec<Profile>, id: &str) -> (r: Option<usize>)
    ensures
        match r {
            Some(j) => id_index(kept@, id@) == Some(j as int),
            None => id_index(kept@, id@) is None,
        },
{
    let mut i: usize = 0;
    let mut found: Option<usize> = None;
    while i < kept.len()
        invariant
            i <= kept@.len(),
            match found {
                Some(j) => id_index(kept@.subrange(0, i as int), id@) == Some(j as int),
                None => id_index(kept@.subrange(0, i as int), id@) is None,
            },
        decreases kept@.len() - i,
    {
        let ghost pre = kept@.subrange(0, i + 1);
        assert(pre.drop_last() =~= kept@.subrange(0, i as int));
        if found.is_none() && str_eq(kept[i].id.as_str(), id) {
            found = Some(i);
        }
        i = i + 1;
    }
    assert(kept@.subrange(0, kept@.len() as int) =~= kept@);
    found
}

fn sorts_before(name: &Vec<char>, v: &Vec<Profile>, k: usize) -> (r: bool)
    requires
        k < v@.len(),
    ensures
        r == seq_lt(name@, v@[k as int].name@),
{
    let other = chars_of(v[k].name.as_str());
    chars_lt(name, &other)
}

fn insert_sorted(v: &mut Vec<Profile>, x: Profile)
    ensures
        final(v)@ == insert_by_name(old(v)@, x),
{
    let ghost s = v@;
    let name = chars_of(x.name.as_str());
    let mut j: usize = v.len();
    assert(s.subrange(0, j as int) =~= s);
    while j > 0 && sorts_before(&name, v, j - 1)
        invariant
            j <= v@.len(),
            s == v@,
            name@ == x.name@,
            insert_by_name(s, x) == insert_by_name(s.subrange(0, j as int), x) + s.subrange(j as int, s.len() as int),
        decreases j,
    {
        let ghost pre = s.subrange(0, j as int);
        assert(pre.drop_last() =~= s.subrange(0, j - 1));
        assert(pre.last() == s[j - 1]);
        assert(insert_by_name(pre, x) == insert_by_name(s.subrange(0, j - 1), x).push(s[j - 1]));
        assert(insert_by_name(s.subrange(0, j - 1), x).push(s[j - 1]) + s.subrange(j as int, s.len() as int)
            =~= insert_by_name(s.subrange(0, j - 1), x) + s.subrange(j - 1, s.len() as int));
        j = j - 1;
    }
    proof {
        let pre = s.subrange(0, j as int);
        if j > 0 {
            assert(pre.last() == s[j - 1]);
            assert(insert_by_name(pre, x) == pre.push(x));
        } else {
            assert(insert_by_name(pre, x) =~= seq![x]);
        }
    }
    v.insert(j, x);
    assert(v@ =~= s.subrange(0, j as int).push(x) + s.subrange(j as int, s.len() as int));
}

/// The catalog of the profiles read from the profile directories, given in
/// reading order (see [`profile_catalog`]).
pub fn merge_profiles(loaded: Vec<Profile>) -> (r: Vec<Profile>)
    ensures
        r@ == profile_catalog(loaded@),
{
    let ghost all = loaded@;
    let mut rest = loaded;
    let total: usize = rest.len();
    let mut kept: Vec<Profile> = Vec::new();
    let mut n: usize = 0;
    assert(all.skip(0) =~= all);
    while rest.len() > 0
        invariant
            n <= all.len(),
            all.len() == total,
            rest@ == all.skip(n as int),
            kept@ == latest_by_id(all.subrange(0, n as int)),
        decreases rest@.len(),
    {
        let p = rest.remove(0);
        assert(p == all[n as int]);
        assert(rest@ =~= all.skip(n + 1));
        let ghost pre = all.subrange(0, n + 1);
        assert(pre.drop_last() =~= all.subrange(0, n as int));
        proof {
            lemma_id_index(kept@, p.id@);
        }
        match find_id(&kept, p.id.as_str()) {
            Some(j) => {
                kept.set(j, p);
            },
            None => {
                kept.push(p);
            },
        }
        n = n + 1;
    }
    assert(all.subrange(0, n as int) =~= all);
    let ghost latest = kept@;
    let mut sorted: Vec<Profile> = Vec::new();
    let mut m: usize = 0;
    let mut source = kept;
    let count: usize = source.len();
    assert(latest.skip(0) =~= latest);
    while source.len() > 0
        invariant
            m <= latest.len(),
            latest.len() == count,
            source@ == latest.skip(m as int),
            sorted@ == sorted_by_name(latest.subrange(0, m as int)),
        decreases source@.len(),
    {
        let p = source.remove(0);
        assert(p == latest[m as int]);
        assert(source@ =~= latest.skip(m + 1));
        let ghost pre = latest.subrange(0, m + 1);
        assert(pre.drop_last() =~= latest.subrange(0, m as int));
        insert_sorted(&mut sorted, p);
        m = m + 1;
    }
    assert(latest.subrange(0, m as int) =~= latest);
    sorted
}

// ---------------------------------------------------------------------------
// What the catalog is

/// No id occurs twice.
pub open spec fn distinct_ids(s: Seq<Profile>) -> bool {
    forall|a: int, b: int| 0 <= a < b < s.len() ==> (#[trigger] s[a]).id@ != (#[trigger] s[b]).id@
}

/// The profiles are listed by name.
pub open spec fn name_sorted(s: Seq<Profile>) -> bool {
    forall|a: int, b: int| 0 <= a < b < s.len() ==> !seq_lt((#[trigger] s[b]).name@, (#[trigger] s[a]).name@)
}

/// Profile `i` is the last one read with its id.
pub open spec fn last_read(loaded: Seq<Profile>, i: int) -> bool {
    0 <= i < loaded.len() && forall|j: int| i < j < loaded.len() ==> (#[trigger] loaded[j]).id@ != loaded[i].id@
}

#[verifier::rlimit(40)]
proof fn lemma_latest(loaded: Seq<Profile>)
    ensures
        distinct_ids(latest_by_id(loaded)),
        forall|k: int| #![trigger latest_by_id(loaded)[k]] 0 <= k < latest_by_id(loaded).len() ==> exists|i: int| #[trigger] last_read(loaded, i)
            && latest_by_id(loaded)[k] == loaded[i],
        forall|i: int| 0 <= i < loaded.len() ==> exists|k: int| 0 <= k < latest_by_id(loaded).len()
            && (#[trigger] latest_by_id(loaded)[k]).id@ == (#[trigger] loaded[i]).id@,
    decreases loaded.len(),
{
    if loaded.len() > 0 {
        let prev = loaded.drop_last();
        let kept = latest_by_id(prev);
        let p = loaded.last();
        let n = loaded.len() - 1;
        lemma_latest(prev);
        lemma_id_index(kept, p.id@);
        let r = latest_by_id(loaded);
        assert(r == replace_or_push(kept, p));
        assert(last_read(loaded, n));
        match id_index(kept, p.id@) {
            Some(j) => {
                assert(r == kept.update(j, p));
                assert forall|a: int, b: int| 0 <= a < b < r.len() implies (#[trigger] r[a]).id@ != (#[trigger] r[b]).id@ by {
                    if a != j && b != j {
                        assert(r[a] == kept[a] && r[b] == kept[b]);
                    } else if a == j {
                        assert(r[b] == kept[b]);
                        assert(kept[a].id@ == p.id@);
                    } else {
                        assert(r[a] == kept[a]);
                        assert(kept[b].id@ == p.id@);
                    }
                }
                assert forall|k: int| #![trigger r[k]] 0 <= k < r.len() implies exists|i: int| #[trigger] last_read(loaded, i) && r[k] == loaded[i] by {
                    if k == j {
                        assert(last_read(loaded, n) && r[k] == loaded[n]);
                    } else {
                        let i = choose|i: int| #[trigger] last_read(prev, i) && kept[k] == prev[i];
                        assert(kept[k].id@ != kept[j].id@);
                        assert(loaded[i] == prev[i]);
                        assert forall|m: int| i < m < loaded.len() implies (#[trigger] loaded[m]).id@ != loaded[i].id@ by {
                            if m < n {
                                assert(loaded[m] == prev[m]);
                            }
                        }
                        assert(last_read(loaded, i) && r[k] == loaded[i]);
                    }
                }
                assert forall|i: int| 0 <= i < loaded.len() implies exists|k: int| 0 <= k < r.len()
                    && (#[trigger] r[k]).id@ == (#[trigger] loaded[i]).id@ by {
                    if i == n {
                        assert(r[j].id@ == loaded[i].id@);
                    } else {
                        assert(loaded[i] == prev[i]);
                        let k = choose|k: int| 0 <= k < kept.len() && (#[trigger] kept[k]).id@ == (#[trigger] prev[i]).id@;
                        if k == j {
                            assert(r[j].id@ == kept[j].id@);
                        } else {
                            assert(r[k] == kept[k]);
                        }
                    }
                }
            },
            None => {
                assert(r == kept.push(p));
                assert forall|a: int, b: int| 0 <= a < b < r.len() implies (#[trigger] r[a]).id@ != (#[trigger] r[b]).id@ by {
                    if b == kept.len() {
                        assert(r[a] == kept[a]);
                        lemma_id_index_none(kept, p.id@, a);
                    } else {
                        assert(r[a] == kept[a] && r[b] == kept[b]);
                    }
                }
                assert forall|k: int| #![trigger r[k]] 0 <= k < r.len() implies exists|i: int| #[trigger] last_read(loaded, i) && r[k] == loaded[i] by {
                    if k == kept.len() {
                        assert(last_read(loaded, n) && r[k] == loaded[n]);
                    } else {
                        let i = choose|i: int| #[trigger] last_read(prev, i) && kept[k] == prev[i];
                        lemma_id_index_none(kept, p.id@, k);
                        assert(loaded[i] == prev[i]);
                        assert forall|m: int| i < m < loaded.len() implies (#[trigger] loaded[m]).id@ != loaded[i].id@ by {
                            if m < n {
                                assert(loaded[m] == prev[m]);
                            }
                        }
                        assert(last_read(loaded, i) && r[k] == loaded[i]);
                    }
                }
                assert forall|i: int| 0 <= i < loaded.len() implies exists|k: int| 0 <= k < r.len()
                    && (#[trigger] r[k]).id@ == (#[trigger] loaded[i]).id@ by {
                    if i == n {
                        assert(r[kept.len() as int].id@ == loaded[i].id@);
                    } else {
                        assert(loaded[i] == prev[i]);
                        let k = choose|k: int| 0 <= k < kept.len() && (#[trigger] kept[k]).id@ == (#[trigger] prev[i]).id@;
                        assert(r[k] == kept[k]);
                    }
                }
            },
        }
    }
}

proof fn lemma_id_index_none(s: Seq<Profile>, id: Seq<char>, k: int)
    requires
        id_index(s, id) is None,
        0 <= k < s.len(),
    ensures
        s[k].id@ != id,
    decreases s.len(),
{
    if k < s.len() - 1 {
        lemma_id_index_none(s.drop_last(), id, k);
    }
}

#[verifier::rlimit(40)]
proof fn lemma_insert(s: Seq<Profile>, x: Profile)
    requires
        distinct_ids(s),
        name_sorted(s),
        forall|k: int| 0 <= k < s.len() ==> (#[trigger] s[k]).id@ != x.id@,
    ensures
        distinct_ids(insert_by_name(s, x)),
        name_sorted(insert_by_name(s, x)),
        insert_by_name(s, x).len() == s.len() + 1,
        forall|y: Profile| #![trigger insert_by_name(s, x).contains(y)] insert_by_name(s, x).contains(y) <==> (s.contains(y) || y == x),
    decreases s.len(),
{
    let r = insert_by_name(s, x);
    if s.len() == 0 {
        assert(r == seq![x]);
        assert forall|y: Profile| r.contains(y) <==> (s.contains(y) || y == x) by {
            if r.contains(y) {
                let k = choose|k: int| 0 <= k < r.len() && r[k] == y;
                assert(k == 0);
            }
            if y == x {
                assert(r[0] == y);
            }
        }
    } else {
        let t = s.drop_last();
        let last = s.last();
        assert forall|a: int, b: int| 0 <= a < b < t.len() implies (#[trigger] t[a]).id@ != (#[trigger] t[b]).id@ by {
            assert(t[a] == s[a] && t[b] == s[b]);
        }
        assert forall|a: int, b: int| 0 <= a < b < t.len() implies !seq_lt((#[trigger] t[b]).name@, (#[trigger] t[a]).name@) by {
            assert(t[a] == s[a] && t[b] == s[b]);
        }
        if seq_lt(x.name@, last.name@) {
            assert forall|k: int| 0 <= k < t.len() implies (#[trigger] t[k]).id@ != x.id@ by {
                assert(t[k] == s[k]);
            }
            lemma_insert(t, x);
            let r1 = insert_by_name(t, x);
            assert(r == r1.push(last));
            lemma_seq_lt_order(x.name@, last.name@, last.name@);
            assert forall|k: int| 0 <= k < r1.len() implies (#[trigger] r1[k]).id@ != last.id@
                && !seq_lt(last.name@, r1[k].name@) by {
                assert(r1.contains(r1[k]));
                if r1[k] != x {
                    assert(t.contains(r1[k]));
                    let m = choose|m: int| 0 <= m < t.len() && t[m] == r1[k];
                    assert(s[m] == t[m]);
                    assert(s[s.len() - 1] == last);
                } else {
                    assert(s[s.len() - 1] == last);
                }
            }
            assert forall|a: int, b: int| 0 <= a < b < r.len() implies (#[trigger] r[a]).id@ != (#[trigger] r[b]).id@ by {
                if b == r1.len() {
                    assert(r[a] == r1[a]);
                } else {
                    assert(r[a] == r1[a] && r[b] == r1[b]);
                }
            }
            assert forall|a: int, b: int| 0 <= a < b < r.len() implies !seq_lt((#[trigger] r[b]).name@, (#[trigger] r[a]).name@) by {
                if b == r1.len() {
                    assert(r[a] == r1[a]);
                } else {
                    assert(r[a] == r1[a] && r[b] == r1[b]);
                }
            }
            assert forall|y: Profile| r.contains(y) <==> (s.contains(y) || y == x) by {
                if r.contains(y) {
                    let k = choose|k: int| 0 <= k < r.len() && r[k] == y;
                    if k < r1.len() {
                        assert(r1.contains(y));
                        if y != x {
                            let m = choose|m: int| 0 <= m < t.len() && t[m] == y;
                            assert(s[m] == y);
                        }
                    } else {
                        assert(s[s.len() - 1] == y);
                    }
                }
                if s.contains(y) {
                    let m = choose|m: int| 0 <= m < s.len() && s[m] == y;
                    if m < s.len() - 1 {
                        assert(t[m] == y);
                        assert(t.contains(y));
                        assert(r1.contains(y));
                        let k = choose|k: int| 0 <= k < r1.len() && r1[k] == y;
                        assert(r[k] == y);
                    } else {
                        assert(r[r1.len() as int] == y);
                    }
                }
                if y == x {
                    assert(r1.contains(x));
                    let k = choose|k: int| 0 <= k < r1.len() && r1[k] == x;
                    assert(r[k] == x);
                }
            }
        } else {
            assert(r == s.push(x));
            assert forall|k: int| 0 <= k < s.len() implies !seq_lt(x.name@, (#[trigger] s[k]).name@) by {
                lemma_seq_lt_order(x.name@, last.name@, s[k].name@);
                lemma_seq_lt_order(last.name@, x.name@, s[k].name@);
                if k < s.len() - 1 {
                    assert(!seq_lt(s[s.len() - 1].name@, s[k].name@));
                }
            }
            assert forall|a: int, b: int| 0 <= a < b < r.len() implies (#[trigger] r[a]).id@ != (#[trigger] r[b]).id@ by {
                if b == s.len() {
                    assert(r[a] == s[a]);
                } else {
                    assert(r[a] == s[a] && r[b] == s[b]);
                }
            }
            assert forall|a: int, b: int| 0 <= a < b < r.len() implies !seq_lt((#[trigger] r[b]).name@, (#[trigger] r[a]).name@) by {
                if b == s.len() {
                    assert(r[a] == s[a]);
                } else {
                    assert(r[a] == s[a] && r[b] == s[b]);
                }
            }
            assert forall|y: Profile| r.contains(y) <==> (s.contains(y) || y == x) by {
                if r.contains(y) {
                    let k = choose|k: int| 0 <= k < r.len() && r[k] == y;
                    if k < s.len() {
                        assert(s[k] == y);
                    }
                }
                if s.contains(y) {
                    let m = choose|m: int| 0 <= m < s.len() && s[m] == y;
                    assert(r[m] == y);
                }
                if y == x {
                    assert(r[s.len() as int] == x);
                }
            }
        }
    }
}

proof fn lemma_sorted(t: Seq<Profile>)
    requires
        distinct_ids(t),
    ensures
        distinct_ids(sorted_by_name(t)),
        name_sorted(sorted_by_name(t)),
        sorted_by_name(t).len() == t.len(),
        forall|y: Profile| #![trigger sorted_by_name(t).contains(y)] sorted_by_name(t).contains(y) <==> t.contains(y),
    decreases t.len(),
{
    if t.len() > 0 {
        let u = t.drop_last();
        assert forall|a: int, b: int| 0 <= a < b < u.len() implies (#[trigger] u[a]).id@ != (#[trigger] u[b]).id@ by {
            assert(u[a] == t[a] && u[b] == t[b]);
        }
        lemma_sorted(u);
        let su = sorted_by_name(u);
        assert forall|k: int| 0 <= k < su.len() implies (#[trigger] su[k]).id@ != t.last().id@ by {
            assert(su.contains(su[k]));
            let m = choose|m: int| 0 <= m < u.len() && u[m] == su[k];
            assert(t[m] == u[m]);
        }
        lemma_insert(su, t.last());
        assert forall|y: Profile| sorted_by_name(t).contains(y) <==> t.contains(y) by {
            if t.contains(y) {
                let m = choose|m: int| 0 <= m < t.len() && t[m] == y;
                if m < u.len() {
                    assert(u[m] == y);
                    assert(u.contains(y));
                }
            }
            if u.contains(y) {
                let m = choose|m: int| 0 <= m < u.len() && u[m] == y;
                assert(t[m] == y);
            }
        }
    } else {
        assert(sorted_by_name(t) =~= t);
    }
}

proof fn lemma_catalog_origin(loaded: Seq<Profile>, k: int)
    requires
        0 <= k < profile_catalog(loaded).len(),
    ensures
        exists|i: int| #[trigger] last_read(loaded, i) && profile_catalog(loaded)[k] == loaded[i],
{
    let latest = latest_by_id(loaded);
    lemma_latest(loaded);
    lemma_sorted(latest);
    let cat = profile_catalog(loaded);
    let y = cat[k];
    assert(cat.contains(y));
    assert(latest.contains(y));
    let m = choose|m: int| 0 <= m < latest.len() && latest[m] == y;
    assert(exists|i: int| #[trigger] last_read(loaded, i) && latest[m] == loaded[i]);
}

proof fn lemma_catalog_cover(loaded: Seq<Profile>, i: int)
    requires
        0 <= i < loaded.len(),
    ensures
        exists|k: int| 0 <= k < profile_catalog(loaded).len() && (#[trigger] profile_catalog(loaded)[k]).id@ == loaded[i].id@,
{
    let latest = latest_by_id(loaded);
    lemma_latest(loaded);
    lemma_sorted(latest);
    let cat = profile_catalog(loaded);
    assert(loaded[i] == loaded[i]);
    let m = choose|m: int| 0 <= m < latest.len() && (#[trigger] latest[m]).id@ == (#[trigger] loaded[i]).id@;
    let y = latest[m];
    assert(latest.contains(y));
    assert(cat.contains(y));
    let k = choose|k: int| 0 <= k < cat.len() && cat[k] == y;
    assert(cat[k].id@ == loaded[i].id@);
}

/// The catalog holds one profile per id (the one read last with that id),
/// holds every id read, and lists the profiles by name.
pub proof fn law_catalog(loaded: Seq<Profile>)
    ensures
        distinct_ids(profile_catalog(loaded)),
        name_sorted(profile_catalog(loaded)),
        forall|k: int| #![trigger profile_catalog(loaded)[k]] 0 <= k < profile_catalog(loaded).len() ==> exists|i: int| #[trigger] last_read(loaded, i)
            && profile_catalog(loaded)[k] == loaded[i],
        forall|i: int| 0 <= i < loaded.len() ==> exists|k: int| 0 <= k < profile_catalog(loaded).len()
            && (#[trigger] profile_catalog(loaded)[k]).id@ == (#[trigger] loaded[i]).id@,
{
    lemma_latest(loaded);
    lemma_sorted(latest_by_id(loaded));
    assert forall|k: int| #![trigger profile_catalog(loaded)[k]] 0 <= k < profile_catalog(loaded).len() implies exists|i: int| #[trigger] last_read(loaded, i)
        && profile_catalog(loaded)[k] == loaded[i] by {
        lemma_catalog_origin(loaded, k);
    }
    assert forall|i: int| 0 <= i < loaded.len() implies exists|k: int| 0 <= k < profile_catalog(loaded).len()
        && (#[trigger] profile_catalog(loaded)[k]).id@ == (#[trigger] loaded[i]).id@ by {
        lemma_catalog_cover(loaded, i);
    }
}

} // verus!
