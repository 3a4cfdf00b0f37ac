//! Case-insensitive `*`/`?` glob matching of process names.

use vstd::prelude::*;
use crate::text::{chars_of, lower, lower_chars};

verus! {

/// Whether every character of `p` from position `i` on is a `*`.
pub open spec fn rest_all_stars(p: Seq<char>, i: int) -> bool {
    forall|k: int| i <= k < p.len() ==> p[k] == '*'
}

/// The matcher's state is well formed: positions inside the inputs and, once a
/// `*` has been seen, its position and the value position it started from.
pub open spec fn glob_state_ok(
    p: Seq<char>,
    v: Seq<char>,
    pi: int,
    vi: int,
    star: Option<int>,
    sv: int,
) -> bool {
    &&& 0 <= pi <= p.len()
    &&& 0 <= vi <= v.len()
    &&& (star matches Some(s) ==> 0 <= s < p.len() && p[s] == '*' && 0 <= sv <= vi)
}

/// The glob matcher run from a state: pattern position `pi`, value position
/// `vi`, and the most recent `*` (with the value position it was retried at).
/// A `*` is remembered and first matches nothing; a `?` or an equal
/// character advances both positions; on a mismatch the last `*` absorbs one
/// more character of the value. Once the value is used up the rest of the
/// pattern must be all `*`.
pub open spec fn glob_run(p: Seq<char>, v: Seq<char>, pi: int, vi: int, star: Option<int>, sv: int) -> bool
    decreases
            v.len() + 1 - (if star is Some {
                sv
            } else {
                -1
            }),
            v.len() - vi,
            p.len() - pi,
{
    if !glob_state_ok(p, v, pi, vi, star, sv) {
        false
    } else if vi >= v.len() {
        rest_all_stars(p, pi)
    } else if pi < p.len() && p[pi] == '*' {
        glob_run(p, v, pi + 1, vi, Some(pi), vi)
    } else if pi < p.len() && (p[pi] == '?' || p[pi] == v[vi]) {
        glob_run(p, v, pi + 1, vi + 1, star, sv)
    } else {
        match star {
            Some(s) => glob_run(p, v, s + 1, sv + 1, star, sv + 1),
            None => false,
        }
    }
}

/// Case-insensitive glob match of `value` against `pattern`, where `*`
/// matches any run of characters and `?` any one character.
pub open spec fn glob_ci(pattern: Seq<char>, value: Seq<char>) -> bool {
    glob_run(lower(pattern), lower(value), 0, 0, None, 0)
}

/// Whether `value` matches the glob `pattern`, ignoring ASCII case.
pub fn glob_matches_ci(pattern: &str, value: &str) -> (r: bool)
    ensures
        r == glob_ci(pattern@, value@),
{
    let pc = chars_of(pattern);
    let vc = chars_of(value);
    let pat = lower_chars(&pc);
    let val = lower_chars(&vc);
    let ghost pp = lower(pc@);
    let ghost vv = lower(vc@);
    let mut p: usize = 0;
    let mut v: usize = 0;
    let mut star_p: Option<usize> = None;
    let mut star_v: usize = 0;
    while v < val.len()
        invariant
            pp == pat@,
            glob_ci(pattern@, value@) == glob_run(pp, vv, 0, 0, None, 0),
            vv == val@,
            glob_state_ok(pp, vv, p as int, v as int, opt_int(star_p), star_v as int),
            glob_run(pp, vv, 0, 0, None, 0) == glob_run(
                pp,
                vv,
                p as int,
                v as int,
                opt_int(star_p),
                star_v as int,
            ),
        decreases
                vv.len() + 1 - (if star_p is Some {
                    star_v as int
                } else {
                    -1
                }),
                vv.len() - v,
                pp.len() - p,
    {
        if p < pat.len() && pat[p] == '*' {
            star_p = Some(p);
            star_v = v;
            p = p + 1;
        } else if p < pat.len() && (pat[p] == '?' || pat[p] == val[v]) {
            p = p + 1;
            v = v + 1;
        } else if let Some(sp) = star_p {
            p = sp + 1;
            star_v = star_v + 1;
            v = star_v;
        } else {
            assert(!glob_run(pp, vv, p as int, v as int, opt_int(star_p), star_v as int));
            return false;
        }
    }
    while p < pat.len() && pat[p] == '*'
        invariant
            pp == pat@,
            glob_ci(pattern@, value@) == glob_run(pp, vv, 0, 0, None, 0),
            p <= pp.len(),
            glob_run(pp, vv, 0, 0, None, 0) == rest_all_stars(pp, p as int),
        decreases pp.len() - p,
    {
        p = p + 1;
    }
    p == pat.len()
}

/// The view of an optional position.
pub open spec fn opt_int(o: Option<usize>) -> Option<int> {
    match o {
        Some(x) => Some(x as int),
        None => None,
    }
}

// ---------------------------------------------------------------------------
// What a glob means

/// Whether `p` from position `i` on matches `v` from position `j` on, where
/// `*` matches any run of characters, `?` any one character, and any other
/// character itself.
pub open spec fn wild_at(p: Seq<char>, v: Seq<char>, i: int, j: int) -> bool
    decreases (p.len() - i) + (v.len() - j),
{
    if i < 0 || j < 0 || i > p.len() || j > v.len() {
        false
    } else if i == p.len() {
        j == v.len()
    } else if p[i] == '*' {
        wild_at(p, v, i + 1, j) || (j < v.len() && wild_at(p, v, i, j + 1))
    } else {
        j < v.len() && (p[i] == '?' || p[i] == v[j]) && wild_at(p, v, i + 1, j + 1)
    }
}

/// Whether the whole of `v` matches the glob `p`.
pub open spec fn wildcard_match(p: Seq<char>, v: Seq<char>) -> bool {
    wild_at(p, v, 0, 0)
}

/// `p` from `a` on, for `len` characters, holds no `*` and matches `v` from
/// `b` on character by character.
pub open spec fn literal_match(p: Seq<char>, v: Seq<char>, a: int, b: int, len: int) -> bool {
    forall|t: int| 0 <= t < len ==> #[trigger] p[a + t] != '*' && (p[a + t] == '?' || p[a + t] == v[b + t])
}

proof fn lemma_star_absorbs(p: Seq<char>, v: Seq<char>, i: int, j: int, k: int)
    requires
        0 <= i < p.len(),
        p[i] == '*',
        0 <= j <= k <= v.len(),
        wild_at(p, v, i, k),
    ensures
        wild_at(p, v, i, j),
    decreases k - j,
{
    if j < k {
        lemma_star_absorbs(p, v, i, j + 1, k);
    }
}

proof fn lemma_star_splits(p: Seq<char>, v: Seq<char>, i: int, j: int)
    requires
        0 <= i < p.len(),
        p[i] == '*',
        0 <= j <= v.len(),
        wild_at(p, v, i, j),
    ensures
        exists|k: int| j <= k <= v.len() && #[trigger] wild_at(p, v, i + 1, k),
    decreases v.len() - j,
{
    if !wild_at(p, v, i + 1, j) {
        lemma_star_splits(p, v, i, j + 1);
    }
}

proof fn lemma_all_stars(p: Seq<char>, v: Seq<char>, i: int)
    requires
        0 <= i <= p.len(),
    ensures
        wild_at(p, v, i, v.len() as int) == rest_all_stars(p, i),
    decreases p.len() - i,
{
    if i < p.len() {
        lemma_all_stars(p, v, i + 1);
        if !rest_all_stars(p, i + 1) {
            let k = choose|k: int| i + 1 <= k < p.len() && p[k] != '*';
            assert(!rest_all_stars(p, i));
        }
    }
}

/// A stretch without `*` matches character by character.
proof fn lemma_literal(p: Seq<char>, v: Seq<char>, a: int, k: int, len: int)
    requires
        0 <= a,
        a + len <= p.len(),
        0 <= len,
        0 <= k <= v.len(),
        forall|t: int| 0 <= t < len ==> #[trigger] p[a + t] != '*',
    ensures
        wild_at(p, v, a, k) == (k + len <= v.len() && literal_match(p, v, a, k, len) && wild_at(p, v, a + len, k + len)),
    decreases len,
{
    if len > 0 {
        assert(p[a + 0] != '*');
        if k < v.len() {
            assert forall|t: int| 0 <= t < len - 1 implies #[trigger] p[(a + 1) + t] != '*' by {
                assert(p[a + (t + 1)] != '*');
            }
            lemma_literal(p, v, a + 1, k + 1, len - 1);
            if literal_match(p, v, a + 1, k + 1, len - 1) && (p[a] == '?' || p[a] == v[k]) {
                assert forall|t: int| 0 <= t < len implies #[trigger] p[a + t] != '*' && (p[a + t] == '?' || p[a + t] == v[k + t]) by {
                    if t > 0 {
                        assert(p[(a + 1) + (t - 1)] == p[a + t]);
                    }
                }
            }
            if literal_match(p, v, a, k, len) {
                assert(p[a + 0] == '?' || p[a + 0] == v[k + 0]);
                assert forall|t: int| 0 <= t < len - 1 implies #[trigger] p[(a + 1) + t] != '*'
                    && (p[(a + 1) + t] == '?' || p[(a + 1) + t] == v[(k + 1) + t]) by {
                    assert(p[a + (t + 1)] != '*' && (p[a + (t + 1)] == '?' || p[a + (t + 1)] == v[k + (t + 1)]));
                }
            }
        }
    } else {
        assert(literal_match(p, v, a, k, len));
    }
}

/// What the matcher's state stands for: before any `*`, the rest must match
/// from the current positions; after one, the last `*` must match from the
/// value position it was tried at, and the stretch since that `*` has
/// matched literally.
pub open spec fn run_inv(p: Seq<char>, v: Seq<char>, pi: int, vi: int, star: Option<int>, sv: int) -> bool {
    &&& glob_state_ok(p, v, pi, vi, star, sv)
    &&& match star {
        None => wildcard_match(p, v) == wild_at(p, v, pi, vi),
        Some(s) => {
            &&& s + 1 <= pi
            &&& vi - sv == pi - (s + 1)
            &&& literal_match(p, v, s + 1, sv, pi - (s + 1))
            &&& wildcard_match(p, v) == wild_at(p, v, s, sv)
        },
    }
}

proof fn lemma_run(p: Seq<char>, v: Seq<char>, pi: int, vi: int, star: Option<int>, sv: int)
    requires
        run_inv(p, v, pi, vi, star, sv),
    ensures
        glob_run(p, v, pi, vi, star, sv) == wildcard_match(p, v),
    decreases
            v.len() + 1 - (if star is Some {
                sv
            } else {
                -1
            }),
            v.len() - vi,
            p.len() - pi,
{
    let len = match star {
        Some(s) => pi - (s + 1),
        None => 0,
    };
    if let Some(s) = star {
        assert forall|t: int| 0 <= t < len implies #[trigger] p[(s + 1) + t] != '*' by {}
        lemma_literal(p, v, s + 1, sv, len);
    }
    if vi >= v.len() {
        lemma_all_stars(p, v, pi);
        if let Some(s) = star {
            if wild_at(p, v, s, sv) {
                lemma_star_splits(p, v, s, sv);
                let k = choose|k: int| sv <= k <= v.len() && #[trigger] wild_at(p, v, s + 1, k);
                assert forall|t: int| 0 <= t < len implies #[trigger] p[(s + 1) + t] != '*' by {}
                lemma_literal(p, v, s + 1, k, len);
            }
        }
    } else if pi < p.len() && p[pi] == '*' {
        if let Some(s) = star {
            if wild_at(p, v, s, sv) {
                lemma_star_splits(p, v, s, sv);
                let k = choose|k: int| sv <= k <= v.len() && #[trigger] wild_at(p, v, s + 1, k);
                assert forall|t: int| 0 <= t < len implies #[trigger] p[(s + 1) + t] != '*' by {}
                lemma_literal(p, v, s + 1, k, len);
                assert((s + 1) + len == pi);
                lemma_star_absorbs(p, v, pi, vi, k + len);
            }
            if wild_at(p, v, pi, vi) {
                assert((s + 1) + len == pi);
                assert(wild_at(p, v, s + 1, sv));
            }
        }
        assert(literal_match(p, v, pi + 1, vi, 0));
        lemma_run(p, v, pi + 1, vi, Some(pi), vi);
    } else if pi < p.len() && (p[pi] == '?' || p[pi] == v[vi]) {
        assert(p[pi] != '*');
        if let Some(s) = star {
            assert forall|t: int| 0 <= t < len + 1 implies #[trigger] p[(s + 1) + t] != '*'
                && (p[(s + 1) + t] == '?' || p[(s + 1) + t] == v[sv + t]) by {
                if t == len {
                    assert(p[(s + 1) + t] == p[pi]);
                }
            }
        }
        lemma_run(p, v, pi + 1, vi + 1, star, sv);
    } else {
        match star {
            Some(s) => {
                assert((s + 1) + len == pi);
                assert(!wild_at(p, v, pi, vi));
                assert(!wild_at(p, v, s + 1, sv));
                assert(literal_match(p, v, s + 1, sv + 1, 0));
                lemma_run(p, v, s + 1, sv + 1, star, sv + 1);
            },
            None => {},
        }
    }
}

/// The matcher means what a glob means: a value matches a pattern exactly
/// when, ignoring ASCII case, `*` can match any run of characters, `?` any
/// one character, and every other pattern character itself.
pub proof fn law_glob_meaning(pattern: Seq<char>, value: Seq<char>)
    ensures
        glob_ci(pattern, value) == wildcard_match(lower(pattern), lower(value)),
{
    lemma_run(lower(pattern), lower(value), 0, 0, None, 0);
}

} // verus!
