//! Process autodetection: matching running game/app processes to profiles so
//! the right remapping can be applied automatically.

use vstd::prelude::*;
use crate::blocklist::{blocked, is_blocked};
use crate::profiles::{process_matches, strings_view, ProcessMatch, Profile};
use crate::text::{string_from_chars, trim, trim_str};

verus! {

/// A profile matched against a running process.
#[derive(Clone, Debug, PartialEq, Eq)]
pub struct ProfileMatch {
    pub profile_id: String,
    /// The running process name that triggered the match.
    pub process_name: String,
}

/// The index of the first name (from `j` on) that the patterns match.
pub open spec fn first_name(patterns: Seq<String>, names: Seq<String>, j: int) -> Option<int>
    decreases names.len() - j,
{
    if j < 0 || j >= names.len() {
        None
    } else if process_matches(patterns, names[j]@) {
        Some(j)
    } else {
        first_name(patterns, names, j + 1)
    }
}

/// The first profile (from `i` on) with process patterns that match a
/// running name, and the first such name.
pub open spec fn first_match(profiles: Seq<Profile>, names: Seq<String>, i: int) -> Option<(int, int)>
    decreases profiles.len() - i,
{
    if i < 0 || i >= profiles.len() {
        None
    } else {
        let pats = profiles[i].process_match.patterns@;
        if pats.len() > 0 && first_name(pats, names, 0) is Some {
            Some((i, first_name(pats, names, 0)->0))
        } else {
            first_match(profiles, names, i + 1)
        }
    }
}

proof fn lemma_first_name_bounds(patterns: Seq<String>, names: Seq<String>, j: int)
    requires
        0 <= j,
    ensures
        first_name(patterns, names, j) matches Some(k) ==> j <= k < names.len(),
    decreases names.len() - j,
{
    if j < names.len() && !process_matches(patterns, names[j]@) {
        lemma_first_name_bounds(patterns, names, j + 1);
    }
}

proof fn lemma_first_match_bounds(profiles: Seq<Profile>, names: Seq<String>, i: int)
    requires
        0 <= i,
    ensures
        first_match(profiles, names, i) matches Some((a, b)) ==> i <= a < profiles.len() && 0 <= b < names.len(),
    decreases profiles.len() - i,
{
    if i < profiles.len() {
        lemma_first_name_bounds(profiles[i].process_match.patterns@, names, 0);
        lemma_first_match_bounds(profiles, names, i + 1);
    }
}

fn first_matching_name(profile: &Profile, names: &[String]) -> (r: Option<usize>)
    ensures
        match r {
            Some(j) => first_name(profile.process_match.patterns@, names@, 0) == Some(j as int),
            None => first_name(profile.process_match.patterns@, names@, 0) is None,
        },
{
    let mut j: usize = 0;
    while j < names.len()
        invariant
            j <= names@.len(),
            first_name(profile.process_match.patterns@, names@, 0) == first_name(profile.process_match.patterns@, names@, j as int),
        decreases names@.len() - j,
    {
        if profile.process_match.matches(names[j].as_str()) {
            return Some(j);
        }
        j = j + 1;
    }
    None
}

fn find_match(profiles: &[Profile], names: &[String]) -> (r: Option<(usize, usize)>)
    ensures
        match r {
            Some((i, j)) => first_match(profiles@, names@, 0) == Some((i as int, j as int)),
            None => first_match(profiles@, names@, 0) is None,
        },
{
    let mut i: usize = 0;
    while i < profiles.len()
        invariant
            i <= profiles@.len(),
            first_match(profiles@, names@, 0) == first_match(profiles@, names@, i as int),
        decreases profiles@.len() - i,
    {
        let p = &profiles[i];
        if !p.process_match.is_empty() {
            if let Some(j) = first_matching_name(p, names) {
                return Some((i, j));
            }
        }
        i = i + 1;
    }
    None
}

/// Returns the first profile whose `process:` patterns match any of the given
/// running process names, with the first name it matches. Profiles without
/// process patterns are skipped.
pub fn match_profile<'a>(profiles: &'a [Profile], process_names: &[String]) -> (r: Option<(&'a Profile, ProfileMatch)>)
    ensures
        match r {
            Some((p, m)) => first_match(profiles@, process_names@, 0) matches Some((i, j)) && *p == profiles@[i]
                && m.profile_id@ == profiles@[i].id@ && m.process_name@ == process_names@[j]@,
            None => first_match(profiles@, process_names@, 0) is None,
        },
{
    match find_match(profiles, process_names) {
        Some((i, j)) => {
            proof {
                lemma_first_match_bounds(profiles@, process_names@, 0);
            }
            let p = &profiles[i];
            Some((p, ProfileMatch { profile_id: p.id.clone(), process_name: process_names[j].clone() }))
        },
        None => None,
    }
}

/// What a watch loop should do after re-scanning running processes, given
/// the profile (if any) it is currently applying.
#[derive(Clone, Debug, PartialEq, Eq)]
pub enum WatchDecision {
    /// Keep the current state (matched profile still running, or nothing to do).
    Keep,
    /// Start applying the named profile (a new or different match appeared).
    Switch(String),
    /// Stop the active remap (its matched process is gone).
    Stop,
}

/// The id of the profile that matches the running processes, if any.
pub open spec fn best_profile(profiles: Seq<Profile>, names: Seq<String>) -> Option<Seq<char>> {
    match first_match(profiles, names, 0) {
        Some((i, _)) => Some(profiles[i].id@),
        None => None,
    }
}

/// Decides how a watch loop reacts to the current process list:
/// `active_profile_id` is the profile being applied, if any. The matching
/// profile is kept when it is the active one and switched to otherwise; with
/// no match, an active remap stops and an idle loop keeps idling.
pub fn decide_watch(profiles: &[Profile], process_names: &[String], active_profile_id: Option<&str>) -> (r: WatchDecision)
    ensures
        match (active_profile_id, best_profile(profiles@, process_names@)) {
            (Some(a), Some(b)) => if a@ == b {
                r == WatchDecision::Keep
            } else {
                r matches WatchDecision::Switch(s) && s@ == b
            },
            (Some(_), None) => r == WatchDecision::Stop,
            (None, Some(b)) => r matches WatchDecision::Switch(s) && s@ == b,
            (None, None) => r == WatchDecision::Keep,
        },
{
    let best: Option<String> = match match_profile(profiles, process_names) {
        Some((p, _)) => Some(p.id.clone()),
        None => None,
    };
    match (active_profile_id, best) {
        (Some(active), Some(best)) => {
            if crate::text::str_eq(active, best.as_str()) {
                WatchDecision::Keep
            } else {
                WatchDecision::Switch(best)
            }
        },
        (Some(_), None) => WatchDecision::Stop,
        (None, Some(best)) => WatchDecision::Switch(best),
        (None, None) => WatchDecision::Keep,
    }
}

/// What a watch loop does next.
#[derive(Clone, Debug, PartialEq, Eq)]
pub enum WatchAction {
    /// Nothing changes.
    Keep,
    /// Stop the active remap.
    Stop,
    /// Start applying the named profile (stopping any other).
    Start(String),
}

/// The watch loop's memory: the profile it is applying, and a profile that a
/// `remap_off` command turned off, which is not applied again until its
/// process stops matching.
#[derive(Clone, Debug, PartialEq, Eq)]
pub struct Watcher {
    pub active: Option<String>,
    pub suppressed: Option<String>,
}

pub open spec fn opt_chars(o: Option<String>) -> Option<Seq<char>> {
    match o {
        Some(s) => Some(s@),
        None => None,
    }
}

/// The suppressed profile after a scan: forgotten once it no longer
/// matches.
pub open spec fn still_suppressed(suppressed: Option<Seq<char>>, best: Option<Seq<char>>) -> Option<Seq<char>> {
    match suppressed {
        Some(s) => if best == Some(s) {
            Some(s)
        } else {
            None
        },
        None => None,
    }
}

/// One scan of the watch loop from `active` and `suppressed`: the new
/// active profile, the new suppressed profile, and the action (as the
/// profile id to start, `Some(None)` to stop, or `None` to keep).
pub open spec fn watch_next(
    active: Option<Seq<char>>,
    suppressed: Option<Seq<char>>,
    best: Option<Seq<char>>,
) -> (Option<Seq<char>>, Option<Seq<char>>, Option<Option<Seq<char>>>) {
    let sup = still_suppressed(suppressed, best);
    match (active, best) {
        (Some(a), Some(b)) => if a == b {
            (active, sup, None)
        } else if sup == Some(b) {
            (active, sup, None)
        } else {
            (Some(b), sup, Some(Some(b)))
        },
        (Some(_), None) => (None, sup, Some(None)),
        (None, Some(b)) => if sup == Some(b) {
            (active, sup, None)
        } else {
            (Some(b), sup, Some(Some(b)))
        },
        (None, None) => (active, sup, None),
    }
}

/// One scan while a blocklisted process runs: nothing is applied, the
/// active profile is stopped, and the suppressed profile is kept.
pub open spec fn watch_blocked(
    active: Option<Seq<char>>,
    suppressed: Option<Seq<char>>,
) -> (Option<Seq<char>>, Option<Seq<char>>, Option<Option<Seq<char>>>) {
    (None, suppressed, if active is Some { Some(None) } else { None })
}

/// The action as [`watch_next`] writes it.
pub open spec fn action_view(a: WatchAction) -> Option<Option<Seq<char>>> {
    match a {
        WatchAction::Keep => None,
        WatchAction::Stop => Some(None),
        WatchAction::Start(id) => Some(Some(id@)),
    }
}

impl Watcher {
    /// A watcher applying nothing.
    pub fn new() -> (r: Watcher)
        ensures
            r.active is None,
            r.suppressed is None,
    {
        Watcher { active: None, suppressed: None }
    }

    /// Reacts to a scan of the running processes (see [`watch_next`]): the
    /// matching profile is started unless it is active or was turned off;
    /// with no match the active remap stops.
    pub fn poll(&mut self, profiles: &[Profile], process_names: &[String]) -> (r: WatchAction)
        ensures
            (opt_chars(final(self).active), opt_chars(final(self).suppressed), action_view(r)) == watch_next(
                opt_chars(old(self).active),
                opt_chars(old(self).suppressed),
                best_profile(profiles@, process_names@),
            ),
    {
        let best: Option<String> = match match_profile(profiles, process_names) {
            Some((p, _)) => Some(p.id.clone()),
            None => None,
        };
        let keep_suppressed = match (&self.suppressed, &best) {
            (Some(s), Some(b)) => crate::text::str_eq(s.as_str(), b.as_str()),
            _ => false,
        };
        if !keep_suppressed {
            self.suppressed = None;
        }
        let same_as_suppressed = match (&self.suppressed, &best) {
            (Some(s), Some(b)) => crate::text::str_eq(s.as_str(), b.as_str()),
            _ => false,
        };
        match best {
            Some(b) => {
                let same_as_active = match &self.active {
                    Some(a) => crate::text::str_eq(a.as_str(), b.as_str()),
                    None => false,
                };
                if same_as_active || same_as_suppressed {
                    WatchAction::Keep
                } else {
                    self.active = Some(b.clone());
                    WatchAction::Start(b)
                }
            },
            None => {
                if self.active.is_some() {
                    self.active = None;
                    WatchAction::Stop
                } else {
                    WatchAction::Keep
                }
            },
        }
    }

    /// The active remap was turned off by a `remap_off` command: it stops,
    /// and its profile is not applied again while its process keeps
    /// matching.
    /// One scan with a blocklist: while a blocklisted process runs the
    /// watcher applies nothing and stops what it applies (see
    /// [`watch_blocked`]); otherwise it scans as [`Watcher::poll`] does.
    pub fn scan(&mut self, profiles: &[Profile], process_names: &[String], blocklist: &ProcessMatch) -> (r: WatchAction)
        ensures
            (opt_chars(final(self).active), opt_chars(final(self).suppressed), action_view(r)) == if blocked(
                blocklist.patterns@,
                process_names@,
            ) {
                watch_blocked(opt_chars(old(self).active), opt_chars(old(self).suppressed))
            } else {
                watch_next(
                    opt_chars(old(self).active),
                    opt_chars(old(self).suppressed),
                    best_profile(profiles@, process_names@),
                )
            },
    {
        if is_blocked(blocklist, process_names) {
            if self.active.is_some() {
                self.active = None;
                WatchAction::Stop
            } else {
                WatchAction::Keep
            }
        } else {
            self.poll(profiles, process_names)
        }
    }

    /// A `remap_off` command turned the active profile off: it is remembered
    /// as suppressed and nothing is active.
    pub fn remap_turned_off(&mut self)
        ensures
            final(self).active is None,
            final(self).suppressed == old(self).active,
    {
        self.suppressed = self.active.take();
    }
}

/// A profile turned off by `remap_off` stays off while its process keeps
/// matching, and may be applied again once a scan finds it no longer
/// matching.
pub proof fn law_turned_off_stays_off(
    active: Option<Seq<char>>,
    id: Seq<char>,
    best: Option<Seq<char>>,
)
    ensures
        best == Some(id) ==> watch_next(active, Some(id), best).2 != Some(Some(id)),
        best == Some(id) ==> watch_next(active, Some(id), best).1 == Some(id),
        best != Some(id) ==> watch_next(active, Some(id), best).1 is None,
{
}

/// What the UTF-8 decoding of some bytes gives: their text when they are
/// valid UTF-8.
pub uninterp spec fn utf8_text(bytes: Seq<u8>) -> Option<Seq<char>>;

/// `std::str::from_utf8`: the text of valid UTF-8 bytes. The contract names
/// the result and claims nothing about the decoding itself.
#[verifier::external_body]
fn decode_utf8(bytes: &[u8]) -> (r: Option<String>)
    ensures
        match r {
            Some(s) => utf8_text(bytes@) == Some(s@),
            None => utf8_text(bytes@) is None,
        },
{
    std::str::from_utf8(bytes).ok().map(|s| s.to_string())
}

/// What was read from one `/proc` entry: its directory name, its `comm` file
/// and its `cmdline` file (none when a file could not be read).
#[derive(Clone, Debug)]
pub struct ProcEntry {
    pub name: String,
    pub comm: Option<String>,
    pub cmdline: Option<Vec<u8>>,
}

/// A process directory is named by digits only.
pub open spec fn pid_dir(name: Seq<char>) -> bool {
    forall|i: int| 0 <= i < name.len() ==> '0' <= #[trigger] name[i] && name[i] <= '9'
}

/// The bytes of a command line up to its first NUL: `argv[0]`.
pub open spec fn argv0_bytes(cmdline: Seq<u8>) -> Seq<u8> {
    if exists|i: int| 0 <= i < cmdline.len() && cmdline[i] == 0 {
        cmdline.take(choose|i: int| 0 <= i < cmdline.len() && cmdline[i] == 0 && forall|k: int| 0 <= k < i ==> cmdline[k] != 0)
    } else {
        cmdline
    }
}

/// The names a process entry contributes: for a process directory, its
/// trimmed `comm` and its trimmed `argv[0]` (when that is text), each unless
/// empty.
pub open spec fn entry_names(dir_name: Seq<char>, comm: Option<Seq<char>>, argv0: Option<Seq<char>>) -> Seq<Seq<char>> {
    if !pid_dir(dir_name) {
        Seq::empty()
    } else {
        let c = match comm {
            Some(c) => if trim(c).len() > 0 { seq![trim(c)] } else { Seq::empty() },
            None => Seq::empty(),
        };
        let a = match argv0 {
            Some(a) => if trim(a).len() > 0 { seq![trim(a)] } else { Seq::empty() },
            None => Seq::empty(),
        };
        c + a
    }
}

/// The names one `/proc` entry contributes, given its decoded `argv[0]`.
pub fn names_from_proc_entry(dir_name: &str, comm: Option<&str>, argv0: Option<&str>) -> (r: Vec<String>)
    ensures
        strings_view(r@) == entry_names(
            dir_name@,
            match comm {
                Some(c) => Some(c@),
                None => None,
            },
            match argv0 {
                Some(a) => Some(a@),
                None => None,
            },
        ),
{
    let mut out: Vec<String> = Vec::new();
    let d = crate::text::chars_of(dir_name);
    let mut i: usize = 0;
    while i < d.len()
        invariant
            i <= d@.len(),
            d@ == dir_name@,
            out@.len() == 0,
            forall|k: int| 0 <= k < i ==> '0' <= #[trigger] d@[k] && d@[k] <= '9',
        decreases d@.len() - i,
    {
        if !('0' <= d[i] && d[i] <= '9') {
            assert(!pid_dir(dir_name@));
            assert(strings_view(out@) =~= Seq::<Seq<char>>::empty());
            return out;
        }
        i = i + 1;
    }
    if let Some(c) = comm {
        let t = trim_str(c);
        if t.len() > 0 {
            out.push(string_from_chars(&t));
        }
    }
    let ghost after_comm = strings_view(out@);
    if let Some(a) = argv0 {
        let t = trim_str(a);
        if t.len() > 0 {
            out.push(string_from_chars(&t));
        }
    }
    proof {
        let c = match comm {
            Some(c) => if trim(c@).len() > 0 { seq![trim(c@)] } else { Seq::empty() },
            None => Seq::<Seq<char>>::empty(),
        };
        assert(after_comm =~= c);
    }
    assert(strings_view(out@) =~= entry_names(
        dir_name@,
        match comm {
            Some(c) => Some(c@),
            None => None,
        },
        match argv0 {
            Some(a) => Some(a@),
            None => None,
        },
    ));
    out
}

fn first_nul(bytes: &[u8]) -> (r: Vec<u8>)
    ensures
        r@ == argv0_bytes(bytes@),
{
    let mut i: usize = 0;
    while i < bytes.len()
        invariant
            i <= bytes@.len(),
            forall|k: int| 0 <= k < i ==> bytes@[k] != 0,
        decreases bytes@.len() - i,
    {
        if bytes[i] == 0 {
            proof {
                let j = choose|j: int| 0 <= j < bytes@.len() && bytes@[j] == 0 && forall|k: int| 0 <= k < j ==> bytes@[k] != 0;
                if j < i {
                    assert(bytes@[j] != 0);
                } else if j > i {
                    assert(bytes@[i as int] != 0);
                }
            }
            let mut out: Vec<u8> = Vec::new();
            let mut k: usize = 0;
            while k < i
                invariant
                    k <= i,
                    i < bytes@.len(),
                    out@ == bytes@.take(k as int),
                decreases i - k,
            {
                out.push(bytes[k]);
                assert(out@ =~= bytes@.take(k + 1));
                k = k + 1;
            }
            return out;
        }
        i = i + 1;
    }
    let mut out: Vec<u8> = Vec::new();
    let mut k: usize = 0;
    while k < bytes.len()
        invariant
            k <= bytes@.len(),
            out@ == bytes@.take(k as int),
        decreases bytes@.len() - k,
    {
        out.push(bytes[k]);
        assert(out@ =~= bytes@.take(k + 1));
        k = k + 1;
    }
    assert(bytes@.take(bytes@.len() as int) =~= bytes@);
    out
}

/// The names of the running processes, from what was read of each `/proc`
/// entry: every process contributes its `comm` (short name) and its
/// `argv[0]`, so both short and full executable names can be matched.
pub fn running_process_names(entries: &Vec<ProcEntry>) -> (r: Vec<String>)
    ensures
        strings_view(r@) == proc_names(entries@),
{
    let mut out: Vec<String> = Vec::new();
    let mut i: usize = 0;
    assert(entries@.subrange(0, 0) =~= Seq::<ProcEntry>::empty());
    assert(strings_view(out@) =~= Seq::<Seq<char>>::empty());
    while i < entries.len()
        invariant
            i <= entries@.len(),
            strings_view(out@) == proc_names(entries@.subrange(0, i as int)),
        decreases entries@.len() - i,
    {
        let e = &entries[i];
        let argv0: Option<String> = match &e.cmdline {
            Some(c) => decode_utf8(&first_nul(c)),
            None => None,
        };
        let comm: Option<&str> = match &e.comm {
            Some(c) => Some(c.as_str()),
            None => None,
        };
        let a: Option<&str> = match &argv0 {
            Some(s) => Some(s.as_str()),
            None => None,
        };
        let mut names = names_from_proc_entry(e.name.as_str(), comm, a);
        let ghost pre = entries@.subrange(0, i + 1);
        assert(pre.drop_last() =~= entries@.subrange(0, i as int));
        assert(pre.last() == entries@[i as int]);
        let ghost before = strings_view(out@);
        let ghost added = strings_view(names@);
        out.append(&mut names);
        assert(strings_view(out@) =~= before + added);
        i = i + 1;
    }
    assert(entries@.subrange(0, entries@.len() as int) =~= entries@);
    out
}

/// The decoded `argv[0]` of an entry's command line.
pub open spec fn entry_argv0(e: ProcEntry) -> Option<Seq<char>> {
    match e.cmdline {
        Some(c) => utf8_text(argv0_bytes(c@)),
        None => None,
    }
}

/// The names all entries contribute, in order.
pub open spec fn proc_names(entries: Seq<ProcEntry>) -> Seq<Seq<char>>
    decreases entries.len(),
{
    if entries.len() == 0 {
        Seq::empty()
    } else {
        let e = entries.last();
        proc_names(entries.drop_last()) + entry_names(
            e.name@,
            match e.comm {
                Some(c) => Some(c@),
                None => None,
            },
            entry_argv0(e),
        )
    }
}

} // verus!
