//! The blocklist: apps and games during which remapping must stay off.
//!
//! It holds process name/glob patterns, one per line; the automatic profile
//! switching refuses to apply a profile, and stops, while a blocked process
//! runs.

use vstd::prelude::*;
use crate::profiles::{process_matches, strings_view, ProcessMatch};
use crate::text::{lines, lines_of, string_from_chars, trim, trim_chars};

verus! {

/// Whether a trimmed line holds a pattern: it is not blank and no comment.
pub open spec fn pattern_line(line: Seq<char>) -> bool {
    line.len() > 0 && line[0] != '#'
}

/// The patterns of the given lines: each line trimmed; blank lines and lines
/// starting with `#` dropped.
pub open spec fn blocklist_patterns(ls: Seq<Seq<char>>) -> Seq<Seq<char>>
    decreases ls.len(),
{
    if ls.len() == 0 {
        Seq::empty()
    } else {
        let prev = blocklist_patterns(ls.drop_last());
        let t = trim(ls.last());
        if pattern_line(t) {
            prev.push(t)
        } else {
            prev
        }
    }
}

/// Reads blocklist text: one pattern per line, `#` comments and blank lines
/// ignored, surrounding whitespace trimmed.
pub fn parse_blocklist(contents: &str) -> (r: ProcessMatch)
    ensures
        strings_view(r.patterns@) == blocklist_patterns(lines(contents@)),
{
    let chars = crate::text::chars_of(contents);
    let ls = lines_of(&chars);
    let ghost all = lines(contents@);
    let mut patterns: Vec<String> = Vec::new();
    let mut i: usize = 0;
    assert(all.subrange(0, 0) =~= Seq::<Seq<char>>::empty());
    assert(strings_view(patterns@) =~= Seq::<Seq<char>>::empty());
    while i < ls.len()
        invariant
            i <= ls@.len(),
            all == lines(contents@),
            ls@.len() == all.len(),
            forall|k: int| 0 <= k < ls@.len() ==> #[trigger] ls@[k]@ == all[k],
            strings_view(patterns@) == blocklist_patterns(all.subrange(0, i as int)),
        decreases ls@.len() - i,
    {
        let ghost pre = all.subrange(0, i + 1);
        assert(pre.drop_last() =~= all.subrange(0, i as int));
        assert(pre.last() == ls@[i as int]@);
        let t = trim_chars(&ls[i]);
        let ghost before = strings_view(patterns@);
        if t.len() > 0 && t[0] != '#' {
            let s = string_from_chars(&t);
            patterns.push(s);
            assert(strings_view(patterns@) =~= before.push(s@));
        }
        i = i + 1;
    }
    assert(all.subrange(0, all.len() as int) =~= all);
    ProcessMatch { patterns }
}

/// Whether a running process is blocked: the blocklist has a pattern and one
/// of the process names matches it.
pub open spec fn blocked(patterns: Seq<String>, names: Seq<String>) -> bool {
    patterns.len() > 0 && exists|i: int| 0 <= i < names.len() && process_matches(patterns, (#[trigger] names[i])@)
}

/// Returns true if any running process name matches the blocklist.
pub fn is_blocked(blocklist: &ProcessMatch, process_names: &[String]) -> (r: bool)
    ensures
        r == blocked(blocklist.patterns@, process_names@),
{
    if blocklist.is_empty() {
        return false;
    }
    let mut i: usize = 0;
    while i < process_names.len()
        invariant
            i <= process_names@.len(),
            forall|k: int| 0 <= k < i ==> !process_matches(blocklist.patterns@, (#[trigger] process_names@[k])@),
        decreases process_names@.len() - i,
    {
        if blocklist.matches(process_names[i].as_str()) {
            return true;
        }
        i = i + 1;
    }
    false
}

} // verus!
