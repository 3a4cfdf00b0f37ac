//! Shareable profile presets: the file name a preset is installed under, and
//! the text written.

use vstd::prelude::*;
use crate::text::{chars_of, string_from_chars, sub_chars};

verus! {

/// Why a profile id gives no file name.
#[derive(Clone, Copy, Debug, PartialEq, Eq, Structural)]
pub enum PresetError {
    /// The id holds no letter, digit or other file-name character.
    EmptyStem,
}

/// A character a file stem keeps as it is: an ASCII letter or digit, `-`,
/// `_` or `.`; any other becomes `-`.
pub open spec fn stem_char(c: char) -> char {
    if ('a' <= c && c <= 'z') || ('A' <= c && c <= 'Z') || ('0' <= c && c <= '9') || c == '-'
        || c == '_' || c == '.' {
        c
    } else {
        '-'
    }
}

/// Characters trimmed from both ends of a stem.
pub open spec fn stem_edge(c: char) -> bool {
    c == '-' || c == '.' || c == '_'
}

/// The index of the first character that is not an edge character (the
/// length when there is none).
pub open spec fn first_kept(s: Seq<char>) -> int
    decreases s.len(),
{
    if s.len() == 0 {
        0
    } else if !stem_edge(s[0]) {
        0
    } else {
        1 + first_kept(s.drop_first())
    }
}

/// The length of `s` without its trailing edge characters.
pub open spec fn last_kept(s: Seq<char>) -> int
    decreases s.len(),
{
    if s.len() == 0 {
        0
    } else if !stem_edge(s.last()) {
        s.len() as int
    } else {
        last_kept(s.drop_last())
    }
}

/// `s` without edge characters at either end.
pub open spec fn trim_edges(s: Seq<char>) -> Seq<char> {
    let t = s.skip(first_kept(s));
    t.take(last_kept(t))
}

/// The file stem of a profile id: each character kept or made `-`, then
/// `-`, `.` and `_` trimmed from both ends; it must not end up empty.
pub open spec fn file_stem(id: Seq<char>) -> Result<Seq<char>, PresetError> {
    let stem = trim_edges(id.map_values(|c: char| stem_char(c)));
    if stem.len() == 0 {
        Err(PresetError::EmptyStem)
    } else {
        Ok(stem)
    }
}

proof fn lemma_first_kept(s: Seq<char>)
    ensures
        0 <= first_kept(s) <= s.len(),
        forall|k: int| 0 <= k < first_kept(s) ==> stem_edge(s[k]),
        first_kept(s) < s.len() ==> !stem_edge(s[first_kept(s)]),
    decreases s.len(),
{
    if s.len() > 0 && stem_edge(s[0]) {
        lemma_first_kept(s.drop_first());
        assert forall|k: int| 0 <= k < first_kept(s) implies stem_edge(s[k]) by {
            if k > 0 {
                assert(s[k] == s.drop_first()[k - 1]);
            }
        }
    }
}

proof fn lemma_last_kept(s: Seq<char>)
    ensures
        0 <= last_kept(s) <= s.len(),
        forall|k: int| last_kept(s) <= k < s.len() ==> stem_edge(s[k]),
        last_kept(s) > 0 ==> !stem_edge(s[last_kept(s) - 1]),
    decreases s.len(),
{
    if s.len() > 0 && stem_edge(s.last()) {
        lemma_last_kept(s.drop_last());
        assert forall|k: int| last_kept(s) <= k < s.len() implies stem_edge(s[k]) by {
            if k < s.len() - 1 {
                assert(s[k] == s.drop_last()[k]);
            }
        }
    }
}

/// Converts a profile id into a safe file stem (letters, digits and `-_.`).
pub fn profile_file_stem(id: &str) -> (r: Result<String, PresetError>)
    ensures
        match r {
            Ok(s) => file_stem(id@) == Ok::<Seq<char>, PresetError>(s@),
            Err(e) => file_stem(id@) == Err::<Seq<char>, PresetError>(e),
        },
{
    let chars = chars_of(id);
    let mut mapped: Vec<char> = Vec::new();
    let mut i: usize = 0;
    while i < chars.len()
        invariant
            i <= chars@.len(),
            chars@ == id@,
            mapped@ == chars@.subrange(0, i as int).map_values(|c: char| stem_char(c)),
        decreases chars@.len() - i,
    {
        let c = chars[i];
        let k = if ('a' <= c && c <= 'z') || ('A' <= c && c <= 'Z') || ('0' <= c && c <= '9') || c
            == '-' || c == '_' || c == '.' {
            c
        } else {
            '-'
        };
        mapped.push(k);
        assert(mapped@ =~= chars@.subrange(0, i + 1).map_values(|c: char| stem_char(c)));
        i = i + 1;
    }
    assert(chars@.subrange(0, chars@.len() as int) =~= chars@);
    let ghost m = mapped@;
    let mut start: usize = 0;
    proof {
        lemma_first_kept(m);
    }
    while start < mapped.len() && (mapped[start] == '-' || mapped[start] == '.' || mapped[start] == '_')
        invariant
            start <= first_kept(m),
            m == mapped@,
            0 <= first_kept(m) <= m.len(),
            forall|k: int| 0 <= k < first_kept(m) ==> stem_edge(m[k]),
            first_kept(m) < m.len() ==> !stem_edge(m[first_kept(m)]),
        decreases mapped@.len() - start,
    {
        start = start + 1;
    }
    let t = sub_chars(&mapped, start, mapped.len());
    assert(t@ =~= m.skip(first_kept(m)));
    proof {
        lemma_last_kept(t@);
    }
    let mut end: usize = t.len();
    while end > 0 && (t[end - 1] == '-' || t[end - 1] == '.' || t[end - 1] == '_')
        invariant
            last_kept(t@) <= end <= t@.len(),
            0 <= last_kept(t@) <= t@.len(),
            forall|k: int| last_kept(t@) <= k < t@.len() ==> stem_edge(t@[k]),
            last_kept(t@) > 0 ==> !stem_edge(t@[last_kept(t@) - 1]),
        decreases end,
    {
        end = end - 1;
    }
    let stem = sub_chars(&t, 0, end);
    assert(stem@ =~= trim_edges(m));
    if stem.len() == 0 {
        return Err(PresetError::EmptyStem);
    }
    Ok(string_from_chars(&stem))
}

/// The text with a final newline added unless it already ends with one.
pub open spec fn with_trailing_newline(s: Seq<char>) -> Seq<char> {
    if s.len() > 0 && s.last() == '\n' {
        s
    } else {
        s.push('\n')
    }
}

/// Ensures the text ends with a newline.
pub fn ensure_trailing_newline(value: &str) -> (r: String)
    ensures
        r@ == with_trailing_newline(value@),
{
    let mut chars = chars_of(value);
    if !(chars.len() > 0 && chars[chars.len() - 1] == '\n') {
        chars.push('\n');
    }
    string_from_chars(&chars)
}

/// The file a preset is installed as, and the text written: a profile with
/// id `profile_id` (the preset's own id) goes to `<stem>.yaml`, its text
/// ending with a newline. Refused when the id gives no file stem.
pub fn install_profile(yaml: &str, profile_id: &str) -> (r: Result<(String, String), PresetError>)
    ensures
        match r {
            Ok((file, text)) => file_stem(profile_id@) matches Ok(stem) && file@ == stem + ".yaml"@
                && text@ == with_trailing_newline(yaml@),
            Err(e) => file_stem(profile_id@) == Err::<Seq<char>, PresetError>(e),
        },
{
    let stem = profile_file_stem(profile_id)?;
    let mut file = chars_of(stem.as_str());
    file = crate::text::concat_chars(&file, &chars_of(".yaml"));
    let text = ensure_trailing_newline(yaml);
    Ok((string_from_chars(&file), text))
}

/// A character a file name may hold safely: an ASCII letter or digit, `-`,
/// `_` or `.`.
pub open spec fn safe_stem_char(c: char) -> bool {
    ('a' <= c && c <= 'z') || ('A' <= c && c <= 'Z') || ('0' <= c && c <= '9') || c == '-' || c == '_'
        || c == '.'
}

/// A file stem is safe: it is not empty, holds only ASCII letters and
/// digits, `-`, `_` and `.`, and neither starts nor ends with `-`, `_` or
/// `.` (so it is never `.` or `..` and never hidden).
pub proof fn law_file_stem_is_safe(id: Seq<char>)
    ensures
        file_stem(id) matches Ok(stem) ==> {
            &&& stem.len() > 0
            &&& forall|i: int| 0 <= i < stem.len() ==> safe_stem_char(#[trigger] stem[i])
            &&& !stem_edge(stem[0])
            &&& !stem_edge(stem[stem.len() - 1])
        },
{
    let m = id.map_values(|c: char| stem_char(c));
    lemma_first_kept(m);
    let t = m.skip(first_kept(m));
    lemma_last_kept(t);
    let stem = t.take(last_kept(t));
    if stem.len() > 0 {
        assert forall|i: int| 0 <= i < stem.len() implies safe_stem_char(#[trigger] stem[i]) by {
            assert(stem[i] == m[i + first_kept(m)]);
            assert(m[i + first_kept(m)] == stem_char(id[i + first_kept(m)]));
        }
        assert(stem[0] == t[0]);
        assert(t[0] == m[first_kept(m)]);
        assert(stem[stem.len() - 1] == t[last_kept(t) - 1]);
    }
}

impl PresetError {
    /// The error's message.
    pub fn message(&self) -> (r: String)
        ensures
            r@ == "profile id must contain at least one letter or number"@,
    {
        "profile id must contain at least one letter or number".to_owned()
    }
}

} // verus!
