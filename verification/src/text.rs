//! Character-level text helpers shared by the parsers: whitespace trimming,
//! ASCII case mapping, keyword normalization, line splitting, substring search
//! and number formatting, each with the specification it is proved against.

use vstd::prelude::*;

verus! {

/// The characters of `s`, one per element.
pub fn chars_of(s: &str) -> (v: Vec<char>)
    ensures
        v@ == s@,
{
    let n = s.unicode_len();
    let mut v: Vec<char> = Vec::new();
    let mut i: usize = 0;
    while i < n
        invariant
            n == s@.len(),
            i <= n,
            v@ == s@.subrange(0, i as int),
        decreases n - i,
    {
        v.push(s.get_char(i));
        i = i + 1;
    }
    v
}

/// Builds a `String` holding exactly the given characters.
#[verifier::external_body]
pub fn string_from_chars(chars: &[char]) -> (s: String)
    ensures
        s@ == chars@,
{
    chars.iter().collect()
}

/// A copy of `s[from..to]`.
pub fn sub_chars(s: &[char], from: usize, to: usize) -> (r: Vec<char>)
    requires
        from <= to <= s@.len(),
    ensures
        r@ == s@.subrange(from as int, to as int),
{
    let mut r: Vec<char> = Vec::new();
    let mut i = from;
    while i < to
        invariant
            from <= i <= to,
            to <= s@.len(),
            r@ == s@.subrange(from as int, i as int),
        decreases to - i,
    {
        r.push(s[i]);
        i = i + 1;
    }
    r
}

/// Concatenation of two character slices.
pub fn concat_chars(a: &[char], b: &[char]) -> (r: Vec<char>)
    ensures
        r@ == a@ + b@,
{
    let mut r: Vec<char> = Vec::new();
    let mut i: usize = 0;
    while i < a.len()
        invariant
            i <= a@.len(),
            r@ == a@.subrange(0, i as int),
        decreases a@.len() - i,
    {
        r.push(a[i]);
        i = i + 1;
    }
    let mut j: usize = 0;
    while j < b.len()
        invariant
            j <= b@.len(),
            r@ == a@ + b@.subrange(0, j as int),
        decreases b@.len() - j,
    {
        r.push(b[j]);
        j = j + 1;
    }
    assert(a@.subrange(0, a@.len() as int) == a@);
    assert(b@.subrange(0, b@.len() as int) == b@);
    r
}

/// Whether two character slices hold the same characters.
pub fn chars_eq(a: &[char], b: &[char]) -> (r: bool)
    ensures
        r == (a@ == b@),
{
    if a.len() != b.len() {
        return false;
    }
    let mut i: usize = 0;
    while i < a.len()
        invariant
            a@.len() == b@.len(),
            i <= a@.len(),
            forall|k: int| 0 <= k < i ==> a@[k] == b@[k],
        decreases a@.len() - i,
    {
        if a[i] != b[i] {
            return false;
        }
        i = i + 1;
    }
    assert(a@ =~= b@);
    true
}

/// Whether the characters in `a` spell the string `lit`.
pub fn chars_eq_str(a: &[char], lit: &str) -> (r: bool)
    ensures
        r == (a@ == lit@),
{
    let b = chars_of(lit);
    chars_eq(a, &b)
}

/// Whether the string `s` equals the string `lit`.
pub fn str_eq(s: &str, lit: &str) -> (r: bool)
    ensures
        r == (s@ == lit@),
{
    let a = chars_of(s);
    chars_eq_str(&a, lit)
}

/// Whether `lit` starts `s`.
pub fn starts_with_chars(s: &[char], p: &[char]) -> (r: bool)
    ensures
        r == p@.is_prefix_of(s@),
{
    if p.len() > s.len() {
        return false;
    }
    let head = sub_chars(s, 0, p.len());
    chars_eq(&head, p)
}

/// `str::strip_prefix` with a string prefix.
pub fn strip_prefix_str(s: &[char], lit: &str) -> (r: Option<Vec<char>>)
    ensures
        match r {
            Some(t) => lit@.is_prefix_of(s@) && t@ == s@.skip(lit@.len() as int),
            None => !lit@.is_prefix_of(s@),
        },
{
    let p = chars_of(lit);
    if starts_with_chars(s, &p) {
        Some(sub_chars(s, p.len(), s.len()))
    } else {
        None
    }
}

/// Unicode `White_Space`, the set `char::is_whitespace` accepts.
pub open spec fn is_ws(c: char) -> bool {
    ||| ('\u{9}' <= c && c <= '\u{d}')
    ||| c == ' '
    ||| c == '\u{85}'
    ||| c == '\u{a0}'
    ||| c == '\u{1680}'
    ||| ('\u{2000}' <= c && c <= '\u{200a}')
    ||| c == '\u{2028}'
    ||| c == '\u{2029}'
    ||| c == '\u{202f}'
    ||| c == '\u{205f}'
    ||| c == '\u{3000}'
}

pub fn is_whitespace(c: char) -> (r: bool)
    ensures
        r == is_ws(c),
{
    ('\u{9}' <= c && c <= '\u{d}') || c == ' ' || c == '\u{85}' || c == '\u{a0}' || c
        == '\u{1680}' || ('\u{2000}' <= c && c <= '\u{200a}') || c == '\u{2028}' || c
        == '\u{2029}' || c == '\u{202f}' || c == '\u{205f}' || c == '\u{3000}'
}

/// `s` without its leading whitespace.
pub open spec fn trim_start(s: Seq<char>) -> Seq<char>
    decreases s.len(),
{
    if s.len() > 0 && is_ws(s[0]) {
        trim_start(s.subrange(1, s.len() as int))
    } else {
        s
    }
}

/// `s` without its trailing whitespace.
pub open spec fn trim_end(s: Seq<char>) -> Seq<char>
    decreases s.len(),
{
    if s.len() > 0 && is_ws(s[s.len() - 1]) {
        trim_end(s.subrange(0, s.len() - 1))
    } else {
        s
    }
}

/// `str::trim`: `s` without leading and trailing whitespace.
pub open spec fn trim(s: Seq<char>) -> Seq<char> {
    trim_end(trim_start(s))
}

pub fn trim_chars(s: &[char]) -> (r: Vec<char>)
    ensures
        r@ == trim(s@),
{
    let n = s.len();
    let mut i: usize = 0;
    assert(s@.subrange(0, n as int) == s@);
    while i < n && is_whitespace(s[i])
        invariant
            n == s@.len(),
            i <= n,
            trim_start(s@) == trim_start(s@.subrange(i as int, n as int)),
        decreases n - i,
    {
        assert(s@.subrange(i as int, n as int).subrange(1, (n - i) as int) =~= s@.subrange(
            i + 1,
            n as int,
        ));
        i = i + 1;
    }
    let ghost mid = s@.subrange(i as int, n as int);
    assert(trim_start(mid) == mid);
    let mut j: usize = n;
    while j > i && is_whitespace(s[j - 1])
        invariant
            i <= j <= n,
            n == s@.len(),
            mid == s@.subrange(i as int, n as int),
            trim_end(mid) == trim_end(s@.subrange(i as int, j as int)),
        decreases j - i,
    {
        assert(s@.subrange(i as int, j as int).subrange(0, (j - i - 1) as int) =~= s@.subrange(
            i as int,
            j - 1,
        ));
        j = j - 1;
    }
    let r = sub_chars(s, i, j);
    let ghost t = s@.subrange(i as int, j as int);
    assert(trim_end(t) == t);
    r
}

pub fn trim_str(s: &str) -> (r: Vec<char>)
    ensures
        r@ == trim(s@),
{
    let v = chars_of(s);
    trim_chars(&v)
}

/// ASCII lower-casing of one character.
pub open spec fn lower_char(c: char) -> char {
    if 'A' <= c && c <= 'Z' {
        ((c as u32) + 32) as char
    } else {
        c
    }
}

/// ASCII upper-casing of one character.
pub open spec fn upper_char(c: char) -> char {
    if 'a' <= c && c <= 'z' {
        ((c as u32) - 32) as char
    } else {
        c
    }
}

pub fn to_lower_char(c: char) -> (r: char)
    ensures
        r == lower_char(c),
{
    if 'A' <= c && c <= 'Z' {
        let b = (c as u8) + 32;
        b as char
    } else {
        c
    }
}

pub fn to_upper_char(c: char) -> (r: char)
    ensures
        r == upper_char(c),
{
    if 'a' <= c && c <= 'z' {
        let b = (c as u8) - 32;
        b as char
    } else {
        c
    }
}

/// `to_ascii_lowercase` on a character sequence.
pub open spec fn lower(s: Seq<char>) -> Seq<char> {
    s.map_values(|c: char| lower_char(c))
}

/// `to_ascii_uppercase` on a character sequence.
pub open spec fn upper(s: Seq<char>) -> Seq<char> {
    s.map_values(|c: char| upper_char(c))
}

pub fn lower_chars(s: &[char]) -> (r: Vec<char>)
    ensures
        r@ == lower(s@),
{
    let mut r: Vec<char> = Vec::new();
    let mut i: usize = 0;
    while i < s.len()
        invariant
            i <= s@.len(),
            r@ == lower(s@.subrange(0, i as int)),
        decreases s@.len() - i,
    {
        r.push(to_lower_char(s[i]));
        assert(lower(s@.subrange(0, i + 1)) =~= lower(s@.subrange(0, i as int)).push(
            lower_char(s@[i as int]),
        ));
        i = i + 1;
    }
    assert(s@.subrange(0, s@.len() as int) == s@);
    r
}

pub fn upper_chars(s: &[char]) -> (r: Vec<char>)
    ensures
        r@ == upper(s@),
{
    let mut r: Vec<char> = Vec::new();
    let mut i: usize = 0;
    while i < s.len()
        invariant
            i <= s@.len(),
            r@ == upper(s@.subrange(0, i as int)),
        decreases s@.len() - i,
    {
        r.push(to_upper_char(s[i]));
        assert(upper(s@.subrange(0, i + 1)) =~= upper(s@.subrange(0, i as int)).push(
            upper_char(s@[i as int]),
        ));
        i = i + 1;
    }
    assert(s@.subrange(0, s@.len() as int) == s@);
    r
}

/// One character of a normalized keyword: lower-cased, with spaces and
/// hyphens turned into underscores.
pub open spec fn keyword_char(c: char) -> char {
    let l = lower_char(c);
    if l == ' ' || l == '-' {
        '_'
    } else {
        l
    }
}

/// `value.trim().to_ascii_lowercase().replace([' ', '-'], "_")`.
pub open spec fn normalize_keyword(s: Seq<char>) -> Seq<char> {
    trim(s).map_values(|c: char| keyword_char(c))
}

pub fn normalize_keyword_chars(s: &[char]) -> (r: Vec<char>)
    ensures
        r@ == normalize_keyword(s@),
{
    let t = trim_chars(s);
    let mut r: Vec<char> = Vec::new();
    let mut i: usize = 0;
    while i < t.len()
        invariant
            i <= t@.len(),
            r@ == t@.subrange(0, i as int).map_values(|c: char| keyword_char(c)),
        decreases t@.len() - i,
    {
        let l = to_lower_char(t[i]);
        let k = if l == ' ' || l == '-' {
            '_'
        } else {
            l
        };
        r.push(k);
        assert(t@.subrange(0, i + 1).map_values(|c: char| keyword_char(c)) =~= t@.subrange(
            0,
            i as int,
        ).map_values(|c: char| keyword_char(c)).push(keyword_char(t@[i as int])));
        i = i + 1;
    }
    assert(t@.subrange(0, t@.len() as int) == t@);
    r
}

/// Normalizes the keyword `s` (see [`normalize_keyword`]).
pub fn normalize_keyword_str(s: &str) -> (r: Vec<char>)
    ensures
        r@ == normalize_keyword(s@),
{
    let v = chars_of(s);
    normalize_keyword_chars(&v)
}

/// Whether `needle` occurs in `hay` starting at position `i`.
pub open spec fn occurs_at(hay: Seq<char>, needle: Seq<char>, i: int) -> bool {
    0 <= i && i + needle.len() <= hay.len() && hay.subrange(i, i + needle.len()) == needle
}

/// `str::contains` for a string needle.
pub open spec fn contains_seq(hay: Seq<char>, needle: Seq<char>) -> bool {
    exists|i: int| occurs_at(hay, needle, i)
}

fn matches_at(hay: &[char], needle: &[char], i: usize) -> (r: bool)
    requires
        i + needle@.len() <= hay@.len(),
    ensures
        r == occurs_at(hay@, needle@, i as int),
{
    let mut k: usize = 0;
    while k < needle.len()
        invariant
            i + needle@.len() <= hay@.len(),
            k <= needle@.len(),
            forall|m: int| 0 <= m < k ==> hay@[i + m] == needle@[m],
        decreases needle@.len() - k,
    {
        assert(i + k < hay.len());
        if hay[i + k] != needle[k] {
            assert(hay@.subrange(i as int, i + needle@.len())[k as int] != needle@[k as int]);
            return false;
        }
        k = k + 1;
    }
    assert(hay@.subrange(i as int, i + needle@.len()) =~= needle@);
    true
}

/// Whether `needle` occurs somewhere in `hay`.
pub fn contains_chars(hay: &[char], needle: &[char]) -> (r: bool)
    ensures
        r == contains_seq(hay@, needle@),
{
    if needle.len() > hay.len() {
        return false;
    }
    let last = hay.len() - needle.len();
    let mut i: usize = 0;
    loop
        invariant_except_break
            i <= last,
            forall|k: int| 0 <= k < i ==> !occurs_at(hay@, needle@, k),
        invariant
            last == hay@.len() - needle@.len(),
            needle@.len() <= hay@.len(),
        ensures
            forall|k: int| 0 <= k <= last ==> !occurs_at(hay@, needle@, k),
        decreases last - i,
    {
        if matches_at(hay, needle, i) {
            return true;
        }
        if i == last {
            break;
        }
        i = i + 1;
    }
    assert forall|k: int| !occurs_at(hay@, needle@, k) by {
        if 0 <= k && k + needle@.len() <= hay@.len() {
            assert(k <= last);
        }
    }
    false
}

/// Whether `lit` occurs in `hay`.
pub fn contains_str(hay: &[char], lit: &str) -> (r: bool)
    ensures
        r == contains_seq(hay@, lit@),
{
    let needle = chars_of(lit);
    contains_chars(hay, &needle)
}

/// The decimal digit character for `d < 10`.
pub open spec fn digit_char(d: nat) -> char {
    (('0' as u32) + d) as char
}

/// Decimal representation of `n`, as `format!("{n}")` writes it.
pub open spec fn decimal(n: nat) -> Seq<char>
    decreases n,
{
    if n < 10 {
        seq![digit_char(n)]
    } else {
        decimal(n / 10).push(digit_char(n % 10))
    }
}

fn digit_to_char(d: u8) -> (c: char)
    requires
        d < 10,
    ensures
        c == digit_char(d as nat),
{
    let b: u8 = 48 + d;
    b as char
}

/// Decimal representation of `n`.
pub fn decimal_chars(n: u128) -> (r: Vec<char>)
    ensures
        r@ == decimal(n as nat),
    decreases n,
{
    if n < 10 {
        let mut v: Vec<char> = Vec::new();
        v.push(digit_to_char(n as u8));
        assert(v@ =~= seq![digit_char(n as nat)]);
        v
    } else {
        let mut v = decimal_chars(n / 10);
        v.push(digit_to_char((n % 10) as u8));
        v
    }
}

/// The lower-case hexadecimal digit character for `d < 16`.
pub open spec fn hex_digit_char(d: nat) -> char {
    if d < 10 {
        digit_char(d)
    } else {
        (('a' as u32) + (d - 10)) as char
    }
}

/// `format!("{v:04x}")` for a 16-bit value: exactly four lower-case hex digits.
pub open spec fn hex4(v: u16) -> Seq<char> {
    seq![
        hex_digit_char((v as nat / 4096) % 16),
        hex_digit_char((v as nat / 256) % 16),
        hex_digit_char((v as nat / 16) % 16),
        hex_digit_char(v as nat % 16),
    ]
}

fn hex_digit_to_char(d: u16) -> (c: char)
    requires
        d < 16,
    ensures
        c == hex_digit_char(d as nat),
{
    if d < 10 {
        let b: u8 = 48 + (d as u8);
        b as char
    } else {
        let b: u8 = 97 + ((d - 10) as u8);
        b as char
    }
}

/// Four lower-case hex digits of `v`.
pub fn hex4_chars(v: u16) -> (r: Vec<char>)
    ensures
        r@ == hex4(v),
{
    let mut r: Vec<char> = Vec::new();
    r.push(hex_digit_to_char((v / 4096) % 16));
    r.push(hex_digit_to_char((v / 256) % 16));
    r.push(hex_digit_to_char((v / 16) % 16));
    r.push(hex_digit_to_char(v % 16));
    assert(r@ =~= hex4(v));
    r
}

/// Index of the first `'\n'` at or after `i`, or `s.len()` when there is none.
pub open spec fn line_end(s: Seq<char>, i: int) -> int
    decreases s.len() - i,
{
    if i >= s.len() {
        s.len() as int
    } else if s[i] == '\n' {
        i
    } else {
        line_end(s, i + 1)
    }
}

/// A line without the `'\r'` of a `"\r\n"` terminator.
pub open spec fn strip_cr(line: Seq<char>, terminated: bool) -> Seq<char> {
    if terminated && line.len() > 0 && line[line.len() - 1] == '\r' {
        line.subrange(0, line.len() - 1)
    } else {
        line
    }
}

/// `str::lines` on the characters from position `i` on.
pub open spec fn lines_from(s: Seq<char>, i: int) -> Seq<Seq<char>>
    decreases s.len() - i,
{
    if i < 0 || i >= s.len() {
        Seq::empty()
    } else {
        let j = line_end(s, i);
        if j < i {
            Seq::empty()
        } else if j >= s.len() {
            seq![s.subrange(i, s.len() as int)]
        } else {
            seq![strip_cr(s.subrange(i, j), true)] + lines_from(s, j + 1)
        }
    }
}

/// `str::lines`: the lines of `s`, split at `"\n"` or `"\r\n"`, with no final
/// empty line after a trailing terminator.
pub open spec fn lines(s: Seq<char>) -> Seq<Seq<char>> {
    lines_from(s, 0)
}

pub proof fn lemma_line_end_bounds(s: Seq<char>, i: int)
    requires
        0 <= i <= s.len(),
    ensures
        i <= line_end(s, i) <= s.len(),
        line_end(s, i) < s.len() ==> s[line_end(s, i)] == '\n',
        forall|k: int| i <= k < line_end(s, i) ==> s[k] != '\n',
    decreases s.len() - i,
{
    if i < s.len() && s[i] != '\n' {
        lemma_line_end_bounds(s, i + 1);
    }
}

fn find_line_end(s: &[char], i: usize) -> (j: usize)
    requires
        i <= s@.len(),
    ensures
        j as int == line_end(s@, i as int),
{
    let mut j = i;
    while j < s.len() && s[j] != '\n'
        invariant
            i <= j <= s@.len(),
            line_end(s@, i as int) == line_end(s@, j as int),
        decreases s@.len() - j,
    {
        j = j + 1;
    }
    j
}

/// The lines of `s`, as `str::lines` splits them.
pub fn lines_of(s: &[char]) -> (r: Vec<Vec<char>>)
    ensures
        r@.len() == lines(s@).len(),
        forall|k: int| 0 <= k < r@.len() ==> #[trigger] r@[k]@ == lines(s@)[k],
{
    let mut r: Vec<Vec<char>> = Vec::new();
    let mut i: usize = 0;
    let ghost done: Seq<Seq<char>> = Seq::empty();
    while i < s.len()
        invariant
            i <= s@.len(),
            done + lines_from(s@, i as int) == lines(s@),
            r@.len() == done.len(),
            forall|k: int| 0 <= k < r@.len() ==> #[trigger] r@[k]@ == done[k],
        decreases s@.len() - i,
    {
        let j = find_line_end(s, i);
        proof {
            lemma_line_end_bounds(s@, i as int);
        }
        let terminated = j < s.len();
        let mut line = sub_chars(s, i, j);
        if terminated && line.len() > 0 && line[line.len() - 1] == '\r' {
            line.pop();
        }
        proof {
            let piece = strip_cr(s@.subrange(i as int, j as int), j < s@.len());
            assert(line@ =~= piece);
            if j >= s@.len() {
                assert(lines_from(s@, j + 1) == Seq::<Seq<char>>::empty());
                assert(seq![piece] + lines_from(s@, j + 1) =~= seq![piece]);
            }
            assert(lines_from(s@, i as int) == seq![piece] + lines_from(s@, j + 1));
            assert(done + lines_from(s@, i as int) =~= done.push(piece) + lines_from(
                s@,
                j + 1,
            ));
            done = done.push(piece);
        }
        r.push(line);
        if j >= s.len() {
            i = s.len();
        } else {
            i = j + 1;
        }
    }
    assert(lines_from(s@, i as int) == Seq::<Seq<char>>::empty());
    assert(done + Seq::<Seq<char>>::empty() =~= done);
    r
}

/// The index of the first `c` in `s`, if any.
pub open spec fn char_index(s: Seq<char>, c: char) -> Option<int>
    decreases s.len(),
{
    if s.len() == 0 {
        None
    } else if s[0] == c {
        Some(0)
    } else {
        match char_index(s.drop_first(), c) {
            Some(i) => Some(i + 1),
            None => None,
        }
    }
}

pub proof fn lemma_char_index(s: Seq<char>, c: char)
    ensures
        char_index(s, c) matches Some(i) ==> 0 <= i < s.len() && s[i] == c && forall|k: int| 0 <= k < i ==> s[k] != c,
        char_index(s, c) is None ==> forall|k: int| 0 <= k < s.len() ==> s[k] != c,
    decreases s.len(),
{
    if s.len() > 0 && s[0] != c {
        lemma_char_index(s.drop_first(), c);
        assert forall|k: int| 1 <= k < s.len() implies s[k] == s.drop_first()[k - 1] by {}
    }
}

/// Finds the first `c` in `s`.
pub fn find_char(s: &[char], c: char) -> (r: Option<usize>)
    ensures
        match r {
            Some(i) => char_index(s@, c) == Some(i as int),
            None => char_index(s@, c) is None,
        },
{
    let mut i: usize = 0;
    while i < s.len()
        invariant
            i <= s@.len(),
            forall|k: int| 0 <= k < i ==> s@[k] != c,
        decreases s@.len() - i,
    {
        if s[i] == c {
            proof {
                lemma_char_index(s@, c);
                match char_index(s@, c) {
                    Some(j) => {
                        if j < i {
                            assert(s@[j] != c);
                        } else if j > i {
                            assert(s@[i as int] != c);
                        }
                    },
                    None => {
                        assert(s@[i as int] != c);
                    },
                }
            }
            return Some(i);
        }
        i = i + 1;
    }
    proof {
        lemma_char_index(s@, c);
        if char_index(s@, c) is Some {
            let j = char_index(s@, c)->0;
            assert(s@[j] == c);
        }
    }
    None
}

/// Whether `a` sorts before `b`, comparing characters by code point (the
/// order `String` comparison gives).
pub open spec fn seq_lt(a: Seq<char>, b: Seq<char>) -> bool
    decreases a.len(),
{
    if b.len() == 0 {
        false
    } else if a.len() == 0 {
        true
    } else if a[0] != b[0] {
        (a[0] as u32) < (b[0] as u32)
    } else {
        seq_lt(a.drop_first(), b.drop_first())
    }
}

/// Whether `a` sorts before `b` (see [`seq_lt`]).
pub fn chars_lt(a: &[char], b: &[char]) -> (r: bool)
    ensures
        r == seq_lt(a@, b@),
{
    let mut i: usize = 0;
    assert(a@.skip(0) =~= a@);
    assert(b@.skip(0) =~= b@);
    while i < a.len() && i < b.len() && a[i] == b[i]
        invariant
            i <= a@.len(),
            i <= b@.len(),
            seq_lt(a@, b@) == seq_lt(a@.skip(i as int), b@.skip(i as int)),
        decreases a@.len() - i,
    {
        assert(a@.skip(i as int).drop_first() =~= a@.skip(i + 1));
        assert(b@.skip(i as int).drop_first() =~= b@.skip(i + 1));
        i = i + 1;
    }
    if i == b.len() {
        assert(b@.skip(i as int).len() == 0);
        false
    } else if i == a.len() {
        assert(a@.skip(i as int).len() == 0);
        true
    } else {
        assert(a@.skip(i as int)[0] == a@[i as int]);
        assert(b@.skip(i as int)[0] == b@[i as int]);
        (a[i] as u32) < (b[i] as u32)
    }
}

/// Text that neither starts nor ends with whitespace is its own trim.
pub proof fn lemma_trim_plain(s: Seq<char>)
    requires
        s.len() == 0 || (!is_ws(s[0]) && !is_ws(s[s.len() - 1])),
    ensures
        trim(s) == s,
{
}

/// `seq_lt` is a strict total order.
pub proof fn lemma_seq_lt_order(a: Seq<char>, b: Seq<char>, c: Seq<char>)
    ensures
        !seq_lt(a, a),
        seq_lt(a, b) ==> !seq_lt(b, a),
        seq_lt(a, b) && seq_lt(b, c) ==> seq_lt(a, c),
        a != b ==> seq_lt(a, b) || seq_lt(b, a),
    decreases a.len(),
{
    if a.len() > 0 {
        lemma_seq_lt_order(a.drop_first(), b.drop_first(), c.drop_first());
        lemma_seq_lt_order(a.drop_first(), a.drop_first(), a.drop_first());
        if b.len() > 0 && a[0] == b[0] && a.drop_first() == b.drop_first() {
            assert forall|i: int| 0 <= i < a.len() implies a[i] == b[i] by {
                if i > 0 {
                    assert(a[i] == a.drop_first()[i - 1]);
                    assert(b[i] == b.drop_first()[i - 1]);
                }
            }
            assert(a =~= b);
        }
        if b.len() > 0 && a[0] != b[0] {
            vstd::utf8::char_u32_cast(a[0], a[0] as u32);
            vstd::utf8::char_u32_cast(b[0], b[0] as u32);
            assert((a[0] as u32) != (b[0] as u32));
        }
    } else {
        if b.len() == 0 {
            assert(a =~= b);
        }
    }
}

} // verus!
