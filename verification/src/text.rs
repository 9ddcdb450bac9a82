//! Text primitives shared by the whole library.
//!
//! Every function here works on the character view of a string (`Seq<char>`),
//! which is also the unit that the rest of the library counts in.
use vstd::prelude::*;

verus! {

// ---------------------------------------------------------------------------
// Specifications
// ---------------------------------------------------------------------------
/// Unicode `White_Space`, as `char::is_whitespace` defines it.
pub open spec fn is_ws(c: char) -> bool {
    ||| c == '\t'
    ||| c == '\n'
    ||| c == '\u{0B}'
    ||| c == '\u{0C}'
    ||| c == '\r'
    ||| c == ' '
    ||| c == '\u{85}'
    ||| c == '\u{A0}'
    ||| c == '\u{1680}'
    ||| ('\u{2000}' <= c && c <= '\u{200A}')
    ||| c == '\u{2028}'
    ||| c == '\u{2029}'
    ||| c == '\u{202F}'
    ||| c == '\u{205F}'
    ||| c == '\u{3000}'
}

/// `n` occurs in `h` starting at position `i`.
pub open spec fn occurs_at(h: Seq<char>, n: Seq<char>, i: int) -> bool {
    0 <= i && i + n.len() <= h.len() && h.subrange(i, i + n.len()) == n
}

/// `n` occurs somewhere in `h` (the empty sequence occurs everywhere).
pub open spec fn contains_seq(h: Seq<char>, n: Seq<char>) -> bool {
    exists|i: int| occurs_at(h, n, i)
}

/// `s` begins with `p`.
pub open spec fn begins(s: Seq<char>, p: Seq<char>) -> bool {
    p.len() <= s.len() && s.take(p.len() as int) == p
}

/// `s` ends with `p`.
pub open spec fn finishes(s: Seq<char>, p: Seq<char>) -> bool {
    p.len() <= s.len() && s.skip(s.len() - p.len()) == p
}

/// Leading whitespace removed.
pub open spec fn trim_start(s: Seq<char>) -> Seq<char>
    decreases s.len(),
{
    if s.len() > 0 && is_ws(s[0]) {
        trim_start(s.drop_first())
    } else {
        s
    }
}

/// Trailing whitespace removed.
pub open spec fn trim_end(s: Seq<char>) -> Seq<char>
    decreases s.len(),
{
    if s.len() > 0 && is_ws(s.last()) {
        trim_end(s.drop_last())
    } else {
        s
    }
}

/// Whitespace removed at both ends, as `str::trim` does.
pub open spec fn trim(s: Seq<char>) -> Seq<char> {
    trim_end(trim_start(s))
}

/// The sequence holds nothing but whitespace (or nothing at all).
pub open spec fn blank(s: Seq<char>) -> bool {
    trim(s).len() == 0
}

/// A line without its `\r` when that `\r` stood right before the `\n`.
pub open spec fn strip_cr(line: Seq<char>) -> Seq<char> {
    if line.len() > 0 && line.last() == '\r' {
        line.drop_last()
    } else {
        line
    }
}

/// Scans `s` for `str::lines`: the finished lines and the line under way.
pub open spec fn scan_lines(s: Seq<char>) -> (Seq<Seq<char>>, Seq<char>)
    decreases s.len(),
{
    if s.len() == 0 {
        (Seq::empty(), Seq::empty())
    } else {
        let (done, cur) = scan_lines(s.drop_last());
        if s.last() == '\n' {
            (done.push(strip_cr(cur)), Seq::empty())
        } else {
            (done, cur.push(s.last()))
        }
    }
}

/// The lines of `s` as `str::lines` yields them: split at `\n`, a `\r` right
/// before a `\n` dropped, and no empty last line after a final `\n`.
pub open spec fn lines(s: Seq<char>) -> Seq<Seq<char>> {
    let (done, cur) = scan_lines(s);
    if cur.len() > 0 {
        done.push(cur)
    } else {
        done
    }
}

/// `parts` joined with `sep` between neighbours.
pub open spec fn join(parts: Seq<Seq<char>>, sep: Seq<char>) -> Seq<char>
    decreases parts.len(),
{
    if parts.len() == 0 {
        Seq::empty()
    } else if parts.len() == 1 {
        parts[0]
    } else {
        join(parts.drop_last(), sep) + sep + parts.last()
    }
}

/// ASCII letters `A`..`Z` lowered, every other character kept.
pub open spec fn ascii_lower_char(c: char) -> char {
    if 'A' <= c && c <= 'Z' {
        ((c as u32) + 32) as char
    } else {
        c
    }
}

/// `str::to_ascii_lowercase`.
pub open spec fn ascii_lower(s: Seq<char>) -> Seq<char> {
    s.map_values(|c: char| ascii_lower_char(c))
}

/// `s` with every character for which `keep` is false removed.
pub open spec fn filter_chars(s: Seq<char>, keep: spec_fn(char) -> bool) -> Seq<char>
    decreases s.len(),
{
    if s.len() == 0 {
        Seq::empty()
    } else if keep(s.last()) {
        filter_chars(s.drop_last(), keep).push(s.last())
    } else {
        filter_chars(s.drop_last(), keep)
    }
}

/// Some needle of `needles` occurs in `h`.
pub open spec fn contains_any_seq(h: Seq<char>, needles: Seq<Seq<char>>) -> bool {
    exists|k: int| 0 <= k < needles.len() && contains_seq(h, #[trigger] needles[k])
}

/// `s` with every occurrence of `from` replaced by `to`, scanning left to
/// right without overlap (as `str::replace` does for a non-empty `from`).
pub open spec fn replace_all(s: Seq<char>, from: Seq<char>, to: Seq<char>) -> Seq<char>
    decreases s.len(),
{
    if s.len() == 0 {
        Seq::empty()
    } else if from.len() > 0 && begins(s, from) {
        to + replace_all(s.skip(from.len() as int), from, to)
    } else {
        seq![s[0]] + replace_all(s.skip(1), from, to)
    }
}

/// `i` is the first position where `n` occurs in `h`.
pub open spec fn is_first_at(h: Seq<char>, n: Seq<char>, i: int) -> bool {
    occurs_at(h, n, i) && forall|j: int| 0 <= j < i ==> !occurs_at(h, n, j)
}

/// The first position where `n` occurs in `h` (meaningful when it occurs).
pub open spec fn first_at(h: Seq<char>, n: Seq<char>) -> int {
    choose|i: int| is_first_at(h, n, i)
}

/// The decimal digit character of `d` (`0 <= d < 10`).
pub open spec fn digit_char(d: int) -> char {
    (d + 48) as char
}

/// The decimal representation of a natural number.
pub open spec fn decimal_nat(n: nat) -> Seq<char>
    decreases n,
{
    if n < 10 {
        seq![digit_char(n as int)]
    } else {
        decimal_nat(n / 10).push(digit_char((n % 10) as int))
    }
}

/// The decimal representation of an integer, as `{}` formats it.
pub open spec fn decimal(n: int) -> Seq<char> {
    if n < 0 {
        seq!['-'] + decimal_nat((-n) as nat)
    } else {
        decimal_nat(n as nat)
    }
}

/// The lowercase hexadecimal digit of `d` (`0 <= d < 16`).
pub open spec fn hex_char(d: int) -> char {
    if d < 10 {
        (d + 48) as char
    } else {
        (d + 87) as char
    }
}

/// Bytes in lowercase hexadecimal, two digits per byte.
pub open spec fn hex(b: Seq<u8>) -> Seq<char>
    decreases b.len(),
{
    if b.len() == 0 {
        Seq::empty()
    } else {
        hex(b.drop_last()).push(hex_char((b.last() / 16) as int)).push(hex_char((b.last() % 16) as int))
    }
}

/// The views of a list of character vectors.
pub open spec fn char_views(v: Seq<Vec<char>>) -> Seq<Seq<char>> {
    v.map_values(|l: Vec<char>| l@)
}

/// The views of a list of strings.
pub open spec fn views(v: Seq<String>) -> Seq<Seq<char>> {
    v.map_values(|s: String| s@)
}

/// The views of a list of string slices.
pub open spec fn str_views(v: Seq<&str>) -> Seq<Seq<char>> {
    v.map_values(|s: &str| s@)
}

// ---------------------------------------------------------------------------
// Conversions
// ---------------------------------------------------------------------------
/// The characters of a string slice, in order.
pub fn chars_of(s: &str) -> (v: Vec<char>)
    ensures
        v@ == s@,
{
    let mut v: Vec<char> = Vec::new();
    for c in it: s.chars()
        invariant
            it.seq() == s@,
            v@ == it.seq().take(it.index()),
    {
        v.push(c);
    }
    v
}

/// `String::push`: appends one character.
#[verifier::external_body]
fn push_char(s: &mut String, c: char)
    ensures
        final(s)@ == old(s)@.push(c),
{
    s.push(c);
}

/// A string holding exactly the given characters.
pub fn string_of(v: &[char]) -> (s: String)
    ensures
        s@ == v@,
{
    let mut s = String::new();
    let mut i: usize = 0;
    while i < v.len()
        invariant
            i <= v.len(),
            s@ == v@.take(i as int),
        decreases v.len() - i,
    {
        push_char(&mut s, v[i]);
        i = i + 1;
        assert(v@.take(i as int) == v@.take(i - 1).push(v@[i - 1]));
    }
    assert(v@.take(v.len() as int) == v@);
    s
}

/// An owned copy of a string slice.
pub fn owned(s: &str) -> (r: String)
    ensures
        r@ == s@,
{
    String::from_str(s)
}

/// `a` followed by `b`.
pub fn concat(a: &str, b: &str) -> (r: String)
    ensures
        r@ == a@ + b@,
{
    let mut r = String::from_str(a);
    r.append(b);
    r
}

/// Appends `b` to `s`.
pub fn append(s: &mut String, b: &str)
    ensures
        final(s)@ == old(s)@ + b@,
{
    s.append(b);
}

/// Appends the characters `b` to `s`.
pub fn append_chars(s: &mut String, b: &[char])
    ensures
        final(s)@ == old(s)@ + b@,
{
    let ghost start = s@;
    let mut i: usize = 0;
    while i < b.len()
        invariant
            i <= b.len(),
            s@ == start + b@.take(i as int),
        decreases b.len() - i,
    {
        push_char(s, b[i]);
        i = i + 1;
        assert(b@.take(i as int) == b@.take(i - 1).push(b@[i - 1]));
    }
    assert(b@.take(b.len() as int) == b@);
}

/// A copy of a list of strings.
pub fn copy_strings(v: &Vec<String>) -> (r: Vec<String>)
    ensures
        r@ == v@,
{
    let mut r: Vec<String> = Vec::new();
    let mut i: usize = 0;
    while i < v.len()
        invariant
            i <= v.len(),
            r@ == v@.take(i as int),
        decreases v.len() - i,
    {
        r.push(v[i].clone());
        i = i + 1;
        assert(r@ =~= v@.take(i as int));
    }
    assert(v@.take(v.len() as int) == v@);
    r
}

/// A first position is the only first position.
pub proof fn lemma_first_at(h: Seq<char>, n: Seq<char>, i: int)
    requires
        is_first_at(h, n, i),
    ensures
        first_at(h, n) == i,
{
    let k = first_at(h, n);
    assert(is_first_at(h, n, k));
    if k < i {
        assert(!occurs_at(h, n, k));
    }
    if i < k {
        assert(!occurs_at(h, n, i));
    }
}

/// `s` with every occurrence of `from` replaced by `to`.
pub fn replace(s: &[char], from: &[char], to: &[char]) -> (r: Vec<char>)
    requires
        from.len() > 0,
    ensures
        r@ == replace_all(s@, from@, to@),
{
    let mut out: Vec<char> = Vec::new();
    let mut i: usize = 0;
    assert(s@.skip(0) == s@);
    while i < s.len()
        invariant
            i <= s.len(),
            from.len() > 0,
            out@ + replace_all(s@.skip(i as int), from@, to@) == replace_all(s@, from@, to@),
        decreases s.len() - i,
    {
        let ghost rest = s@.skip(i as int);
        if matches_at(s, from, i) {
            assert(rest.take(from.len() as int) == s@.subrange(i as int, i + from.len()));
            assert(rest.skip(from.len() as int) == s@.skip(i + from.len()));
            let mut k: usize = 0;
            let ghost before = out@;
            while k < to.len()
                invariant
                    k <= to.len(),
                    out@ == before + to@.take(k as int),
                decreases to.len() - k,
            {
                out.push(to[k]);
                k = k + 1;
                assert(to@.take(k as int) == to@.take(k - 1).push(to@[k - 1]));
            }
            assert(to@.take(to.len() as int) == to@);
            assert(out@ + replace_all(s@.skip(i + from.len()), from@, to@) == before + (to@
                + replace_all(rest.skip(from.len() as int), from@, to@)));
            i = i + from.len();
        } else {
            assert(rest.skip(1) == s@.skip(i + 1));
            assert(rest[0] == s@[i as int]);
            proof {
                if begins(rest, from@) {
                    assert(rest.take(from.len() as int) == s@.subrange(i as int, i + from.len()));
                }
            }
            let ghost before = out@;
            out.push(s[i]);
            assert(out@ + replace_all(s@.skip(i + 1), from@, to@) == before + (seq![rest[0]]
                + replace_all(rest.skip(1), from@, to@)));
            i = i + 1;
        }
    }
    assert(s@.skip(s.len() as int).len() == 0);
    assert(out@ + Seq::<char>::empty() == out@);
    out
}

/// Appends the decimal digits of `n` to `out`.
fn push_decimal(out: &mut String, n: u64)
    ensures
        final(out)@ == old(out)@ + decimal_nat(n as nat),
    decreases n,
{
    if n >= 10 {
        push_decimal(out, n / 10);
    }
    let d = (n % 10) as u8;
    let c = (d + 48u8) as char;
    assert(c == digit_char((n % 10) as int));
    push_char(out, c);
}

/// An integer formatted in decimal, as `{}` formats it.
pub fn decimal_of(n: i64) -> (r: String)
    ensures
        r@ == decimal(n as int),
{
    let mut out = String::new();
    if n < 0 {
        push_char(&mut out, '-');
        let m: u64 = ((-(n + 1)) as u64) + 1;
        assert(m == -(n as int));
        push_decimal(&mut out, m);
    } else {
        push_decimal(&mut out, n as u64);
    }
    out
}

/// Bytes in lowercase hexadecimal, as `{:x}` formats a digest.
pub fn hex_of(b: &[u8]) -> (r: String)
    ensures
        r@ == hex(b@),
{
    let mut out = String::new();
    let mut i: usize = 0;
    while i < b.len()
        invariant
            i <= b.len(),
            out@ == hex(b@.take(i as int)),
        decreases b.len() - i,
    {
        let hi = b[i] / 16;
        let lo = b[i] % 16;
        let hc = if hi < 10 { (hi + 48u8) as char } else { (hi + 87u8) as char };
        let lc = if lo < 10 { (lo + 48u8) as char } else { (lo + 87u8) as char };
        assert(hc == hex_char(hi as int));
        assert(lc == hex_char(lo as int));
        push_char(&mut out, hc);
        push_char(&mut out, lc);
        i = i + 1;
        assert(b@.take(i as int).drop_last() == b@.take(i - 1));
    }
    assert(b@.take(b.len() as int) == b@);
    out
}

// ---------------------------------------------------------------------------
// Characters
// ---------------------------------------------------------------------------
/// `char::is_whitespace`.
pub fn is_whitespace(c: char) -> (r: bool)
    ensures
        r == is_ws(c),
{
    c == '\t' || c == '\n' || c == '\u{0B}' || c == '\u{0C}' || c == '\r' || c == ' ' || c
        == '\u{85}' || c == '\u{A0}' || c == '\u{1680}' || ('\u{2000}' <= c && c <= '\u{200A}')
        || c == '\u{2028}' || c == '\u{2029}' || c == '\u{202F}' || c == '\u{205F}' || c
        == '\u{3000}'
}

// ---------------------------------------------------------------------------
// Searching
// ---------------------------------------------------------------------------
/// Whether `n` occurs in `h` at position `i`.
pub fn matches_at(h: &[char], n: &[char], i: usize) -> (r: bool)
    ensures
        r == occurs_at(h@, n@, i as int),
{
    if i > h.len() || n.len() > h.len() - i {
        return false;
    }
    let mut j: usize = 0;
    while j < n.len()
        invariant
            j <= n.len(),
            i + n.len() <= h.len(),
            forall|k: int| 0 <= k < j ==> h@[i + k] == n@[k],
        decreases n.len() - j,
    {
        if h[i + j] != n[j] {
            assert(h@.subrange(i as int, i + n.len())[j as int] != n@[j as int]);
            return false;
        }
        j = j + 1;
    }
    assert(h@.subrange(i as int, i + n.len()) =~= n@);
    true
}

/// The first position at or after `from` where `n` occurs in `h`.
pub fn find_from(h: &[char], n: &[char], from: usize) -> (r: Option<usize>)
    ensures
        match r {
            Some(i) => from <= i && occurs_at(h@, n@, i as int) && forall|j: int|
                from <= j < i ==> !occurs_at(h@, n@, j),
            None => forall|j: int| from <= j ==> !occurs_at(h@, n@, j),
        },
{
    if n.len() > h.len() {
        return None;
    }
    let last = h.len() - n.len();
    if from > last {
        return None;
    }
    let mut i = from;
    loop
        invariant
            last == h.len() - n.len(),
            from <= i <= last,
            forall|j: int| from <= j < i ==> !occurs_at(h@, n@, j),
        decreases last - i,
    {
        if matches_at(h, n, i) {
            return Some(i);
        }
        if i == last {
            return None;
        }
        i = i + 1;
    }
}

/// Whether `a` and `b` hold the same characters.
pub fn chars_eq(a: &[char], b: &[char]) -> (r: bool)
    ensures
        r == (a@ == b@),
{
    if a.len() != b.len() {
        return false;
    }
    let r = matches_at(a, b, 0);
    proof {
        assert(a@.subrange(0, b.len() as int) == a@);
    }
    r
}

/// Whether two strings are equal.
pub fn str_eq(a: &str, b: &str) -> (r: bool)
    ensures
        r == (a@ == b@),
{
    let av = chars_of(a);
    let bv = chars_of(b);
    chars_eq(av.as_slice(), bv.as_slice())
}

/// Whether `n` occurs in `h`.
pub fn contains(h: &[char], n: &[char]) -> (r: bool)
    ensures
        r == contains_seq(h@, n@),
{
    match find_from(h, n, 0) {
        Some(i) => true,
        None => {
            assert forall|j: int| !occurs_at(h@, n@, j) by {
                if 0 <= j {
                } else {
                }
            }
            false
        },
    }
}

/// Whether the string `n` occurs in the string `h`.
pub fn str_contains(h: &str, n: &str) -> (r: bool)
    ensures
        r == contains_seq(h@, n@),
{
    let hv = chars_of(h);
    let nv = chars_of(n);
    contains(hv.as_slice(), nv.as_slice())
}

/// Whether some needle of `needles` occurs in `h`.
pub fn contains_any_of(h: &[char], needles: &[&str]) -> (r: bool)
    ensures
        r == contains_any_seq(h@, str_views(needles@)),
{
    let mut k: usize = 0;
    while k < needles.len()
        invariant
            k <= needles.len(),
            forall|m: int| 0 <= m < k ==> !contains_seq(h@, #[trigger] str_views(needles@)[m]),
        decreases needles.len() - k,
    {
        let nv = chars_of(needles[k]);
        if contains(h, nv.as_slice()) {
            assert(contains_seq(h@, str_views(needles@)[k as int]));
            return true;
        }
        k = k + 1;
    }
    false
}

/// The first position of the character `c` in `h`.
pub fn find_char(h: &[char], c: char) -> (r: Option<usize>)
    ensures
        match r {
            Some(i) => i < h.len() && h@[i as int] == c && forall|j: int| 0 <= j < i ==> h@[j] != c,
            None => forall|j: int| 0 <= j < h.len() ==> h@[j] != c,
        },
{
    let mut i: usize = 0;
    while i < h.len()
        invariant
            i <= h.len(),
            forall|j: int| 0 <= j < i ==> h@[j] != c,
        decreases h.len() - i,
    {
        if h[i] == c {
            return Some(i);
        }
        i = i + 1;
    }
    None
}

/// The last position of the character `c` in `h`.
pub fn rfind_char(h: &[char], c: char) -> (r: Option<usize>)
    ensures
        match r {
            Some(i) => i < h.len() && h@[i as int] == c && forall|j: int| i < j < h.len() ==> h@[j]
                != c,
            None => forall|j: int| 0 <= j < h.len() ==> h@[j] != c,
        },
{
    let mut i: usize = h.len();
    while i > 0
        invariant
            i <= h.len(),
            forall|j: int| i <= j < h.len() ==> h@[j] != c,
        decreases i,
    {
        if h[i - 1] == c {
            return Some(i - 1);
        }
        i = i - 1;
    }
    None
}

/// Whether `s` begins with `p`.
pub fn starts_with(s: &[char], p: &[char]) -> (r: bool)
    ensures
        r == begins(s@, p@),
{
    let r = matches_at(s, p, 0);
    proof {
        if p.len() <= s.len() {
            assert(s@.subrange(0, p.len() as int) == s@.take(p.len() as int));
        }
    }
    r
}

/// Whether `s` ends with `p`.
pub fn ends_with(s: &[char], p: &[char]) -> (r: bool)
    ensures
        r == finishes(s@, p@),
{
    if p.len() > s.len() {
        return false;
    }
    let r = matches_at(s, p, s.len() - p.len());
    assert(s@.subrange(s.len() - p.len(), s.len() - p.len() + p.len()) == s@.skip(
        s.len() - p.len(),
    ));
    r
}

// ---------------------------------------------------------------------------
// Slicing
// ---------------------------------------------------------------------------
/// The characters of `s` from `start` up to `end`.
pub fn slice_of(s: &[char], start: usize, end: usize) -> (r: Vec<char>)
    requires
        start <= end <= s.len(),
    ensures
        r@ == s@.subrange(start as int, end as int),
{
    let mut r: Vec<char> = Vec::new();
    let mut i = start;
    while i < end
        invariant
            start <= i <= end <= s.len(),
            r@ == s@.subrange(start as int, i as int),
        decreases end - i,
    {
        r.push(s[i]);
        i = i + 1;
        assert(s@.subrange(start as int, i as int) == s@.subrange(start as int, i - 1).push(
            s@[i - 1],
        ));
    }
    r
}

proof fn lemma_trim_start_skip(s: Seq<char>, i: int)
    requires
        0 <= i <= s.len(),
        forall|j: int| 0 <= j < i ==> is_ws(s[j]),
    ensures
        trim_start(s) == trim_start(s.skip(i)),
    decreases i,
{
    if i > 0 {
        assert(s.skip(1) == s.drop_first());
        lemma_trim_start_skip(s.drop_first(), i - 1);
        assert(s.drop_first().skip(i - 1) == s.skip(i));
    } else {
        assert(s.skip(0) == s);
    }
}

proof fn lemma_trim_end_take(s: Seq<char>, i: int)
    requires
        0 <= i <= s.len(),
        forall|j: int| i <= j < s.len() ==> is_ws(s[j]),
    ensures
        trim_end(s) == trim_end(s.take(i)),
    decreases s.len() - i,
{
    if i < s.len() {
        assert(s.take(s.len() - 1) == s.drop_last());
        lemma_trim_end_take(s.drop_last(), i);
        assert(s.drop_last().take(i) == s.take(i));
    } else {
        assert(s.take(i) == s);
    }
}

/// The position of the first character of `s` that is not whitespace
/// (`s.len()` when there is none).
pub fn trim_start_index(s: &[char]) -> (r: usize)
    ensures
        r <= s.len(),
        trim_start(s@) == s@.skip(r as int),
{
    let mut i: usize = 0;
    while i < s.len() && is_whitespace(s[i])
        invariant
            i <= s.len(),
            forall|j: int| 0 <= j < i ==> is_ws(s@[j]),
        decreases s.len() - i,
    {
        i = i + 1;
    }
    proof {
        lemma_trim_start_skip(s@, i as int);
        if i < s.len() {
            assert(s@.skip(i as int)[0] == s@[i as int]);
        } else {
            assert(s@.skip(i as int).len() == 0);
        }
    }
    i
}

/// The position just past the last character of `s` that is not whitespace
/// (0 when there is none).
pub fn trim_end_index(s: &[char]) -> (r: usize)
    ensures
        r <= s.len(),
        trim_end(s@) == s@.take(r as int),
{
    let mut i: usize = s.len();
    while i > 0 && is_whitespace(s[i - 1])
        invariant
            i <= s.len(),
            forall|j: int| i <= j < s.len() ==> is_ws(s@[j]),
        decreases i,
    {
        i = i - 1;
    }
    proof {
        lemma_trim_end_take(s@, i as int);
        if i > 0 {
            assert(s@.take(i as int).last() == s@[i - 1]);
        } else {
            assert(s@.take(0).len() == 0);
        }
    }
    i
}

/// `s` without leading and trailing whitespace.
pub fn trim_chars(s: &[char]) -> (r: Vec<char>)
    ensures
        r@ == trim(s@),
{
    let a = trim_start_index(s);
    let t = slice_of(s, a, s.len());
    assert(t@ == s@.skip(a as int));
    let b = trim_end_index(t.as_slice());
    slice_of(t.as_slice(), 0, b)
}

/// `s` without trailing whitespace.
pub fn trim_end_chars(s: &[char]) -> (r: Vec<char>)
    ensures
        r@ == trim_end(s@),
{
    let b = trim_end_index(s);
    slice_of(s, 0, b)
}

/// `str::trim`, as an owned string.
pub fn trimmed(s: &str) -> (r: String)
    ensures
        r@ == trim(s@),
{
    let v = chars_of(s);
    let t = trim_chars(v.as_slice());
    string_of(t.as_slice())
}

/// Whether `s` is empty or whitespace only.
pub fn is_blank(s: &str) -> (r: bool)
    ensures
        r == blank(s@),
{
    let v = chars_of(s);
    let t = trim_chars(v.as_slice());
    t.len() == 0
}

/// Characters in `s`.
pub fn char_count(s: &str) -> (r: usize)
    ensures
        r == s@.len(),
{
    let v = chars_of(s);
    v.len()
}

// ---------------------------------------------------------------------------
// Lines and joining
// ---------------------------------------------------------------------------
/// The lines of `s`, as `str::lines` yields them.
pub fn lines_of(s: &[char]) -> (r: Vec<Vec<char>>)
    ensures
        char_views(r@) == lines(s@),
{
    let mut done: Vec<Vec<char>> = Vec::new();
    let mut cur: Vec<char> = Vec::new();
    let mut i: usize = 0;
    while i < s.len()
        invariant
            i <= s.len(),
            (char_views(done@), cur@) == scan_lines(s@.take(i as int)),
        decreases s.len() - i,
    {
        let ghost before = s@.take(i as int);
        assert(s@.take(i + 1).drop_last() == before);
        if s[i] == '\n' {
            let line = if cur.len() > 0 && cur[cur.len() - 1] == '\r' {
                slice_of(cur.as_slice(), 0, cur.len() - 1)
            } else {
                cur
            };
            assert(line@ == strip_cr(scan_lines(before).1)) by {
                if scan_lines(before).1.len() > 0 && scan_lines(before).1.last() == '\r' {
                    assert(scan_lines(before).1.drop_last() == scan_lines(before).1.subrange(
                        0,
                        scan_lines(before).1.len() - 1,
                    ));
                }
            }
            let ghost old_done = done@;
            done.push(line);
            assert(char_views(done@) =~= char_views(old_done).push(line@));
            cur = Vec::new();
        } else {
            cur.push(s[i]);
        }
        i = i + 1;
    }
    assert(s@.take(s.len() as int) == s@);
    if cur.len() > 0 {
        let ghost old_done = done@;
        let ghost last = cur@;
        done.push(cur);
        assert(char_views(done@) =~= char_views(old_done).push(last));
    }
    done
}

/// The lines of a string slice, each as an owned string.
pub fn str_lines(s: &str) -> (r: Vec<String>)
    ensures
        views(r@) == lines(s@),
{
    let v = chars_of(s);
    let ls = lines_of(v.as_slice());
    let mut r: Vec<String> = Vec::new();
    let mut i: usize = 0;
    while i < ls.len()
        invariant
            i <= ls.len(),
            char_views(ls@) == lines(s@),
            views(r@) == char_views(ls@).take(i as int),
        decreases ls.len() - i,
    {
        let line = string_of(ls[i].as_slice());
        let ghost old_r = r@;
        r.push(line);
        i = i + 1;
        assert(views(r@) =~= views(old_r).push(line@));
        assert(char_views(ls@).take(i as int) =~= char_views(ls@).take(i - 1).push(ls@[i - 1]@));
    }
    assert(char_views(ls@).take(ls.len() as int) == char_views(ls@));
    r
}

/// The strings of `parts` joined with `sep` between neighbours.
pub fn join_strings(parts: &[String], sep: &str) -> (r: String)
    ensures
        r@ == join(views(parts@), sep@),
{
    let mut r = String::new();
    let mut i: usize = 0;
    while i < parts.len()
        invariant
            i <= parts.len(),
            r@ == join(views(parts@).take(i as int), sep@),
        decreases parts.len() - i,
    {
        let ghost prev = views(parts@).take(i as int);
        assert(views(parts@).take(i + 1).drop_last() == prev);
        if i > 0 {
            r.append(sep);
        }
        r.append(parts[i].as_str());
        i = i + 1;
        proof {
            if i == 1 {
                assert(prev.len() == 0);
                assert(r@ == views(parts@).take(1)[0]);
            }
        }
    }
    assert(views(parts@).take(parts.len() as int) == views(parts@));
    r
}

// ---------------------------------------------------------------------------
// Case
// ---------------------------------------------------------------------------
/// `char::to_ascii_lowercase`.
pub fn ascii_lower_of(c: char) -> (r: char)
    ensures
        r == ascii_lower_char(c),
{
    if 'A' <= c && c <= 'Z' {
        let code = (c as u32) + 32;
        assert(0x61 <= code <= 0x7a);
        proof {
            assert((code as char) == ((c as u32) + 32) as char);
        }
        code_char(code)
    } else {
        c
    }
}

/// The character with an ASCII lowercase-letter code.
fn code_char(code: u32) -> (r: char)
    requires
        0x61 <= code <= 0x7a,
    ensures
        r == code as char,
{
    let b = code as u8;
    b as char
}

/// `str::to_ascii_lowercase`, on characters.
pub fn ascii_lowercase(s: &[char]) -> (r: Vec<char>)
    ensures
        r@ == ascii_lower(s@),
{
    let mut r: Vec<char> = Vec::new();
    let mut i: usize = 0;
    while i < s.len()
        invariant
            i <= s.len(),
            r@ == ascii_lower(s@.take(i as int)),
        decreases s.len() - i,
    {
        r.push(ascii_lower_of(s[i]));
        i = i + 1;
        assert(ascii_lower(s@.take(i as int)) =~= ascii_lower(s@.take(i - 1)).push(
            ascii_lower_char(s@[i - 1]),
        ));
    }
    assert(s@.take(s.len() as int) == s@);
    r
}

/// Whether `s` is one of `options`.
pub fn is_one_of(s: &str, options: &[&str]) -> (r: bool)
    ensures
        r == str_views(options@).contains(s@),
{
    let mut k: usize = 0;
    while k < options.len()
        invariant
            k <= options.len(),
            forall|m: int| 0 <= m < k ==> str_views(options@)[m] != s@,
        decreases options.len() - k,
    {
        if str_eq(s, options[k]) {
            assert(str_views(options@)[k as int] == s@);
            return true;
        }
        k = k + 1;
    }
    false
}

/// Whether some term of `terms` occurs in `text`.
pub fn contains_any(text: &str, terms: &[&str]) -> (r: bool)
    ensures
        r == contains_any_seq(text@, str_views(terms@)),
{
    let v = chars_of(text);
    contains_any_of(v.as_slice(), terms)
}

/// A count formatted in decimal, as `{}` formats it.
pub fn decimal_of_count(n: usize) -> (r: String)
    ensures
        r@ == decimal(n as int),
{
    let mut out = String::new();
    push_decimal(&mut out, n as u64);
    out
}

// ---------------------------------------------------------------------------
// Facts about trimming
// ---------------------------------------------------------------------------
/// What trimming the start leaves is a suffix, after whitespace only.
pub proof fn lemma_trim_start_suffix(s: Seq<char>)
    ensures
        exists|k: int|
            0 <= k <= s.len() && trim_start(s) == s.skip(k) && forall|i: int|
                0 <= i < k ==> is_ws(#[trigger] s[i]),
    decreases s.len(),
{
    if s.len() > 0 && is_ws(s[0]) {
        lemma_trim_start_suffix(s.drop_first());
        let k = choose|k: int|
            0 <= k <= s.drop_first().len() && trim_start(s.drop_first()) == s.drop_first().skip(k)
                && forall|i: int| 0 <= i < k ==> is_ws(#[trigger] s.drop_first()[i]);
        assert(s.drop_first().skip(k) == s.skip(k + 1));
        assert forall|i: int| 0 <= i < k + 1 implies is_ws(#[trigger] s[i]) by {
            if i > 0 {
                assert(s[i] == s.drop_first()[i - 1]);
            }
        }
    } else {
        assert(s.skip(0) == s);
    }
}

/// A sequence that trims at its end to nothing is all whitespace.
pub proof fn lemma_trim_end_empty(s: Seq<char>)
    requires
        trim_end(s).len() == 0,
    ensures
        forall|i: int| 0 <= i < s.len() ==> is_ws(#[trigger] s[i]),
    decreases s.len(),
{
    if s.len() > 0 {
        if is_ws(s.last()) {
            lemma_trim_end_empty(s.drop_last());
            assert forall|i: int| 0 <= i < s.len() implies is_ws(#[trigger] s[i]) by {
                if i < s.len() - 1 {
                    assert(s[i] == s.drop_last()[i]);
                }
            }
        }
    }
}

/// A blank sequence is all whitespace.
pub proof fn lemma_blank_all_ws(s: Seq<char>)
    requires
        blank(s),
    ensures
        forall|i: int| 0 <= i < s.len() ==> is_ws(#[trigger] s[i]),
{
    lemma_trim_start_suffix(s);
    let k = choose|k: int|
        0 <= k <= s.len() && trim_start(s) == s.skip(k) && forall|i: int|
            0 <= i < k ==> is_ws(#[trigger] s[i]);
    lemma_trim_end_empty(s.skip(k));
    assert forall|i: int| 0 <= i < s.len() implies is_ws(#[trigger] s[i]) by {
        if i >= k {
            assert(s[i] == s.skip(k)[i - k]);
        }
    }
}

} // verus!
