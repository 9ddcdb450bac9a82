//! Facts about trimming, splitting into lines and joining, used to show what
//! normalized texts look like.
use vstd::prelude::*;

use crate::text::{begins, hex, hex_char, is_ws, join, lines, replace_all, scan_lines, trim, trim_end, trim_start};

verus! {

/// No carriage return occurs in `s`.
pub open spec fn no_cr(s: Seq<char>) -> bool {
    forall|i: int| 0 <= i < s.len() ==> s[i] != '\r'
}

/// No line feed occurs in `s`.
pub open spec fn no_lf(s: Seq<char>) -> bool {
    forall|i: int| 0 <= i < s.len() ==> s[i] != '\n'
}

/// Whitespace other than a line feed is never the last character of `s`
/// nor directly followed by a line feed: no line of `s` ends in whitespace.
pub open spec fn clean_line_ends(s: Seq<char>) -> bool {
    forall|i: int|
        0 <= i < s.len() && is_ws(#[trigger] s[i]) && s[i] != '\n' ==> i + 1 < s.len() && s[i + 1]
            != '\n'
}

/// Every whitespace character right before a line feed is itself a line
/// feed (this holds of every prefix of a text with clean line ends).
pub open spec fn clean_before_lf(s: Seq<char>) -> bool {
    forall|i: int|
        0 <= i && i + 1 < s.len() && #[trigger] s[i + 1] == '\n' ==> !is_ws(s[i]) || s[i] == '\n'
}

/// `s` is empty or ends in a character that is not whitespace.
pub open spec fn ends_clean(s: Seq<char>) -> bool {
    s.len() == 0 || !is_ws(s.last())
}

/// Trimming the end keeps a prefix that is empty or ends in non-whitespace.
pub proof fn lemma_trim_end_prefix(s: Seq<char>) -> (m: int)
    ensures
        0 <= m <= s.len(),
        trim_end(s) == s.take(m),
        m == 0 || !is_ws(s[m - 1]),
    decreases s.len(),
{
    if s.len() > 0 && is_ws(s.last()) {
        let m = lemma_trim_end_prefix(s.drop_last());
        assert(s.drop_last().take(m) == s.take(m));
        if m > 0 {
            assert(s.drop_last()[m - 1] == s[m - 1]);
        }
        m
    } else {
        assert(s.take(s.len() as int) == s);
        s.len() as int
    }
}

/// Trimming the start keeps a suffix that is empty or starts with
/// non-whitespace.
pub proof fn lemma_trim_start_rest(s: Seq<char>) -> (k: int)
    ensures
        0 <= k <= s.len(),
        trim_start(s) == s.skip(k),
        k == s.len() || !is_ws(s[k]),
    decreases s.len(),
{
    if s.len() > 0 && is_ws(s[0]) {
        let k = lemma_trim_start_rest(s.drop_first());
        assert(s.drop_first().skip(k) == s.skip(k + 1));
        if k < s.drop_first().len() {
            assert(s.drop_first()[k] == s[k + 1]);
        }
        k + 1
    } else {
        assert(s.skip(0) == s);
        0
    }
}

/// A sequence with no whitespace at either end trims to itself.
pub proof fn lemma_trim_fixed(s: Seq<char>)
    requires
        s.len() == 0 || (!is_ws(s[0]) && !is_ws(s.last())),
    ensures
        trim(s) == s,
{
}

/// What `trim` gives has no whitespace at either end, and trims to itself.
pub proof fn lemma_trim_idempotent(s: Seq<char>)
    ensures
        trim(s).len() == 0 || (!is_ws(trim(s)[0]) && !is_ws(trim(s).last())),
        trim(trim(s)) == trim(s),
{
    let k = lemma_trim_start_rest(s);
    let t = s.skip(k);
    let m = lemma_trim_end_prefix(t);
    if m > 0 {
        assert(t.take(m)[0] == s[k]);
        assert(t.take(m).last() == t[m - 1]);
    }
    lemma_trim_fixed(t.take(m));
}

/// Replacing every `\r` by `\n` leaves no `\r`.
pub proof fn lemma_replace_cr_clears(s: Seq<char>)
    ensures
        no_cr(replace_all(s, "\r"@, "\n"@)),
    decreases s.len(),
{
    reveal_strlit("\r");
    reveal_strlit("\n");
    if s.len() > 0 {
        lemma_replace_cr_clears(s.skip(1));
        let rest = replace_all(s.skip(1), "\r"@, "\n"@);
        if begins(s, "\r"@) {
            assert(replace_all(s, "\r"@, "\n"@) == "\n"@ + rest);
        } else {
            assert(s[0] != '\r') by {
                if s[0] == '\r' {
                    assert(s.take(1) =~= "\r"@);
                }
            }
            assert(replace_all(s, "\r"@, "\n"@) == seq![s[0]] + rest);
        }
    }
}

/// Replacing a pattern that starts with `\r` changes nothing in a text
/// without `\r`.
pub proof fn lemma_replace_absent(s: Seq<char>, from: Seq<char>, to: Seq<char>)
    requires
        no_cr(s),
        from.len() > 0,
        from[0] == '\r',
    ensures
        replace_all(s, from, to) == s,
    decreases s.len(),
{
    if s.len() > 0 {
        assert(!begins(s, from)) by {
            if begins(s, from) {
                assert(s.take(from.len() as int)[0] == s[0]);
            }
        }
        lemma_replace_absent(s.skip(1), from, to);
        assert(seq![s[0]] + s.skip(1) =~= s);
    }
}

/// What scanning a text without `\r` for lines gives: the line under way is
/// the text after the last `\n`; the finished lines hold no `\n` nor `\r`,
/// end in non-whitespace when the text is clean before each `\n`, and joined
/// with `\n` give back the text up to that last `\n`.
proof fn lemma_scan_lines(s: Seq<char>)
    requires
        no_cr(s),
    ensures
        ({
            let (done, cur) = scan_lines(s);
            &&& cur.len() <= s.len()
            &&& cur == s.skip(s.len() - cur.len())
            &&& no_lf(cur)
            &&& forall|k: int| 0 <= k < done.len() ==> no_lf(#[trigger] done[k]) && no_cr(done[k])
            &&& clean_before_lf(s) ==> forall|k: int| 0 <= k < done.len() ==> ends_clean(#[trigger] done[k])
            &&& if done.len() == 0 {
                cur == s
            } else {
                s == join(done, "\n"@) + "\n"@ + cur
            }
        }),
    decreases s.len(),
{
    reveal_strlit("\n");
    if s.len() > 0 {
        let p = s.drop_last();
        lemma_scan_lines(p);
        let (done, cur) = scan_lines(p);
        let c = s.last();
        assert(p.skip(p.len() - cur.len()) == cur);
        if clean_before_lf(s) {
            assert forall|i: int|
                0 <= i && i + 1 < p.len() && #[trigger] p[i + 1] == '\n' implies !is_ws(p[i]) || p[i]
                == '\n' by {
                assert(s[i + 1] == p[i + 1]);
            }
        }
        if c == '\n' {
            if cur.len() > 0 {
                assert(cur.last() == p.last());
                assert(cur.last() != '\r');
            }
            let nd = done.push(cur);
            assert(scan_lines(s) == (nd, Seq::<char>::empty()));
            assert forall|k: int| 0 <= k < nd.len() implies no_lf(#[trigger] nd[k]) && no_cr(nd[k]) by {
                if k == done.len() {
                    assert forall|i: int| 0 <= i < cur.len() implies cur[i] != '\r' by {
                        assert(cur[i] == p[p.len() - cur.len() + i]);
                    }
                }
            }
            if clean_before_lf(s) {
                assert forall|k: int| 0 <= k < nd.len() implies ends_clean(#[trigger] nd[k]) by {
                    if k == done.len() && cur.len() > 0 {
                        let i = s.len() - 2;
                        assert(s[i + 1] == '\n');
                        assert(s[i] == cur.last());
                    }
                }
            }
            assert(s.skip(s.len() - 0) =~= Seq::<char>::empty());
            if done.len() == 0 {
                assert(s =~= join(nd, "\n"@) + "\n"@ + Seq::<char>::empty());
            } else {
                assert(nd.drop_last() =~= done);
                assert(join(nd, "\n"@) == join(done, "\n"@) + "\n"@ + cur);
                assert(s =~= join(nd, "\n"@) + "\n"@ + Seq::<char>::empty());
            }
        } else {
            let nc = cur.push(c);
            assert(s =~= p.push(c));
            assert(scan_lines(s) == (done, nc));
            assert(nc =~= s.skip(s.len() - nc.len()));
            if done.len() == 0 {
                assert(s =~= nc);
            } else {
                assert(s =~= join(done, "\n"@) + "\n"@ + nc);
            }
        }
    } else {
        assert(s.skip(0) == s);
    }
}

/// The lines of a text without `\r`: none holds `\n` or `\r`; when no line
/// of the text ends in whitespace, each trims at its end to itself; and
/// unless the text ends in `\n`, joining them with `\n` gives it back.
pub proof fn lemma_lines(s: Seq<char>)
    requires
        no_cr(s),
    ensures
        forall|k: int| 0 <= k < lines(s).len() ==> no_lf(#[trigger] lines(s)[k]) && no_cr(lines(s)[k]),
        clean_line_ends(s) ==> forall|k: int|
            0 <= k < lines(s).len() ==> ends_clean(#[trigger] lines(s)[k]),
        s.len() == 0 || s.last() != '\n' ==> join(lines(s), "\n"@) == s,
{
    lemma_scan_lines(s);
    let (done, cur) = scan_lines(s);
    assert forall|i: int| 0 <= i < cur.len() implies cur[i] != '\r' by {
        assert(cur[i] == s[s.len() - cur.len() + i]);
    }
    if clean_line_ends(s) {
        assert(clean_before_lf(s));
        if cur.len() > 0 {
            assert(cur.last() == s.last());
            assert(cur.last() != '\n');
        }
    }
    if cur.len() > 0 {
        let nd = done.push(cur);
        assert(lines(s) == nd);
        assert(nd.drop_last() =~= done);
        if done.len() == 0 {
            assert(join(nd, "\n"@) == cur);
        } else {
            assert(join(nd, "\n"@) == join(done, "\n"@) + "\n"@ + cur);
        }
    }
    if cur.len() == 0 && s.len() > 0 {
        if done.len() == 0 {
            assert(cur == s);
        } else {
            reveal_strlit("\n");
            assert(s.last() == '\n');
        }
    }
}

/// A single line with no `\n` ending in non-whitespace has clean line ends.
proof fn lemma_clean_line(b: Seq<char>)
    requires
        no_lf(b),
        ends_clean(b),
    ensures
        clean_line_ends(b),
{
}

/// Two texts with clean line ends, glued with `\n`, have clean line ends.
proof fn lemma_clean_glue(a: Seq<char>, b: Seq<char>)
    requires
        clean_line_ends(a),
        clean_line_ends(b),
    ensures
        clean_line_ends(a + "\n"@ + b),
        no_cr(a) && no_cr(b) ==> no_cr(a + "\n"@ + b),
{
    reveal_strlit("\n");
    let j = a + "\n"@ + b;
    assert forall|i: int|
        0 <= i < j.len() && is_ws(#[trigger] j[i]) && j[i] != '\n' implies i + 1 < j.len() && j[i
        + 1] != '\n' by {
        if i < a.len() {
            assert(j[i] == a[i]);
            if i + 1 < a.len() {
                assert(j[i + 1] == a[i + 1]);
            }
        } else if i > a.len() {
            assert(j[i] == b[i - a.len() - 1]);
            assert(j[i + 1] == b[i - a.len()]);
        }
    }
    if no_cr(a) && no_cr(b) {
        assert forall|i: int| 0 <= i < j.len() implies j[i] != '\r' by {
            if i < a.len() {
                assert(j[i] == a[i]);
            } else if i > a.len() {
                assert(j[i] == b[i - a.len() - 1]);
            }
        }
    }
}

/// Lines without `\n` or `\r` that end in non-whitespace, joined with `\n`,
/// give a text without `\r` whose lines end cleanly.
pub proof fn lemma_join_clean(m: Seq<Seq<char>>)
    requires
        forall|k: int|
            0 <= k < m.len() ==> no_lf(#[trigger] m[k]) && no_cr(m[k]) && ends_clean(m[k]),
    ensures
        no_cr(join(m, "\n"@)),
        clean_line_ends(join(m, "\n"@)),
    decreases m.len(),
{
    if m.len() == 1 {
        lemma_clean_line(m[0]);
    } else if m.len() > 1 {
        let d = m.drop_last();
        assert forall|k: int| 0 <= k < d.len() implies no_lf(#[trigger] d[k]) && no_cr(d[k])
            && ends_clean(d[k]) by {
            assert(d[k] == m[k]);
        }
        lemma_join_clean(d);
        lemma_clean_line(m.last());
        lemma_clean_glue(join(d, "\n"@), m.last());
    }
}

/// A suffix of a text keeps its clean line ends and its lack of `\r`.
pub proof fn lemma_clean_skip(s: Seq<char>, k: int)
    requires
        0 <= k <= s.len(),
        clean_line_ends(s),
        no_cr(s),
    ensures
        clean_line_ends(s.skip(k)),
        no_cr(s.skip(k)),
{
    let t = s.skip(k);
    assert forall|i: int|
        0 <= i < t.len() && is_ws(#[trigger] t[i]) && t[i] != '\n' implies i + 1 < t.len() && t[i
        + 1] != '\n' by {
        assert(t[i] == s[i + k]);
        if i + 1 < t.len() {
            assert(t[i + 1] == s[i + k + 1]);
        }
    }
}

/// A prefix that ends in non-whitespace keeps clean line ends and the lack
/// of `\r`.
pub proof fn lemma_clean_take(s: Seq<char>, m: int)
    requires
        0 <= m <= s.len(),
        m == 0 || !is_ws(s[m - 1]),
        clean_line_ends(s),
        no_cr(s),
    ensures
        clean_line_ends(s.take(m)),
        no_cr(s.take(m)),
{
    let t = s.take(m);
    assert forall|i: int|
        0 <= i < t.len() && is_ws(#[trigger] t[i]) && t[i] != '\n' implies i + 1 < t.len() && t[i
        + 1] != '\n' by {
        assert(t[i] == s[i]);
        if i + 1 < t.len() {
            assert(t[i + 1] == s[i + 1]);
        }
    }
}

/// A lowercase hexadecimal digit.
pub open spec fn is_lower_hex_digit(c: char) -> bool {
    ('0' <= c && c <= '9') || ('a' <= c && c <= 'f')
}

/// The hex form of bytes has two lowercase hexadecimal digits per byte.
pub proof fn lemma_hex_shape(b: Seq<u8>)
    ensures
        hex(b).len() == 2 * b.len(),
        forall|i: int| 0 <= i < hex(b).len() ==> is_lower_hex_digit(#[trigger] hex(b)[i]),
    decreases b.len(),
{
    if b.len() > 0 {
        lemma_hex_shape(b.drop_last());
        let hi = (b.last() / 16) as int;
        let lo = (b.last() % 16) as int;
        assert(is_lower_hex_digit(hex_char(hi)));
        assert(is_lower_hex_digit(hex_char(lo)));
        let h = hex(b);
        let prev = hex(b.drop_last());
        assert forall|i: int| 0 <= i < h.len() implies is_lower_hex_digit(#[trigger] h[i]) by {
            if i < prev.len() {
                assert(h[i] == prev[i]);
            }
        }
    }
}

} // verus!
