//! The continuity ledger: named states that approved chapters establish, and
//! the check of a candidate draft against them.
use vstd::prelude::*;
use vstd::utf8::encode_utf8;

use crate::chapter_memory::{
    at_most, chapter_index, delimited_span, extract_delimited, first_with_id, normalize_evidence_chars,
    normalized_evidence,
};
use crate::error::AppError;
use crate::digest::{sha256, sha256_of};
use crate::models::{
    entry_views, issue_views, Artifact, Chapter, ContinuityLedgerEntry, EntryView, IssueView,
    LedgerContinuityIssue, LedgerContinuityReport,
};
use crate::text::{
    append, begins, blank, char_count, decimal_of_count, starts_with, concat, decimal, hex, hex_of, join, join_strings, decimal_of, is_blank, owned, trimmed,
    string_of, trim, trim_chars, views,
    chars_of, chars_eq, contains, matches_at, occurs_at, contains_any, contains_any_seq, contains_seq, is_one_of, is_whitespace,
    is_ws, str_eq, str_views,
};

verus! {

/// The version of the ledger's extraction rules.
pub const NORMALIZATION_VERSION: &'static str = "continuity-ledger-v1";

// ---------------------------------------------------------------------------
// Normalization
// ---------------------------------------------------------------------------
/// The lowercase mapping of one character, as `char::to_lowercase` yields it.
pub uninterp spec fn char_lowercase_of(c: char) -> Seq<char>;

/// `char::to_lowercase`, collected: the lowercase mapping of the character,
/// a function of the character alone, which the standard library documents
/// as one or more characters. The mapping itself is not stated here.
#[verifier::external_body]
fn lowercase_char(c: char) -> (r: Vec<char>)
    ensures
        r@ == char_lowercase_of(c),
        r@.len() >= 1,
{
    c.to_lowercase().collect()
}

/// Punctuation that an entity key leaves out.
pub open spec fn key_punct(c: char) -> bool {
    ||| c == '，'
    ||| c == '。'
    ||| c == '！'
    ||| c == '？'
    ||| c == '：'
    ||| c == '；'
    ||| c == '、'
    ||| c == '“'
    ||| c == '”'
    ||| c == '‘'
    ||| c == '’'
    ||| c == '"'
    ||| c == '\''
    ||| c == '（'
    ||| c == '）'
    ||| c == '('
    ||| c == ')'
    ||| c == '【'
    ||| c == '】'
    ||| c == '['
    ||| c == ']'
    ||| c == '《'
    ||| c == '》'
    ||| c == '<'
    ||| c == '>'
}

/// The entity-key form of a text: whitespace and the punctuation of
/// `key_punct` removed, every other character lowercased.
pub open spec fn entity_key_norm(s: Seq<char>) -> Seq<char>
    decreases s.len(),
{
    if s.len() == 0 {
        Seq::empty()
    } else if !is_ws(s.last()) && !key_punct(s.last()) {
        entity_key_norm(s.drop_last()) + char_lowercase_of(s.last())
    } else {
        entity_key_norm(s.drop_last())
    }
}

fn is_key_punct(c: char) -> (r: bool)
    ensures
        r == key_punct(c),
{
    c == '，' || c == '。' || c == '！' || c == '？' || c == '：' || c == '；' || c == '、' || c
        == '“' || c == '”' || c == '‘' || c == '’' || c == '"' || c == '\'' || c == '（' || c
        == '）' || c == '(' || c == ')' || c == '【' || c == '】' || c == '[' || c == ']' || c
        == '《' || c == '》' || c == '<' || c == '>'
}

/// The entity-key form of characters (see `entity_key_norm`).
pub fn normalize_key_chars(s: &[char]) -> (r: Vec<char>)
    ensures
        r@ == entity_key_norm(s@),
{
    let mut out: Vec<char> = Vec::new();
    let mut i: usize = 0;
    while i < s.len()
        invariant
            i <= s.len(),
            out@ == entity_key_norm(s@.take(i as int)),
        decreases s.len() - i,
    {
        let c = s[i];
        assert(s@.take(i + 1).drop_last() == s@.take(i as int));
        if !is_whitespace(c) && !is_key_punct(c) {
            let lower = lowercase_char(c);
            let mut k: usize = 0;
            let ghost start = out@;
            while k < lower.len()
                invariant
                    k <= lower.len(),
                    out@ == start + lower@.take(k as int),
                decreases lower.len() - k,
            {
                out.push(lower[k]);
                k = k + 1;
                assert(lower@.take(k as int) == lower@.take(k - 1).push(lower@[k - 1]));
            }
            assert(lower@.take(lower.len() as int) == lower@);
        }
        i = i + 1;
    }
    assert(s@.take(s.len() as int) == s@);
    out
}

/// Normalizes an entity name or a text for entity matching (see
/// `entity_key_norm`).
pub fn normalize_entity_key(text: &str) -> (r: Vec<char>)
    ensures
        r@ == entity_key_norm(text@),
{
    let v = chars_of(text);
    normalize_key_chars(v.as_slice())
}

/// A quote can be checked against a text: normalized, it is 8 to 100
/// characters long and occurs in the normalized text.
pub open spec fn quote_valid(quote: Seq<char>, source: Seq<char>) -> bool {
    let q = normalized_evidence(quote);
    8 <= q.len() <= 100 && contains_seq(normalized_evidence(source), q)
}

/// Whether a quote can be checked against a text (see `quote_valid`).
pub fn valid_quote(quote: &str, source_text: &str) -> (r: bool)
    ensures
        r == quote_valid(quote@, source_text@),
{
    let qv = chars_of(quote);
    let q = normalize_evidence_chars(qv.as_slice());
    if q.len() < 8 || q.len() > 100 {
        return false;
    }
    let sv = chars_of(source_text);
    let s = normalize_evidence_chars(sv.as_slice());
    contains(s.as_slice(), q.as_slice())
}

// ---------------------------------------------------------------------------
// States
// ---------------------------------------------------------------------------
/// A state that a candidate needs conflicts with the last approved state:
/// an item still held after it was consumed, lost or depleted; a thing
/// still usable after it was sealed, deactivated, damaged or depleted; a
/// wound healed while it is present or ongoing.
pub open spec fn conflicting(required: Seq<char>, previous: Seq<char>) -> bool {
    if required == "held"@ {
        previous == "consumed"@ || previous == "lost"@ || previous == "depleted"@
    } else if required == "usable"@ {
        previous == "sealed"@ || previous == "inactive"@ || previous == "damaged"@ || previous
            == "depleted"@
    } else if required == "recovered"@ {
        previous == "present"@ || previous == "ongoing"@
    } else {
        false
    }
}

/// Whether a required state conflicts with the previous one (see
/// `conflicting`).
pub fn states_conflict(required: &str, previous: &str) -> (r: bool)
    ensures
        r == conflicting(required@, previous@),
{
    if str_eq(required, "held") {
        str_eq(previous, "consumed") || str_eq(previous, "lost") || str_eq(previous, "depleted")
    } else if str_eq(required, "usable") {
        str_eq(previous, "sealed") || str_eq(previous, "inactive") || str_eq(previous, "damaged")
            || str_eq(previous, "depleted")
    } else if str_eq(required, "recovered") {
        str_eq(previous, "present") || str_eq(previous, "ongoing")
    } else {
        false
    }
}

/// The actions that show a state being relied on directly.
pub open spec fn actions_for(required: Seq<char>) -> Seq<Seq<char>> {
    if required == "held"@ {
        seq![
            "取出"@,
            "拿出"@,
            "摸出"@,
            "掏出"@,
            "握住"@,
            "攥住"@,
            "塞进"@,
            "揣进"@,
            "服下"@,
            "吞下"@,
            "吞服"@,
            "饮下"@,
            "喝下"@,
            "祭出"@,
            "佩戴"@,
            "戴上"@,
            "插入"@,
            "装入"@,
        ]
    } else if required == "usable"@ {
        seq!["打开"@, "推开"@, "开启"@, "跨入"@, "进入"@, "穿过"@, "启动"@, "激活"@, "催动"@, "使用"@]
    } else if required == "recovered"@ {
        seq!["痊愈"@, "恢复如初"@, "完好无损"@, "毫发无伤"@, "伤势尽复"@, "再无大碍"@, "已经无碍"@, "已无大碍"@]
    } else {
        Seq::empty()
    }
}

/// The actions that show a required state being relied on (see
/// `actions_for`).
pub fn required_state_actions(required_state: &str) -> (r: Vec<&'static str>)
    ensures
        str_views(r@) == actions_for(required_state@),
{
    if str_eq(required_state, "held") {
        let r = vec![
            "取出",
            "拿出",
            "摸出",
            "掏出",
            "握住",
            "攥住",
            "塞进",
            "揣进",
            "服下",
            "吞下",
            "吞服",
            "饮下",
            "喝下",
            "祭出",
            "佩戴",
            "戴上",
            "插入",
            "装入",
        ];
        assert(str_views(r@) =~= actions_for(required_state@));
        r
    } else if str_eq(required_state, "usable") {
        let r = vec!["打开", "推开", "开启", "跨入", "进入", "穿过", "启动", "激活", "催动", "使用"];
        assert(str_views(r@) =~= actions_for(required_state@));
        r
    } else if str_eq(required_state, "recovered") {
        let r = vec!["痊愈", "恢复如初", "完好无损", "毫发无伤", "伤势尽复", "再无大碍", "已经无碍", "已无大碍"];
        assert(str_views(r@) =~= actions_for(required_state@));
        r
    } else {
        let r: Vec<&'static str> = Vec::new();
        assert(str_views(r@) =~= actions_for(required_state@));
        r
    }
}

/// The state that a direct reference to an entity needs, given its last
/// approved state: `held` after consumed, lost or depleted possession;
/// `usable` after a sealed, inactive, damaged or depleted availability;
/// `recovered` after a present or ongoing condition.
pub open spec fn action_rule(state_kind: Seq<char>, state_value: Seq<char>) -> Option<Seq<char>> {
    if state_kind == "possession"@ && (state_value == "consumed"@ || state_value == "lost"@
        || state_value == "depleted"@) {
        Some("held"@)
    } else if state_kind == "availability"@ && (state_value == "sealed"@ || state_value
        == "inactive"@ || state_value == "damaged"@ || state_value == "depleted"@) {
        Some("usable"@)
    } else if state_kind == "condition"@ && (state_value == "present"@ || state_value
        == "ongoing"@) {
        Some("recovered"@)
    } else {
        None
    }
}

/// Words that show a state changing on the page.
pub open spec fn transition_markers() -> Seq<Seq<char>> {
    seq!["获得"@, "得到了"@, "捡起"@, "找回"@, "修复"@, "解封"@, "疗伤"@, "治愈"@, "炼成"@, "换得"@, "补回"@]
}

/// Whether a sentence shows a state changing (see `transition_markers`).
pub fn has_explicit_state_transition(sentence: &str) -> (r: bool)
    ensures
        r == contains_any_seq(sentence@, transition_markers()),
{
    let markers: [&str; 11] = ["获得", "得到了", "捡起", "找回", "修复", "解封", "疗伤", "治愈", "炼成", "换得", "补回"];
    assert(str_views(markers@) =~= transition_markers());
    contains_any(sentence, &markers)
}

/// How a required state reads in a report.
pub open spec fn required_label_text(value: Seq<char>) -> Seq<char> {
    if value == "held"@ {
        "仍在持有"@
    } else if value == "usable"@ {
        "可以直接使用"@
    } else if value == "recovered"@ {
        "已经无伤/解除异常"@
    } else {
        value
    }
}

/// The label of a required state (see `required_label_text`).
pub fn required_label(value: &str) -> (r: String)
    ensures
        r@ == required_label_text(value@),
{
    if str_eq(value, "held") {
        String::from_str("仍在持有")
    } else if str_eq(value, "usable") {
        String::from_str("可以直接使用")
    } else if str_eq(value, "recovered") {
        String::from_str("已经无伤/解除异常")
    } else {
        String::from_str(value)
    }
}

/// How a previous state reads in a report.
pub open spec fn state_label_text(value: Seq<char>) -> Seq<char> {
    if value == "consumed"@ {
        "已消耗"@
    } else if value == "lost"@ {
        "已遗失"@
    } else if value == "depleted"@ {
        "已耗尽"@
    } else if value == "sealed"@ {
        "已封闭"@
    } else if value == "inactive"@ {
        "已失效"@
    } else if value == "damaged"@ {
        "已受损"@
    } else if value == "present"@ {
        "伤势/异常仍在"@
    } else if value == "ongoing"@ {
        "伤势/异常持续"@
    } else {
        value
    }
}

/// The label of a previous state (see `state_label_text`).
pub fn state_label(value: &str) -> (r: String)
    ensures
        r@ == state_label_text(value@),
{
    if str_eq(value, "consumed") {
        String::from_str("已消耗")
    } else if str_eq(value, "lost") {
        String::from_str("已遗失")
    } else if str_eq(value, "depleted") {
        String::from_str("已耗尽")
    } else if str_eq(value, "sealed") {
        String::from_str("已封闭")
    } else if str_eq(value, "inactive") {
        String::from_str("已失效")
    } else if str_eq(value, "damaged") {
        String::from_str("已受损")
    } else if str_eq(value, "present") {
        String::from_str("伤势/异常仍在")
    } else if str_eq(value, "ongoing") {
        String::from_str("伤势/异常持续")
    } else {
        String::from_str(value)
    }
}

// ---------------------------------------------------------------------------
// Matching actions to entities
// ---------------------------------------------------------------------------
/// The positions where `n` is found in `h` from `from` on, scanning left to
/// right without overlap, as `str::match_indices` reports them (an empty `n`
/// is found at every position, the end included).
pub open spec fn scan_matches(h: Seq<char>, n: Seq<char>, from: int) -> Seq<int>
    decreases h.len() + 1 - from,
{
    if from < 0 || from > h.len() {
        Seq::empty()
    } else if n.len() == 0 {
        seq![from] + scan_matches(h, n, from + 1)
    } else if occurs_at(h, n, from) {
        seq![from] + scan_matches(h, n, from + n.len())
    } else {
        scan_matches(h, n, from + 1)
    }
}

/// The positions where `n` is found in `h` (see `scan_matches`).
pub open spec fn match_positions(h: Seq<char>, n: Seq<char>) -> Seq<int> {
    scan_matches(h, n, 0)
}

/// The positions of a vector, as integers.
pub open spec fn positions(v: Seq<usize>) -> Seq<int> {
    v.map_values(|p: usize| p as int)
}

/// The positions where `n` is found in `h` (see `match_positions`).
pub fn match_indices(h: &[char], n: &[char]) -> (r: Vec<usize>)
    ensures
        positions(r@) == match_positions(h@, n@),
        forall|k: int| 0 <= k < r@.len() ==> r@[k] + n@.len() <= h@.len(),
{
    let mut out: Vec<usize> = Vec::new();
    let mut i: usize = 0;
    while i < h.len()
        invariant
            positions(out@) + scan_matches(h@, n@, i as int) == match_positions(h@, n@),
            forall|k: int| 0 <= k < out@.len() ==> out@[k] + n@.len() <= h@.len(),
            i <= h.len(),
        decreases h.len() - i,
    {
        let ghost before = out@;
        if n.len() == 0 {
            out.push(i);
            assert(positions(out@) =~= positions(before).push(i as int));
            assert(positions(out@) + scan_matches(h@, n@, i + 1) =~= positions(before)
                + scan_matches(h@, n@, i as int));
            i = i + 1;
        } else if matches_at(h, n, i) {
            out.push(i);
            assert(positions(out@) =~= positions(before).push(i as int));
            assert(positions(out@) + scan_matches(h@, n@, i + n.len()) =~= positions(before)
                + scan_matches(h@, n@, i as int));
            i = i + n.len();
        } else {
            i = i + 1;
        }
    }
    let ghost before = out@;
    if n.len() == 0 {
        out.push(i);
        assert(scan_matches(h@, n@, i + 1) =~= Seq::<int>::empty());
        assert(positions(out@) =~= positions(before) + scan_matches(h@, n@, i as int));
    } else {
        assert(!occurs_at(h@, n@, i as int));
        assert(scan_matches(h@, n@, i + 1) =~= Seq::<int>::empty());
        assert(scan_matches(h@, n@, i as int) =~= Seq::<int>::empty());
        assert(positions(out@) =~= positions(out@) + scan_matches(h@, n@, i as int));
    }
    out
}

/// An action at `p` (of length `al`) stands close to an entity at `e` (of
/// length `el`): at most 4 characters lie between them, or they overlap.
pub open spec fn near(e: int, el: int, p: int, al: int) -> bool {
    let gap = if p + al <= e {
        e - (p + al)
    } else if e + el <= p {
        p - (e + el)
    } else {
        0
    };
    gap <= 4
}

/// The `i`-th match of the entity and the `j`-th match of the action stand
/// close together in `text`.
pub open spec fn near_at(text: Seq<char>, entity: Seq<char>, action: Seq<char>, i: int, j: int) -> bool {
    near(
        match_positions(text, entity)[i],
        entity.len() as int,
        match_positions(text, action)[j],
        action.len() as int,
    )
}

/// In a normalized text, some match of a non-empty entity stands close to
/// some match of one of the actions.
pub open spec fn action_near_entity(text: Seq<char>, entity: Seq<char>, actions: Seq<Seq<char>>) -> bool {
    &&& entity.len() > 0
    &&& exists|i: int, k: int, j: int|
        0 <= i < match_positions(text, entity).len() && 0 <= k < actions.len() && 0 <= j
            < match_positions(text, actions[k]).len() && #[trigger] near_at(
            text,
            entity,
            actions[k],
            i,
            j,
        )
}

/// The entity-key forms of a list of words.
pub open spec fn key_forms(words: Seq<Seq<char>>) -> Seq<Seq<char>> {
    words.map_values(|w: Seq<char>| entity_key_norm(w))
}

/// A text shows one of the actions done to the entity: in their entity-key
/// forms, an action stands close to the entity (see `action_near_entity`).
pub open spec fn targets_entity(text: Seq<char>, entity_key: Seq<char>, actions: Seq<Seq<char>>) -> bool {
    action_near_entity(entity_key_norm(text), entity_key_norm(entity_key), key_forms(actions))
}

/// Whether a text shows one of the actions done to the entity (see
/// `targets_entity`).
pub fn action_targets_entity(text: &str, entity_key: &str, actions: &[&str]) -> (r: bool)
    ensures
        r == targets_entity(text@, entity_key@, str_views(actions@)),
{
    let t = normalize_entity_key(text);
    let entity = normalize_entity_key(entity_key);
    let ghost forms = key_forms(str_views(actions@));
    if entity.len() == 0 {
        return false;
    }
    let es = match_indices(t.as_slice(), entity.as_slice());
    let mut ei: usize = 0;
    while ei < es.len()
        invariant
            t@ == entity_key_norm(text@),
            entity@ == entity_key_norm(entity_key@),
            entity@.len() > 0,
            forms == key_forms(str_views(actions@)),
            positions(es@) == match_positions(t@, entity@),
            forall|k: int| 0 <= k < es@.len() ==> es@[k] + entity@.len() <= t@.len(),
            ei <= es.len(),
            forall|i: int, k: int, j: int|
                0 <= i < ei && 0 <= k < forms.len() && 0 <= j < match_positions(t@, forms[k]).len()
                    ==> !#[trigger] near_at(t@, entity@, forms[k], i, j),
        decreases es.len() - ei,
    {
        let e = es[ei];
        let mut k: usize = 0;
        while k < actions.len()
            invariant
                t@ == entity_key_norm(text@),
                entity@ == entity_key_norm(entity_key@),
            entity@.len() > 0,
                forms == key_forms(str_views(actions@)),
                positions(es@) == match_positions(t@, entity@),
                forall|k: int| 0 <= k < es@.len() ==> es@[k] + entity@.len() <= t@.len(),
                ei < es.len(),
                e == es@[ei as int],
                k <= actions.len(),
                forall|i: int, k: int, j: int|
                    0 <= i < ei && 0 <= k < forms.len() && 0 <= j < match_positions(
                        t@,
                        forms[k],
                    ).len() ==> !#[trigger] near_at(t@, entity@, forms[k], i, j),
                forall|kk: int, j: int|
                    0 <= kk < k && 0 <= j < match_positions(t@, forms[kk]).len() ==> !#[trigger] near_at(
                        t@,
                        entity@,
                        forms[kk],
                        ei as int,
                        j,
                    ),
            decreases actions.len() - k,
        {
            let action = normalize_entity_key(actions[k]);
            assert(action@ == forms[k as int]);
            let ps = match_indices(t.as_slice(), action.as_slice());
            let mut j: usize = 0;
            while j < ps.len()
                invariant
                    t@ == entity_key_norm(text@),
                    entity@ == entity_key_norm(entity_key@),
            entity@.len() > 0,
                    forms == key_forms(str_views(actions@)),
                    positions(es@) == match_positions(t@, entity@),
                    forall|k: int| 0 <= k < es@.len() ==> es@[k] + entity@.len() <= t@.len(),
                    ei < es.len(),
                    e == es@[ei as int],
                    k < actions.len(),
                    action@ == forms[k as int],
                    positions(ps@) == match_positions(t@, action@),
                    forall|m: int| 0 <= m < ps@.len() ==> ps@[m] + action@.len() <= t@.len(),
                    j <= ps.len(),
                    forall|jj: int|
                        0 <= jj < j ==> !#[trigger] near_at(t@, entity@, forms[k as int], ei as int, jj),
                decreases ps.len() - j,
            {
                let p = ps[j];
                assert(positions(es@)[ei as int] == e as int);
                assert(positions(ps@)[j as int] == p as int);
                let tl = t.len();
                assert(es@[ei as int] + entity@.len() <= tl);
                assert(ps@[j as int] + action@.len() <= tl);
                let entity_end = e + entity.len();
                let action_end = p + action.len();
                let gap = if action_end <= e {
                    e - action_end
                } else if entity_end <= p {
                    p - entity_end
                } else {
                    0
                };
                if gap <= 4 {
                    assert(near_at(t@, entity@, forms[k as int], ei as int, j as int));
                    assert(positions(es@).len() == es@.len());
                    assert(positions(ps@).len() == ps@.len());
                    assert(forms.len() == actions@.len());
                    assert(action_near_entity(t@, entity@, forms));
                    return true;
                }
                j = j + 1;
            }
            k = k + 1;
        }
        ei = ei + 1;
    }
    false
}

// ---------------------------------------------------------------------------
// Candidate sentences
// ---------------------------------------------------------------------------
/// A character that ends a sentence.
pub open spec fn terminator(c: char) -> bool {
    c == '。' || c == '！' || c == '？' || c == '.' || c == '!' || c == '?'
}

/// Scans `s` for `str::split_inclusive` at sentence ends: the finished
/// pieces, each with its terminator, and the piece under way.
pub open spec fn scan_pieces(s: Seq<char>) -> (Seq<Seq<char>>, Seq<char>)
    decreases s.len(),
{
    if s.len() == 0 {
        (Seq::empty(), Seq::empty())
    } else {
        let (done, cur) = scan_pieces(s.drop_last());
        if terminator(s.last()) {
            (done.push(cur.push(s.last())), Seq::empty())
        } else {
            (done, cur.push(s.last()))
        }
    }
}

/// The pieces of `s` split after each sentence end, as
/// `str::split_inclusive` yields them (no empty last piece).
pub open spec fn sentence_pieces(s: Seq<char>) -> Seq<Seq<char>> {
    let (done, cur) = scan_pieces(s);
    if cur.len() > 0 {
        done.push(cur)
    } else {
        done
    }
}

/// The trimmed pieces that are at least 8 characters long, in order.
pub open spec fn long_trimmed(pieces: Seq<Seq<char>>) -> Seq<Seq<char>>
    decreases pieces.len(),
{
    if pieces.len() == 0 {
        Seq::empty()
    } else if trim(pieces.last()).len() >= 8 {
        long_trimmed(pieces.drop_last()).push(trim(pieces.last()))
    } else {
        long_trimmed(pieces.drop_last())
    }
}

/// The sentences of a candidate draft that the exact pass reads: split after
/// each sentence end, trimmed, and at least 8 characters long.
pub open spec fn sentences_of(text: Seq<char>) -> Seq<Seq<char>> {
    long_trimmed(sentence_pieces(text))
}

fn is_terminator(c: char) -> (r: bool)
    ensures
        r == terminator(c),
{
    c == '。' || c == '！' || c == '？' || c == '.' || c == '!' || c == '?'
}

fn push_if_long(out: &mut Vec<String>, piece: &[char])
    ensures
        views(final(out)@) == if trim(piece@).len() >= 8 {
            views(old(out)@).push(trim(piece@))
        } else {
            views(old(out)@)
        },
{
    let t = trim_chars(piece);
    if t.len() >= 8 {
        let ghost before = out@;
        out.push(string_of(t.as_slice()));
        assert(views(out@) =~= views(before).push(trim(piece@)));
    }
}

/// The sentences of a candidate draft (see `sentences_of`).
pub fn candidate_sentences(text: &str) -> (r: Vec<String>)
    ensures
        views(r@) == sentences_of(text@),
{
    let v = chars_of(text);
    let mut out: Vec<String> = Vec::new();
    let mut cur: Vec<char> = Vec::new();
    let mut i: usize = 0;
    while i < v.len()
        invariant
            i <= v.len(),
            v@ == text@,
            views(out@) == long_trimmed(scan_pieces(v@.take(i as int)).0),
            cur@ == scan_pieces(v@.take(i as int)).1,
        decreases v.len() - i,
    {
        let c = v[i];
        assert(v@.take(i + 1).drop_last() == v@.take(i as int));
        let ghost done = scan_pieces(v@.take(i as int)).0;
        cur.push(c);
        if is_terminator(c) {
            push_if_long(&mut out, cur.as_slice());
            assert(done.push(cur@).drop_last() == done);
            cur = Vec::new();
        }
        i = i + 1;
    }
    assert(v@.take(v.len() as int) == v@);
    if cur.len() > 0 {
        let ghost done = scan_pieces(v@).0;
        push_if_long(&mut out, cur.as_slice());
        assert(done.push(cur@).drop_last() == done);
    }
    out
}

// ---------------------------------------------------------------------------
// The active states
// ---------------------------------------------------------------------------
/// What an entry is a state of: its entity key and its kind of state.
pub open spec fn state_key(e: EntryView) -> (Seq<char>, Seq<char>) {
    (e.entity_key, e.state_kind)
}

/// No two entries share a state key.
pub open spec fn unique_keys(s: Seq<EntryView>) -> bool {
    forall|i: int, j: int|
        0 <= i < j < s.len() ==> state_key(#[trigger] s[i]) != state_key(#[trigger] s[j])
}

/// The position of the entry with the given state key, if any.
pub open spec fn key_position(s: Seq<EntryView>, key: (Seq<char>, Seq<char>)) -> Option<
    int,
> {
    if exists|i: int| 0 <= i < s.len() && state_key(s[i]) == key {
        Some(choose|i: int| 0 <= i < s.len() && state_key(s[i]) == key)
    } else {
        None
    }
}

/// The last state of each key, in the order in which the keys first appear:
/// a later entry with a key already seen replaces the earlier one in place.
pub open spec fn latest(entries: Seq<EntryView>) -> Seq<EntryView>
    decreases entries.len(),
{
    if entries.len() == 0 {
        Seq::empty()
    } else {
        let prev = latest(entries.drop_last());
        match key_position(prev, state_key(entries.last())) {
            Some(i) => prev.update(i, entries.last()),
            None => prev.push(entries.last()),
        }
    }
}

/// A copy of a ledger entry.
pub fn copy_entry(e: &ContinuityLedgerEntry) -> (r: ContinuityLedgerEntry)
    ensures
        r == *e,
{
    ContinuityLedgerEntry {
        id: e.id,
        project_id: e.project_id,
        chapter_id: e.chapter_id,
        source_artifact_id: e.source_artifact_id,
        source_text_hash: e.source_text_hash.clone(),
        normalization_version: e.normalization_version.clone(),
        entity_kind: e.entity_kind.clone(),
        entity_key: e.entity_key.clone(),
        entity_label: e.entity_label.clone(),
        state_kind: e.state_kind.clone(),
        state_value: e.state_value.clone(),
        evidence_quote: e.evidence_quote.clone(),
        created_at: e.created_at.clone(),
    }
}

/// The position of the entry with the given state key, if any.
fn find_state(states: &[ContinuityLedgerEntry], entity_key: &[char], state_kind: &str) -> (r: Option<
    usize,
>)
    requires
        unique_keys(entry_views(states@)),
    ensures
        match r {
            Some(i) => i < states@.len() && key_position(
                entry_views(states@),
                (entity_key@, state_kind@),
            ) == Some(i as int),
            None => key_position(entry_views(states@), (entity_key@, state_kind@)) is None,
        },
{
    let ghost vs = entry_views(states@);
    let mut i: usize = 0;
    while i < states.len()
        invariant
            i <= states.len(),
            vs == entry_views(states@),
            unique_keys(vs),
            forall|j: int| 0 <= j < i ==> state_key(vs[j]) != (entity_key@, state_kind@),
        decreases states.len() - i,
    {
        let kv = chars_of(states[i].entity_key.as_str());
        if chars_eq(kv.as_slice(), entity_key) && str_eq(states[i].state_kind.as_str(), state_kind) {
            proof {
                let key = (entity_key@, state_kind@);
                assert(state_key(vs[i as int]) == key);
                let c = choose|j: int| 0 <= j < vs.len() && state_key(vs[j]) == key;
                if c != i {
                    if c < i {
                        assert(state_key(vs[c]) != key);
                    } else {
                        assert(state_key(vs[i as int]) != state_key(vs[c]));
                    }
                }
            }
            return Some(i);
        }
        i = i + 1;
    }
    None
}

/// The last approved state of each entity and kind of state: no two of its
/// entries share a key.
pub struct ActiveStates {
    states: Vec<ContinuityLedgerEntry>,
}

impl View for ActiveStates {
    type V = Seq<EntryView>;

    closed spec fn view(&self) -> Seq<EntryView> {
        entry_views(self.states@)
    }
}

impl ActiveStates {
    #[verifier::type_invariant]
    spec fn keys_unique(self) -> bool {
        unique_keys(entry_views(self.states@))
    }

    /// The states, in the order in which their keys first appeared.
    pub fn entries(&self) -> (r: &[ContinuityLedgerEntry])
        ensures
            entry_views(r@) == self@,
    {
        self.states.as_slice()
    }

    /// How many states there are.
    pub fn len(&self) -> (r: usize)
        ensures
            r == self@.len(),
    {
        self.states.len()
    }

    /// No two states share a key.
    pub fn unique(&self)
        ensures
            unique_keys(self@),
    {
        proof {
            use_type_invariant(self);
        }
    }

    /// The state with the given entity key (taken as it is) and kind of
    /// state, if any.
    pub fn get(&self, entity_key: &[char], state_kind: &str) -> (r: Option<&ContinuityLedgerEntry>)
        ensures
            match key_position(self@, (entity_key@, state_kind@)) {
                Some(i) => r is Some && r->0@ == self@[i],
                None => r is None,
            },
    {
        proof {
            use_type_invariant(self);
        }
        match find_state(self.states.as_slice(), entity_key, state_kind) {
            Some(i) => Some(&self.states[i]),
            None => None,
        }
    }
}

/// The latest state of each entity and kind of state (see `latest`).
pub fn latest_states(entries: &[ContinuityLedgerEntry]) -> (r: ActiveStates)
    ensures
        r@ == latest(entry_views(entries@)),
{
    let mut states: Vec<ContinuityLedgerEntry> = Vec::new();
    let mut i: usize = 0;
    while i < entries.len()
        invariant
            i <= entries.len(),
            entry_views(states@) == latest(entry_views(entries@.take(i as int))),
            unique_keys(entry_views(states@)),
        decreases entries.len() - i,
    {
        let e = &entries[i];
        assert(entry_views(entries@.take(i + 1)).drop_last() =~= entry_views(
            entries@.take(i as int),
        ));
        assert(entry_views(entries@.take(i + 1)).last() == e@);
        let kv = chars_of(e.entity_key.as_str());
        let ghost before = states@;
        match find_state(states.as_slice(), kv.as_slice(), e.state_kind.as_str()) {
            Some(k) => {
                states.set(k, copy_entry(e));
                assert(entry_views(states@) =~= entry_views(before).update(k as int, e@));
            },
            None => {
                states.push(copy_entry(e));
                assert(entry_views(states@) =~= entry_views(before).push(e@));
            },
        }
        i = i + 1;
    }
    assert(entries@.take(entries.len() as int) == entries@);
    ActiveStates { states }
}

// ---------------------------------------------------------------------------
// Comparing claims with the ledger
// ---------------------------------------------------------------------------
/// What a candidate draft is read to rely on: an entity in a state, shown by
/// a quote of the draft.
#[derive(Debug, PartialEq, Eq)]
pub struct CandidateClaim {
    pub entity_key: String,
    pub entity_label: String,
    pub state_kind: String,
    pub required_state: String,
    pub claim_mode: String,
    pub evidence_quote: String,
}

/// A claim as text.
pub struct ClaimView {
    pub entity_key: Seq<char>,
    pub entity_label: Seq<char>,
    pub state_kind: Seq<char>,
    pub required_state: Seq<char>,
    pub claim_mode: Seq<char>,
    pub evidence_quote: Seq<char>,
}

impl View for CandidateClaim {
    type V = ClaimView;

    open spec fn view(&self) -> ClaimView {
        ClaimView {
            entity_key: self.entity_key@,
            entity_label: self.entity_label@,
            state_kind: self.state_kind@,
            required_state: self.required_state@,
            claim_mode: self.claim_mode@,
            evidence_quote: self.evidence_quote@,
        }
    }
}

/// The views of a list of claims.
pub open spec fn claim_views(s: Seq<CandidateClaim>) -> Seq<ClaimView> {
    s.map_values(|c: CandidateClaim| c@)
}

/// What each issue advises.
pub const ISSUE_SUGGESTION: &'static str = "删除这处直接引用，或在候选稿中写清已发生且有代价的获得、修复、解封或疗伤动作；不要补造旧设定。";

/// How a chapter is named in a report.
pub open spec fn chapter_label(c: Chapter) -> Seq<char> {
    "第 "@ + decimal(c.chapter_no as int) + " 章《"@ + c.title@ + "》"@
}

/// The name of the chapter with the given id (the last listed, when several
/// share it), or a generic name when none has it.
pub open spec fn source_chapter_label(chapters: Seq<Chapter>, id: i64) -> Seq<char>
    decreases chapters.len(),
{
    if chapters.len() == 0 {
        "已通过正文"@
    } else if chapters.last().id == id {
        chapter_label(chapters.last())
    } else {
        source_chapter_label(chapters.drop_last(), id)
    }
}

/// The issue that a claim raises against the state it contradicts.
pub open spec fn issue_of(claim: ClaimView, previous: EntryView, chapters: Seq<Chapter>) -> IssueView {
    IssueView {
        severity: "major"@,
        entity_label: if blank(claim.entity_label) {
            previous.entity_label
        } else {
            trim(claim.entity_label)
        },
        entity_kind: previous.entity_kind,
        state_kind: previous.state_kind,
        candidate_quote: trim(claim.evidence_quote),
        source_chapter: source_chapter_label(chapters, previous.chapter_id),
        source_quote: previous.evidence_quote,
        reason: "候选稿把它当作“"@ + required_label_text(claim.required_state) + "”，但最后已通过状态是“"@
            + state_label_text(previous.state_value) + "”。"@,
        suggestion: ISSUE_SUGGESTION@,
    }
}

/// The issue a claim raises, if any: a reference (not a transition) to an
/// entity whose last state, looked up by its normalized key and kind of
/// state, conflicts with the state the claim needs.
pub open spec fn claim_issue(
    claim: ClaimView,
    states: Seq<EntryView>,
    chapters: Seq<Chapter>,
) -> Option<IssueView> {
    if claim.claim_mode == "transition"@ {
        None
    } else {
        match key_position(states, (entity_key_norm(claim.entity_key), claim.state_kind)) {
            None => None,
            Some(i) => if conflicting(claim.required_state, states[i].state_value) {
                Some(issue_of(claim, states[i], chapters))
            } else {
                None
            },
        }
    }
}

/// The issues that the claims raise, in the order of the claims.
pub open spec fn raised_issues(
    claims: Seq<ClaimView>,
    states: Seq<EntryView>,
    chapters: Seq<Chapter>,
) -> Seq<IssueView>
    decreases claims.len(),
{
    if claims.len() == 0 {
        Seq::empty()
    } else {
        match claim_issue(claims.last(), states, chapters) {
            Some(x) => raised_issues(claims.drop_last(), states, chapters).push(x),
            None => raised_issues(claims.drop_last(), states, chapters),
        }
    }
}

/// `a` comes no later than `b` in the order of strings (character by
/// character, by code point, a prefix first).
pub open spec fn label_le(a: Seq<char>, b: Seq<char>) -> bool
    decreases a.len(),
{
    if a.len() == 0 {
        true
    } else if b.len() == 0 {
        false
    } else if a[0] != b[0] {
        a[0] < b[0]
    } else {
        label_le(a.drop_first(), b.drop_first())
    }
}

/// `x` placed into `s` after the last issue whose label is no greater.
pub open spec fn insert_by_label(s: Seq<IssueView>, x: IssueView) -> Seq<IssueView>
    decreases s.len(),
{
    if s.len() == 0 {
        seq![x]
    } else if label_le(s.last().entity_label, x.entity_label) {
        s.push(x)
    } else {
        insert_by_label(s.drop_last(), x).push(s.last())
    }
}

/// The issues sorted by label, stably: issues with equal labels keep their
/// order.
pub open spec fn sort_by_label(s: Seq<IssueView>) -> Seq<IssueView>
    decreases s.len(),
{
    if s.len() == 0 {
        Seq::empty()
    } else {
        insert_by_label(sort_by_label(s.drop_last()), s.last())
    }
}

/// Two issues report the same label and the same candidate quote.
pub open spec fn same_issue(a: IssueView, b: IssueView) -> bool {
    a.entity_label == b.entity_label && a.candidate_quote == b.candidate_quote
}

/// Runs of neighbouring issues that report the same thing, each kept once
/// (its first).
pub open spec fn dedup_issues(s: Seq<IssueView>) -> Seq<IssueView>
    decreases s.len(),
{
    if s.len() <= 1 {
        s
    } else if same_issue(s[s.len() - 2], s.last()) {
        dedup_issues(s.drop_last())
    } else {
        dedup_issues(s.drop_last()).push(s.last())
    }
}

/// The report's issues: those the claims raise, sorted by label, with
/// neighbouring repeats removed.
pub open spec fn compared_issues(
    claims: Seq<ClaimView>,
    states: Seq<EntryView>,
    chapters: Seq<Chapter>,
) -> Seq<IssueView> {
    dedup_issues(sort_by_label(raised_issues(claims, states, chapters)))
}

fn chapter_label_of(chapters: &[Chapter], id: i64) -> (r: String)
    ensures
        r@ == source_chapter_label(chapters@, id),
{
    let mut i = chapters.len();
    assert(chapters@.take(i as int) == chapters@);
    while i > 0
        invariant
            i <= chapters.len(),
            source_chapter_label(chapters@, id) == source_chapter_label(chapters@.take(i as int), id),
        decreases i,
    {
        let c = &chapters[i - 1];
        assert(chapters@.take(i as int).drop_last() == chapters@.take(i - 1));
        if c.id == id {
            let mut label = owned("第 ");
            append(&mut label, decimal_of(c.chapter_no).as_str());
            append(&mut label, " 章《");
            append(&mut label, c.title.as_str());
            append(&mut label, "》");
            return label;
        }
        i = i - 1;
    }
    assert(chapters@.take(0) == Seq::<Chapter>::empty());
    owned("已通过正文")
}

fn issue_for(claim: &CandidateClaim, previous: &ContinuityLedgerEntry, chapters: &[Chapter]) -> (r:
    LedgerContinuityIssue)
    ensures
        r@ == issue_of(claim@, previous@, chapters@),
{
    let label = if is_blank(claim.entity_label.as_str()) {
        previous.entity_label.clone()
    } else {
        trimmed(claim.entity_label.as_str())
    };
    let mut reason = owned("候选稿把它当作“");
    append(&mut reason, required_label(claim.required_state.as_str()).as_str());
    append(&mut reason, "”，但最后已通过状态是“");
    append(&mut reason, state_label(previous.state_value.as_str()).as_str());
    append(&mut reason, "”。");
    LedgerContinuityIssue {
        severity: owned("major"),
        entity_label: label,
        entity_kind: previous.entity_kind.clone(),
        state_kind: previous.state_kind.clone(),
        candidate_quote: trimmed(claim.evidence_quote.as_str()),
        source_chapter: chapter_label_of(chapters, previous.chapter_id),
        source_quote: previous.evidence_quote.clone(),
        reason,
        suggestion: owned(ISSUE_SUGGESTION),
    }
}

/// Whether `a` comes no later than `b` (see `label_le`).
pub fn label_le_chars(a: &[char], b: &[char]) -> (r: bool)
    ensures
        r == label_le(a@, b@),
{
    let mut i: usize = 0;
    assert(a@.skip(0) == a@);
    assert(b@.skip(0) == b@);
    while i < a.len() && i < b.len()
        invariant
            i <= a.len(),
            i <= b.len(),
            label_le(a@, b@) == label_le(a@.skip(i as int), b@.skip(i as int)),
        decreases a.len() - i,
    {
        if a[i] != b[i] {
            return a[i] < b[i];
        }
        assert(a@.skip(i as int).drop_first() == a@.skip(i + 1));
        assert(b@.skip(i as int).drop_first() == b@.skip(i + 1));
        i = i + 1;
    }
    a.len() <= b.len()
}

proof fn lemma_insert_at(s: Seq<IssueView>, x: IssueView, j: int)
    requires
        0 <= j <= s.len(),
        forall|k: int| j <= k < s.len() ==> !label_le(#[trigger] s[k].entity_label, x.entity_label),
        j == 0 || label_le(s[j - 1].entity_label, x.entity_label),
    ensures
        insert_by_label(s, x) == s.insert(j, x),
    decreases s.len(),
{
    if s.len() == 0 {
        assert(s.insert(j, x) =~= seq![x]);
    } else if label_le(s.last().entity_label, x.entity_label) {
        if j < s.len() {
            assert(!label_le(s[s.len() - 1].entity_label, x.entity_label));
        }
        assert(s.insert(j, x) =~= s.push(x));
    } else {
        assert(j < s.len());
        lemma_insert_at(s.drop_last(), x, j);
        assert(s.drop_last().insert(j, x).push(s.last()) =~= s.insert(j, x));
    }
}

fn insert_issue(v: &mut Vec<LedgerContinuityIssue>, x: LedgerContinuityIssue)
    ensures
        issue_views(final(v)@) == insert_by_label(issue_views(old(v)@), x@),
{
    let xl = chars_of(x.entity_label.as_str());
    let mut j = v.len();
    let mut found = false;
    while j > 0 && !found
        invariant
            j <= v.len(),
            xl@ == x.entity_label@,
            found ==> j > 0 && label_le(v@[j - 1].entity_label@, x.entity_label@),
            forall|k: int|
                j <= k < v@.len() ==> !label_le(#[trigger] v@[k].entity_label@, x.entity_label@),
        decreases 2 * j + if found { 0int } else { 1int },
    {
        let l = chars_of(v[j - 1].entity_label.as_str());
        if label_le_chars(l.as_slice(), xl.as_slice()) {
            found = true;
        } else {
            j = j - 1;
        }
    }
    let ghost before = issue_views(v@);
    proof {
        assert forall|k: int| j <= k < before.len() implies !label_le(
            #[trigger] before[k].entity_label,
            x@.entity_label,
        ) by {
            assert(before[k] == v@[k]@);
        }
        if j > 0 {
            assert(before[j - 1] == v@[j - 1]@);
        }
        lemma_insert_at(before, x@, j as int);
    }
    v.insert(j, x);
    assert(issue_views(v@) =~= before.insert(j as int, x@));
}

/// A copy of an issue.
pub fn copy_issue(i: &LedgerContinuityIssue) -> (r: LedgerContinuityIssue)
    ensures
        r == *i,
{
    LedgerContinuityIssue {
        severity: i.severity.clone(),
        entity_label: i.entity_label.clone(),
        entity_kind: i.entity_kind.clone(),
        state_kind: i.state_kind.clone(),
        candidate_quote: i.candidate_quote.clone(),
        source_chapter: i.source_chapter.clone(),
        source_quote: i.source_quote.clone(),
        reason: i.reason.clone(),
        suggestion: i.suggestion.clone(),
    }
}

fn dedup_sorted(v: &Vec<LedgerContinuityIssue>) -> (r: Vec<LedgerContinuityIssue>)
    ensures
        issue_views(r@) == dedup_issues(issue_views(v@)),
{
    let mut out: Vec<LedgerContinuityIssue> = Vec::new();
    let mut i: usize = 0;
    while i < v.len()
        invariant
            i <= v.len(),
            issue_views(out@) == dedup_issues(issue_views(v@.take(i as int))),
        decreases v.len() - i,
    {
        let ghost prefix = issue_views(v@.take(i + 1));
        assert(prefix.drop_last() =~= issue_views(v@.take(i as int)));
        assert(prefix.last() == v@[i as int]@);
        let keep = if i == 0 {
            true
        } else {
            assert(prefix[prefix.len() - 2] == v@[i - 1]@);
            !(str_eq(v[i - 1].entity_label.as_str(), v[i].entity_label.as_str()) && str_eq(
                v[i - 1].candidate_quote.as_str(),
                v[i].candidate_quote.as_str(),
            ))
        };
        if keep {
            let ghost before = out@;
            out.push(copy_issue(&v[i]));
            assert(issue_views(out@) =~= issue_views(before).push(v@[i as int]@));
        }
        i = i + 1;
    }
    assert(v@.take(v.len() as int) == v@);
    out
}

/// The issues that a candidate's claims raise against the active states
/// (see `compared_issues`).
pub fn compare_claims(claims: &[CandidateClaim], active_states: &ActiveStates, chapters: &[Chapter]) -> (r: Vec<
    LedgerContinuityIssue,
>)
    ensures
        issue_views(r@) == compared_issues(claim_views(claims@), active_states@, chapters@),
{
    let mut sorted: Vec<LedgerContinuityIssue> = Vec::new();
    let mut i: usize = 0;
    while i < claims.len()
        invariant
            i <= claims.len(),
            issue_views(sorted@) == sort_by_label(
                raised_issues(claim_views(claims@.take(i as int)), active_states@, chapters@),
            ),
        decreases claims.len() - i,
    {
        let claim = &claims[i];
        let ghost prev = raised_issues(claim_views(claims@.take(i as int)), active_states@, chapters@);
        assert(claim_views(claims@.take(i + 1)).drop_last() =~= claim_views(claims@.take(i as int)));
        assert(claim_views(claims@.take(i + 1)).last() == claim@);
        if !str_eq(claim.claim_mode.as_str(), "transition") {
            let key = normalize_entity_key(claim.entity_key.as_str());
            match active_states.get(key.as_slice(), claim.state_kind.as_str()) {
                Some(previous) => {
                    if states_conflict(claim.required_state.as_str(), previous.state_value.as_str()) {
                        let issue = issue_for(claim, previous, chapters);
                        assert(claim_issue(claim@, active_states@, chapters@) == Some(issue@));
                        assert(prev.push(issue@).drop_last() == prev);
                        insert_issue(&mut sorted, issue);
                    } else {
                        assert(claim_issue(claim@, active_states@, chapters@) is None);
                    }
                },
                None => {
                    assert(claim_issue(claim@, active_states@, chapters@) is None);
                },
            }
        } else {
            assert(claim_issue(claim@, active_states@, chapters@) is None);
        }
        i = i + 1;
    }
    assert(claims@.take(claims.len() as int) == claims@);
    dedup_sorted(&sorted)
}

// ---------------------------------------------------------------------------
// The exact-match pass
// ---------------------------------------------------------------------------
/// A sentence names an entity: its entity-key form holds the entity's key or
/// the key form of the entity's label.
pub open spec fn references_entity(sentence: Seq<char>, e: EntryView) -> bool {
    let ns = entity_key_norm(sentence);
    contains_seq(ns, e.entity_key) || contains_seq(ns, entity_key_norm(e.entity_label))
}

/// Whether a sentence names an entity (see `references_entity`).
pub fn sentence_references_entity(sentence: &str, entry: &ContinuityLedgerEntry) -> (r: bool)
    ensures
        r == references_entity(sentence@, entry@),
{
    let ns = normalize_entity_key(sentence);
    let key = chars_of(entry.entity_key.as_str());
    if contains(ns.as_slice(), key.as_slice()) {
        return true;
    }
    let label = normalize_entity_key(entry.entity_label.as_str());
    contains(ns.as_slice(), label.as_slice())
}

/// The state a direct reference needs after an entry's state, with the
/// actions that show such a reference (see `action_rule`).
pub fn exact_action_rule(entry: &ContinuityLedgerEntry) -> (r: Option<(&'static str, Vec<&'static str>)>)
    ensures
        match action_rule(entry.state_kind@, entry.state_value@) {
            Some(req) => match r {
                Some(rule) => rule.0@ == req && str_views(rule.1@) == actions_for(req),
                None => false,
            },
            None => r is None,
        },
{
    let kind = entry.state_kind.as_str();
    let value = entry.state_value.as_str();
    let required: &'static str = if str_eq(kind, "possession") && (str_eq(value, "consumed")
        || str_eq(value, "lost") || str_eq(value, "depleted")) {
        "held"
    } else if str_eq(kind, "availability") && (str_eq(value, "sealed") || str_eq(value, "inactive")
        || str_eq(value, "damaged") || str_eq(value, "depleted")) {
        "usable"
    } else if str_eq(kind, "condition") && (str_eq(value, "present") || str_eq(value, "ongoing")) {
        "recovered"
    } else {
        return None;
    };
    Some((required, required_state_actions(required)))
}

/// The claim that the exact pass makes of a sentence for one active state:
/// when the sentence names the entity, its state has a rule, and one of the
/// rule's actions is done to it, a reference needing the rule's state,
/// quoting the trimmed sentence.
pub open spec fn exact_claim(sentence: Seq<char>, e: EntryView) -> Option<ClaimView> {
    if !references_entity(sentence, e) {
        None
    } else {
        match action_rule(e.state_kind, e.state_value) {
            None => None,
            Some(req) => if targets_entity(sentence, e.entity_key, actions_for(req)) {
                Some(
                    ClaimView {
                        entity_key: e.entity_key,
                        entity_label: e.entity_label,
                        state_kind: e.state_kind,
                        required_state: req,
                        claim_mode: "reference"@,
                        evidence_quote: trim(sentence),
                    },
                )
            } else {
                None
            },
        }
    }
}

/// The exact claims of one sentence, in the order of the states.
pub open spec fn sentence_claims(sentence: Seq<char>, states: Seq<EntryView>) -> Seq<ClaimView>
    decreases states.len(),
{
    if states.len() == 0 {
        Seq::empty()
    } else {
        match exact_claim(sentence, states.last()) {
            Some(c) => sentence_claims(sentence, states.drop_last()).push(c),
            None => sentence_claims(sentence, states.drop_last()),
        }
    }
}

/// A sentence that the exact pass reads: at most 100 characters, and not
/// showing a state change.
pub open spec fn sentence_checked(sentence: Seq<char>) -> bool {
    sentence.len() <= 100 && !contains_any_seq(sentence, transition_markers())
}

/// The exact claims of a list of sentences, sentence by sentence.
pub open spec fn exact_claims(sentences: Seq<Seq<char>>, states: Seq<EntryView>) -> Seq<ClaimView>
    decreases sentences.len(),
{
    if sentences.len() == 0 {
        Seq::empty()
    } else if sentence_checked(sentences.last()) {
        exact_claims(sentences.drop_last(), states) + sentence_claims(sentences.last(), states)
    } else {
        exact_claims(sentences.drop_last(), states)
    }
}

fn copy_str(s: &str) -> (r: String)
    ensures
        r@ == s@,
{
    String::from_str(s)
}

/// The claims that a small exact-match pass finds in a candidate draft,
/// besides those a model finds (see `exact_claims` over `sentences_of`).
pub fn explicit_exact_match_claims(candidate_text: &str, active_states: &ActiveStates) -> (r: Vec<
    CandidateClaim,
>)
    ensures
        claim_views(r@) == exact_claims(sentences_of(candidate_text@), active_states@),
{
    let sentences = candidate_sentences(candidate_text);
    let states = active_states.entries();
    let ghost sv = views(sentences@);
    let mut claims: Vec<CandidateClaim> = Vec::new();
    let mut i: usize = 0;
    while i < sentences.len()
        invariant
            i <= sentences.len(),
            sv == views(sentences@),
            sv == sentences_of(candidate_text@),
            entry_views(states@) == active_states@,
            claim_views(claims@) == exact_claims(sv.take(i as int), active_states@),
        decreases sentences.len() - i,
    {
        let sentence = sentences[i].as_str();
        assert(sv.take(i + 1).drop_last() == sv.take(i as int));
        assert(sv.take(i + 1).last() == sentence@);
        let checked = char_count(sentence) <= 100 && !has_explicit_state_transition(sentence);
        if checked {
            let ghost start = claims@;
            let mut k: usize = 0;
            while k < states.len()
                invariant
                    k <= states.len(),
                    sentence@ == sv[i as int],
                    entry_views(states@) == active_states@,
                    claim_views(claims@) == claim_views(start) + sentence_claims(
                        sentence@,
                        entry_views(states@.take(k as int)),
                    ),
                decreases states.len() - k,
            {
                let entry = &states[k];
                assert(entry_views(states@.take(k + 1)).drop_last() =~= entry_views(
                    states@.take(k as int),
                ));
                assert(entry_views(states@.take(k + 1)).last() == entry@);
                if sentence_references_entity(sentence, entry) {
                    match exact_action_rule(entry) {
                        Some((required, actions)) => {
                            if action_targets_entity(sentence, entry.entity_key.as_str(), actions.as_slice()) {
                                let claim = CandidateClaim {
                                    entity_key: entry.entity_key.clone(),
                                    entity_label: entry.entity_label.clone(),
                                    state_kind: entry.state_kind.clone(),
                                    required_state: copy_str(required),
                                    claim_mode: copy_str("reference"),
                                    evidence_quote: trimmed(sentence),
                                };
                                let ghost before = claims@;
                                claims.push(claim);
                                assert(claim_views(claims@) =~= claim_views(before).push(claim@));
                            }
                        },
                        None => {},
                    }
                }
                k = k + 1;
            }
            assert(states@.take(states.len() as int) == states@);
        }
        i = i + 1;
    }
    assert(sv.take(sentences.len() as int) == sv);
    claims
}

// ---------------------------------------------------------------------------
// Model claims
// ---------------------------------------------------------------------------
/// A claim shows the state it needs in its own quote: a transition quotes a
/// state change; a reference quotes one of its required state's actions
/// done to the entity.
pub open spec fn explicit_required(c: ClaimView) -> bool {
    if c.claim_mode == "transition"@ {
        contains_any_seq(c.evidence_quote, transition_markers())
    } else {
        targets_entity(c.evidence_quote, c.entity_key, actions_for(c.required_state))
    }
}

/// Whether a claim shows the state it needs (see `explicit_required`).
pub fn claim_has_explicit_required_state(claim: &CandidateClaim) -> (r: bool)
    ensures
        r == explicit_required(claim@),
{
    if str_eq(claim.claim_mode.as_str(), "transition") {
        return has_explicit_state_transition(claim.evidence_quote.as_str());
    }
    let actions = required_state_actions(claim.required_state.as_str());
    action_targets_entity(claim.evidence_quote.as_str(), claim.entity_key.as_str(), actions.as_slice())
}

/// A model's claim is accepted: a known mode, kind of state and required
/// state; a quote that can be checked against the candidate draft; an entity
/// key of at least two characters in key form that the quote names; and the
/// required state shown in the quote.
pub open spec fn claim_acceptable(c: ClaimView, candidate: Seq<char>) -> bool {
    &&& (c.claim_mode == "reference"@ || c.claim_mode == "transition"@)
    &&& (c.state_kind == "possession"@ || c.state_kind == "availability"@ || c.state_kind
        == "condition"@)
    &&& (c.required_state == "held"@ || c.required_state == "usable"@ || c.required_state
        == "recovered"@)
    &&& quote_valid(c.evidence_quote, candidate)
    &&& entity_key_norm(c.entity_key).len() >= 2
    &&& contains_seq(entity_key_norm(c.evidence_quote), entity_key_norm(c.entity_key))
    &&& explicit_required(c)
}

/// The accepted claims, in order.
pub open spec fn acceptable_claims(s: Seq<ClaimView>, candidate: Seq<char>) -> Seq<ClaimView>
    decreases s.len(),
{
    if s.len() == 0 {
        Seq::empty()
    } else if claim_acceptable(s.last(), candidate) {
        acceptable_claims(s.drop_last(), candidate).push(s.last())
    } else {
        acceptable_claims(s.drop_last(), candidate)
    }
}

/// Whether a model's claim is accepted (see `claim_acceptable`).
pub fn claim_is_acceptable(claim: &CandidateClaim, candidate_text: &str) -> (r: bool)
    ensures
        r == claim_acceptable(claim@, candidate_text@),
{
    let mode = claim.claim_mode.as_str();
    let kind = claim.state_kind.as_str();
    let required = claim.required_state.as_str();
    if !(str_eq(mode, "reference") || str_eq(mode, "transition")) {
        return false;
    }
    if !(str_eq(kind, "possession") || str_eq(kind, "availability") || str_eq(kind, "condition")) {
        return false;
    }
    if !(str_eq(required, "held") || str_eq(required, "usable") || str_eq(required, "recovered")) {
        return false;
    }
    if !valid_quote(claim.evidence_quote.as_str(), candidate_text) {
        return false;
    }
    let key = normalize_entity_key(claim.entity_key.as_str());
    if key.len() < 2 {
        return false;
    }
    let quote = normalize_entity_key(claim.evidence_quote.as_str());
    contains(quote.as_slice(), key.as_slice()) && claim_has_explicit_required_state(claim)
}

/// The claims of a model that are accepted, in order (see
/// `acceptable_claims`).
pub fn filter_candidate_claims(claims: Vec<CandidateClaim>, candidate_text: &str) -> (r: Vec<
    CandidateClaim,
>)
    ensures
        claim_views(r@) == acceptable_claims(claim_views(claims@), candidate_text@),
{
    let ghost all = claim_views(claims@);
    let mut kept: Vec<CandidateClaim> = Vec::new();
    for claim in it: claims
        invariant
            all == claim_views(it.seq()),
            claim_views(kept@) == acceptable_claims(all.take(it.index()), candidate_text@),
    {
        assert(all.take(it.index() + 1).drop_last() == all.take(it.index()));
        assert(all.take(it.index() + 1).last() == claim@);
        if claim_is_acceptable(&claim, candidate_text) {
            let ghost before = kept@;
            kept.push(claim);
            assert(claim_views(kept@) =~= claim_views(before).push(claim@));
        }
    }
    assert(all.take(all.len() as int) == all);
    kept
}

/// Two claims are the same: the same entity in key form, kind of state,
/// required state and quote.
pub open spec fn duplicate_claim(a: ClaimView, b: ClaimView) -> bool {
    &&& entity_key_norm(a.entity_key) == entity_key_norm(b.entity_key)
    &&& a.state_kind == b.state_kind
    &&& a.required_state == b.required_state
    &&& a.evidence_quote == b.evidence_quote
}

/// The model's claims followed by each exact claim that repeats none of the
/// claims before it.
pub open spec fn merged_claims(model: Seq<ClaimView>, exact: Seq<ClaimView>) -> Seq<ClaimView>
    decreases exact.len(),
{
    if exact.len() == 0 {
        model
    } else {
        let m = merged_claims(model, exact.drop_last());
        if exists|i: int| 0 <= i < m.len() && duplicate_claim(m[i], exact.last()) {
            m
        } else {
            m.push(exact.last())
        }
    }
}

fn is_duplicate(a: &CandidateClaim, b: &CandidateClaim) -> (r: bool)
    ensures
        r == duplicate_claim(a@, b@),
{
    let ka = normalize_entity_key(a.entity_key.as_str());
    let kb = normalize_entity_key(b.entity_key.as_str());
    chars_eq(ka.as_slice(), kb.as_slice()) && str_eq(a.state_kind.as_str(), b.state_kind.as_str())
        && str_eq(a.required_state.as_str(), b.required_state.as_str()) && str_eq(
        a.evidence_quote.as_str(),
        b.evidence_quote.as_str(),
    )
}

/// Adds the exact claims to the model's claims, leaving out repeats (see
/// `merged_claims`).
pub fn merge_candidate_claims(model_claims: Vec<CandidateClaim>, exact_claims: Vec<CandidateClaim>) -> (r: Vec<
    CandidateClaim,
>)
    ensures
        claim_views(r@) == merged_claims(claim_views(model_claims@), claim_views(exact_claims@)),
{
    let ghost model = claim_views(model_claims@);
    let ghost exact = claim_views(exact_claims@);
    let mut merged = model_claims;
    for claim in it: exact_claims
        invariant
            exact == claim_views(it.seq()),
            claim_views(merged@) == merged_claims(model, exact.take(it.index())),
    {
        assert(exact.take(it.index() + 1).drop_last() == exact.take(it.index()));
        assert(exact.take(it.index() + 1).last() == claim@);
        let ghost mv = claim_views(merged@);
        let mut duplicate = false;
        let mut k: usize = 0;
        while k < merged.len()
            invariant
                k <= merged.len(),
                mv == claim_views(merged@),
                duplicate <==> exists|i: int| 0 <= i < k && duplicate_claim(mv[i], claim@),
            decreases merged.len() - k,
        {
            if is_duplicate(&merged[k], &claim) {
                duplicate = true;
            }
            assert(mv[k as int] == merged@[k as int]@);
            k = k + 1;
        }
        if !duplicate {
            merged.push(claim);
            assert(claim_views(merged@) =~= mv.push(claim@));
        }
    }
    assert(exact.take(exact.len() as int) == exact);
    merged
}

// ---------------------------------------------------------------------------
// Source entries
// ---------------------------------------------------------------------------
/// One state as a model extracts it from an approved chapter.
#[derive(Debug, PartialEq, Eq)]
pub struct ExtractedLedgerEntry {
    pub entity_kind: String,
    pub entity_key: String,
    pub entity_label: String,
    pub state_kind: String,
    pub state_value: String,
    pub evidence_quote: String,
}

/// An extracted state as text.
pub struct ExtractedView {
    pub entity_kind: Seq<char>,
    pub entity_key: Seq<char>,
    pub entity_label: Seq<char>,
    pub state_kind: Seq<char>,
    pub state_value: Seq<char>,
    pub evidence_quote: Seq<char>,
}

impl View for ExtractedLedgerEntry {
    type V = ExtractedView;

    open spec fn view(&self) -> ExtractedView {
        ExtractedView {
            entity_kind: self.entity_kind@,
            entity_key: self.entity_key@,
            entity_label: self.entity_label@,
            state_kind: self.state_kind@,
            state_value: self.state_value@,
            evidence_quote: self.evidence_quote@,
        }
    }
}

/// The views of a list of extracted states.
pub open spec fn extracted_views(s: Seq<ExtractedLedgerEntry>) -> Seq<ExtractedView> {
    s.map_values(|e: ExtractedLedgerEntry| e@)
}

/// The states that the ledger records.
pub open spec fn state_values() -> Seq<Seq<char>> {
    seq![
        "held"@,
        "consumed"@,
        "lost"@,
        "depleted"@,
        "usable"@,
        "sealed"@,
        "active"@,
        "inactive"@,
        "damaged"@,
        "present"@,
        "recovered"@,
        "cleared"@,
        "ongoing"@,
    ]
}

/// An extracted state is recorded: a known kind of entity, kind of state and
/// state; an entity key of at least two characters in key form; a label of
/// at least two characters once trimmed; and a quote that can be checked
/// against the chapter.
pub open spec fn source_entry_valid(item: ExtractedView, key: Seq<char>, source: Seq<char>) -> bool {
    &&& (item.entity_kind == "item"@ || item.entity_kind == "resource"@ || item.entity_kind
        == "barrier"@ || item.entity_kind == "condition"@)
    &&& (item.state_kind == "possession"@ || item.state_kind == "availability"@ || item.state_kind
        == "condition"@)
    &&& state_values().contains(item.state_value)
    &&& key.len() >= 2
    &&& trim(item.entity_label).len() >= 2
    &&& quote_valid(item.evidence_quote, source)
}

/// Whether an extracted state is recorded (see `source_entry_valid`).
pub fn valid_source_entry(item: &ExtractedLedgerEntry, entity_key: &[char], source_text: &str) -> (r:
    bool)
    ensures
        r == source_entry_valid(item@, entity_key@, source_text@),
{
    let kind = item.entity_kind.as_str();
    let state = item.state_kind.as_str();
    let values: [&str; 13] = [
        "held",
        "consumed",
        "lost",
        "depleted",
        "usable",
        "sealed",
        "active",
        "inactive",
        "damaged",
        "present",
        "recovered",
        "cleared",
        "ongoing",
    ];
    assert(str_views(values@) =~= state_values());
    (str_eq(kind, "item") || str_eq(kind, "resource") || str_eq(kind, "barrier") || str_eq(
        kind,
        "condition",
    )) && (str_eq(state, "possession") || str_eq(state, "availability") || str_eq(
        state,
        "condition",
    )) && is_one_of(item.state_value.as_str(), &values) && entity_key.len() >= 2 && trim_chars(
        chars_of(item.entity_label.as_str()).as_slice(),
    ).len() >= 2 && valid_quote(item.evidence_quote.as_str(), source_text)
}

/// The ledger entry recorded for an extracted state.
pub open spec fn recorded_entry(
    item: ExtractedView,
    project_id: i64,
    chapter_id: i64,
    source_artifact_id: i64,
    source_text_hash: Seq<char>,
) -> EntryView {
    EntryView {
        id: 0,
        project_id,
        chapter_id,
        source_artifact_id,
        source_text_hash,
        normalization_version: NORMALIZATION_VERSION@,
        entity_kind: item.entity_kind,
        entity_key: entity_key_norm(item.entity_key),
        entity_label: trim(item.entity_label),
        state_kind: item.state_kind,
        state_value: item.state_value,
        evidence_quote: trim(item.evidence_quote),
        created_at: Seq::empty(),
    }
}

/// The entries recorded for the extracted states that are valid, in order.
pub open spec fn recorded_entries(
    items: Seq<ExtractedView>,
    project_id: i64,
    chapter_id: i64,
    source_artifact_id: i64,
    source_text_hash: Seq<char>,
    source: Seq<char>,
) -> Seq<EntryView>
    decreases items.len(),
{
    if items.len() == 0 {
        Seq::empty()
    } else {
        let prev = recorded_entries(
            items.drop_last(),
            project_id,
            chapter_id,
            source_artifact_id,
            source_text_hash,
            source,
        );
        if source_entry_valid(items.last(), entity_key_norm(items.last().entity_key), source) {
            prev.push(
                recorded_entry(
                    items.last(),
                    project_id,
                    chapter_id,
                    source_artifact_id,
                    source_text_hash,
                ),
            )
        } else {
            prev
        }
    }
}

impl ActiveStates {
    /// The states, taken out.
    pub fn into_entries(self) -> (r: Vec<ContinuityLedgerEntry>)
        ensures
            entry_views(r@) == self@,
    {
        self.states
    }
}

/// The ledger entries of one approved chapter, from the states a model
/// extracted: the valid ones, recorded with their normalized key, one per
/// entity and kind of state (the last extracted wins, in the place of the
/// first).
pub fn source_entries(
    items: &[ExtractedLedgerEntry],
    project_id: i64,
    chapter_id: i64,
    source_artifact_id: i64,
    source_text_hash: &str,
    source_text: &str,
) -> (r: Vec<ContinuityLedgerEntry>)
    ensures
        entry_views(r@) == latest(
            recorded_entries(
                extracted_views(items@),
                project_id,
                chapter_id,
                source_artifact_id,
                source_text_hash@,
                source_text@,
            ),
        ),
{
    let ghost all = extracted_views(items@);
    let mut built: Vec<ContinuityLedgerEntry> = Vec::new();
    let mut i: usize = 0;
    while i < items.len()
        invariant
            i <= items.len(),
            all == extracted_views(items@),
            entry_views(built@) == recorded_entries(
                all.take(i as int),
                project_id,
                chapter_id,
                source_artifact_id,
                source_text_hash@,
                source_text@,
            ),
        decreases items.len() - i,
    {
        let item = &items[i];
        assert(all.take(i + 1).drop_last() == all.take(i as int));
        assert(all.take(i + 1).last() == item@);
        let key = normalize_entity_key(item.entity_key.as_str());
        if valid_source_entry(item, key.as_slice(), source_text) {
            let entry = ContinuityLedgerEntry {
                id: 0,
                project_id,
                chapter_id,
                source_artifact_id,
                source_text_hash: copy_str(source_text_hash),
                normalization_version: copy_str(NORMALIZATION_VERSION),
                entity_kind: item.entity_kind.clone(),
                entity_key: string_of(key.as_slice()),
                entity_label: trimmed(item.entity_label.as_str()),
                state_kind: item.state_kind.clone(),
                state_value: item.state_value.clone(),
                evidence_quote: trimmed(item.evidence_quote.as_str()),
                created_at: String::new(),
            };
            let ghost before = built@;
            built.push(entry);
            assert(entry_views(built@) =~= entry_views(before).push(entry@));
        }
        i = i + 1;
    }
    assert(all.take(items.len() as int) == all);
    latest_states(built.as_slice()).into_entries()
}

// ---------------------------------------------------------------------------
// Ledger hash
// ---------------------------------------------------------------------------
/// The bytes that the ledger hash covers: for each entry in order, the UTF-8
/// bytes of its entity key, kind of state, state and source hash.
pub open spec fn ledger_bytes(entries: Seq<EntryView>) -> Seq<u8>
    decreases entries.len(),
{
    if entries.len() == 0 {
        Seq::empty()
    } else {
        let e = entries.last();
        ledger_bytes(entries.drop_last()) + encode_utf8(e.entity_key) + encode_utf8(e.state_kind)
            + encode_utf8(e.state_value) + encode_utf8(e.source_text_hash)
    }
}

fn push_bytes(out: &mut Vec<u8>, b: &[u8])
    ensures
        final(out)@ == old(out)@ + b@,
{
    let ghost start = out@;
    let mut i: usize = 0;
    while i < b.len()
        invariant
            i <= b.len(),
            out@ == start + b@.take(i as int),
        decreases b.len() - i,
    {
        out.push(b[i]);
        i = i + 1;
        assert(b@.take(i as int) == b@.take(i - 1).push(b@[i - 1]));
    }
    assert(b@.take(b.len() as int) == b@);
}

/// The hash of a ledger: the lowercase hex SHA-256 of `ledger_bytes`.
pub fn hash_ledger(entries: &[ContinuityLedgerEntry]) -> (r: String)
    ensures
        r@ == hex(sha256_of(ledger_bytes(entry_views(entries@)))),
{
    let ghost all = entry_views(entries@);
    let mut bytes: Vec<u8> = Vec::new();
    let mut i: usize = 0;
    while i < entries.len()
        invariant
            i <= entries.len(),
            all == entry_views(entries@),
            bytes@ == ledger_bytes(all.take(i as int)),
        decreases entries.len() - i,
    {
        let e = &entries[i];
        assert(all.take(i + 1).drop_last() == all.take(i as int));
        assert(all.take(i + 1).last() == e@);
        push_bytes(&mut bytes, e.entity_key.as_str().as_bytes());
        push_bytes(&mut bytes, e.state_kind.as_str().as_bytes());
        push_bytes(&mut bytes, e.state_value.as_str().as_bytes());
        push_bytes(&mut bytes, e.source_text_hash.as_str().as_bytes());
        i = i + 1;
    }
    assert(all.take(entries.len() as int) == all);
    let digest = sha256(bytes.as_slice());
    hex_of(digest.as_slice())
}

// ---------------------------------------------------------------------------
// Prompts and reports
// ---------------------------------------------------------------------------
/// The head of the prompt that extracts states from an approved chapter.
pub const EXTRACTION_HEAD: &'static str = "# 任务\n从以下已通过正文提取可供后续章节核对的明确状态变化。账本是派生索引，不是新设定；没有可靠状态就输出 []。\n\n# 只允许记录\n1. 具名物品或资源：持有、获得、消耗、遗失、耗尽。\n2. 具名门、阵法、禁制、令牌、药物等：开启、封闭、激活、失效、受损、可用。\n3. 具名伤势或异常状态：存在、痊愈、解除、持续。\n\n# 规则\n1. 实体必须是正文中明确出现的具名对象；不要使用“令牌”“丹药”“伤势”“此物”这类泛称。\n2. entity_key 只能是实体名称的标准化写法：去掉空白与标点，不加别名、解释或编号推断。\n3. evidence_quote 必须是正文连续出现的 8-100 个字符原文。\n4. 不记录角色猜测、隐情、未来计划、抽象规则或未确认传闻。\n5. 每个实体只写本章真正改变或明确确认的状态；不确定就省略。\n6. 只输出 JSON 数组，不要 Markdown。\n\n# JSON\n{\n  \"entity_kind\": \"item\" | \"resource\" | \"barrier\" | \"condition\",\n  \"entity_key\": \"标准化实体名\",\n  \"entity_label\": \"正文中的实体名\",\n  \"state_kind\": \"possession\" | \"availability\" | \"condition\",\n  \"state_value\": \"held\" | \"consumed\" | \"lost\" | \"depleted\" | \"usable\" | \"sealed\" | \"active\" | \"inactive\" | \"damaged\" | \"present\" | \"recovered\" | \"cleared\" | \"ongoing\",\n  \"evidence_quote\": \"正文逐字引文\"\n}\n\n# 章节\n";

/// The head of the prompt that asks which old states a candidate draft
/// relies on.
pub const CHECK_HEAD: &'static str = "# 任务\n检查候选稿是否把下列已通过状态中的对象当作仍可持有、可用或已无伤。只提取“直接引用旧对象但没有写出获得、修复、解封、疗伤等状态变化动作”的句子。\n\n# 规则\n1. entity_key 必须逐字使用状态清单中的 entity_key；没有精确命中的名称不要输出。\n2. claim_mode 只能是 reference 或 transition。正文明确写出获得、修复、解封、疗伤等动作时填 transition，且不作为冲突候选。\n3. required_state：possession 只用 held；availability 只用 usable；condition 只用 recovered。\n4. evidence_quote 必须是候选稿连续出现的 8-100 个字符原文。\n5. 只输出 JSON 数组，不要 Markdown。\n\n# 已通过状态清单\n";

/// The prompt that extracts states from an approved chapter.
pub open spec fn extraction_prompt_text(title: Seq<char>, content: Seq<char>) -> Seq<char> {
    EXTRACTION_HEAD@ + title + "\n\n# 已通过正文\n"@ + content
}

/// Builds the extraction prompt (see `extraction_prompt_text`).
pub fn extraction_prompt(title: &str, content: &str) -> (r: String)
    ensures
        r@ == extraction_prompt_text(title@, content@),
{
    let mut r = concat(EXTRACTION_HEAD, title);
    append(&mut r, "\n\n# 已通过正文\n");
    append(&mut r, content);
    r
}

/// The line that lists one active state for the check prompt.
pub open spec fn state_line(e: EntryView) -> Seq<char> {
    "- entity_key="@ + e.entity_key + " | 名称="@ + e.entity_label + " | 类别="@ + e.entity_kind
        + " | 状态类别="@ + e.state_kind + " | 最后状态="@ + e.state_value + " | 来源引文="@
        + e.evidence_quote
}

/// The lines that list the active states.
pub open spec fn state_lines(states: Seq<EntryView>) -> Seq<Seq<char>> {
    states.map_values(|e: EntryView| state_line(e))
}

/// The prompt that asks a model which active states a candidate draft
/// relies on: the states one per line, then the draft.
pub open spec fn check_prompt_text(states: Seq<EntryView>, candidate: Seq<char>) -> Seq<char> {
    CHECK_HEAD@ + join(state_lines(states), "\n"@) + "\n\n# 候选稿\n"@
        + candidate
}

fn state_line_of(e: &ContinuityLedgerEntry) -> (r: String)
    ensures
        r@ == state_line(e@),
{
    let mut r = concat("- entity_key=", e.entity_key.as_str());
    append(&mut r, " | 名称=");
    append(&mut r, e.entity_label.as_str());
    append(&mut r, " | 类别=");
    append(&mut r, e.entity_kind.as_str());
    append(&mut r, " | 状态类别=");
    append(&mut r, e.state_kind.as_str());
    append(&mut r, " | 最后状态=");
    append(&mut r, e.state_value.as_str());
    append(&mut r, " | 来源引文=");
    append(&mut r, e.evidence_quote.as_str());
    r
}

/// Builds the check prompt (see `check_prompt_text`).
pub fn candidate_check_prompt(active_states: &ActiveStates, candidate_text: &str) -> (r: String)
    ensures
        r@ == check_prompt_text(active_states@, candidate_text@),
{
    let states = active_states.entries();
    let mut lines: Vec<String> = Vec::new();
    let mut i: usize = 0;
    while i < states.len()
        invariant
            i <= states.len(),
            entry_views(states@) == active_states@,
            views(lines@) == state_lines(entry_views(states@).take(i as int)),
        decreases states.len() - i,
    {
        let ghost before = lines@;
        let line = state_line_of(&states[i]);
        lines.push(line);
        i = i + 1;
        assert(entry_views(states@).take(i as int) =~= entry_views(states@).take(i - 1).push(
            states@[i - 1]@,
        ));
        assert(state_lines(entry_views(states@).take(i as int)) =~= state_lines(
            entry_views(states@).take(i - 1),
        ).push(line@));
        assert(views(lines@) =~= views(before).push(line@));
    }
    assert(entry_views(states@).take(states.len() as int) == entry_views(states@));
    let listed = join_strings(lines.as_slice(), "\n");
    let mut r = concat(CHECK_HEAD, listed.as_str());
    append(&mut r, "\n\n# 候选稿\n");
    append(&mut r, candidate_text);
    r
}


/// The head of the ledger section of a revision prompt.
pub const REPORT_HEAD: &'static str = "# 状态账本核对\n以下问题来自已通过正文的带引文状态记录。它们优先于润色，但不能靠编造新设定解释；请删除冲突引用，或补出候选稿中已有的获得、修复、解封、疗伤等明确动作。";

/// The summary of a report with nothing found.
pub const NO_CONFLICT_SUMMARY: &'static str = "未发现候选稿对已通过物品、资源、禁制或伤势状态的直接冲突。此核对只覆盖已结构化的明确状态，不替代试读。";

/// The summary of a report made without any ledger.
pub const EMPTY_LEDGER_SUMMARY: &'static str = "暂无可由已通过正文构成的状态账本；至少需要一章已通过正文且其中存在可验证的具名状态。";

/// The stage under which ledger checks are stored.
pub const CHECK_STAGE: &'static str = "continuity_ledger_check";

/// The stage under which ledger builds are stored.
pub const BUILD_STAGE: &'static str = "continuity_ledger_build";

/// The version of the check, part of its cache marker.
pub const CHECK_VERSION: &'static str = "v4";

/// One issue as a line of the revision prompt.
pub open spec fn issue_prompt_line(i: IssueView) -> Seq<char> {
    "\n- "@ + i.entity_label + "（"@ + i.severity + "）：候选稿“"@ + i.candidate_quote + "”；"@
        + i.source_chapter + "“"@ + i.source_quote + "”。"@ + i.suggestion
}

/// The lines of a list of issues, one after another.
pub open spec fn issue_prompt_lines(s: Seq<IssueView>) -> Seq<char>
    decreases s.len(),
{
    if s.len() == 0 {
        Seq::empty()
    } else {
        issue_prompt_lines(s.drop_last()) + issue_prompt_line(s.last())
    }
}

/// The ledger section of a revision prompt: nothing when there are no
/// issues, else the head and the first 6 issues.
pub open spec fn report_prompt_text(issues: Seq<IssueView>) -> Seq<char> {
    if issues.len() == 0 {
        Seq::empty()
    } else {
        REPORT_HEAD@ + issue_prompt_lines(at_most(issues, 6))
    }
}

fn issue_prompt_line_of(issue: &LedgerContinuityIssue) -> (r: String)
    ensures
        r@ == issue_prompt_line(issue@),
{
    let mut line = concat("\n- ", issue.entity_label.as_str());
    append(&mut line, "（");
    append(&mut line, issue.severity.as_str());
    append(&mut line, "）：候选稿“");
    append(&mut line, issue.candidate_quote.as_str());
    append(&mut line, "”；");
    append(&mut line, issue.source_chapter.as_str());
    append(&mut line, "“");
    append(&mut line, issue.source_quote.as_str());
    append(&mut line, "”。");
    append(&mut line, issue.suggestion.as_str());
    line
}

/// Renders a report for the revision prompt (see `report_prompt_text`).
pub fn render_report_for_prompt(report: &LedgerContinuityReport) -> (r: String)
    ensures
        r@ == report_prompt_text(issue_views(report.issues@)),
{
    let issues = &report.issues;
    if issues.len() == 0 {
        return String::new();
    }
    let ghost all = issue_views(issues@);
    let n = if issues.len() < 6 {
        issues.len()
    } else {
        6
    };
    let mut text = owned(REPORT_HEAD);
    let mut i: usize = 0;
    while i < n
        invariant
            n <= issues.len(),
            n == if all.len() < 6 { all.len() } else { 6 },
            all == issue_views(issues@),
            i <= n,
            text@ == REPORT_HEAD@ + issue_prompt_lines(all.take(i as int)),
        decreases n - i,
    {
        let issue = &issues[i];
        let line = issue_prompt_line_of(issue);
        append(&mut text, line.as_str());
        i = i + 1;
        assert(all.take(i as int).drop_last() == all.take(i - 1));
        assert(all.take(i as int).last() == issue@);
    }
    assert(at_most(all, 6) == all.take(n as int));
    text
}

/// A candidate can be checked: it belongs to the project and to a chapter,
/// and it is a draft or a revision.
pub open spec fn candidate_checkable(artifact: Artifact, project_id: i64) -> bool {
    &&& artifact.project_id == project_id
    &&& artifact.chapter_id is Some
    &&& (artifact.stage@ == "draft"@ || artifact.stage@ == "revision"@)
}

/// Refuses a candidate that cannot be checked (see `candidate_checkable`).
pub fn validate_candidate(artifact: &Artifact, project_id: i64) -> (r: Result<(), AppError>)
    ensures
        r is Ok <==> candidate_checkable(*artifact, project_id),
        r is Err ==> (r matches Err(AppError::Validation(m)) && m@ == "状态账本核对只支持当前项目的章节草稿或修订稿"@),
{
    if artifact.project_id != project_id || artifact.chapter_id.is_none() || (!str_eq(
        artifact.stage.as_str(),
        "draft",
    ) && !str_eq(artifact.stage.as_str(), "revision")) {
        return Err(AppError::Validation(owned("状态账本核对只支持当前项目的章节草稿或修订稿")));
    }
    Ok(())
}

/// The report made when there is no ledger to check against.
pub fn empty_report(project_id: i64, artifact_id: i64) -> (r: LedgerContinuityReport)
    ensures
        r.project_id == project_id,
        r.artifact_id == artifact_id,
        r.summary@ == EMPTY_LEDGER_SUMMARY@,
        r.issues@.len() == 0,
{
    LedgerContinuityReport {
        project_id,
        artifact_id,
        summary: owned(EMPTY_LEDGER_SUMMARY),
        issues: Vec::new(),
    }
}

/// The summary of a report with `n` issues.
pub open spec fn report_summary(n: int) -> Seq<char> {
    if n == 0 {
        NO_CONFLICT_SUMMARY@
    } else {
        "发现 "@ + decimal(n) + " 条与已通过正文状态直接冲突的引用。请先核对两侧原文；人工仍可决定是否修订或通过。"@
    }
}

/// The report of a check that found the given issues.
pub fn continuity_report(project_id: i64, artifact_id: i64, issues: Vec<LedgerContinuityIssue>) -> (r:
    LedgerContinuityReport)
    ensures
        r.project_id == project_id,
        r.artifact_id == artifact_id,
        r.summary@ == report_summary(issues@.len() as int),
        r.issues@ == issues@,
{
    let summary = if issues.len() == 0 {
        owned(NO_CONFLICT_SUMMARY)
    } else {
        let mut s = owned("发现 ");
        append(&mut s, decimal_of_count(issues.len()).as_str());
        append(&mut s, " 条与已通过正文状态直接冲突的引用。请先核对两侧原文；人工仍可决定是否修订或通过。");
        s
    };
    LedgerContinuityReport { project_id, artifact_id, summary, issues }
}

/// The marker under which a check of one candidate against one ledger is
/// cached.
pub open spec fn cache_marker_text(artifact_id: i64, candidate_hash: Seq<char>, ledger_hash: Seq<char>) -> Seq<char> {
    "# continuity-ledger-check="@ + CHECK_VERSION@ + "|artifact="@ + decimal(artifact_id as int)
        + "|candidate_hash="@ + candidate_hash + "|ledger_hash="@ + ledger_hash
}

/// Builds the cache marker (see `cache_marker_text`).
pub fn check_cache_marker(artifact_id: i64, candidate_hash: &str, ledger_hash: &str) -> (r: String)
    ensures
        r@ == cache_marker_text(artifact_id, candidate_hash@, ledger_hash@),
{
    let mut r = concat("# continuity-ledger-check=", CHECK_VERSION);
    append(&mut r, "|artifact=");
    append(&mut r, decimal_of(artifact_id).as_str());
    append(&mut r, "|candidate_hash=");
    append(&mut r, candidate_hash);
    append(&mut r, "|ledger_hash=");
    append(&mut r, ledger_hash);
    r
}

/// Whether a stored run holds the cached result of a check: a successful
/// check whose input begins with the marker.
pub fn is_cached_check(stage: &str, status: &str, input: &str, marker: &str) -> (r: bool)
    ensures
        r == (stage@ == CHECK_STAGE@ && status@ == "success"@ && begins(input@, marker@)),
{
    let iv = chars_of(input);
    let mv = chars_of(marker);
    str_eq(stage, CHECK_STAGE) && str_eq(status, "success") && starts_with(
        iv.as_slice(),
        mv.as_slice(),
    )
}

/// The JSON array in a model reply: from the first `[` to the last `]`.
pub fn extract_json_array(raw: &str) -> (r: Option<String>)
    ensures
        match r {
            Some(s) => delimited_span(raw@, '[', ']') == Some(s@),
            None => delimited_span(raw@, '[', ']') is None,
        },
{
    extract_delimited(raw, '[', ']')
}

/// An entry comes from a chapter numbered before `no` (found by id; an
/// entry of an unlisted chapter does not).
pub open spec fn entry_before(e: EntryView, chapters: Seq<Chapter>, no: i64) -> bool {
    match first_with_id(chapters, e.chapter_id) {
        Some(c) => chapters[c].chapter_no < no,
        None => false,
    }
}

/// The entries that come from chapters before `no`, in order.
pub open spec fn entries_before(s: Seq<EntryView>, chapters: Seq<Chapter>, no: i64) -> Seq<EntryView>
    decreases s.len(),
{
    if s.len() == 0 {
        Seq::empty()
    } else if entry_before(s.last(), chapters, no) {
        entries_before(s.drop_last(), chapters, no).push(s.last())
    } else {
        entries_before(s.drop_last(), chapters, no)
    }
}

/// The ledger entries that a candidate of chapter number `chapter_no` is
/// checked against (see `entries_before`).
pub fn entries_before_chapter(
    entries: Vec<ContinuityLedgerEntry>,
    chapters: &[Chapter],
    chapter_no: i64,
) -> (r: Vec<ContinuityLedgerEntry>)
    ensures
        entry_views(r@) == entries_before(entry_views(entries@), chapters@, chapter_no),
{
    let ghost all = entry_views(entries@);
    let mut kept: Vec<ContinuityLedgerEntry> = Vec::new();
    for entry in it: entries
        invariant
            all == entry_views(it.seq()),
            entry_views(kept@) == entries_before(all.take(it.index()), chapters@, chapter_no),
    {
        assert(all.take(it.index() + 1).drop_last() == all.take(it.index()));
        assert(all.take(it.index() + 1).last() == entry@);
        let keep = match chapter_index(chapters, entry.chapter_id) {
            Some(c) => chapters[c].chapter_no < chapter_no,
            None => false,
        };
        if keep {
            let ghost before = kept@;
            kept.push(entry);
            assert(entry_views(kept@) =~= entry_views(before).push(entry@));
        }
    }
    assert(all.take(all.len() as int) == all);
    kept
}

// ---------------------------------------------------------------------------
// A whole check
// ---------------------------------------------------------------------------
/// The issues of a candidate: the model's claims merged with those of the
/// exact-match pass, compared with the active states.
pub open spec fn candidate_issues(
    model_claims: Seq<ClaimView>,
    candidate_text: Seq<char>,
    active: Seq<EntryView>,
    chapters: Seq<Chapter>,
) -> Seq<IssueView> {
    compared_issues(
        merged_claims(model_claims, exact_claims(sentences_of(candidate_text), active)),
        active,
        chapters,
    )
}

/// Finishes a continuity check once the model's claims (already filtered)
/// are in: merges them with the exact-match pass, compares them with the
/// active states, and reports the issues.
pub fn finish_continuity_check(
    project_id: i64,
    artifact_id: i64,
    candidate_text: &str,
    model_claims: Vec<CandidateClaim>,
    active_states: &ActiveStates,
    chapters: &[Chapter],
) -> (r: LedgerContinuityReport)
    ensures
        r.project_id == project_id,
        r.artifact_id == artifact_id,
        issue_views(r.issues@) == candidate_issues(claim_views(model_claims@), candidate_text@, active_states@, chapters@),
        r.summary@ == report_summary(r.issues@.len() as int),
{
    let exact = explicit_exact_match_claims(candidate_text, active_states);
    let claims = merge_candidate_claims(model_claims, exact);
    let issues = compare_claims(claims.as_slice(), active_states, chapters);
    continuity_report(project_id, artifact_id, issues)
}

// ---------------------------------------------------------------------------
// What a check's issues look like
// ---------------------------------------------------------------------------
proof fn lemma_label_le_total(a: Seq<char>, b: Seq<char>)
    ensures
        label_le(a, b) || label_le(b, a),
    decreases a.len(),
{
    if a.len() > 0 && b.len() > 0 && a[0] == b[0] {
        lemma_label_le_total(a.drop_first(), b.drop_first());
    }
}

proof fn lemma_label_le_transitive(a: Seq<char>, b: Seq<char>, c: Seq<char>)
    requires
        label_le(a, b),
        label_le(b, c),
    ensures
        label_le(a, c),
    decreases a.len(),
{
    if a.len() > 0 && b.len() > 0 && c.len() > 0 && a[0] == b[0] && b[0] == c[0] {
        lemma_label_le_transitive(a.drop_first(), b.drop_first(), c.drop_first());
    }
}

/// The issues come in order of their labels.
pub open spec fn sorted_by_label(s: Seq<IssueView>) -> bool {
    forall|i: int, j: int|
        0 <= i < j < s.len() ==> label_le(#[trigger] s[i].entity_label, #[trigger] s[j].entity_label)
}

proof fn lemma_insert_members(s: Seq<IssueView>, x: IssueView)
    ensures
        insert_by_label(s, x).len() == s.len() + 1,
        forall|i: int|
            0 <= i < insert_by_label(s, x).len() ==> (#[trigger] insert_by_label(s, x)[i] == x
                || s.contains(insert_by_label(s, x)[i])),
    decreases s.len(),
{
    if s.len() > 0 && !label_le(s.last().entity_label, x.entity_label) {
        lemma_insert_members(s.drop_last(), x);
        let r = insert_by_label(s, x);
        let q = insert_by_label(s.drop_last(), x);
        assert forall|i: int| 0 <= i < r.len() implies (#[trigger] r[i] == x || s.contains(r[i])) by {
            if i < q.len() {
                assert(r[i] == q[i]);
                if q[i] != x {
                    let k = choose|k: int| 0 <= k < s.drop_last().len() && s.drop_last()[k] == q[i];
                    assert(s[k] == q[i]);
                }
            } else {
                assert(r[i] == s[s.len() - 1]);
            }
        }
    } else if s.len() > 0 {
        let r = insert_by_label(s, x);
        assert forall|i: int| 0 <= i < r.len() implies (#[trigger] r[i] == x || s.contains(r[i])) by {
            if i < s.len() {
                assert(r[i] == s[i]);
            }
        }
    }
}

proof fn lemma_insert_sorted(s: Seq<IssueView>, x: IssueView)
    requires
        sorted_by_label(s),
    ensures
        sorted_by_label(insert_by_label(s, x)),
    decreases s.len(),
{
    if s.len() == 0 {
    } else if label_le(s.last().entity_label, x.entity_label) {
        let r = s.push(x);
        assert forall|i: int, j: int| 0 <= i < j < r.len() implies label_le(
            #[trigger] r[i].entity_label,
            #[trigger] r[j].entity_label,
        ) by {
            if j == s.len() {
                if i < s.len() - 1 {
                    lemma_label_le_transitive(s[i].entity_label, s.last().entity_label, x.entity_label);
                }
            }
        }
    } else {
        let d = s.drop_last();
        assert(sorted_by_label(d));
        lemma_insert_sorted(d, x);
        lemma_insert_members(d, x);
        lemma_label_le_total(s.last().entity_label, x.entity_label);
        let q = insert_by_label(d, x);
        let r = q.push(s.last());
        assert forall|i: int, j: int| 0 <= i < j < r.len() implies label_le(
            #[trigger] r[i].entity_label,
            #[trigger] r[j].entity_label,
        ) by {
            if j == q.len() {
                assert(r[i] == q[i]);
                if q[i] != x {
                    let k = choose|k: int| 0 <= k < d.len() && d[k] == q[i];
                    assert(s[k] == q[i]);
                    assert(label_le(s[k].entity_label, s[s.len() - 1].entity_label));
                }
            } else {
                assert(r[i] == q[i]);
                assert(r[j] == q[j]);
            }
        }
    }
}

proof fn lemma_sort_sorted(s: Seq<IssueView>)
    ensures
        sorted_by_label(sort_by_label(s)),
    decreases s.len(),
{
    if s.len() > 0 {
        lemma_sort_sorted(s.drop_last());
        lemma_insert_sorted(sort_by_label(s.drop_last()), s.last());
    }
}

proof fn lemma_dedup_members(s: Seq<IssueView>)
    ensures
        forall|i: int| 0 <= i < dedup_issues(s).len() ==> s.contains(#[trigger] dedup_issues(s)[i]),
        s.len() > 0 ==> dedup_issues(s).len() > 0 && same_issue(dedup_issues(s).last(), s.last()),
    decreases s.len(),
{
    if s.len() > 1 {
        let d = s.drop_last();
        lemma_dedup_members(d);
        let r = dedup_issues(s);
        assert forall|i: int| 0 <= i < r.len() implies s.contains(#[trigger] r[i]) by {
            if i < dedup_issues(d).len() {
                assert(r[i] == dedup_issues(d)[i]);
                let k = choose|k: int| 0 <= k < d.len() && d[k] == r[i];
                assert(s[k] == r[i]);
            } else {
                assert(r[i] == s[s.len() - 1]);
            }
        }
    } else if s.len() == 1 {
        assert(dedup_issues(s) == s);
        assert forall|i: int| 0 <= i < s.len() implies s.contains(#[trigger] s[i]) by {}
    }
}

proof fn lemma_dedup_properties(s: Seq<IssueView>)
    requires
        sorted_by_label(s),
    ensures
        sorted_by_label(dedup_issues(s)),
        forall|i: int|
            0 <= i < dedup_issues(s).len() - 1 ==> !same_issue(
                #[trigger] dedup_issues(s)[i],
                dedup_issues(s)[i + 1],
            ),
    decreases s.len(),
{
    if s.len() > 1 {
        let d = s.drop_last();
        assert(sorted_by_label(d));
        lemma_dedup_properties(d);
        lemma_dedup_members(d);
        let dd = dedup_issues(d);
        if !same_issue(s[s.len() - 2], s.last()) {
            let r = dd.push(s.last());
            assert forall|i: int, j: int| 0 <= i < j < r.len() implies label_le(
                #[trigger] r[i].entity_label,
                #[trigger] r[j].entity_label,
            ) by {
                assert(r[i] == dd[i]);
                if j < dd.len() {
                    assert(r[j] == dd[j]);
                } else {
                    let k = choose|k: int| 0 <= k < d.len() && d[k] == dd[i];
                    assert(s[k] == dd[i]);
                }
            }
            assert forall|i: int| 0 <= i < r.len() - 1 implies !same_issue(
                #[trigger] r[i],
                r[i + 1],
            ) by {
                assert(r[i] == dd[i]);
                if i + 1 < dd.len() {
                    assert(r[i + 1] == dd[i + 1]);
                } else {
                    assert(dd.last() == dd[i]);
                    assert(same_issue(dd.last(), d.last()));
                    assert(d.last() == s[s.len() - 2]);
                }
            }
        }
    }
}

/// The issues of a check come in order of their labels, and no issue
/// repeats the label and quote of the one before it.
pub proof fn compared_issues_sorted_and_distinct(
    claims: Seq<ClaimView>,
    states: Seq<EntryView>,
    chapters: Seq<Chapter>,
)
    ensures
        sorted_by_label(compared_issues(claims, states, chapters)),
        forall|i: int|
            0 <= i < compared_issues(claims, states, chapters).len() - 1 ==> !same_issue(
                #[trigger] compared_issues(claims, states, chapters)[i],
                compared_issues(claims, states, chapters)[i + 1],
            ),
{
    let raised = raised_issues(claims, states, chapters);
    lemma_sort_sorted(raised);
    lemma_dedup_properties(sort_by_label(raised));
}

/// A transition never raises an issue: a claim that shows the state change
/// on the page is not a conflict, whatever the ledger says.
pub proof fn transitions_raise_no_issue(
    claim: ClaimView,
    states: Seq<EntryView>,
    chapters: Seq<Chapter>,
)
    requires
        claim.claim_mode == "transition"@,
    ensures
        claim_issue(claim, states, chapters) is None,
{
}

/// A reference raises an issue exactly when the entity's last state, found
/// by its normalized key and kind of state, conflicts with the state the
/// reference needs.
pub proof fn references_raise_issues_on_conflict(
    claim: ClaimView,
    states: Seq<EntryView>,
    chapters: Seq<Chapter>,
)
    requires
        claim.claim_mode != "transition"@,
    ensures
        (claim_issue(claim, states, chapters) is Some) <==> (match key_position(
            states,
            (entity_key_norm(claim.entity_key), claim.state_kind),
        ) {
            Some(i) => conflicting(claim.required_state, states[i].state_value),
            None => false,
        }),
{
}

/// The pairs of needed and last approved states that conflict, in words: an
/// item held after it was consumed, lost or depleted; a thing usable after
/// it was sealed, made inactive, damaged or depleted; a wound recovered
/// while it is still present or ongoing.
pub open spec fn ruled_out(required: Seq<char>, previous: Seq<char>) -> bool {
    ||| required == "held"@ && (previous == "consumed"@ || previous == "lost"@ || previous == "depleted"@)
    ||| required == "usable"@ && (previous == "sealed"@ || previous == "inactive"@ || previous
        == "damaged"@ || previous == "depleted"@)
    ||| required == "recovered"@ && (previous == "present"@ || previous == "ongoing"@)
}

/// A reference (not a transition) raises an issue exactly when the entity's
/// last approved state, found by its normalized key and kind of state, rules
/// out the state the reference needs (see `ruled_out`); a reference to an
/// entity with no approved state raises none.
pub proof fn references_raise_issues_on_ruled_out_states(
    claim: ClaimView,
    states: Seq<EntryView>,
    chapters: Seq<Chapter>,
)
    requires
        claim.claim_mode != "transition"@,
    ensures
        match key_position(states, (entity_key_norm(claim.entity_key), claim.state_kind)) {
            None => claim_issue(claim, states, chapters) is None,
            Some(i) => (claim_issue(claim, states, chapters) is Some) <==> ruled_out(
                claim.required_state,
                states[i].state_value,
            ),
        },
{
    reveal_strlit("held");
    reveal_strlit("usable");
    reveal_strlit("recovered");
    assert("held"@.len() != "usable"@.len());
    assert("held"@.len() != "recovered"@.len());
    assert("usable"@.len() != "recovered"@.len());
    assert(forall|r: Seq<char>, p: Seq<char>| #[trigger] conflicting(r, p) == ruled_out(r, p));
}

proof fn lemma_raised_contains(claims: Seq<ClaimView>, states: Seq<EntryView>, chapters: Seq<Chapter>, k: int)
    requires
        0 <= k < claims.len(),
        claim_issue(claims[k], states, chapters) is Some,
    ensures
        raised_issues(claims, states, chapters).contains(claim_issue(claims[k], states, chapters)->0),
    decreases claims.len(),
{
    let x = claim_issue(claims[k], states, chapters)->0;
    let r = raised_issues(claims, states, chapters);
    if k == claims.len() - 1 {
        assert(r.last() == x);
    } else {
        let d = claims.drop_last();
        assert(d[k] == claims[k]);
        lemma_raised_contains(d, states, chapters, k);
        let rd = raised_issues(d, states, chapters);
        let t = choose|t: int| 0 <= t < rd.len() && rd[t] == x;
        assert(r[t] == rd[t]);
    }
}

proof fn lemma_insert_keeps(s: Seq<IssueView>, x: IssueView)
    ensures
        insert_by_label(s, x).contains(x),
        forall|i: int| 0 <= i < s.len() ==> insert_by_label(s, x).contains(#[trigger] s[i]),
    decreases s.len(),
{
    let r = insert_by_label(s, x);
    if s.len() == 0 {
        assert(r[0] == x);
    } else if label_le(s.last().entity_label, x.entity_label) {
        assert(r[s.len() as int] == x);
        assert forall|i: int| 0 <= i < s.len() implies r.contains(#[trigger] s[i]) by {
            assert(r[i] == s[i]);
        }
    } else {
        let d = s.drop_last();
        lemma_insert_keeps(d, x);
        let q = insert_by_label(d, x);
        let t = choose|t: int| 0 <= t < q.len() && q[t] == x;
        assert(r[t] == q[t]);
        assert forall|i: int| 0 <= i < s.len() implies r.contains(#[trigger] s[i]) by {
            if i < d.len() {
                assert(d[i] == s[i]);
                let u = choose|u: int| 0 <= u < q.len() && q[u] == d[i];
                assert(r[u] == q[u]);
            } else {
                assert(r[q.len() as int] == s[i]);
            }
        }
    }
}

proof fn lemma_sort_keeps(s: Seq<IssueView>)
    ensures
        forall|i: int| 0 <= i < s.len() ==> sort_by_label(s).contains(#[trigger] s[i]),
    decreases s.len(),
{
    if s.len() > 0 {
        let d = s.drop_last();
        lemma_sort_keeps(d);
        lemma_insert_keeps(sort_by_label(d), s.last());
        let sd = sort_by_label(d);
        assert forall|i: int| 0 <= i < s.len() implies sort_by_label(s).contains(#[trigger] s[i]) by {
            if i < d.len() {
                assert(d[i] == s[i]);
                let u = choose|u: int| 0 <= u < sd.len() && sd[u] == d[i];
                assert(sd.contains(sd[u]));
            }
        }
    }
}

proof fn lemma_dedup_represents(s: Seq<IssueView>)
    ensures
        forall|i: int|
            #![trigger s[i]]
            0 <= i < s.len() ==> exists|j: int|
                0 <= j < dedup_issues(s).len() && same_issue(#[trigger] dedup_issues(s)[j], s[i]),
    decreases s.len(),
{
    if s.len() > 1 {
        let d = s.drop_last();
        lemma_dedup_represents(d);
        lemma_dedup_members(d);
        let r = dedup_issues(s);
        let rd = dedup_issues(d);
        assert forall|i: int| #![trigger s[i]] 0 <= i < s.len() implies exists|j: int|
            0 <= j < r.len() && same_issue(#[trigger] r[j], s[i]) by {
            if i < d.len() {
                assert(d[i] == s[i]);
                let j = choose|j: int| 0 <= j < rd.len() && same_issue(#[trigger] rd[j], d[i]);
                assert(r[j] == rd[j]);
            } else if same_issue(s[s.len() - 2], s.last()) {
                let j = choose|j: int| 0 <= j < rd.len() && same_issue(#[trigger] rd[j], d[d.len() - 1]);
                assert(r[j] == rd[j]);
            } else {
                assert(r[rd.len() as int] == s[i]);
            }
        }
    } else if s.len() == 1 {
        assert(same_issue(dedup_issues(s)[0], s[0]));
    }
}

/// Every issue that a claim raises is reported: the check's issues hold one
/// with the same label and candidate quote.
pub proof fn raised_issues_are_reported(
    claims: Seq<ClaimView>,
    states: Seq<EntryView>,
    chapters: Seq<Chapter>,
    k: int,
)
    requires
        0 <= k < claims.len(),
        claim_issue(claims[k], states, chapters) is Some,
    ensures
        exists|j: int|
            0 <= j < compared_issues(claims, states, chapters).len() && same_issue(
                #[trigger] compared_issues(claims, states, chapters)[j],
                claim_issue(claims[k], states, chapters)->0,
            ),
{
    let x = claim_issue(claims[k], states, chapters)->0;
    let raised = raised_issues(claims, states, chapters);
    lemma_raised_contains(claims, states, chapters, k);
    let t = choose|t: int| 0 <= t < raised.len() && raised[t] == x;
    lemma_sort_keeps(raised);
    let sorted = sort_by_label(raised);
    assert(sorted.contains(raised[t]));
    let u = choose|u: int| 0 <= u < sorted.len() && sorted[u] == x;
    lemma_dedup_represents(sorted);
    let j = choose|j: int|
        0 <= j < dedup_issues(sorted).len() && same_issue(#[trigger] dedup_issues(sorted)[j], sorted[u]);
    assert(compared_issues(claims, states, chapters)[j] == dedup_issues(sorted)[j]);
}

/// A candidate that relies on a state the ledger rules out is caught: when a
/// reference needs a state that the entity's last approved state rules out
/// (a wound recovered while still present, say), the check reports an issue
/// for that entity and quote.
pub proof fn ruled_out_references_are_reported(
    claims: Seq<ClaimView>,
    states: Seq<EntryView>,
    chapters: Seq<Chapter>,
    k: int,
    i: int,
)
    requires
        0 <= k < claims.len(),
        claims[k].claim_mode != "transition"@,
        key_position(states, (entity_key_norm(claims[k].entity_key), claims[k].state_kind)) == Some(i),
        ruled_out(claims[k].required_state, states[i].state_value),
    ensures
        exists|j: int|
            0 <= j < compared_issues(claims, states, chapters).len() && same_issue(
                #[trigger] compared_issues(claims, states, chapters)[j],
                issue_of(claims[k], states[i], chapters),
            ),
{
    references_raise_issues_on_ruled_out_states(claims[k], states, chapters);
    raised_issues_are_reported(claims, states, chapters, k);
}

} // verus!
