//! What the App's history tools find before a chapter: the ledger states and
//! story facts of earlier chapters that a candidate or its searches name,
//! and the passages that the searches return.
use vstd::prelude::*;

use crate::chapter_memory::{chapter_index, first_with_id};
use crate::context_search::{
    copy_request, distinct_labels, no_hit_text, render_no_hit_context, render_tool_context,
    tool_context_text, heading_entities, markdown_entity_headings, rank_reference_labels,
    request_views, sort_ranked, weighted_views, LedgerHit, RequestView, SearchRequest, StoryContextSnippet, StoryFactHit,
};
use crate::continuity_ledger::{label_le, label_le_chars};
use crate::error::AppError;
use crate::stage::Stage;
use crate::models::{entry_views, Chapter, ContinuityLedgerEntry, EntryView, StoryEntity, StoryFact};
use crate::text::{blank, chars_eq, chars_of, contains_seq, occurs_at, is_blank, join, join_strings, owned, str_contains, views};

verus! {

/// The most hits that a search result keeps.
pub const MAX_HITS: usize = 12;

// ---------------------------------------------------------------------------
// Ledger states of earlier chapters
// ---------------------------------------------------------------------------
/// A ledger hit as integers and text.
pub struct HitView {
    pub entry: EntryView,
    pub chapter_no: i64,
    pub chapter_title: Seq<char>,
}

impl View for LedgerHit {
    type V = HitView;

    open spec fn view(&self) -> HitView {
        HitView { entry: self.entry@, chapter_no: self.chapter_no, chapter_title: self.chapter_title@ }
    }
}

/// The views of a list of ledger hits.
pub open spec fn hit_views(s: Seq<LedgerHit>) -> Seq<HitView> {
    s.map_values(|h: LedgerHit| h@)
}

/// The index of the last chapter with the given id: the one a lookup table
/// built from the chapters in order keeps.
pub open spec fn last_with_id(chapters: Seq<Chapter>, id: i64) -> Option<int>
    decreases chapters.len(),
{
    if chapters.len() == 0 {
        None
    } else if chapters.last().id == id {
        Some(chapters.len() - 1)
    } else {
        last_with_id(chapters.drop_last(), id)
    }
}

/// An entry as a hit, when its chapter is known and comes before chapter
/// number `current_no`.
pub open spec fn prior_hit(e: EntryView, chapters: Seq<Chapter>, current_no: i64) -> Option<HitView> {
    match last_with_id(chapters, e.chapter_id) {
        Some(c) => if chapters[c].chapter_no < current_no {
            Some(HitView { entry: e, chapter_no: chapters[c].chapter_no, chapter_title: chapters[c].title@ })
        } else {
            None
        },
        None => None,
    }
}

/// The entries of chapters before chapter number `current_no`, as hits, in
/// order.
pub open spec fn prior_hits(s: Seq<EntryView>, chapters: Seq<Chapter>, current_no: i64) -> Seq<HitView>
    decreases s.len(),
{
    if s.len() == 0 {
        Seq::empty()
    } else {
        let rest = prior_hits(s.drop_last(), chapters, current_no);
        match prior_hit(s.last(), chapters, current_no) {
            Some(h) => rest.push(h),
            None => rest,
        }
    }
}

/// The index of the last chapter with the given id (see `last_with_id`).
pub fn last_chapter_index(chapters: &[Chapter], id: i64) -> (r: Option<usize>)
    ensures
        match r {
            Some(c) => c < chapters@.len() && last_with_id(chapters@, id) == Some(c as int),
            None => last_with_id(chapters@, id) is None,
        },
{
    let mut c: usize = chapters.len();
    assert(chapters@.take(c as int) == chapters@);
    while c > 0
        invariant
            c <= chapters@.len(),
            last_with_id(chapters@, id) == last_with_id(chapters@.take(c as int), id),
        decreases c,
    {
        let ghost t = chapters@.take(c as int);
        assert(t.drop_last() == chapters@.take(c - 1));
        assert(t.last() == chapters@[c - 1]);
        if chapters[c - 1].id == id {
            return Some(c - 1);
        }
        c = c - 1;
    }
    None
}

/// The ledger entries of chapters before the given chapter, with each one's
/// chapter number and title. Fails when the project has no chapter with
/// that id.
pub fn prior_ledger_entries(
    chapters: &[Chapter],
    chapter_id: i64,
    entries: Vec<ContinuityLedgerEntry>,
) -> (r: Result<Vec<LedgerHit>, AppError>)
    ensures
        match first_with_id(chapters@, chapter_id) {
            None => r matches Err(AppError::Validation(m)) && m@ == "章节不存在"@,
            Some(c) => r matches Ok(v) && hit_views(v@) == prior_hits(
                entry_views(entries@),
                chapters@,
                chapters@[c].chapter_no,
            ),
        },
{
    let current_no = match chapter_index(chapters, chapter_id) {
        Some(c) => chapters[c].chapter_no,
        None => return Err(AppError::Validation(owned("章节不存在"))),
    };
    let ghost all = entry_views(entries@);
    let mut hits: Vec<LedgerHit> = Vec::new();
    for entry in it: entries
        invariant
            all == entry_views(it.seq()),
            hit_views(hits@) == prior_hits(all.take(it.index()), chapters@, current_no),
    {
        assert(all.take(it.index() + 1).drop_last() == all.take(it.index()));
        assert(all.take(it.index() + 1).last() == entry@);
        match last_chapter_index(chapters, entry.chapter_id) {
            Some(c) => {
                if chapters[c].chapter_no < current_no {
                    let ghost before = hit_views(hits@);
                    let hit = LedgerHit {
                        entry,
                        chapter_no: chapters[c].chapter_no,
                        chapter_title: chapters[c].title.clone(),
                    };
                    let ghost hv = hit@;
                    hits.push(hit);
                    assert(hit_views(hits@) =~= before.push(hv));
                }
            },
            None => {},
        }
    }
    assert(all.take(all.len() as int) == all);
    Ok(hits)
}

// ---------------------------------------------------------------------------
// The catalog of ledger labels
// ---------------------------------------------------------------------------
/// `s` is in strictly increasing label order.
pub open spec fn strictly_sorted(s: Seq<Seq<char>>) -> bool {
    forall|i: int, j: int|
        0 <= i < j < s.len() ==> label_le(#[trigger] s[i], #[trigger] s[j]) && s[i] != s[j]
}

/// `l` is the label of some hit and not blank.
pub open spec fn catalog_label(hits: Seq<HitView>, l: Seq<char>) -> bool {
    !blank(l) && exists|i: int| 0 <= i < hits.len() && #[trigger] hits[i].entry.entity_label == l
}

proof fn lemma_label_le_refl(a: Seq<char>)
    ensures
        label_le(a, a),
    decreases a.len(),
{
    if a.len() > 0 {
        lemma_label_le_refl(a.drop_first());
    }
}

proof fn lemma_label_le_total(a: Seq<char>, b: Seq<char>)
    ensures
        label_le(a, b) || label_le(b, a),
    decreases a.len(),
{
    if a.len() > 0 && b.len() > 0 && a[0] == b[0] {
        lemma_label_le_total(a.drop_first(), b.drop_first());
    }
}

proof fn lemma_label_le_antisym(a: Seq<char>, b: Seq<char>)
    requires
        label_le(a, b),
        label_le(b, a),
    ensures
        a == b,
    decreases a.len(),
{
    if a.len() > 0 && b.len() > 0 {
        lemma_label_le_antisym(a.drop_first(), b.drop_first());
        assert(a =~= seq![a[0]] + a.drop_first());
        assert(b =~= seq![b[0]] + b.drop_first());
    }
}

proof fn lemma_label_le_trans(a: Seq<char>, b: Seq<char>, c: Seq<char>)
    requires
        label_le(a, b),
        label_le(b, c),
    ensures
        label_le(a, c),
    decreases a.len(),
{
    if a.len() > 0 && b.len() > 0 && c.len() > 0 && a[0] == b[0] && b[0] == c[0] {
        lemma_label_le_trans(a.drop_first(), b.drop_first(), c.drop_first());
    }
}

/// The distinct labels of the hits, blank ones left out, in increasing
/// order: the list is strictly sorted and holds exactly the non-blank labels.
pub fn prior_ledger_catalog(hits: &[LedgerHit]) -> (r: Vec<String>)
    ensures
        strictly_sorted(views(r@)),
        forall|l: Seq<char>| views(r@).contains(l) <==> catalog_label(hit_views(hits@), l),
{
    let ghost hv = hit_views(hits@);
    let mut labels: Vec<String> = Vec::new();
    let mut i: usize = 0;
    while i < hits.len()
        invariant
            i <= hits.len(),
            hv == hit_views(hits@),
            strictly_sorted(views(labels@)),
            forall|l: Seq<char>| views(labels@).contains(l) <==> catalog_label(hv.take(i as int), l),
        decreases hits.len() - i,
    {
        let label = &hits[i].entry.entity_label;
        assert(hv[i as int].entry.entity_label == label@);
        if !is_blank(label.as_str()) {
            insert_label(&mut labels, label);
        }
        proof {
            let t = hv.take(i + 1);
            assert forall|l: Seq<char>| views(labels@).contains(l) <==> catalog_label(t, l) by {
                if catalog_label(t, l) {
                    let k = choose|k: int| 0 <= k < t.len() && #[trigger] t[k].entry.entity_label == l;
                    if k < i {
                        assert(hv.take(i as int)[k].entry.entity_label == l);
                        assert(catalog_label(hv.take(i as int), l));
                    }
                }
                if catalog_label(hv.take(i as int), l) {
                    let k = choose|k: int|
                        0 <= k < i && #[trigger] hv.take(i as int)[k].entry.entity_label == l;
                    assert(t[k].entry.entity_label == l);
                }
                if views(labels@).contains(l) && l == label@ {
                    assert(t[i as int].entry.entity_label == l);
                }
            }
        }
        i = i + 1;
    }
    assert(hv.take(hits.len() as int) == hv);
    labels
}

/// Puts `label` into a strictly sorted list where it belongs, unless it is
/// there already.
fn insert_label(labels: &mut Vec<String>, label: &String)
    requires
        strictly_sorted(views(old(labels)@)),
    ensures
        strictly_sorted(views(final(labels)@)),
        forall|l: Seq<char>|
            views(final(labels)@).contains(l) <==> (views(old(labels)@).contains(l) || l == label@),
{
    let ghost before = views(labels@);
    let x = chars_of(label.as_str());
    let mut k: usize = 0;
    let mut found = false;
    while k < labels.len() && !found
        invariant
            k <= labels.len(),
            before == views(labels@),
            strictly_sorted(before),
            forall|m: int| 0 <= m < k ==> !label_le(x@, #[trigger] before[m]),
            found ==> k < labels.len() && label_le(x@, before[k as int]),
        decreases labels.len() - k, if found { 0int } else { 1int },
    {
        let y = chars_of(labels[k].as_str());
        assert(before[k as int] == y@);
        if label_le_chars(x.as_slice(), y.as_slice()) {
            found = true;
        } else {
            k = k + 1;
        }
    }
    proof {
        assert forall|m: int| 0 <= m < k implies label_le(#[trigger] before[m], x@) && before[m]
            != x@ by {
            lemma_label_le_total(x@, before[m]);
            lemma_label_le_refl(x@);
        }
    }
    if found {
        let y = chars_of(labels[k].as_str());
        assert(before[k as int] == y@);
        if chars_eq(x.as_slice(), y.as_slice()) {
            return;
        }
    }
    let ghost xs = label@;
    proof {
        assert forall|m: int| k <= m < before.len() implies label_le(xs, #[trigger] before[m])
            && before[m] != xs by {
            assert(found);
            if m > k {
                lemma_label_le_trans(xs, before[k as int], before[m]);
                if before[m] == xs {
                    lemma_label_le_antisym(xs, before[k as int]);
                }
            }
        }
    }
    labels.insert(k, label.clone());
    let ghost after = views(labels@);
    assert(after =~= before.insert(k as int, xs));
    assert forall|i: int, j: int| 0 <= i < j < after.len() implies label_le(
        #[trigger] after[i],
        #[trigger] after[j],
    ) && after[i] != after[j] by {
        if i < k && j > k {
            lemma_label_le_trans(before[i], xs, before[j - 1]);
            if before[i] == before[j - 1] {
                lemma_label_le_antisym(before[i], xs);
            }
        }
    }
    assert forall|l: Seq<char>| after.contains(l) <==> (before.contains(l) || l == xs) by {
        if before.contains(l) {
            let m = choose|m: int| 0 <= m < before.len() && before[m] == l;
            if m < k {
                assert(after[m] == l);
            } else {
                assert(after[m + 1] == l);
            }
        }
        if l == xs {
            assert(after[k as int] == l);
        }
        if after.contains(l) {
            let m = choose|m: int| 0 <= m < after.len() && after[m] == l;
            if m < k {
                assert(before[m] == l);
            } else if m > k {
                assert(before[m - 1] == l);
            }
        }
    }
}

// ---------------------------------------------------------------------------
// Stable ordering
// ---------------------------------------------------------------------------
/// `x` placed into `s` right after the last element that ranks no later than
/// it (at the front when there is none).
pub open spec fn insert_stable<T>(s: Seq<T>, x: T, le: spec_fn(T, T) -> bool) -> Seq<T>
    decreases s.len(),
{
    if s.len() == 0 {
        seq![x]
    } else if le(s.last(), x) {
        s.push(x)
    } else {
        insert_stable(s.drop_last(), x, le).push(s.last())
    }
}

/// `s` sorted by `le`, elements that rank alike kept in their order.
pub open spec fn stable_sort<T>(s: Seq<T>, le: spec_fn(T, T) -> bool) -> Seq<T>
    decreases s.len(),
{
    if s.len() == 0 {
        Seq::empty()
    } else {
        insert_stable(stable_sort(s.drop_last(), le), s.last(), le)
    }
}

proof fn lemma_insert_stable_at<T>(s: Seq<T>, x: T, le: spec_fn(T, T) -> bool, j: int)
    requires
        0 <= j <= s.len(),
        forall|k: int| j <= k < s.len() ==> !le(#[trigger] s[k], x),
        j == 0 || le(s[j - 1], x),
    ensures
        insert_stable(s, x, le) == s.insert(j, x),
    decreases s.len(),
{
    if s.len() == 0 {
        assert(s.insert(j, x) =~= seq![x]);
    } else if j == s.len() {
        assert(le(s.last(), x));
        assert(s.insert(j, x) =~= s.push(x));
    } else {
        assert(!le(s[s.len() - 1], x));
        lemma_insert_stable_at(s.drop_last(), x, le, j);
        assert(s.insert(j, x) =~= s.drop_last().insert(j, x).push(s.last()));
    }
}

// ---------------------------------------------------------------------------
// The ledger states that a candidate or its searches name
// ---------------------------------------------------------------------------
/// The queries of the searches, one per line.
pub open spec fn query_text(searches: Seq<RequestView>) -> Seq<char> {
    join(searches.map_values(|r: RequestView| r.query), "\n"@)
}

/// The source or the queries name the hit's entity, by label or by key.
pub open spec fn hit_relevant(h: HitView, source: Seq<char>, queries: Seq<char>) -> bool {
    contains_seq(source, h.entry.entity_label) || contains_seq(source, h.entry.entity_key)
        || contains_seq(queries, h.entry.entity_label) || contains_seq(queries, h.entry.entity_key)
}

/// Two hits are about the same state of the same entity.
pub open spec fn same_state(a: HitView, b: HitView) -> bool {
    a.entry.entity_key == b.entry.entity_key && a.entry.state_kind == b.entry.state_kind
}

/// `a` is newer than `b`: a later chapter, or the same chapter and a later
/// entry.
pub open spec fn newer_hit(a: HitView, b: HitView) -> bool {
    a.chapter_no > b.chapter_no || (a.chapter_no == b.chapter_no && a.entry.id > b.entry.id)
}

/// The index of the hit about the same state as `h`, searching from the end.
pub open spec fn state_index(acc: Seq<HitView>, h: HitView) -> Option<int>
    decreases acc.len(),
{
    if acc.len() == 0 {
        None
    } else if same_state(acc.last(), h) {
        Some(acc.len() - 1)
    } else {
        state_index(acc.drop_last(), h)
    }
}

/// The hits with `h` taken in: a new state is added, a known one replaced
/// when `h` is newer.
pub open spec fn absorb_hit(acc: Seq<HitView>, h: HitView) -> Seq<HitView> {
    match state_index(acc, h) {
        None => acc.push(h),
        Some(i) => if newer_hit(h, acc[i]) {
            acc.update(i, h)
        } else {
            acc
        },
    }
}

/// The newest relevant hit of each state, in the order the states first
/// appear.
pub open spec fn latest_hits(s: Seq<HitView>, source: Seq<char>, queries: Seq<char>) -> Seq<HitView>
    decreases s.len(),
{
    if s.len() == 0 {
        Seq::empty()
    } else {
        let acc = latest_hits(s.drop_last(), source, queries);
        if hit_relevant(s.last(), source, queries) {
            absorb_hit(acc, s.last())
        } else {
            acc
        }
    }
}

/// `a` ranks no later than `b`: a later chapter first, then by label.
pub open spec fn hit_ranks_before(a: HitView, b: HitView) -> bool {
    a.chapter_no > b.chapter_no || (a.chapter_no == b.chapter_no && label_le(
        a.entry.entity_label,
        b.entry.entity_label,
    ))
}

/// The ranking of ledger hits (see `hit_ranks_before`).
pub open spec fn by_hit_rank() -> spec_fn(HitView, HitView) -> bool {
    |a: HitView, b: HitView| hit_ranks_before(a, b)
}

/// The first `n` elements of `s`, or all of them when there are fewer.
pub open spec fn at_most<T>(s: Seq<T>, n: int) -> Seq<T> {
    if s.len() <= n {
        s
    } else {
        s.take(n)
    }
}

/// The ledger states to show for a candidate: of the hits whose entity the
/// source or a search query names, the newest of each state, latest chapter
/// first and then by label, at most `MAX_HITS`.
pub open spec fn matching_ledger(hits: Seq<HitView>, source: Seq<char>, searches: Seq<RequestView>) -> Seq<
    HitView,
> {
    at_most(
        stable_sort(
            latest_hits(hits, source, query_text(searches)),
            by_hit_rank(),
        ),
        MAX_HITS as int,
    )
}

/// The queries of the searches joined by newlines.
pub fn search_query_text(searches: &[SearchRequest]) -> (r: String)
    ensures
        r@ == query_text(request_views(searches@)),
{
    let mut queries: Vec<String> = Vec::new();
    let mut i: usize = 0;
    while i < searches.len()
        invariant
            i <= searches.len(),
            queries@.len() == i,
            forall|k: int| 0 <= k < i ==> #[trigger] queries@[k]@ == searches@[k].query@,
        decreases searches.len() - i,
    {
        queries.push(searches[i].query.clone());
        i = i + 1;
    }
    assert(views(queries@) =~= request_views(searches@).map_values(|r: RequestView| r.query));
    join_strings(queries.as_slice(), "\n")
}

fn ledger_hit_relevant(h: &LedgerHit, source: &str, queries: &str) -> (r: bool)
    ensures
        r == hit_relevant(h@, source@, queries@),
{
    str_contains(source, h.entry.entity_label.as_str()) || str_contains(
        source,
        h.entry.entity_key.as_str(),
    ) || str_contains(queries, h.entry.entity_label.as_str()) || str_contains(
        queries,
        h.entry.entity_key.as_str(),
    )
}

fn find_state(acc: &Vec<LedgerHit>, h: &LedgerHit) -> (r: Option<usize>)
    ensures
        match r {
            Some(i) => i < acc@.len() && state_index(hit_views(acc@), h@) == Some(i as int),
            None => state_index(hit_views(acc@), h@) is None,
        },
{
    let ghost av = hit_views(acc@);
    let mut c: usize = acc.len();
    assert(av.take(c as int) == av);
    while c > 0
        invariant
            c <= acc@.len(),
            av == hit_views(acc@),
            state_index(av, h@) == state_index(av.take(c as int), h@),
        decreases c,
    {
        let t = Ghost(av.take(c as int));
        assert(t@.drop_last() == av.take(c - 1));
        assert(t@.last() == acc@[c - 1]@);
        if crate::text::str_eq(acc[c - 1].entry.entity_key.as_str(), h.entry.entity_key.as_str())
            && crate::text::str_eq(acc[c - 1].entry.state_kind.as_str(), h.entry.state_kind.as_str()) {
            return Some(c - 1);
        }
        c = c - 1;
    }
    None
}

fn ranks_before_exec(a: &LedgerHit, b: &LedgerHit) -> (r: bool)
    ensures
        r == hit_ranks_before(a@, b@),
{
    if a.chapter_no != b.chapter_no {
        return a.chapter_no > b.chapter_no;
    }
    let al = chars_of(a.entry.entity_label.as_str());
    let bl = chars_of(b.entry.entity_label.as_str());
    label_le_chars(al.as_slice(), bl.as_slice())
}

fn insert_hit(v: &mut Vec<LedgerHit>, x: LedgerHit)
    ensures
        hit_views(final(v)@) == insert_stable(hit_views(old(v)@), x@, by_hit_rank()),
{
    let ghost before = hit_views(v@);
    let mut j: usize = v.len();
    let mut found = false;
    while j > 0 && !found
        invariant
            j <= v@.len(),
            before == hit_views(v@),
            forall|k: int| j <= k < before.len() ==> !hit_ranks_before(#[trigger] before[k], x@),
            found ==> j > 0 && hit_ranks_before(before[j - 1], x@),
        decreases 2 * j + if found { 0int } else { 1int },
    {
        assert(before[j - 1] == v@[j - 1]@);
        if ranks_before_exec(&v[j - 1], &x) {
            found = true;
        } else {
            j = j - 1;
        }
    }
    proof {
        lemma_insert_stable_at(before, x@, by_hit_rank(), j as int);
    }
    let ghost xv = x@;
    v.insert(j, x);
    assert(hit_views(v@) =~= before.insert(j as int, xv));
}

/// The ledger states to show for a candidate (see `matching_ledger`).
pub fn matching_ledger_hits(hits: Vec<LedgerHit>, source_material: &str, searches: &[SearchRequest]) -> (r:
    Vec<LedgerHit>)
    ensures
        hit_views(r@) == matching_ledger(hit_views(hits@), source_material@, request_views(searches@)),
{
    let queries = search_query_text(searches);
    let ghost all = hit_views(hits@);
    let mut latest: Vec<LedgerHit> = Vec::new();
    for hit in it: hits
        invariant
            all == hit_views(it.seq()),
            hit_views(latest@) == latest_hits(all.take(it.index()), source_material@, queries@),
    {
        assert(all.take(it.index() + 1).drop_last() == all.take(it.index()));
        assert(all.take(it.index() + 1).last() == hit@);
        if ledger_hit_relevant(&hit, source_material, queries.as_str()) {
            let ghost before = hit_views(latest@);
            let ghost hv = hit@;
            match find_state(&latest, &hit) {
                None => {
                    latest.push(hit);
                    assert(hit_views(latest@) =~= before.push(hv));
                },
                Some(i) => {
                    let newer = hit.chapter_no > latest[i].chapter_no || (hit.chapter_no
                        == latest[i].chapter_no && hit.entry.id > latest[i].entry.id);
                    assert(before[i as int] == latest@[i as int]@);
                    if newer {
                        latest.set(i, hit);
                        assert(hit_views(latest@) =~= before.update(i as int, hv));
                    }
                },
            }
        }
    }
    assert(all.take(all.len() as int) == all);
    let ghost lv = hit_views(latest@);
    let mut sorted: Vec<LedgerHit> = Vec::new();
    for hit in it: latest
        invariant
            lv == hit_views(it.seq()),
            hit_views(sorted@) == stable_sort(lv.take(it.index()), by_hit_rank()),
    {
        assert(lv.take(it.index() + 1).drop_last() == lv.take(it.index()));
        assert(lv.take(it.index() + 1).last() == hit@);
        insert_hit(&mut sorted, hit);
    }
    assert(lv.take(lv.len() as int) == lv);
    sorted.truncate(MAX_HITS);
    proof {
        let full = stable_sort(lv, by_hit_rank());
        if full.len() > MAX_HITS {
            assert(hit_views(sorted@) =~= full.take(MAX_HITS as int));
        }
    }
    sorted
}

// ---------------------------------------------------------------------------
// The story facts that a candidate or its searches name
// ---------------------------------------------------------------------------
/// A story fact hit as integers and text.
pub struct FactHitView {
    pub entity_name: Seq<char>,
    pub dimension: Seq<char>,
    pub value: Seq<char>,
    pub visibility: Seq<char>,
    pub chapter_no: i64,
    pub chapter_title: Seq<char>,
    pub source_quote: Seq<char>,
}

impl View for StoryFactHit {
    type V = FactHitView;

    open spec fn view(&self) -> FactHitView {
        FactHitView {
            entity_name: self.entity_name@,
            dimension: self.dimension@,
            value: self.value@,
            visibility: self.visibility@,
            chapter_no: self.chapter_no,
            chapter_title: self.chapter_title@,
            source_quote: self.source_quote@,
        }
    }
}

/// The views of a list of fact hits.
pub open spec fn fact_hit_views(s: Seq<StoryFactHit>) -> Seq<FactHitView> {
    s.map_values(|h: StoryFactHit| h@)
}

/// The views of a list of fact hits with their entity ids.
pub open spec fn keyed_views(s: Seq<(i64, StoryFactHit)>) -> Seq<(i64, FactHitView)> {
    s.map_values(|p: (i64, StoryFactHit)| (p.0, p.1@))
}

/// The source or the queries name the entity.
pub open spec fn name_relevant(name: Seq<char>, source: Seq<char>, queries: Seq<char>) -> bool {
    contains_seq(source, name) || contains_seq(queries, name)
}

/// The name under which a fact's entity is found: that of the last entity
/// with the id among those that the source or the queries name.
pub open spec fn relevant_name(entities: Seq<StoryEntity>, id: i64, source: Seq<char>, queries: Seq<char>) -> Option<
    Seq<char>,
>
    decreases entities.len(),
{
    if entities.len() == 0 {
        None
    } else if entities.last().id == id && name_relevant(entities.last().name@, source, queries) {
        Some(entities.last().name@)
    } else {
        relevant_name(entities.drop_last(), id, source, queries)
    }
}

/// A fact as a hit: an active fact of a named entity, from a known chapter
/// before chapter number `current_no`.
pub open spec fn fact_hit(
    f: StoryFact,
    entities: Seq<StoryEntity>,
    chapters: Seq<Chapter>,
    current_no: i64,
    source: Seq<char>,
    queries: Seq<char>,
) -> Option<FactHitView> {
    let chapter_id = match f.narrative_chapter_id {
        Some(c) => c,
        None => 0,
    };
    match relevant_name(entities, f.entity_id, source, queries) {
        None => None,
        Some(name) => match last_with_id(chapters, chapter_id) {
            None => None,
            Some(c) => if chapters[c].chapter_no >= current_no || f.status@ != "active"@ {
                None
            } else {
                Some(
                    FactHitView {
                        entity_name: name,
                        dimension: f.dimension@,
                        value: f.value@,
                        visibility: f.visibility@,
                        chapter_no: chapters[c].chapter_no,
                        chapter_title: chapters[c].title@,
                        source_quote: f.source_quote@,
                    },
                )
            },
        },
    }
}

/// The index of the hit for the same entity and dimension, from the end.
pub open spec fn fact_index(acc: Seq<(i64, FactHitView)>, id: i64, dimension: Seq<char>) -> Option<int>
    decreases acc.len(),
{
    if acc.len() == 0 {
        None
    } else if acc.last().0 == id && acc.last().1.dimension == dimension {
        Some(acc.len() - 1)
    } else {
        fact_index(acc.drop_last(), id, dimension)
    }
}

/// The hits with `h` of entity `id` taken in: a new dimension is added, a
/// known one replaced when `h` comes from a later chapter.
pub open spec fn absorb_fact(acc: Seq<(i64, FactHitView)>, id: i64, h: FactHitView) -> Seq<(i64, FactHitView)> {
    match fact_index(acc, id, h.dimension) {
        None => acc.push((id, h)),
        Some(i) => if h.chapter_no > acc[i].1.chapter_no {
            acc.update(i, (id, h))
        } else {
            acc
        },
    }
}

/// The latest hit of each entity and dimension, in the order they first
/// appear.
pub open spec fn latest_facts(
    facts: Seq<StoryFact>,
    entities: Seq<StoryEntity>,
    chapters: Seq<Chapter>,
    current_no: i64,
    source: Seq<char>,
    queries: Seq<char>,
) -> Seq<(i64, FactHitView)>
    decreases facts.len(),
{
    if facts.len() == 0 {
        Seq::empty()
    } else {
        let acc = latest_facts(facts.drop_last(), entities, chapters, current_no, source, queries);
        match fact_hit(facts.last(), entities, chapters, current_no, source, queries) {
            Some(h) => absorb_fact(acc, facts.last().entity_id, h),
            None => acc,
        }
    }
}

/// `a` ranks no later than `b`: a later chapter first, then by entity name,
/// then by dimension.
pub open spec fn fact_ranks_before(a: (i64, FactHitView), b: (i64, FactHitView)) -> bool {
    a.1.chapter_no > b.1.chapter_no || (a.1.chapter_no == b.1.chapter_no && ((label_le(
        a.1.entity_name,
        b.1.entity_name,
    ) && a.1.entity_name != b.1.entity_name) || (a.1.entity_name == b.1.entity_name && label_le(
        a.1.dimension,
        b.1.dimension,
    ))))
}

/// The ranking of fact hits (see `fact_ranks_before`).
pub open spec fn by_fact_rank() -> spec_fn((i64, FactHitView), (i64, FactHitView)) -> bool {
    |a: (i64, FactHitView), b: (i64, FactHitView)| fact_ranks_before(a, b)
}

/// The story facts to show for a candidate: of the active facts of earlier
/// chapters about entities that the source or a search query names, the
/// latest of each entity and dimension, latest chapter first, then by name
/// and dimension, at most `MAX_HITS`.
pub open spec fn matching_facts(
    facts: Seq<StoryFact>,
    entities: Seq<StoryEntity>,
    chapters: Seq<Chapter>,
    current_no: i64,
    source: Seq<char>,
    searches: Seq<RequestView>,
) -> Seq<FactHitView> {
    at_most(
        stable_sort(
            latest_facts(facts, entities, chapters, current_no, source, query_text(searches)),
            by_fact_rank(),
        ),
        MAX_HITS as int,
    ).map_values(|p: (i64, FactHitView)| p.1)
}

fn find_relevant_name(entities: &[StoryEntity], id: i64, source: &str, queries: &str) -> (r: Option<String>)
    ensures
        match r {
            Some(n) => relevant_name(entities@, id, source@, queries@) == Some(n@),
            None => relevant_name(entities@, id, source@, queries@) is None,
        },
{
    let mut c: usize = entities.len();
    assert(entities@.take(c as int) == entities@);
    while c > 0
        invariant
            c <= entities@.len(),
            relevant_name(entities@, id, source@, queries@) == relevant_name(
                entities@.take(c as int),
                id,
                source@,
                queries@,
            ),
        decreases c,
    {
        let ghost t = entities@.take(c as int);
        assert(t.drop_last() == entities@.take(c - 1));
        assert(t.last() == entities@[c - 1]);
        let e = &entities[c - 1];
        if e.id == id && (str_contains(source, e.name.as_str()) || str_contains(queries, e.name.as_str())) {
            return Some(e.name.clone());
        }
        c = c - 1;
    }
    None
}

fn find_fact(acc: &Vec<(i64, StoryFactHit)>, id: i64, dimension: &str) -> (r: Option<usize>)
    ensures
        match r {
            Some(i) => i < acc@.len() && fact_index(keyed_views(acc@), id, dimension@) == Some(i as int),
            None => fact_index(keyed_views(acc@), id, dimension@) is None,
        },
{
    let ghost av = keyed_views(acc@);
    let mut c: usize = acc.len();
    assert(av.take(c as int) == av);
    while c > 0
        invariant
            c <= acc@.len(),
            av == keyed_views(acc@),
            fact_index(av, id, dimension@) == fact_index(av.take(c as int), id, dimension@),
        decreases c,
    {
        let ghost t = av.take(c as int);
        assert(t.drop_last() == av.take(c - 1));
        assert(t.last() == (acc@[c - 1].0, acc@[c - 1].1@));
        if acc[c - 1].0 == id && crate::text::str_eq(acc[c - 1].1.dimension.as_str(), dimension) {
            return Some(c - 1);
        }
        c = c - 1;
    }
    None
}

fn fact_ranks_before_exec(a: &(i64, StoryFactHit), b: &(i64, StoryFactHit)) -> (r: bool)
    ensures
        r == fact_ranks_before((a.0, a.1@), (b.0, b.1@)),
{
    if a.1.chapter_no != b.1.chapter_no {
        return a.1.chapter_no > b.1.chapter_no;
    }
    let an = chars_of(a.1.entity_name.as_str());
    let bn = chars_of(b.1.entity_name.as_str());
    if !chars_eq(an.as_slice(), bn.as_slice()) {
        return label_le_chars(an.as_slice(), bn.as_slice());
    }
    let ad = chars_of(a.1.dimension.as_str());
    let bd = chars_of(b.1.dimension.as_str());
    label_le_chars(ad.as_slice(), bd.as_slice())
}

fn insert_fact(v: &mut Vec<(i64, StoryFactHit)>, x: (i64, StoryFactHit))
    ensures
        keyed_views(final(v)@) == insert_stable(keyed_views(old(v)@), (x.0, x.1@), by_fact_rank()),
{
    let ghost before = keyed_views(v@);
    let ghost xv = (x.0, x.1@);
    let mut j: usize = v.len();
    let mut found = false;
    while j > 0 && !found
        invariant
            j <= v@.len(),
            before == keyed_views(v@),
            xv == (x.0, x.1@),
            forall|k: int| j <= k < before.len() ==> !fact_ranks_before(#[trigger] before[k], xv),
            found ==> j > 0 && fact_ranks_before(before[j - 1], xv),
        decreases 2 * j + if found { 0int } else { 1int },
    {
        assert(before[j - 1] == (v@[j - 1].0, v@[j - 1].1@));
        if fact_ranks_before_exec(&v[j - 1], &x) {
            found = true;
        } else {
            j = j - 1;
        }
    }
    proof {
        lemma_insert_stable_at(before, xv, by_fact_rank(), j as int);
    }
    v.insert(j, x);
    assert(keyed_views(v@) =~= before.insert(j as int, xv));
}

/// Takes one fact into the latest hits (see `latest_facts`).
fn absorb_fact_exec(
    latest: &mut Vec<(i64, StoryFactHit)>,
    fact: StoryFact,
    entities: &[StoryEntity],
    chapters: &[Chapter],
    current_no: i64,
    source: &str,
    queries: &str,
)
    ensures
        keyed_views(final(latest)@) == match fact_hit(fact, entities@, chapters@, current_no, source@, queries@) {
            Some(h) => absorb_fact(keyed_views(old(latest)@), fact.entity_id, h),
            None => keyed_views(old(latest)@),
        },
{
    let name = match find_relevant_name(entities, fact.entity_id, source, queries) {
        Some(n) => n,
        None => return,
    };
    let chapter_id = match fact.narrative_chapter_id {
        Some(c) => c,
        None => 0,
    };
    let c = match last_chapter_index(chapters, chapter_id) {
        Some(c) => c,
        None => return,
    };
    if chapters[c].chapter_no >= current_no || !crate::text::str_eq(fact.status.as_str(), "active") {
        return;
    }
    let ghost fv = fact;
    let entity_id = fact.entity_id;
    let hit = StoryFactHit {
        entity_name: name,
        dimension: fact.dimension,
        value: fact.value,
        visibility: fact.visibility,
        chapter_no: chapters[c].chapter_no,
        chapter_title: chapters[c].title.clone(),
        source_quote: fact.source_quote,
    };
    let ghost hv = hit@;
    assert(fact_hit(fv, entities@, chapters@, current_no, source@, queries@) == Some(hv));
    let ghost before = keyed_views(latest@);
    match find_fact(latest, entity_id, hit.dimension.as_str()) {
        None => {
            latest.push((entity_id, hit));
            assert(keyed_views(latest@) =~= before.push((entity_id, hv)));
        },
        Some(i) => {
            assert(before[i as int] == (latest@[i as int].0, latest@[i as int].1@));
            if hit.chapter_no > latest[i].1.chapter_no {
                latest.set(i, (entity_id, hit));
                assert(keyed_views(latest@) =~= before.update(i as int, (entity_id, hv)));
            }
        },
    }
}

/// The story facts to show for a candidate of the given chapter (see
/// `matching_facts`). Fails when the project has no chapter with that id.
pub fn matching_story_fact_hits(
    chapters: &[Chapter],
    chapter_id: i64,
    entities: &[StoryEntity],
    facts: Vec<StoryFact>,
    source_material: &str,
    searches: &[SearchRequest],
) -> (r: Result<Vec<StoryFactHit>, AppError>)
    ensures
        match first_with_id(chapters@, chapter_id) {
            None => r matches Err(AppError::Validation(m)) && m@ == "章节不存在"@,
            Some(c) => r matches Ok(v) && fact_hit_views(v@) == matching_facts(
                facts@,
                entities@,
                chapters@,
                chapters@[c].chapter_no,
                source_material@,
                request_views(searches@),
            ),
        },
{
    let current_no = match chapter_index(chapters, chapter_id) {
        Some(c) => chapters[c].chapter_no,
        None => return Err(AppError::Validation(owned("章节不存在"))),
    };
    let queries = search_query_text(searches);
    let ghost all = facts@;
    let mut latest: Vec<(i64, StoryFactHit)> = Vec::new();
    for fact in it: facts
        invariant
            all == it.seq(),
            keyed_views(latest@) == latest_facts(
                all.take(it.index()),
                entities@,
                chapters@,
                current_no,
                source_material@,
                queries@,
            ),
    {
        assert(all.take(it.index() + 1).drop_last() == all.take(it.index()));
        assert(all.take(it.index() + 1).last() == fact);
        absorb_fact_exec(&mut latest, fact, entities, chapters, current_no, source_material, queries.as_str());
    }
    assert(all.take(all.len() as int) == all);
    let ghost lv = keyed_views(latest@);
    let mut sorted: Vec<(i64, StoryFactHit)> = Vec::new();
    for item in it: latest
        invariant
            lv == keyed_views(it.seq()),
            keyed_views(sorted@) == stable_sort(lv.take(it.index()), by_fact_rank()),
    {
        assert(lv.take(it.index() + 1).drop_last() == lv.take(it.index()));
        assert(lv.take(it.index() + 1).last() == (item.0, item.1@));
        insert_fact(&mut sorted, item);
    }
    assert(lv.take(lv.len() as int) == lv);
    sorted.truncate(MAX_HITS);
    let ghost kept = keyed_views(sorted@);
    proof {
        let full = stable_sort(lv, by_fact_rank());
        if full.len() > MAX_HITS {
            assert(kept =~= full.take(MAX_HITS as int));
        }
    }
    let mut hits: Vec<StoryFactHit> = Vec::new();
    for item in it: sorted
        invariant
            kept == keyed_views(it.seq()),
            fact_hit_views(hits@) == kept.take(it.index()).map_values(|p: (i64, FactHitView)| p.1),
    {
        let ghost before = fact_hit_views(hits@);
        let ghost hv = item.1@;
        hits.push(item.1);
        assert(kept.take(it.index() + 1).map_values(|p: (i64, FactHitView)| p.1) =~= kept.take(
            it.index(),
        ).map_values(|p: (i64, FactHitView)| p.1).push(hv));
        assert(fact_hit_views(hits@) =~= before.push(hv));
    }
    assert(kept.take(kept.len() as int) == kept);
    Ok(hits)
}

// ---------------------------------------------------------------------------
// The passages that the searches found
// ---------------------------------------------------------------------------
/// A found passage as text.
pub struct SnippetView {
    pub source_label: Seq<char>,
    pub matched_term: Seq<char>,
    pub content: Seq<char>,
}

impl View for StoryContextSnippet {
    type V = SnippetView;

    open spec fn view(&self) -> SnippetView {
        SnippetView {
            source_label: self.source_label@,
            matched_term: self.matched_term@,
            content: self.content@,
        }
    }
}

/// The views of a list of passages.
pub open spec fn snippet_views(s: Seq<StoryContextSnippet>) -> Seq<SnippetView> {
    s.map_values(|x: StoryContextSnippet| x@)
}

/// The views of found passages with their searches.
pub open spec fn found_views(s: Seq<(SearchRequest, StoryContextSnippet)>) -> Seq<(RequestView, SnippetView)> {
    s.map_values(|p: (SearchRequest, StoryContextSnippet)| (p.0@, p.1@))
}

/// The views of each search's results.
pub open spec fn result_views(s: Seq<(SearchRequest, Vec<StoryContextSnippet>)>) -> Seq<(RequestView, Seq<SnippetView>)> {
    s.map_values(|p: (SearchRequest, Vec<StoryContextSnippet>)| (p.0@, snippet_views(p.1@)))
}

/// What tells two passages apart: source, term and content joined by `|`.
pub open spec fn snippet_key(s: SnippetView) -> Seq<char> {
    s.source_label + "|"@ + s.matched_term + "|"@ + s.content
}

/// The passage is added with its search unless one with the same key is
/// there already.
pub open spec fn add_snippet(acc: Seq<(RequestView, SnippetView)>, r: RequestView, s: SnippetView) -> Seq<
    (RequestView, SnippetView),
> {
    if exists|i: int| 0 <= i < acc.len() && snippet_key(#[trigger] acc[i].1) == snippet_key(s) {
        acc
    } else {
        acc.push((r, s))
    }
}

/// The first `n` passages of one search taken in.
pub open spec fn add_snippets(acc: Seq<(RequestView, SnippetView)>, r: RequestView, s: Seq<SnippetView>) -> Seq<
    (RequestView, SnippetView),
>
    decreases s.len(),
{
    if s.len() == 0 {
        acc
    } else {
        add_snippet(add_snippets(acc, r, s.drop_last()), r, s.last())
    }
}

/// The passages of all searches: the first two of each, every passage once.
pub open spec fn collected_snippets(found: Seq<(RequestView, Seq<SnippetView>)>) -> Seq<(RequestView, SnippetView)>
    decreases found.len(),
{
    if found.len() == 0 {
        Seq::empty()
    } else {
        add_snippets(collected_snippets(found.drop_last()), found.last().0, at_most(found.last().1, 2))
    }
}

fn key_of(s: &StoryContextSnippet) -> (r: String)
    ensures
        r@ == snippet_key(s@),
{
    let mut k = s.source_label.clone();
    crate::text::append(&mut k, "|");
    crate::text::append(&mut k, s.matched_term.as_str());
    crate::text::append(&mut k, "|");
    crate::text::append(&mut k, s.content.as_str());
    k
}

fn copy_snippet(s: &StoryContextSnippet) -> (r: StoryContextSnippet)
    ensures
        r@ == s@,
{
    StoryContextSnippet {
        source_label: s.source_label.clone(),
        matched_term: s.matched_term.clone(),
        content: s.content.clone(),
    }
}

/// The passages that the searches found, each search's results given in
/// order: the first two of each search, every passage once (by source, term
/// and content), at most `MAX_HITS`.
pub fn collect_history_snippets(found: &[(SearchRequest, Vec<StoryContextSnippet>)]) -> (r: Vec<
    (SearchRequest, StoryContextSnippet),
>)
    ensures
        found_views(r@) == at_most(collected_snippets(result_views(found@)), MAX_HITS as int),
{
    let ghost fv = result_views(found@);
    let mut results: Vec<(SearchRequest, StoryContextSnippet)> = Vec::new();
    let mut keys: Vec<String> = Vec::new();
    let mut i: usize = 0;
    while i < found.len()
        invariant
            i <= found.len(),
            fv == result_views(found@),
            found_views(results@) == collected_snippets(fv.take(i as int)),
            keys@.len() == results@.len(),
            forall|k: int| 0 <= k < keys@.len() ==> #[trigger] keys@[k]@ == snippet_key(results@[k].1@),
        decreases found.len() - i,
    {
        assert(fv.take(i + 1).drop_last() == fv.take(i as int));
        let request = &found[i].0;
        let snippets = &found[i].1;
        let ghost sv = snippet_views(snippets@);
        let ghost start = found_views(results@);
        assert(fv[i as int] == (request@, sv));
        let n: usize = if snippets.len() < 2 { snippets.len() } else { 2 };
        assert(at_most(sv, 2) == sv.take(n as int));
        let mut j: usize = 0;
        while j < n
            invariant
                j <= n <= snippets@.len(),
                sv == snippet_views(snippets@),
                found_views(results@) == add_snippets(start, request@, sv.take(j as int)),
                keys@.len() == results@.len(),
                forall|k: int| 0 <= k < keys@.len() ==> #[trigger] keys@[k]@ == snippet_key(results@[k].1@),
            decreases n - j,
        {
            assert(sv.take(j + 1).drop_last() == sv.take(j as int));
            assert(sv.take(j + 1).last() == snippets@[j as int]@);
            let key = key_of(&snippets[j]);
            let ghost acc = found_views(results@);
            let mut seen = false;
            let mut k: usize = 0;
            while k < keys.len()
                invariant
                    k <= keys@.len(),
                    keys@.len() == results@.len(),
                    acc == found_views(results@),
                    forall|m: int| 0 <= m < keys@.len() ==> #[trigger] keys@[m]@ == snippet_key(results@[m].1@),
                    seen <==> exists|m: int| 0 <= m < k && snippet_key(#[trigger] acc[m].1) == key@,
                decreases keys@.len() - k,
            {
                assert(acc[k as int].1 == results@[k as int].1@);
                if crate::text::str_eq(keys[k].as_str(), key.as_str()) {
                    seen = true;
                }
                k = k + 1;
            }
            if !seen {
                let ghost pv = (request@, snippets@[j as int]@);
                results.push((copy_request(request), copy_snippet(&snippets[j])));
                keys.push(key);
                assert(found_views(results@) =~= acc.push(pv));
            }
            j = j + 1;
        }
        i = i + 1;
    }
    assert(fv.take(found.len() as int) == fv);
    results.truncate(MAX_HITS);
    proof {
        let full = collected_snippets(fv);
        if full.len() > MAX_HITS {
            assert(found_views(results@) =~= full.take(MAX_HITS as int));
        }
    }
    results
}

// ---------------------------------------------------------------------------
// The labels the App knows
// ---------------------------------------------------------------------------
/// Every label with the same weight.
pub open spec fn weigh(labels: Seq<Seq<char>>, w: u8) -> Seq<(u8, Seq<char>)> {
    labels.map_values(|l: Seq<char>| (w, l))
}

/// The titles and statuses as text.
pub open spec fn pair_views(s: Seq<(String, String)>) -> Seq<(Seq<char>, Seq<char>)> {
    s.map_values(|p: (String, String)| (p.0@, p.1@))
}

/// The titles whose status is (when `equal`) or is not (otherwise) `status`.
pub open spec fn titles_by_status(items: Seq<(Seq<char>, Seq<char>)>, status: Seq<char>, equal: bool) -> Seq<
    Seq<char>,
>
    decreases items.len(),
{
    if items.len() == 0 {
        Seq::empty()
    } else {
        let prev = titles_by_status(items.drop_last(), status, equal);
        if (items.last().1 == status) == equal {
            prev.push(items.last().0)
        } else {
            prev
        }
    }
}

/// The labels of at most `max` characters.
pub open spec fn short_labels(labels: Seq<Seq<char>>, max: nat) -> Seq<Seq<char>>
    decreases labels.len(),
{
    if labels.len() == 0 {
        Seq::empty()
    } else {
        let prev = short_labels(labels.drop_last(), max);
        if labels.last().len() <= max {
            prev.push(labels.last())
        } else {
            prev
        }
    }
}

/// The weighted labels the App knows: the ledger catalog and the story
/// index's entities (weight 5), the headings of the approved character
/// sheet, the approved knowledge cards and the unresolved foreshadowings
/// (weight 4), and the story threads of at most 12 characters (weight 1).
pub open spec fn reference_weights(
    catalog: Seq<Seq<char>>,
    characters: Option<Seq<char>>,
    entity_names: Seq<Seq<char>>,
    cards: Seq<(Seq<char>, Seq<char>)>,
    foreshadowings: Seq<(Seq<char>, Seq<char>)>,
    thread_labels: Seq<Seq<char>>,
) -> Seq<(u8, Seq<char>)> {
    let headings = match characters {
        Some(c) => heading_entities(crate::text::lines(c)),
        None => Seq::empty(),
    };
    weigh(catalog, 5) + weigh(headings, 4) + weigh(entity_names, 5) + weigh(
        titles_by_status(cards, "approved"@, true),
        4,
    ) + weigh(titles_by_status(foreshadowings, "resolved"@, false), 4) + weigh(
        short_labels(thread_labels, 12),
        1,
    )
}

fn push_weighted(out: &mut Vec<(u8, String)>, labels: Vec<String>, w: u8)
    ensures
        weighted_views(final(out)@) == weighted_views(old(out)@) + weigh(views(labels@), w),
{
    let ghost start = weighted_views(out@);
    let ghost lv = views(labels@);
    for label in it: labels
        invariant
            lv == views(it.seq()),
            weighted_views(out@) == start + weigh(lv.take(it.index()), w),
    {
        let ghost before = weighted_views(out@);
        let ghost l = label@;
        out.push((w, label));
        assert(weigh(lv.take(it.index() + 1), w) =~= weigh(lv.take(it.index()), w).push((w, l)));
        assert(weighted_views(out@) =~= before.push((w, l)));
    }
    assert(lv.take(lv.len() as int) == lv);
}

fn titles_with_status(items: Vec<(String, String)>, status: &str, equal: bool) -> (r: Vec<String>)
    ensures
        views(r@) == titles_by_status(pair_views(items@), status@, equal),
{
    let ghost iv = pair_views(items@);
    let mut out: Vec<String> = Vec::new();
    for item in it: items
        invariant
            iv == pair_views(it.seq()),
            views(out@) == titles_by_status(iv.take(it.index()), status@, equal),
    {
        assert(iv.take(it.index() + 1).drop_last() == iv.take(it.index()));
        assert(iv.take(it.index() + 1).last() == (item.0@, item.1@));
        if crate::text::str_eq(item.1.as_str(), status) == equal {
            let ghost before = views(out@);
            let ghost t = item.0@;
            out.push(item.0);
            assert(views(out@) =~= before.push(t));
        }
    }
    assert(iv.take(iv.len() as int) == iv);
    out
}

fn labels_up_to(labels: Vec<String>, max: usize) -> (r: Vec<String>)
    ensures
        views(r@) == short_labels(views(labels@), max as nat),
{
    let ghost lv = views(labels@);
    let mut out: Vec<String> = Vec::new();
    for label in it: labels
        invariant
            lv == views(it.seq()),
            views(out@) == short_labels(lv.take(it.index()), max as nat),
    {
        assert(lv.take(it.index() + 1).drop_last() == lv.take(it.index()));
        assert(lv.take(it.index() + 1).last() == label@);
        if crate::text::char_count(label.as_str()) <= max {
            let ghost before = views(out@);
            let ghost l = label@;
            out.push(label);
            assert(views(out@) =~= before.push(l));
        }
    }
    assert(lv.take(lv.len() as int) == lv);
    out
}

/// The labels the App knows for fallback searches, best first: the weighted
/// labels of `reference_weights` ranked as `rank_reference_labels` does.
/// The character sheet is the approved one, when there is one; cards and
/// foreshadowings are given as title and status.
pub fn known_reference_labels(
    catalog: Vec<String>,
    characters: Option<&str>,
    entity_names: Vec<String>,
    cards: Vec<(String, String)>,
    foreshadowings: Vec<(String, String)>,
    thread_labels: Vec<String>,
) -> (r: Vec<String>)
    ensures
        views(r@) == distinct_labels(
            sort_ranked(
                reference_weights(
                    views(catalog@),
                    match characters {
                        Some(c) => Some(c@),
                        None => None,
                    },
                    views(entity_names@),
                    pair_views(cards@),
                    pair_views(foreshadowings@),
                    views(thread_labels@),
                ),
            ),
        ),
{
    let mut weighted: Vec<(u8, String)> = Vec::new();
    push_weighted(&mut weighted, catalog, 5);
    let headings = match characters {
        Some(c) => markdown_entity_headings(c),
        None => Vec::new(),
    };
    push_weighted(&mut weighted, headings, 4);
    push_weighted(&mut weighted, entity_names, 5);
    push_weighted(&mut weighted, titles_with_status(cards, "approved", true), 4);
    push_weighted(&mut weighted, titles_with_status(foreshadowings, "resolved", false), 4);
    push_weighted(&mut weighted, labels_up_to(thread_labels, 12), 1);
    rank_reference_labels(weighted)
}

// ---------------------------------------------------------------------------
// The rendered result
// ---------------------------------------------------------------------------
/// What the history tools give a run: nothing when no search was planned;
/// the no-hit notice when nothing was found; else the rendered findings.
pub fn tool_context_result(
    stage: &Stage,
    planned: &[SearchRequest],
    snippets: &[(SearchRequest, StoryContextSnippet)],
    ledger_hits: &[LedgerHit],
    fact_hits: &[StoryFactHit],
) -> (r: Option<String>)
    ensures
        planned@.len() == 0 ==> r is None,
        planned@.len() > 0 && snippets@.len() == 0 && ledger_hits@.len() == 0 && fact_hits@.len()
            == 0 ==> (r matches Some(t) && t@ == no_hit_text(*stage, request_views(planned@))),
        planned@.len() > 0 && !(snippets@.len() == 0 && ledger_hits@.len() == 0 && fact_hits@.len()
            == 0) ==> (r matches Some(t) && t@ == tool_context_text(
            *stage,
            request_views(planned@),
            snippets@,
            ledger_hits@,
            fact_hits@,
        )),
{
    if planned.len() == 0 {
        return None;
    }
    if snippets.len() == 0 && ledger_hits.len() == 0 && fact_hits.len() == 0 {
        return Some(render_no_hit_context(stage, planned));
    }
    Some(render_tool_context(stage, planned, snippets, ledger_hits, fact_hits))
}

// ---------------------------------------------------------------------------
// Laws
// ---------------------------------------------------------------------------
/// `s` ascends by `le`.
pub open spec fn ranked<T>(s: Seq<T>, le: spec_fn(T, T) -> bool) -> bool {
    forall|i: int, j: int| 0 <= i < j < s.len() ==> le(#[trigger] s[i], #[trigger] s[j])
}

/// `le` is a total preorder.
pub open spec fn total_preorder<T>(le: spec_fn(T, T) -> bool) -> bool {
    &&& forall|a: T, b: T| #[trigger] le(a, b) || le(b, a)
    &&& forall|a: T, b: T, c: T| #[trigger] le(a, b) && #[trigger] le(b, c) ==> le(a, c)
}

proof fn lemma_insert_stable_members<T>(s: Seq<T>, x: T, le: spec_fn(T, T) -> bool)
    ensures
        insert_stable(s, x, le).len() == s.len() + 1,
        forall|k: int|
            0 <= k < insert_stable(s, x, le).len() ==> #[trigger] insert_stable(s, x, le)[k] == x
                || s.contains(insert_stable(s, x, le)[k]),
    decreases s.len(),
{
    if s.len() > 0 && !le(s.last(), x) {
        lemma_insert_stable_members(s.drop_last(), x, le);
        let r = insert_stable(s, x, le);
        assert forall|k: int| 0 <= k < r.len() implies #[trigger] r[k] == x || s.contains(r[k]) by {
            if k < r.len() - 1 {
                let p = insert_stable(s.drop_last(), x, le);
                assert(r[k] == p[k]);
                if p[k] != x {
                    let m = choose|m: int| 0 <= m < s.drop_last().len() && s.drop_last()[m] == p[k];
                    assert(s[m] == p[k]);
                }
            } else {
                assert(r[k] == s[s.len() - 1]);
            }
        }
    } else if s.len() > 0 {
        let r = insert_stable(s, x, le);
        assert forall|k: int| 0 <= k < r.len() implies #[trigger] r[k] == x || s.contains(r[k]) by {
            if k < s.len() {
                assert(r[k] == s[k]);
            }
        }
    }
}

proof fn lemma_insert_stable_ranked<T>(s: Seq<T>, x: T, le: spec_fn(T, T) -> bool)
    requires
        total_preorder(le),
        ranked(s, le),
    ensures
        ranked(insert_stable(s, x, le), le),
    decreases s.len(),
{
    let r = insert_stable(s, x, le);
    if s.len() == 0 {
    } else if le(s.last(), x) {
        assert forall|i: int, j: int| 0 <= i < j < r.len() implies le(#[trigger] r[i], #[trigger] r[j]) by {
            if j == s.len() {
                assert(r[i] == s[i]);
                if i < s.len() - 1 {
                    assert(le(s[i], s[s.len() - 1]));
                }
                assert(le(s[i], s.last()));
                assert(le(s.last(), x));
            } else {
                assert(r[i] == s[i] && r[j] == s[j]);
            }
        }
    } else {
        let d = s.drop_last();
        assert(ranked(d, le)) by {
            assert forall|i: int, j: int| 0 <= i < j < d.len() implies le(#[trigger] d[i], #[trigger] d[j]) by {
                assert(d[i] == s[i] && d[j] == s[j]);
            }
        }
        lemma_insert_stable_ranked(d, x, le);
        lemma_insert_stable_members(d, x, le);
        let p = insert_stable(d, x, le);
        assert(le(x, s.last()));
        assert forall|i: int, j: int| 0 <= i < j < r.len() implies le(#[trigger] r[i], #[trigger] r[j]) by {
            if j == r.len() - 1 {
                assert(r[i] == p[i]);
                assert(r[j] == s.last());
                if p[i] != x {
                    assert(d.contains(p[i]));
                    let m = choose|m: int| 0 <= m < d.len() && d[m] == p[i];
                    assert(le(s[m], s[s.len() - 1]));
                }
            } else {
                assert(r[i] == p[i] && r[j] == p[j]);
            }
        }
    }
}

proof fn lemma_stable_sort_ranked<T>(s: Seq<T>, le: spec_fn(T, T) -> bool)
    requires
        total_preorder(le),
    ensures
        ranked(stable_sort(s, le), le),
    decreases s.len(),
{
    if s.len() > 0 {
        lemma_stable_sort_ranked(s.drop_last(), le);
        lemma_insert_stable_ranked(stable_sort(s.drop_last(), le), s.last(), le);
    }
}

proof fn lemma_at_most_ranked<T>(s: Seq<T>, n: int, le: spec_fn(T, T) -> bool)
    requires
        ranked(s, le),
        n >= 0,
    ensures
        ranked(at_most(s, n), le),
{
    let r = at_most(s, n);
    assert forall|i: int, j: int| 0 <= i < j < r.len() implies le(#[trigger] r[i], #[trigger] r[j]) by {
        assert(r[i] == s[i] && r[j] == s[j]);
    }
}

proof fn lemma_hit_rank_total_preorder()
    ensures
        total_preorder(by_hit_rank()),
{
    let le = by_hit_rank();
    assert forall|a: HitView, b: HitView| #[trigger] le(a, b) || le(b, a) by {
        lemma_label_le_total(a.entry.entity_label, b.entry.entity_label);
    }
    assert forall|a: HitView, b: HitView, c: HitView| #[trigger] le(a, b) && #[trigger] le(b, c) implies le(
        a,
        c,
    ) by {
        if a.chapter_no == b.chapter_no && b.chapter_no == c.chapter_no {
            lemma_label_le_trans(a.entry.entity_label, b.entry.entity_label, c.entry.entity_label);
        }
    }
}

/// The ledger states shown for a candidate come latest chapter first, and
/// by label within a chapter.
pub proof fn matching_ledger_ranked(hits: Seq<HitView>, source: Seq<char>, searches: Seq<RequestView>)
    ensures
        ranked(matching_ledger(hits, source, searches), by_hit_rank()),
{
    lemma_hit_rank_total_preorder();
    let sorted = stable_sort(latest_hits(hits, source, query_text(searches)), by_hit_rank());
    lemma_stable_sort_ranked(latest_hits(hits, source, query_text(searches)), by_hit_rank());
    lemma_at_most_ranked(sorted, MAX_HITS as int, by_hit_rank());
}

proof fn lemma_fact_rank_total_preorder()
    ensures
        total_preorder(by_fact_rank()),
{
    let le = by_fact_rank();
    assert forall|a: (i64, FactHitView), b: (i64, FactHitView)| #[trigger] le(a, b) || le(b, a) by {
        lemma_label_le_total(a.1.entity_name, b.1.entity_name);
        lemma_label_le_total(a.1.dimension, b.1.dimension);
    }
    assert forall|a: (i64, FactHitView), b: (i64, FactHitView), c: (i64, FactHitView)|
        #[trigger] le(a, b) && #[trigger] le(b, c) implies le(a, c) by {
        if a.1.chapter_no == b.1.chapter_no && b.1.chapter_no == c.1.chapter_no {
            let (x, y, z) = (a.1.entity_name, b.1.entity_name, c.1.entity_name);
            if x != y && y != z {
                lemma_label_le_trans(x, y, z);
                if x == z {
                    lemma_label_le_antisym(x, y);
                }
            } else if x == y && y == z {
                lemma_label_le_trans(a.1.dimension, b.1.dimension, c.1.dimension);
            }
        }
    }
}

/// The story facts shown for a candidate come latest chapter first, then by
/// entity name and dimension.
pub proof fn matching_facts_ranked(
    facts: Seq<StoryFact>,
    entities: Seq<StoryEntity>,
    chapters: Seq<Chapter>,
    current_no: i64,
    source: Seq<char>,
    searches: Seq<RequestView>,
)
    ensures
        ({
            let r = matching_facts(facts, entities, chapters, current_no, source, searches);
            forall|i: int, j: int|
                0 <= i < j < r.len() ==> (#[trigger] r[i]).chapter_no >= (#[trigger] r[j]).chapter_no
        }),
{
    lemma_fact_rank_total_preorder();
    let latest = latest_facts(facts, entities, chapters, current_no, source, query_text(searches));
    lemma_stable_sort_ranked(latest, by_fact_rank());
    let kept = at_most(stable_sort(latest, by_fact_rank()), MAX_HITS as int);
    lemma_at_most_ranked(stable_sort(latest, by_fact_rank()), MAX_HITS as int, by_fact_rank());
    let r = kept.map_values(|p: (i64, FactHitView)| p.1);
    assert forall|i: int, j: int| 0 <= i < j < r.len() implies (#[trigger] r[i]).chapter_no >= (
    #[trigger] r[j]).chapter_no by {
        assert(by_fact_rank()(kept[i], kept[j]));
    }
}

proof fn lemma_add_snippets_distinct(acc: Seq<(RequestView, SnippetView)>, r: RequestView, s: Seq<SnippetView>)
    requires
        forall|i: int, j: int|
            0 <= i < j < acc.len() ==> snippet_key((#[trigger] acc[i]).1) != snippet_key((#[trigger] acc[j]).1),
    ensures
        ({
            let out = add_snippets(acc, r, s);
            forall|i: int, j: int|
                0 <= i < j < out.len() ==> snippet_key((#[trigger] out[i]).1) != snippet_key((#[trigger] out[j]).1)
        }),
    decreases s.len(),
{
    if s.len() > 0 {
        lemma_add_snippets_distinct(acc, r, s.drop_last());
        let prev = add_snippets(acc, r, s.drop_last());
        let out = add_snippets(acc, r, s);
        assert forall|i: int, j: int| 0 <= i < j < out.len() implies snippet_key((#[trigger] out[i]).1)
            != snippet_key((#[trigger] out[j]).1) by {
            if out.len() > prev.len() && j == prev.len() {
                assert(out[i] == prev[i]);
            } else {
                assert(out[i] == prev[i] && out[j] == prev[j]);
            }
        }
    }
}

proof fn lemma_collected_distinct(found: Seq<(RequestView, Seq<SnippetView>)>)
    ensures
        ({
            let out = collected_snippets(found);
            forall|i: int, j: int|
                0 <= i < j < out.len() ==> snippet_key((#[trigger] out[i]).1) != snippet_key((#[trigger] out[j]).1)
        }),
    decreases found.len(),
{
    if found.len() > 0 {
        lemma_collected_distinct(found.drop_last());
        lemma_add_snippets_distinct(
            collected_snippets(found.drop_last()),
            found.last().0,
            at_most(found.last().1, 2),
        );
    }
}

/// Every passage that the history searches bring back is shown once: no two
/// share source, term and content.
pub proof fn collected_snippets_distinct(found: Seq<(RequestView, Seq<SnippetView>)>)
    ensures
        ({
            let out = at_most(collected_snippets(found), MAX_HITS as int);
            forall|i: int, j: int|
                0 <= i < j < out.len() ==> snippet_key((#[trigger] out[i]).1) != snippet_key((#[trigger] out[j]).1)
        }),
{
    lemma_collected_distinct(found);
    let all = collected_snippets(found);
    let out = at_most(all, MAX_HITS as int);
    assert forall|i: int, j: int| 0 <= i < j < out.len() implies snippet_key((#[trigger] out[i]).1)
        != snippet_key((#[trigger] out[j]).1) by {
        assert(out[i] == all[i] && out[j] == all[j]);
    }
}

// ---------------------------------------------------------------------------
// Facts named by a search are found
// ---------------------------------------------------------------------------
proof fn lemma_contains_in_front(a: Seq<char>, b: Seq<char>, n: Seq<char>)
    requires
        contains_seq(a, n),
    ensures
        contains_seq(a + b, n),
{
    let i = choose|i: int| occurs_at(a, n, i);
    assert((a + b).subrange(i, i + n.len()) =~= a.subrange(i, i + n.len()));
    assert(occurs_at(a + b, n, i));
}

proof fn lemma_contains_behind(a: Seq<char>, b: Seq<char>, n: Seq<char>)
    requires
        contains_seq(b, n),
    ensures
        contains_seq(a + b, n),
{
    let i = choose|i: int| occurs_at(b, n, i);
    assert((a + b).subrange(i + a.len(), i + a.len() + n.len()) =~= b.subrange(i, i + n.len()));
    assert(occurs_at(a + b, n, i + a.len()));
}

/// What one of the parts holds, their join holds.
proof fn lemma_join_contains(parts: Seq<Seq<char>>, sep: Seq<char>, k: int, n: Seq<char>)
    requires
        0 <= k < parts.len(),
        contains_seq(parts[k], n),
    ensures
        contains_seq(join(parts, sep), n),
    decreases parts.len(),
{
    if parts.len() > 1 {
        let d = parts.drop_last();
        if k == parts.len() - 1 {
            lemma_contains_behind(join(d, sep) + sep, parts.last(), n);
        } else {
            assert(d[k] == parts[k]);
            lemma_join_contains(d, sep, k, n);
            lemma_contains_in_front(join(d, sep), sep, n);
            lemma_contains_in_front(join(d, sep) + sep, parts.last(), n);
        }
    }
}

/// An entity with the id whose name the queries hold gives a name.
proof fn lemma_relevant_name_found(
    entities: Seq<StoryEntity>,
    id: i64,
    source: Seq<char>,
    queries: Seq<char>,
    j: int,
)
    requires
        0 <= j < entities.len(),
        entities[j].id == id,
        contains_seq(source, entities[j].name@) || contains_seq(queries, entities[j].name@),
    ensures
        relevant_name(entities, id, source, queries) is Some,
    decreases entities.len(),
{
    if j < entities.len() - 1 {
        let d = entities.drop_last();
        assert(d[j] == entities[j]);
        lemma_relevant_name_found(d, id, source, queries, j);
    }
}

/// The chapter looked up by an id is one with that id.
proof fn lemma_last_with_id(chapters: Seq<Chapter>, id: i64, c: int)
    requires
        0 <= c < chapters.len(),
        chapters[c].id == id,
    ensures
        last_with_id(chapters, id) matches Some(x) && 0 <= x < chapters.len() && chapters[x].id == id,
    decreases chapters.len(),
{
    if chapters.last().id != id {
        let d = chapters.drop_last();
        assert(d[c] == chapters[c]);
        lemma_last_with_id(d, id, c);
        let x = last_with_id(d, id)->0;
        assert(chapters[x] == d[x]);
    }
}

/// Once an entity and dimension has a hit, it keeps one.
proof fn lemma_absorb_keeps(acc: Seq<(i64, FactHitView)>, id: i64, h: FactHitView, key: (i64, Seq<char>))
    requires
        exists|t: int| 0 <= t < acc.len() && (#[trigger] acc[t]).0 == key.0 && acc[t].1.dimension == key.1,
    ensures
        exists|t: int|
            0 <= t < absorb_fact(acc, id, h).len() && (#[trigger] absorb_fact(acc, id, h)[t]).0 == key.0
                && absorb_fact(acc, id, h)[t].1.dimension == key.1,
{
    let t = choose|t: int| 0 <= t < acc.len() && (#[trigger] acc[t]).0 == key.0 && acc[t].1.dimension == key.1;
    let r = absorb_fact(acc, id, h);
    match fact_index(acc, id, h.dimension) {
        None => {
            assert(r[t] == acc[t]);
        },
        Some(i) => {
            lemma_fact_index_matches(acc, id, h.dimension);
            if h.chapter_no > acc[i].1.chapter_no {
                if t != i {
                    assert(r[t] == acc[t]);
                } else {
                    assert(r[i] == (id, h));
                }
            } else {
                assert(r[t] == acc[t]);
            }
        },
    }
}

proof fn lemma_fact_index_matches(acc: Seq<(i64, FactHitView)>, id: i64, dimension: Seq<char>)
    ensures
        fact_index(acc, id, dimension) matches Some(i) ==> 0 <= i < acc.len() && acc[i].0 == id
            && acc[i].1.dimension == dimension,
    decreases acc.len(),
{
    if acc.len() > 0 {
        lemma_fact_index_matches(acc.drop_last(), id, dimension);
        if let Some(i) = fact_index(acc.drop_last(), id, dimension) {
            assert(acc[i] == acc.drop_last()[i]);
        }
    }
}

/// After absorbing a hit, its entity and dimension have one.
proof fn lemma_absorb_adds(acc: Seq<(i64, FactHitView)>, id: i64, h: FactHitView)
    ensures
        exists|t: int|
            0 <= t < absorb_fact(acc, id, h).len() && (#[trigger] absorb_fact(acc, id, h)[t]).0 == id
                && absorb_fact(acc, id, h)[t].1.dimension == h.dimension,
{
    let r = absorb_fact(acc, id, h);
    lemma_fact_index_matches(acc, id, h.dimension);
    match fact_index(acc, id, h.dimension) {
        None => {
            assert(r[acc.len() as int] == (id, h));
        },
        Some(i) => {
            assert(r[i].0 == id && r[i].1.dimension == h.dimension);
        },
    }
}

/// A fact that makes a hit leaves a hit of its entity and dimension among
/// the latest ones.
proof fn lemma_latest_facts_keep(
    facts: Seq<StoryFact>,
    entities: Seq<StoryEntity>,
    chapters: Seq<Chapter>,
    current_no: i64,
    source: Seq<char>,
    queries: Seq<char>,
    k: int,
)
    requires
        0 <= k < facts.len(),
        fact_hit(facts[k], entities, chapters, current_no, source, queries) is Some,
    ensures
        exists|t: int|
            0 <= t < latest_facts(facts, entities, chapters, current_no, source, queries).len()
                && (#[trigger] latest_facts(facts, entities, chapters, current_no, source, queries)[t]).0
                == facts[k].entity_id && latest_facts(facts, entities, chapters, current_no, source, queries)[t].1.dimension
                == facts[k].dimension@,
    decreases facts.len(),
{
    let d = facts.drop_last();
    let acc = latest_facts(d, entities, chapters, current_no, source, queries);
    let key = (facts[k].entity_id, facts[k].dimension@);
    if k == facts.len() - 1 {
        let h = fact_hit(facts[k], entities, chapters, current_no, source, queries)->0;
        assert(h.dimension == facts[k].dimension@);
        assert(facts.last() == facts[k]);
        assert(latest_facts(facts, entities, chapters, current_no, source, queries) == absorb_fact(
            acc,
            facts[k].entity_id,
            h,
        ));
        lemma_absorb_adds(acc, facts[k].entity_id, h);
    } else {
        assert(d[k] == facts[k]);
        lemma_latest_facts_keep(d, entities, chapters, current_no, source, queries, k);
        match fact_hit(facts.last(), entities, chapters, current_no, source, queries) {
            Some(h) => {
                assert(latest_facts(facts, entities, chapters, current_no, source, queries) == absorb_fact(
                    acc,
                    facts.last().entity_id,
                    h,
                ));
                lemma_absorb_keeps(acc, facts.last().entity_id, h, key);
            },
            None => {
                assert(latest_facts(facts, entities, chapters, current_no, source, queries) == acc);
            },
        }
    }
}

proof fn lemma_insert_stable_len<T>(s: Seq<T>, x: T, le: spec_fn(T, T) -> bool)
    ensures
        insert_stable(s, x, le).len() == s.len() + 1,
    decreases s.len(),
{
    if s.len() > 0 && !le(s.last(), x) {
        lemma_insert_stable_len(s.drop_last(), x, le);
    }
}

proof fn lemma_stable_sort_len<T>(s: Seq<T>, le: spec_fn(T, T) -> bool)
    ensures
        stable_sort(s, le).len() == s.len(),
    decreases s.len(),
{
    if s.len() > 0 {
        lemma_stable_sort_len(s.drop_last(), le);
        lemma_insert_stable_len(stable_sort(s.drop_last(), le), s.last(), le);
    }
}

/// What the source or a search names is found: an active fact of an earlier
/// chapter about an entity whose name the source or one of the search
/// queries holds (either suffices) makes a hit. Its entity and dimension get
/// a hit among the latest, and the facts shown are not empty.
pub proof fn facts_named_by_searches_are_found(
    facts: Seq<StoryFact>,
    entities: Seq<StoryEntity>,
    chapters: Seq<Chapter>,
    current_no: i64,
    source: Seq<char>,
    searches: Seq<RequestView>,
    k: int,
    e: int,
    q: int,
    c: int,
)
    requires
        0 <= k < facts.len(),
        0 <= e < entities.len(),
        entities[e].id == facts[k].entity_id,
        0 <= q < searches.len(),
        contains_seq(source, entities[e].name@) || contains_seq(searches[q].query, entities[e].name@),
        facts[k].status@ == "active"@,
        0 <= c < chapters.len(),
        facts[k].narrative_chapter_id == Some(chapters[c].id),
        forall|x: int| 0 <= x < chapters.len() && chapters[x].id == chapters[c].id ==> #[trigger] chapters[x].chapter_no < current_no,
    ensures
        fact_hit(facts[k], entities, chapters, current_no, source, query_text(searches)) is Some,
        exists|t: int|
            0 <= t < latest_facts(facts, entities, chapters, current_no, source, query_text(searches)).len()
                && (#[trigger] latest_facts(facts, entities, chapters, current_no, source, query_text(searches))[t]).0
                == facts[k].entity_id && latest_facts(
                facts,
                entities,
                chapters,
                current_no,
                source,
                query_text(searches),
            )[t].1.dimension == facts[k].dimension@,
        matching_facts(facts, entities, chapters, current_no, source, searches).len() > 0,
{
    let queries = query_text(searches);
    let qs = searches.map_values(|r: RequestView| r.query);
    assert(qs[q] == searches[q].query);
    if contains_seq(searches[q].query, entities[e].name@) {
        lemma_join_contains(qs, "\n"@, q, entities[e].name@);
    }
    lemma_relevant_name_found(entities, facts[k].entity_id, source, queries, e);
    lemma_last_with_id(chapters, chapters[c].id, c);
    lemma_latest_facts_keep(facts, entities, chapters, current_no, source, queries, k);
    let latest = latest_facts(facts, entities, chapters, current_no, source, queries);
    lemma_stable_sort_len(latest, by_fact_rank());
}

} // verus!
