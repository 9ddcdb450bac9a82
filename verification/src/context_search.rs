//! The context search that runs before a writing, review or revision turn:
//! planning which old entities to look up, and rendering what was found.
use vstd::prelude::*;

use crate::chapter_memory::at_most;
use crate::models::ContinuityLedgerEntry;
use crate::stage::Stage;
use crate::text::{
    append, chars_of, concat, contains, contains_seq, first_at, is_first_at, join,
    join_strings, lemma_first_at, find_from, owned, slice_of, str_contains, string_of, trim,
    trim_chars, trimmed, views,
};

verus! {

/// The most searches a planner may ask for.
pub const MAX_AGENT_SEARCHES: usize = 6;

/// The most searches that run.
pub const MAX_EXECUTED_SEARCHES: usize = 12;

/// The most characters of source a planner reads.
pub const MAX_SOURCE_CHARS: usize = 24000;

/// The stage under which a search plan is stored.
pub const PLAN_STAGE: &'static str = "context_search_plan";

/// The opening of the planner prompt.
pub const PLANNER_HEAD: &'static str = "# 任务\n";

/// The planner prompt between the task and the ledger catalog.
pub const PLANNER_RULES: &'static str = "\n\n你正在决定是否调用 App 的 `search_story_context` 工具。只为确实依赖前文状态的对象发起查询；当前章首次出现且不依赖历史的内容不要搜索。最多 6 次。试读正文超过 1500 字且多次使用前文人物、物件或事件时，通常需要 3-6 个不同查询，不能因为状态账本目录存在就省略正文搜索。\n\n# 搜索规则\n1. `query` 使用 2-24 个字的具体名称或短语，例如人物名、物件名、事件名、地点名、承诺对象；不要写“相关历史”“前文伏笔”之类泛词。\n2. `evidence_quote` 必须是下方输入中连续出现的 6-100 个字原文，且能证明为什么需要回查。不得改写、拼接或使用省略号。\n3. `reason` 说明要核对什么状态，例如角色知情边界、入场路径、物件归属/消耗/封印、伤势、承诺是否兑现、旧事件的实际结果。\n4. 试读阶段宁可多查真正的旧引用，也不要只复述章纲。修订阶段必须以被修订正文为主要搜索来源。\n5. 不得搜索未来剧情，也不得把候选稿自身当成历史事实。\n\n# 已有状态账本实体目录\n目录只用于提醒名称，不代表当前状态；状态仍由 App 查询结果提供。\n";

/// The planner prompt between the catalog and the input.
pub const PLANNER_INPUT: &'static str = "\n\n# 当前输入\n";

/// The end of the planner prompt.
pub const PLANNER_TAIL: &'static str = "\n\n# 输出\n只输出 JSON 对象：{\"searches\":[{\"query\":\"...\",\"reason\":\"...\",\"evidence_quote\":\"...\"}]}。没有需要回查的旧引用时返回 {\"searches\":[]}。";

/// The note that marks the middle of a long source as left out.
pub const OMISSION_NOTE: &'static str = "\n\n[中间正文已省略；请只引用首尾取样中连续出现的原文]\n\n";

/// The catalog line shown when there is no ledger.
pub const EMPTY_CATALOG: &'static str = "（当前没有可用的结构化状态账本目录）";

/// What the planner is asked to find at a stage.
pub open spec fn stage_task_text(stage: Stage) -> Seq<char> {
    match stage {
        Stage::Draft => "从本章章纲和人工指令中，找出续写前必须核对历史状态的旧人物、旧物件、旧能力、旧地点、旧事件或旧承诺。"@,
        Stage::Review => "逐段检查待试读正文，找出其中声称再次出现、仍然持有、已经知道、可以使用、已经发生或延续至今的旧人物、旧物件、旧能力、旧地点、旧事件或旧承诺。"@,
        Stage::Revision => "从被修订正文、试读意见和人工反馈中，找出修订时必须回查的旧人物、旧物件、旧能力、旧地点、旧事件或旧承诺。"@,
        _ => "找出需要核对历史正文的既有故事实体或事件。"@,
    }
}

/// What the planner is asked to find at a stage (see `stage_task_text`).
pub fn stage_task(stage: &Stage) -> (r: &'static str)
    ensures
        r@ == stage_task_text(*stage),
{
    match stage {
        Stage::Draft => "从本章章纲和人工指令中，找出续写前必须核对历史状态的旧人物、旧物件、旧能力、旧地点、旧事件或旧承诺。",
        Stage::Review => "逐段检查待试读正文，找出其中声称再次出现、仍然持有、已经知道、可以使用、已经发生或延续至今的旧人物、旧物件、旧能力、旧地点、旧事件或旧承诺。",
        Stage::Revision => "从被修订正文、试读意见和人工反馈中，找出修订时必须回查的旧人物、旧物件、旧能力、旧地点、旧事件或旧承诺。",
        _ => "找出需要核对历史正文的既有故事实体或事件。",
    }
}

/// How the main turn of a stage must use the search results.
pub open spec fn stage_instruction_text(stage: Stage) -> Seq<char> {
    match stage {
        Stage::Draft => "\n\n写作要求：涉及命中对象时，沿用历史引文和账本末态；若本章要改变状态，正文必须写出导致变化的动作与代价。搜索结果与本章无关时不要硬塞。"@,
        Stage::Review => "\n\n试读要求：必须把候选稿中的相关说法与工具引文、账本末态逐项比较。人物知情边界、入场路径、旧事件结果、物件归属/消耗/封印、伤势或承诺不一致时，应作为连续性问题报告；未命中时不得自行假定前文存在。"@,
        Stage::Revision => "\n\n修订要求：先修正工具结果证明的连续性断点，再处理节奏和句子；不得用新增过去事件或新增设定解释冲突。"@,
        _ => ""@,
    }
}

/// How the main turn of a stage must use the search results (see
/// `stage_instruction_text`).
pub fn stage_instruction(stage: &Stage) -> (r: &'static str)
    ensures
        r@ == stage_instruction_text(*stage),
{
    match stage {
        Stage::Draft => "\n\n写作要求：涉及命中对象时，沿用历史引文和账本末态；若本章要改变状态，正文必须写出导致变化的动作与代价。搜索结果与本章无关时不要硬塞。",
        Stage::Review => "\n\n试读要求：必须把候选稿中的相关说法与工具引文、账本末态逐项比较。人物知情边界、入场路径、旧事件结果、物件归属/消耗/封印、伤势或承诺不一致时，应作为连续性问题报告；未命中时不得自行假定前文存在。",
        Stage::Revision => "\n\n修订要求：先修正工具结果证明的连续性断点，再处理节奏和句子；不得用新增过去事件或新增设定解释冲突。",
        _ => "",
    }
}

// ---------------------------------------------------------------------------
// The planner's input
// ---------------------------------------------------------------------------
/// The source a planner reads: all of it when it has at most `max`
/// characters, else its first half of `max` characters, a note that the
/// middle was left out, and its last `max - max / 2` characters.
pub open spec fn sampled(text: Seq<char>, max: int) -> Seq<char> {
    if text.len() <= max {
        text
    } else {
        text.take(max / 2) + OMISSION_NOTE@ + text.skip(text.len() - (max - max / 2))
    }
}

/// Samples a long source for the planner (see `sampled`).
pub fn sample_source(text: &str, max_chars: usize) -> (r: String)
    ensures
        r@ == sampled(text@, max_chars as int),
{
    let v = chars_of(text);
    let count = v.len();
    if count <= max_chars {
        return owned(text);
    }
    let head_chars = max_chars / 2;
    let tail_chars = max_chars - head_chars;
    let head = slice_of(v.as_slice(), 0, head_chars);
    let tail = slice_of(v.as_slice(), count - tail_chars, count);
    let mut out = string_of(head.as_slice());
    append(&mut out, OMISSION_NOTE);
    crate::text::append_chars(&mut out, tail.as_slice());
    out
}

/// The text around the first occurrence of a term: up to `max / 2`
/// characters on each side of it; the term itself when it does not occur.
pub open spec fn excerpt(text: Seq<char>, term: Seq<char>, max: int) -> Seq<char> {
    if !contains_seq(text, term) {
        term
    } else {
        let index = first_at(text, term);
        let start = if index >= max / 2 {
            index - max / 2
        } else {
            0
        };
        let end = if index + term.len() + max / 2 <= text.len() {
            index + term.len() + max / 2
        } else {
            text.len() as int
        };
        text.subrange(start, end)
    }
}

/// The text around the first occurrence of a term (see `excerpt`).
pub fn excerpt_around_term(text: &str, term: &str, max_chars: usize) -> (r: String)
    ensures
        r@ == excerpt(text@, term@, max_chars as int),
{
    let v = chars_of(text);
    let t = chars_of(term);
    let index = match find_from(v.as_slice(), t.as_slice(), 0) {
        Some(i) => i,
        None => {
            assert(!contains_seq(text@, term@));
            return owned(term);
        },
    };
    proof {
        assert(is_first_at(text@, term@, index as int));
        lemma_first_at(text@, term@, index as int);
    }
    let half = max_chars / 2;
    let start = if index >= half {
        index - half
    } else {
        0
    };
    let end = if half <= (v.len() - index) - t.len() {
        index + t.len() + half
    } else {
        v.len()
    };
    let piece = slice_of(v.as_slice(), start, end);
    string_of(piece.as_slice())
}

/// The ledger catalog lines of the planner prompt: the first 40 labels, each
/// after `- `, one per line; a note when there is none.
pub open spec fn catalog_text(labels: Seq<Seq<char>>) -> Seq<char> {
    if labels.len() == 0 {
        EMPTY_CATALOG@
    } else {
        join(at_most(labels, 40).map_values(|l: Seq<char>| "- "@ + l), "\n"@)
    }
}

/// The prompt that asks a model which old entities to look up before a
/// stage's turn.
pub open spec fn planner_prompt(stage: Stage, source: Seq<char>, labels: Seq<Seq<char>>) -> Seq<char> {
    PLANNER_HEAD@ + stage_task_text(stage) + PLANNER_RULES@ + catalog_text(labels) + PLANNER_INPUT@
        + source + PLANNER_TAIL@
}

/// Builds the planner prompt (see `planner_prompt`).
pub fn build_planner_prompt(stage: &Stage, source_material: &str, ledger_catalog: &[String]) -> (r:
    String)
    ensures
        r@ == planner_prompt(*stage, source_material@, views(ledger_catalog@)),
{
    let catalog = if ledger_catalog.len() == 0 {
        owned(EMPTY_CATALOG)
    } else {
        let n = if ledger_catalog.len() < 40 {
            ledger_catalog.len()
        } else {
            40
        };
        let ghost all = views(ledger_catalog@);
        let mut items: Vec<String> = Vec::new();
        let mut i: usize = 0;
        while i < n
            invariant
                i <= n,
                n <= ledger_catalog.len(),
                all == views(ledger_catalog@),
                views(items@) == all.take(i as int).map_values(|l: Seq<char>| "- "@ + l),
            decreases n - i,
        {
            let item = concat("- ", ledger_catalog[i].as_str());
            let ghost before = items@;
            items.push(item);
            i = i + 1;
            assert(views(items@) =~= views(before).push(item@));
            assert(all.take(i as int).map_values(|l: Seq<char>| "- "@ + l) =~= all.take(i - 1).map_values(
                |l: Seq<char>| "- "@ + l,
            ).push("- "@ + all[i - 1]));
        }
        assert(at_most(all, 40) == all.take(n as int));
        join_strings(items.as_slice(), "\n")
    };
    let mut r = concat(PLANNER_HEAD, stage_task(stage));
    append(&mut r, PLANNER_RULES);
    append(&mut r, catalog.as_str());
    append(&mut r, PLANNER_INPUT);
    append(&mut r, source_material);
    append(&mut r, PLANNER_TAIL);
    r
}

// ---------------------------------------------------------------------------
// Search requests
// ---------------------------------------------------------------------------
/// One lookup of an old entity, with why it is needed and the quote that
/// shows the need.
#[derive(Debug, PartialEq, Eq)]
pub struct SearchRequest {
    pub query: String,
    pub reason: String,
    pub evidence_quote: String,
}

/// A search request as text.
pub struct RequestView {
    pub query: Seq<char>,
    pub reason: Seq<char>,
    pub evidence_quote: Seq<char>,
}

impl View for SearchRequest {
    type V = RequestView;

    open spec fn view(&self) -> RequestView {
        RequestView { query: self.query@, reason: self.reason@, evidence_quote: self.evidence_quote@ }
    }
}

/// The views of a list of requests.
pub open spec fn request_views(s: Seq<SearchRequest>) -> Seq<RequestView> {
    s.map_values(|r: SearchRequest| r@)
}

/// Some request of the list has the query.
pub open spec fn has_query(s: Seq<RequestView>, q: Seq<char>) -> bool {
    exists|i: int| 0 <= i < s.len() && #[trigger] s[i].query == q
}

/// The list with the request added unless its query is already there.
pub open spec fn add_new(s: Seq<RequestView>, r: RequestView) -> Seq<RequestView> {
    if has_query(s, r.query) {
        s
    } else {
        s.push(r)
    }
}

/// The safeguards whose query occurs in `q`, each added unless already there.
pub open spec fn add_contained(s: Seq<RequestView>, q: Seq<char>, safeguards: Seq<RequestView>) -> Seq<
    RequestView,
>
    decreases safeguards.len(),
{
    if safeguards.len() == 0 {
        s
    } else {
        let prev = add_contained(s, q, safeguards.drop_last());
        if contains_seq(q, safeguards.last().query) {
            add_new(prev, safeguards.last())
        } else {
            prev
        }
    }
}

/// The agent's requests in order, each followed by the safeguards that its
/// query contains, every query once.
pub open spec fn agent_first(agent: Seq<RequestView>, safeguards: Seq<RequestView>) -> Seq<RequestView>
    decreases agent.len(),
{
    if agent.len() == 0 {
        Seq::empty()
    } else {
        let prev = agent_first(agent.drop_last(), safeguards);
        add_contained(add_new(prev, agent.last()), agent.last().query, safeguards)
    }
}

/// Every request added in order unless its query is already there.
pub open spec fn add_all(s: Seq<RequestView>, more: Seq<RequestView>) -> Seq<RequestView>
    decreases more.len(),
{
    if more.len() == 0 {
        s
    } else {
        add_new(add_all(s, more.drop_last()), more.last())
    }
}

/// The searches that run: the agent's requests with the safeguards their
/// queries contain, then the other safeguards, every query once, at most
/// `MAX_EXECUTED_SEARCHES` of them.
pub open spec fn merged_searches(agent: Seq<RequestView>, safeguards: Seq<RequestView>) -> Seq<
    RequestView,
> {
    at_most(add_all(agent_first(agent, safeguards), safeguards), MAX_EXECUTED_SEARCHES as int)
}

/// A copy of a request.
pub fn copy_request(r: &SearchRequest) -> (c: SearchRequest)
    ensures
        c@ == r@,
{
    SearchRequest {
        query: r.query.clone(),
        reason: r.reason.clone(),
        evidence_quote: r.evidence_quote.clone(),
    }
}

fn has_query_of(s: &Vec<SearchRequest>, q: &str) -> (r: bool)
    ensures
        r == has_query(request_views(s@), q@),
{
    let ghost sv = request_views(s@);
    let mut i: usize = 0;
    while i < s.len()
        invariant
            i <= s.len(),
            sv == request_views(s@),
            forall|j: int| 0 <= j < i ==> #[trigger] sv[j].query != q@,
        decreases s.len() - i,
    {
        assert(sv[i as int] == s@[i as int]@);
        if crate::text::str_eq(s[i].query.as_str(), q) {
            assert(sv[i as int].query == q@);
            return true;
        }
        i = i + 1;
    }
    false
}

fn push_new(s: &mut Vec<SearchRequest>, r: &SearchRequest)
    ensures
        request_views(final(s)@) == add_new(request_views(old(s)@), r@),
{
    if !has_query_of(s, r.query.as_str()) {
        let ghost before = request_views(s@);
        let c = copy_request(r);
        s.push(c);
        assert(request_views(s@) =~= before.push(r@));
    }
}

/// Merges the agent's requests with the App's safeguards (see
/// `merged_searches`).
pub fn merge_searches(agent: &[SearchRequest], safeguards: &[SearchRequest]) -> (r: Vec<
    SearchRequest,
>)
    ensures
        request_views(r@) == merged_searches(request_views(agent@), request_views(safeguards@)),
{
    let ghost av = request_views(agent@);
    let ghost sv = request_views(safeguards@);
    let mut searches: Vec<SearchRequest> = Vec::new();
    let mut i: usize = 0;
    while i < agent.len()
        invariant
            i <= agent.len(),
            av == request_views(agent@),
            sv == request_views(safeguards@),
            request_views(searches@) == agent_first(av.take(i as int), sv),
        decreases agent.len() - i,
    {
        let request = &agent[i];
        assert(av.take(i + 1).drop_last() == av.take(i as int));
        assert(av.take(i + 1).last() == request@);
        push_new(&mut searches, request);
        let ghost base = request_views(searches@);
        let mut k: usize = 0;
        while k < safeguards.len()
            invariant
                k <= safeguards.len(),
                sv == request_views(safeguards@),
                request_views(searches@) == add_contained(base, request.query@, sv.take(k as int)),
            decreases safeguards.len() - k,
        {
            assert(sv.take(k + 1).drop_last() == sv.take(k as int));
            assert(sv.take(k + 1).last() == safeguards@[k as int]@);
            if str_contains(request.query.as_str(), safeguards[k].query.as_str()) {
                push_new(&mut searches, &safeguards[k]);
            }
            k = k + 1;
        }
        assert(sv.take(safeguards.len() as int) == sv);
        i = i + 1;
    }
    assert(av.take(agent.len() as int) == av);
    let ghost first = request_views(searches@);
    let mut k: usize = 0;
    while k < safeguards.len()
        invariant
            k <= safeguards.len(),
            sv == request_views(safeguards@),
            request_views(searches@) == add_all(first, sv.take(k as int)),
        decreases safeguards.len() - k,
    {
        assert(sv.take(k + 1).drop_last() == sv.take(k as int));
        assert(sv.take(k + 1).last() == safeguards@[k as int]@);
        push_new(&mut searches, &safeguards[k]);
        k = k + 1;
    }
    assert(sv.take(safeguards.len() as int) == sv);
    if searches.len() > MAX_EXECUTED_SEARCHES {
        let ghost full = request_views(searches@);
        searches.truncate(MAX_EXECUTED_SEARCHES);
        assert(request_views(searches@) =~= full.take(MAX_EXECUTED_SEARCHES as int));
    }
    searches
}

// ---------------------------------------------------------------------------
// The agent's plan
// ---------------------------------------------------------------------------
/// `s` without all its trailing copies of `p` (a non-empty `p`).
pub open spec fn strip_trailing(s: Seq<char>, p: Seq<char>) -> Seq<char>
    decreases s.len(),
{
    if p.len() > 0 && crate::text::finishes(s, p) {
        strip_trailing(s.take(s.len() - p.len()), p)
    } else {
        s
    }
}

/// A plan reply without its code fence: trimmed, without a leading
/// ```` ```json ```` or ```` ``` ```` and the trailing fences, trimmed again.
pub open spec fn plan_cleaned(raw: Seq<char>) -> Seq<char> {
    let t = trim(raw);
    let inner = if crate::text::begins(t, "```json"@) {
        t.skip(7)
    } else if crate::text::begins(t, "```"@) {
        t.skip(3)
    } else {
        t
    };
    trim(strip_trailing(inner, "```"@))
}

fn trailing_fence_start(inner: &[char]) -> (end: usize)
    ensures
        end <= inner@.len(),
        inner@.take(end as int) == strip_trailing(inner@, "```"@),
{
    proof {
        reveal_strlit("```");
    }
    assert("```"@ =~= seq!['`', '`', '`']);
    let mut end = inner.len();
    assert(inner@.take(end as int) == inner@);
    while end >= 3 && inner[end - 3] == '`' && inner[end - 2] == '`' && inner[end - 1] == '`'
        invariant
            end <= inner.len(),
            "```"@ == seq!['`', '`', '`'],
            strip_trailing(inner@, "```"@) == strip_trailing(inner@.take(end as int), "```"@),
        decreases end,
    {
        let ghost h = inner@.take(end as int);
        assert(h.skip(h.len() - 3) =~= "```"@);
        assert(h.take(h.len() - 3) =~= inner@.take(end - 3));
        end = end - 3;
    }
    proof {
        let h = inner@.take(end as int);
        if crate::text::finishes(h, "```"@) {
            assert(h.skip(h.len() - 3)[0] == h[h.len() - 3]);
            assert(h.skip(h.len() - 3)[1] == h[h.len() - 2]);
            assert(h.skip(h.len() - 3)[2] == h[h.len() - 1]);
        }
    }
    end
}

/// Removes the code fence around a plan reply (see `plan_cleaned`).
pub fn clean_plan_reply(raw: &str) -> (r: String)
    ensures
        r@ == plan_cleaned(raw@),
{
    let v = chars_of(raw);
    let t = trim_chars(v.as_slice());
    let json = chars_of("```json");
    let fence = chars_of("```");
    proof {
        reveal_strlit("```json");
        reveal_strlit("```");
    }
    let inner = if crate::text::starts_with(t.as_slice(), json.as_slice()) {
        slice_of(t.as_slice(), 7, t.len())
    } else if crate::text::starts_with(t.as_slice(), fence.as_slice()) {
        slice_of(t.as_slice(), 3, t.len())
    } else {
        slice_of(t.as_slice(), 0, t.len())
    };
    assert(inner@ == (if crate::text::begins(t@, "```json"@) {
        t@.skip(7)
    } else if crate::text::begins(t@, "```"@) {
        t@.skip(3)
    } else {
        t@
    }));
    let end = trailing_fence_start(inner.as_slice());
    let head = slice_of(inner.as_slice(), 0, end);
    assert(head@ == strip_trailing(inner@, "```"@));
    let out = trim_chars(head.as_slice());
    string_of(out.as_slice())
}

/// A request with its fields trimmed.
pub open spec fn trimmed_request(r: RequestView) -> RequestView {
    RequestView { query: trim(r.query), reason: trim(r.reason), evidence_quote: trim(r.evidence_quote) }
}

/// A trimmed request is grounded in the source: a query of 2 to 24
/// characters and a quote of 6 to 100 that both occur in the source, and a
/// reason.
pub open spec fn request_grounded(r: RequestView, source: Seq<char>) -> bool {
    &&& 2 <= r.query.len() <= 24
    &&& 6 <= r.evidence_quote.len() <= 100
    &&& contains_seq(source, r.evidence_quote)
    &&& contains_seq(source, r.query)
    &&& r.reason.len() > 0
}

/// The trimmed requests that are grounded, each query once, in order.
pub open spec fn grounded_requests(cands: Seq<RequestView>, source: Seq<char>) -> Seq<RequestView>
    decreases cands.len(),
{
    if cands.len() == 0 {
        Seq::empty()
    } else {
        let prev = grounded_requests(cands.drop_last(), source);
        let r = trimmed_request(cands.last());
        if request_grounded(r, source) && !has_query(prev, r.query) {
            prev.push(r)
        } else {
            prev
        }
    }
}

/// The agent's searches that run: its grounded requests, each query once, at
/// most `MAX_AGENT_SEARCHES` of them.
pub fn filter_search_plan(candidates: Vec<SearchRequest>, source_material: &str) -> (r: Vec<
    SearchRequest,
>)
    ensures
        request_views(r@) == at_most(
            grounded_requests(request_views(candidates@), source_material@),
            MAX_AGENT_SEARCHES as int,
        ),
{
    let ghost cv = request_views(candidates@);
    let sv = chars_of(source_material);
    let mut searches: Vec<SearchRequest> = Vec::new();
    for request in it: candidates
        invariant
            cv == request_views(it.seq()),
            sv@ == source_material@,
            request_views(searches@) == grounded_requests(cv.take(it.index()), source_material@),
    {
        assert(cv.take(it.index() + 1).drop_last() == cv.take(it.index()));
        assert(cv.take(it.index() + 1).last() == request@);
        let r = SearchRequest {
            query: trimmed(request.query.as_str()),
            reason: trimmed(request.reason.as_str()),
            evidence_quote: trimmed(request.evidence_quote.as_str()),
        };
        let q = chars_of(r.query.as_str());
        let e = chars_of(r.evidence_quote.as_str());
        let ok = 2 <= q.len() && q.len() <= 24 && 6 <= e.len() && e.len() <= 100 && contains(
            sv.as_slice(),
            e.as_slice(),
        ) && contains(sv.as_slice(), q.as_slice()) && !is_empty_str(r.reason.as_str());
        if ok && !has_query_of(&searches, r.query.as_str()) {
            let ghost before = request_views(searches@);
            let ghost rv = r@;
            searches.push(r);
            assert(request_views(searches@) =~= before.push(rv));
        }
    }
    assert(cv.take(cv.len() as int) == cv);
    if searches.len() > MAX_AGENT_SEARCHES {
        let ghost full = request_views(searches@);
        searches.truncate(MAX_AGENT_SEARCHES);
        assert(request_views(searches@) =~= full.take(MAX_AGENT_SEARCHES as int));
    }
    searches
}

fn is_empty_str(s: &str) -> (r: bool)
    ensures
        r == (s@.len() == 0),
{
    chars_of(s).len() == 0
}

/// Why the App adds a search of its own.
pub const FALLBACK_REASON: &'static str = "App 按候选稿中出现的已登记实体补充确定性回查";

/// The App's own searches: for each known label of at least 2 characters
/// that the source holds, a search quoting the source around it.
pub open spec fn fallback_requests(labels: Seq<Seq<char>>, source: Seq<char>) -> Seq<RequestView>
    decreases labels.len(),
{
    if labels.len() == 0 {
        Seq::empty()
    } else {
        let prev = fallback_requests(labels.drop_last(), source);
        let l = labels.last();
        if l.len() >= 2 && contains_seq(source, l) {
            prev.push(
                RequestView {
                    query: l,
                    reason: FALLBACK_REASON@,
                    evidence_quote: excerpt(source, l, 72),
                },
            )
        } else {
            prev
        }
    }
}

/// The App's own searches for the known labels, at most
/// `MAX_EXECUTED_SEARCHES` of them (see `fallback_requests`).
pub fn fallback_searches(labels: &[String], source_material: &str) -> (r: Vec<SearchRequest>)
    ensures
        request_views(r@) == at_most(
            fallback_requests(views(labels@), source_material@),
            MAX_EXECUTED_SEARCHES as int,
        ),
{
    let ghost lv = views(labels@);
    let mut searches: Vec<SearchRequest> = Vec::new();
    let mut i: usize = 0;
    while i < labels.len()
        invariant
            i <= labels.len(),
            lv == views(labels@),
            request_views(searches@) == fallback_requests(lv.take(i as int), source_material@),
        decreases labels.len() - i,
    {
        let label = labels[i].as_str();
        assert(lv.take(i + 1).drop_last() == lv.take(i as int));
        assert(lv.take(i + 1).last() == label@);
        if chars_of(label).len() >= 2 && str_contains(source_material, label) {
            let r = SearchRequest {
                query: owned(label),
                reason: owned(FALLBACK_REASON),
                evidence_quote: excerpt_around_term(source_material, label, 72),
            };
            let ghost before = request_views(searches@);
            let ghost rv = r@;
            searches.push(r);
            assert(request_views(searches@) =~= before.push(rv));
        }
        i = i + 1;
    }
    assert(lv.take(labels.len() as int) == lv);
    if searches.len() > MAX_EXECUTED_SEARCHES {
        let ghost full = request_views(searches@);
        searches.truncate(MAX_EXECUTED_SEARCHES);
        assert(request_views(searches@) =~= full.take(MAX_EXECUTED_SEARCHES as int));
    }
    searches
}

// ---------------------------------------------------------------------------
// Known labels
// ---------------------------------------------------------------------------
/// A character that ends the name part of a heading.
pub open spec fn name_separator(c: char) -> bool {
    c == '：' || c == ':' || c == '（' || c == '('
}

/// The part of `s` before its first name separator.
pub open spec fn before_separator(s: Seq<char>) -> Seq<char>
    decreases s.len(),
{
    if s.len() == 0 {
        s
    } else if name_separator(s[0]) {
        Seq::empty()
    } else {
        seq![s[0]] + before_separator(s.drop_first())
    }
}

/// Headings of a character sheet that are not entity names.
pub open spec fn generic_heading(h: Seq<char>) -> bool {
    h == "主要角色"@ || h == "次要角色"@ || h == "角色关系"@ || h == "角色设计"@
}

/// The entity a line names, if it is a second-level heading: its text up to
/// the first name separator, trimmed, of 2 to 16 characters, and not a
/// generic heading.
pub open spec fn heading_entity(line: Seq<char>) -> Option<Seq<char>> {
    let t = trim(line);
    if crate::text::begins(t, "## "@) {
        let name = trim(before_separator(trim(t.skip(3))));
        if 2 <= name.len() <= 16 && !generic_heading(name) {
            Some(name)
        } else {
            None
        }
    } else {
        None
    }
}

/// The entities that the headings of a text name, in order.
pub open spec fn heading_entities(ls: Seq<Seq<char>>) -> Seq<Seq<char>>
    decreases ls.len(),
{
    if ls.len() == 0 {
        Seq::empty()
    } else {
        match heading_entity(ls.last()) {
            Some(n) => heading_entities(ls.drop_last()).push(n),
            None => heading_entities(ls.drop_last()),
        }
    }
}

fn name_part(s: &[char]) -> (r: Vec<char>)
    ensures
        r@ == before_separator(s@),
{
    let mut i: usize = 0;
    assert(s@.skip(0) == s@);
    while i < s.len() && !(s[i] == '：' || s[i] == ':' || s[i] == '（' || s[i] == '(')
        invariant
            i <= s.len(),
            before_separator(s@) == s@.take(i as int) + before_separator(s@.skip(i as int)),
        decreases s.len() - i,
    {
        assert(s@.skip(i as int)[0] == s@[i as int]);
        assert(s@.skip(i as int).drop_first() == s@.skip(i + 1));
        assert(s@.take(i + 1) == s@.take(i as int) + seq![s@[i as int]]);
        i = i + 1;
    }
    proof {
        if i < s.len() {
            assert(s@.skip(i as int)[0] == s@[i as int]);
        } else {
            assert(s@.skip(i as int).len() == 0);
        }
        assert(s@.take(i as int) + Seq::<char>::empty() == s@.take(i as int));
    }
    slice_of(s, 0, i)
}

/// The entities that the second-level headings of a character sheet name
/// (see `heading_entities`).
pub fn markdown_entity_headings(content: &str) -> (r: Vec<String>)
    ensures
        views(r@) == heading_entities(crate::text::lines(content@)),
{
    let ls = crate::text::str_lines(content);
    let ghost lv = views(ls@);
    let mark = chars_of("## ");
    proof {
        reveal_strlit("## ");
    }
    let mut out: Vec<String> = Vec::new();
    let mut i: usize = 0;
    while i < ls.len()
        invariant
            i <= ls.len(),
            lv == views(ls@),
            lv == crate::text::lines(content@),
            mark@ == "## "@,
            mark@.len() == 3,
            views(out@) == heading_entities(lv.take(i as int)),
        decreases ls.len() - i,
    {
        assert(lv.take(i + 1).drop_last() == lv.take(i as int));
        assert(lv.take(i + 1).last() == ls@[i as int]@);
        let lc = chars_of(ls[i].as_str());
        let t = trim_chars(lc.as_slice());
        if crate::text::starts_with(t.as_slice(), mark.as_slice()) {
            let rest = slice_of(t.as_slice(), 3, t.len());
            let inner = trim_chars(rest.as_slice());
            let part = name_part(inner.as_slice());
            let name = trim_chars(part.as_slice());
            let ns = string_of(name.as_slice());
            let n = name.len();
            let generic = crate::text::str_eq(ns.as_str(), "主要角色") || crate::text::str_eq(
                ns.as_str(),
                "次要角色",
            ) || crate::text::str_eq(ns.as_str(), "角色关系") || crate::text::str_eq(
                ns.as_str(),
                "角色设计",
            );
            if 2 <= n && n <= 16 && !generic {
                let ghost before = views(out@);
                out.push(ns);
                assert(views(out@) =~= before.push(name@));
            }
        }
        i = i + 1;
    }
    assert(lv.take(ls.len() as int) == lv);
    out
}

/// A weighted label comes before another: a higher weight, or the same
/// weight and more characters.
pub open spec fn ranks_before(a: (u8, Seq<char>), b: (u8, Seq<char>)) -> bool {
    a.0 > b.0 || (a.0 == b.0 && a.1.len() > b.1.len())
}

/// `x` placed into `s` after the last label that it does not come before.
pub open spec fn insert_ranked(s: Seq<(u8, Seq<char>)>, x: (u8, Seq<char>)) -> Seq<(u8, Seq<char>)>
    decreases s.len(),
{
    if s.len() == 0 {
        seq![x]
    } else if !ranks_before(x, s.last()) {
        s.push(x)
    } else {
        insert_ranked(s.drop_last(), x).push(s.last())
    }
}

/// The labels ranked, stably: weight first, then length.
pub open spec fn sort_ranked(s: Seq<(u8, Seq<char>)>) -> Seq<(u8, Seq<char>)>
    decreases s.len(),
{
    if s.len() == 0 {
        Seq::empty()
    } else {
        insert_ranked(sort_ranked(s.drop_last()), s.last())
    }
}

/// The trimmed labels of 2 to 24 characters, each once, in order.
pub open spec fn distinct_labels(s: Seq<(u8, Seq<char>)>) -> Seq<Seq<char>>
    decreases s.len(),
{
    if s.len() == 0 {
        Seq::empty()
    } else {
        let prev = distinct_labels(s.drop_last());
        let l = trim(s.last().1);
        if 2 <= l.len() <= 24 && !prev.contains(l) {
            prev.push(l)
        } else {
            prev
        }
    }
}

/// The views of weighted labels.
pub open spec fn weighted_views(s: Seq<(u8, String)>) -> Seq<(u8, Seq<char>)> {
    s.map_values(|w: (u8, String)| (w.0, w.1@))
}

proof fn lemma_insert_ranked_at(s: Seq<(u8, Seq<char>)>, x: (u8, Seq<char>), j: int)
    requires
        0 <= j <= s.len(),
        forall|k: int| j <= k < s.len() ==> ranks_before(x, #[trigger] s[k]),
        j == 0 || !ranks_before(x, s[j - 1]),
    ensures
        insert_ranked(s, x) == s.insert(j, x),
    decreases s.len(),
{
    if s.len() == 0 {
        assert(s.insert(j, x) =~= seq![x]);
    } else if !ranks_before(x, s.last()) {
        if j < s.len() {
            assert(ranks_before(x, s[s.len() - 1]));
        }
        assert(s.insert(j, x) =~= s.push(x));
    } else {
        assert(j < s.len());
        lemma_insert_ranked_at(s.drop_last(), x, j);
        assert(s.drop_last().insert(j, x).push(s.last()) =~= s.insert(j, x));
    }
}

fn insert_weighted(v: &mut Vec<(u8, String)>, x: (u8, String))
    ensures
        weighted_views(final(v)@) == insert_ranked(weighted_views(old(v)@), (x.0, x.1@)),
{
    let xl = chars_of(x.1.as_str()).len();
    let ghost xv = (x.0, x.1@);
    let mut j = v.len();
    let mut found = false;
    while j > 0 && !found
        invariant
            j <= v.len(),
            xl == x.1@.len(),
            xv == (x.0, x.1@),
            found ==> j > 0 && !ranks_before(xv, (v@[j - 1].0, v@[j - 1].1@)),
            forall|k: int| j <= k < v@.len() ==> ranks_before(xv, (#[trigger] v@[k].0, v@[k].1@)),
        decreases 2 * j + if found { 0int } else { 1int },
    {
        let p = v[j - 1].0;
        let l = chars_of(v[j - 1].1.as_str()).len();
        if !(x.0 > p || (x.0 == p && xl > l)) {
            found = true;
        } else {
            j = j - 1;
        }
    }
    let ghost before = weighted_views(v@);
    proof {
        assert forall|k: int| j <= k < before.len() implies ranks_before(xv, #[trigger] before[k]) by {
            assert(before[k] == (v@[k].0, v@[k].1@));
        }
        if j > 0 {
            assert(before[j - 1] == (v@[j - 1].0, v@[j - 1].1@));
        }
        lemma_insert_ranked_at(before, xv, j as int);
    }
    v.insert(j, x);
    assert(weighted_views(v@) =~= before.insert(j as int, xv));
}

/// The labels the App knows, best first (see `distinct_labels` of
/// `sort_ranked`).
pub fn rank_reference_labels(weighted: Vec<(u8, String)>) -> (r: Vec<String>)
    ensures
        views(r@) == distinct_labels(sort_ranked(weighted_views(weighted@))),
{
    let ghost wv = weighted_views(weighted@);
    let mut sorted: Vec<(u8, String)> = Vec::new();
    for x in it: weighted
        invariant
            wv == weighted_views(it.seq()),
            weighted_views(sorted@) == sort_ranked(wv.take(it.index())),
    {
        assert(wv.take(it.index() + 1).drop_last() == wv.take(it.index()));
        assert(wv.take(it.index() + 1).last() == (x.0, x.1@));
        insert_weighted(&mut sorted, x);
    }
    assert(wv.take(wv.len() as int) == wv);
    let ghost sv = weighted_views(sorted@);
    let mut labels: Vec<String> = Vec::new();
    let mut i: usize = 0;
    while i < sorted.len()
        invariant
            i <= sorted.len(),
            sv == weighted_views(sorted@),
            views(labels@) == distinct_labels(sv.take(i as int)),
        decreases sorted.len() - i,
    {
        assert(sv.take(i + 1).drop_last() == sv.take(i as int));
        assert(sv.take(i + 1).last() == sv[i as int]);
        let label = trimmed(sorted[i].1.as_str());
        let n = chars_of(label.as_str()).len();
        if 2 <= n && n <= 24 {
            let ghost lv = views(labels@);
            let mut seen = false;
            let mut k: usize = 0;
            while k < labels.len()
                invariant
                    k <= labels.len(),
                    lv == views(labels@),
                    seen <==> exists|m: int| 0 <= m < k && lv[m] == label@,
                decreases labels.len() - k,
            {
                assert(lv[k as int] == labels@[k as int]@);
                if crate::text::str_eq(labels[k].as_str(), label.as_str()) {
                    seen = true;
                }
                k = k + 1;
            }
            if !seen {
                let ghost ll = label@;
                labels.push(label);
                assert(views(labels@) =~= lv.push(ll));
            } else {
                assert(lv.contains(label@));
            }
        }
        i = i + 1;
    }
    assert(sv.take(sorted.len() as int) == sv);
    labels
}

// ---------------------------------------------------------------------------
// Rendering what was found
// ---------------------------------------------------------------------------
/// A passage of the book's history that a search found.
#[derive(Debug, PartialEq, Eq)]
pub struct StoryContextSnippet {
    pub source_label: String,
    pub matched_term: String,
    pub content: String,
}

/// The last approved state of a ledger entity, with its chapter.
#[derive(Debug, PartialEq, Eq)]
pub struct LedgerHit {
    pub entry: ContinuityLedgerEntry,
    pub chapter_no: i64,
    pub chapter_title: String,
}

/// A fact of the story index, with its chapter.
#[derive(Debug, PartialEq, Eq)]
pub struct StoryFactHit {
    pub entity_name: String,
    pub dimension: String,
    pub value: String,
    pub visibility: String,
    pub chapter_no: i64,
    pub chapter_title: String,
    pub source_quote: String,
}

/// The head of a rendered search result.
pub const RESULT_TITLE: &'static str = "# App 上下文工具执行结果";

/// What the results are, for the model that reads them.
pub const RESULT_PREAMBLE: &'static str = "\n以下内容不是模型记忆或候选稿自证，而是 Agent 提出查询后，由 App 从本项目已通过的历史正文、书籍资料和状态账本中读取的结果。只能按引文使用，不得补全引文没有证明的事实。";

/// The explanation of a search that found nothing.
pub const NO_HIT_PREAMBLE: &'static str = "\nAgent 已调用 App 历史搜索，但以下查询没有在已通过的历史正文、书籍资料或状态账本中找到可引用结果：";

/// The warning after a search that found nothing.
pub const NO_HIT_WARNING: &'static str = "\n未命中不等于候选稿正确，也不等于可以编造来源；只能把相关说法视为尚未得到历史证据支持。";

/// One request as a line of the results.
pub open spec fn request_line(r: RequestView) -> Seq<char> {
    "\n- `"@ + r.query + "`："@ + r.reason + " | 触发原文：\""@ + r.evidence_quote + "\""@
}

/// The request lines, one after another.
pub open spec fn request_lines(s: Seq<RequestView>) -> Seq<char>
    decreases s.len(),
{
    if s.len() == 0 {
        Seq::empty()
    } else {
        request_lines(s.drop_last()) + request_line(s.last())
    }
}

/// One found passage as a line of the results.
pub open spec fn snippet_line(query: Seq<char>, s: StoryContextSnippet) -> Seq<char> {
    "\n- 查询 `"@ + query + "` -> ["@ + s.source_label@ + "] 命中 `"@ + s.matched_term@ + "`："@
        + s.content@
}

/// The passage lines, one after another.
pub open spec fn snippet_lines(s: Seq<(SearchRequest, StoryContextSnippet)>) -> Seq<char>
    decreases s.len(),
{
    if s.len() == 0 {
        Seq::empty()
    } else {
        snippet_lines(s.drop_last()) + snippet_line(s.last().0.query@, s.last().1)
    }
}

/// One ledger state as a line of the results.
pub open spec fn ledger_line(h: LedgerHit) -> Seq<char> {
    "\n- "@ + h.entry.entity_label@ + " / "@ + h.entry.state_kind@ + " = "@ + h.entry.state_value@
        + "（第 "@ + crate::text::decimal(h.chapter_no as int) + " 章《"@ + h.chapter_title@
        + "》；原文：\""@ + h.entry.evidence_quote@ + "\"）"@
}

/// The ledger lines, one after another.
pub open spec fn ledger_lines(s: Seq<LedgerHit>) -> Seq<char>
    decreases s.len(),
{
    if s.len() == 0 {
        Seq::empty()
    } else {
        ledger_lines(s.drop_last()) + ledger_line(s.last())
    }
}

/// One story fact as a line of the results.
pub open spec fn fact_line(h: StoryFactHit) -> Seq<char> {
    "\n- "@ + h.entity_name@ + " / "@ + h.dimension@ + " = "@ + h.value@ + "（可见范围："@
        + h.visibility@ + "；第 "@ + crate::text::decimal(h.chapter_no as int) + " 章《"@
        + h.chapter_title@ + "》；原文：\""@ + h.source_quote@ + "\"）"@
}

/// The fact lines, one after another.
pub open spec fn fact_lines(s: Seq<StoryFactHit>) -> Seq<char>
    decreases s.len(),
{
    if s.len() == 0 {
        Seq::empty()
    } else {
        fact_lines(s.drop_last()) + fact_line(s.last())
    }
}

/// The rendered results of a search: the head, the requests, then each
/// non-empty kind of result under its heading, then the stage's
/// instruction.
pub open spec fn tool_context_text(
    stage: Stage,
    searches: Seq<RequestView>,
    snippets: Seq<(SearchRequest, StoryContextSnippet)>,
    ledger: Seq<LedgerHit>,
    facts: Seq<StoryFactHit>,
) -> Seq<char> {
    RESULT_TITLE@ + RESULT_PREAMBLE@ + "\n\n## Agent 搜索请求"@ + request_lines(searches) + (if snippets.len()
        == 0 {
        Seq::empty()
    } else {
        "\n\n## search_story_context 命中"@ + snippet_lines(snippets)
    }) + (if ledger.len() == 0 {
        Seq::empty()
    } else {
        "\n\n## 状态账本末态"@ + ledger_lines(ledger)
    }) + (if facts.len() == 0 {
        Seq::empty()
    } else {
        "\n\n## 资料索引事实"@ + fact_lines(facts)
    }) + stage_instruction_text(stage)
}

fn request_line_of(r: &SearchRequest) -> (s: String)
    ensures
        s@ == request_line(r@),
{
    let mut s = concat("\n- `", r.query.as_str());
    append(&mut s, "`：");
    append(&mut s, r.reason.as_str());
    append(&mut s, " | 触发原文：\"");
    append(&mut s, r.evidence_quote.as_str());
    append(&mut s, "\"");
    s
}

fn snippet_line_of(r: &SearchRequest, x: &StoryContextSnippet) -> (s: String)
    ensures
        s@ == snippet_line(r.query@, *x),
{
    let mut s = concat("\n- 查询 `", r.query.as_str());
    append(&mut s, "` -> [");
    append(&mut s, x.source_label.as_str());
    append(&mut s, "] 命中 `");
    append(&mut s, x.matched_term.as_str());
    append(&mut s, "`：");
    append(&mut s, x.content.as_str());
    s
}

fn ledger_line_of(h: &LedgerHit) -> (s: String)
    ensures
        s@ == ledger_line(*h),
{
    let mut s = concat("\n- ", h.entry.entity_label.as_str());
    append(&mut s, " / ");
    append(&mut s, h.entry.state_kind.as_str());
    append(&mut s, " = ");
    append(&mut s, h.entry.state_value.as_str());
    append(&mut s, "（第 ");
    append(&mut s, crate::text::decimal_of(h.chapter_no).as_str());
    append(&mut s, " 章《");
    append(&mut s, h.chapter_title.as_str());
    append(&mut s, "》；原文：\"");
    append(&mut s, h.entry.evidence_quote.as_str());
    append(&mut s, "\"）");
    s
}

fn fact_line_of(h: &StoryFactHit) -> (s: String)
    ensures
        s@ == fact_line(*h),
{
    let mut s = concat("\n- ", h.entity_name.as_str());
    append(&mut s, " / ");
    append(&mut s, h.dimension.as_str());
    append(&mut s, " = ");
    append(&mut s, h.value.as_str());
    append(&mut s, "（可见范围：");
    append(&mut s, h.visibility.as_str());
    append(&mut s, "；第 ");
    append(&mut s, crate::text::decimal_of(h.chapter_no).as_str());
    append(&mut s, " 章《");
    append(&mut s, h.chapter_title.as_str());
    append(&mut s, "》；原文：\"");
    append(&mut s, h.source_quote.as_str());
    append(&mut s, "\"）");
    s
}

fn push_request_lines(out: &mut String, searches: &[SearchRequest])
    ensures
        final(out)@ == old(out)@ + request_lines(request_views(searches@)),
{
    let ghost start = out@;
    let ghost sv = request_views(searches@);
    let mut i: usize = 0;
    while i < searches.len()
        invariant
            i <= searches.len(),
            sv == request_views(searches@),
            out@ == start + request_lines(sv.take(i as int)),
        decreases searches.len() - i,
    {
        assert(sv.take(i + 1).drop_last() == sv.take(i as int));
        assert(sv.take(i + 1).last() == searches@[i as int]@);
        let line = request_line_of(&searches[i]);
        append(out, line.as_str());
        i = i + 1;
    }
    assert(sv.take(searches.len() as int) == sv);
}

fn push_snippet_section(output: &mut String, snippets: &[(SearchRequest, StoryContextSnippet)])
    ensures
        final(output)@ == old(output)@ + (if snippets@.len() == 0 {
            Seq::empty()
        } else {
            "\n\n## search_story_context 命中"@ + snippet_lines(snippets@)
        }),
{
    if snippets.len() == 0 {
        assert(output@ + Seq::<char>::empty() == output@);
        return;
    }
    let ghost first = output@;
    append(output, "\n\n## search_story_context 命中");
    let ghost start = output@;
    let mut i: usize = 0;
    while i < snippets.len()
        invariant
            i <= snippets.len(),
            output@ == start + snippet_lines(snippets@.take(i as int)),
        decreases snippets.len() - i,
    {
        assert(snippets@.take(i + 1).drop_last() == snippets@.take(i as int));
        let line = snippet_line_of(&snippets[i].0, &snippets[i].1);
        append(output, line.as_str());
        i = i + 1;
    }
    assert(snippets@.take(snippets.len() as int) == snippets@);
}

fn push_ledger_section(output: &mut String, ledger_hits: &[LedgerHit])
    ensures
        final(output)@ == old(output)@ + (if ledger_hits@.len() == 0 {
            Seq::empty()
        } else {
            "\n\n## 状态账本末态"@ + ledger_lines(ledger_hits@)
        }),
{
    if ledger_hits.len() == 0 {
        assert(output@ + Seq::<char>::empty() == output@);
        return;
    }
    append(output, "\n\n## 状态账本末态");
    let ghost start = output@;
    let mut i: usize = 0;
    while i < ledger_hits.len()
        invariant
            i <= ledger_hits.len(),
            output@ == start + ledger_lines(ledger_hits@.take(i as int)),
        decreases ledger_hits.len() - i,
    {
        assert(ledger_hits@.take(i + 1).drop_last() == ledger_hits@.take(i as int));
        let line = ledger_line_of(&ledger_hits[i]);
        append(output, line.as_str());
        i = i + 1;
    }
    assert(ledger_hits@.take(ledger_hits.len() as int) == ledger_hits@);
}

fn push_fact_section(output: &mut String, fact_hits: &[StoryFactHit])
    ensures
        final(output)@ == old(output)@ + (if fact_hits@.len() == 0 {
            Seq::empty()
        } else {
            "\n\n## 资料索引事实"@ + fact_lines(fact_hits@)
        }),
{
    if fact_hits.len() == 0 {
        assert(output@ + Seq::<char>::empty() == output@);
        return;
    }
    append(output, "\n\n## 资料索引事实");
    let ghost start = output@;
    let mut i: usize = 0;
    while i < fact_hits.len()
        invariant
            i <= fact_hits.len(),
            output@ == start + fact_lines(fact_hits@.take(i as int)),
        decreases fact_hits.len() - i,
    {
        assert(fact_hits@.take(i + 1).drop_last() == fact_hits@.take(i as int));
        let line = fact_line_of(&fact_hits[i]);
        append(output, line.as_str());
        i = i + 1;
    }
    assert(fact_hits@.take(fact_hits.len() as int) == fact_hits@);
}

/// Renders what a search found for the main turn (see `tool_context_text`).
pub fn render_tool_context(
    stage: &Stage,
    searches: &[SearchRequest],
    snippets: &[(SearchRequest, StoryContextSnippet)],
    ledger_hits: &[LedgerHit],
    fact_hits: &[StoryFactHit],
) -> (r: String)
    ensures
        r@ == tool_context_text(
            *stage,
            request_views(searches@),
            snippets@,
            ledger_hits@,
            fact_hits@,
        ),
{
    let mut output = owned(RESULT_TITLE);
    append(&mut output, RESULT_PREAMBLE);
    append(&mut output, "\n\n## Agent 搜索请求");
    push_request_lines(&mut output, searches);
    push_snippet_section(&mut output, snippets);
    push_ledger_section(&mut output, ledger_hits);
    push_fact_section(&mut output, fact_hits);
    append(&mut output, stage_instruction(stage));
    output
}

/// One request as a line of a result that found nothing.
pub open spec fn missed_line(r: RequestView) -> Seq<char> {
    "\n- `"@ + r.query + "`："@ + r.reason
}

/// The missed request lines, one after another.
pub open spec fn missed_lines(s: Seq<RequestView>) -> Seq<char>
    decreases s.len(),
{
    if s.len() == 0 {
        Seq::empty()
    } else {
        missed_lines(s.drop_last()) + missed_line(s.last())
    }
}

/// The rendered result of a search that found nothing.
pub open spec fn no_hit_text(stage: Stage, searches: Seq<RequestView>) -> Seq<char> {
    RESULT_TITLE@ + NO_HIT_PREAMBLE@ + missed_lines(searches) + NO_HIT_WARNING@
        + stage_instruction_text(stage)
}

/// Renders a search that found nothing (see `no_hit_text`).
pub fn render_no_hit_context(stage: &Stage, searches: &[SearchRequest]) -> (r: String)
    ensures
        r@ == no_hit_text(*stage, request_views(searches@)),
{
    let mut output = owned(RESULT_TITLE);
    append(&mut output, NO_HIT_PREAMBLE);
    let ghost start = output@;
    let ghost sv = request_views(searches@);
    let mut i: usize = 0;
    while i < searches.len()
        invariant
            i <= searches.len(),
            sv == request_views(searches@),
            output@ == start + missed_lines(sv.take(i as int)),
        decreases searches.len() - i,
    {
        assert(sv.take(i + 1).drop_last() == sv.take(i as int));
        assert(sv.take(i + 1).last() == searches@[i as int]@);
        let mut line = concat("\n- `", searches[i].query.as_str());
        append(&mut line, "`：");
        append(&mut line, searches[i].reason.as_str());
        append(&mut output, line.as_str());
        i = i + 1;
    }
    assert(sv.take(searches.len() as int) == sv);
    append(&mut output, NO_HIT_WARNING);
    append(&mut output, stage_instruction(stage));
    output
}

// ---------------------------------------------------------------------------
// What the searches look like
// ---------------------------------------------------------------------------
/// No two requests share a query.
pub open spec fn distinct_queries(s: Seq<RequestView>) -> bool {
    forall|i: int, j: int| 0 <= i < j < s.len() ==> #[trigger] s[i].query != #[trigger] s[j].query
}

proof fn lemma_add_new_distinct(s: Seq<RequestView>, r: RequestView)
    requires
        distinct_queries(s),
    ensures
        distinct_queries(add_new(s, r)),
{
    if !has_query(s, r.query) {
        let t = s.push(r);
        assert forall|i: int, j: int| 0 <= i < j < t.len() implies #[trigger] t[i].query
            != #[trigger] t[j].query by {
            if j == s.len() {
                assert(t[i] == s[i]);
                if s[i].query == r.query {
                    assert(has_query(s, r.query));
                }
            } else {
                assert(t[i] == s[i] && t[j] == s[j]);
            }
        }
    }
}

proof fn lemma_add_contained_distinct(s: Seq<RequestView>, q: Seq<char>, sg: Seq<RequestView>)
    requires
        distinct_queries(s),
    ensures
        distinct_queries(add_contained(s, q, sg)),
    decreases sg.len(),
{
    if sg.len() > 0 {
        lemma_add_contained_distinct(s, q, sg.drop_last());
        lemma_add_new_distinct(add_contained(s, q, sg.drop_last()), sg.last());
    }
}

proof fn lemma_agent_first_distinct(agent: Seq<RequestView>, sg: Seq<RequestView>)
    ensures
        distinct_queries(agent_first(agent, sg)),
    decreases agent.len(),
{
    if agent.len() > 0 {
        lemma_agent_first_distinct(agent.drop_last(), sg);
        let prev = agent_first(agent.drop_last(), sg);
        lemma_add_new_distinct(prev, agent.last());
        lemma_add_contained_distinct(add_new(prev, agent.last()), agent.last().query, sg);
    }
}

proof fn lemma_add_all_distinct(s: Seq<RequestView>, more: Seq<RequestView>)
    requires
        distinct_queries(s),
    ensures
        distinct_queries(add_all(s, more)),
    decreases more.len(),
{
    if more.len() > 0 {
        lemma_add_all_distinct(s, more.drop_last());
        lemma_add_new_distinct(add_all(s, more.drop_last()), more.last());
    }
}

/// The searches that run ask for each query once, and there are at most
/// `MAX_EXECUTED_SEARCHES` of them.
pub proof fn merged_searches_distinct(agent: Seq<RequestView>, safeguards: Seq<RequestView>)
    ensures
        distinct_queries(merged_searches(agent, safeguards)),
        merged_searches(agent, safeguards).len() <= MAX_EXECUTED_SEARCHES,
{
    lemma_agent_first_distinct(agent, safeguards);
    let all = add_all(agent_first(agent, safeguards), safeguards);
    lemma_add_all_distinct(agent_first(agent, safeguards), safeguards);
    let m = merged_searches(agent, safeguards);
    assert forall|i: int, j: int| 0 <= i < j < m.len() implies #[trigger] m[i].query
        != #[trigger] m[j].query by {
        assert(m[i] == all[i] && m[j] == all[j]);
    }
}

proof fn lemma_grounded(cands: Seq<RequestView>, source: Seq<char>)
    ensures
        distinct_queries(grounded_requests(cands, source)),
        forall|i: int|
            0 <= i < grounded_requests(cands, source).len() ==> request_grounded(
                #[trigger] grounded_requests(cands, source)[i],
                source,
            ),
    decreases cands.len(),
{
    if cands.len() > 0 {
        lemma_grounded(cands.drop_last(), source);
        let prev = grounded_requests(cands.drop_last(), source);
        let r = trimmed_request(cands.last());
        if request_grounded(r, source) && !has_query(prev, r.query) {
            lemma_add_new_distinct(prev, r);
            assert(add_new(prev, r) == prev.push(r));
            let g = grounded_requests(cands, source);
            assert forall|i: int| 0 <= i < g.len() implies request_grounded(#[trigger] g[i], source) by {
                if i < prev.len() {
                    assert(g[i] == prev[i]);
                }
            }
        }
    }
}

/// The agent's searches that run are grounded in the source, ask for each
/// query once, and number at most `MAX_AGENT_SEARCHES`.
pub proof fn planned_searches_grounded(cands: Seq<RequestView>, source: Seq<char>)
    ensures
        distinct_queries(at_most(grounded_requests(cands, source), MAX_AGENT_SEARCHES as int)),
        at_most(grounded_requests(cands, source), MAX_AGENT_SEARCHES as int).len()
            <= MAX_AGENT_SEARCHES,
        forall|i: int|
            0 <= i < at_most(grounded_requests(cands, source), MAX_AGENT_SEARCHES as int).len()
                ==> request_grounded(
                #[trigger] at_most(grounded_requests(cands, source), MAX_AGENT_SEARCHES as int)[i],
                source,
            ),
{
    lemma_grounded(cands, source);
    let g = grounded_requests(cands, source);
    let m = at_most(g, MAX_AGENT_SEARCHES as int);
    assert forall|i: int, j: int| 0 <= i < j < m.len() implies #[trigger] m[i].query
        != #[trigger] m[j].query by {
        assert(m[i] == g[i] && m[j] == g[j]);
    }
    assert forall|i: int| 0 <= i < m.len() implies request_grounded(#[trigger] m[i], source) by {
        assert(m[i] == g[i]);
    }
}


/// Sampling a long source keeps both of its ends: the sample starts with the
/// source's first `max / 2` characters, ends with its last `max - max / 2`
/// characters, and says in between that the middle was left out.
pub proof fn sampling_keeps_both_ends(text: Seq<char>, max: int)
    requires
        0 <= max < text.len(),
    ensures
        crate::text::begins(sampled(text, max), text.take(max / 2)),
        crate::text::finishes(sampled(text, max), text.skip(text.len() - (max - max / 2))),
        contains_seq(sampled(text, max), OMISSION_NOTE@),
{
    let head = text.take(max / 2);
    let tail = text.skip(text.len() - (max - max / 2));
    let r = sampled(text, max);
    assert(r == head + OMISSION_NOTE@ + tail);
    assert(r.take(head.len() as int) =~= head);
    assert(r.skip(r.len() - tail.len()) =~= tail);
    assert(r.subrange(head.len() as int, (head.len() + OMISSION_NOTE@.len()) as int) =~= OMISSION_NOTE@);
    assert(crate::text::occurs_at(r, OMISSION_NOTE@, head.len() as int));
}

} // verus!
