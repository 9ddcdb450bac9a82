//! Chapter hand-over memory: normalizing and hashing chapter texts, the
//! extraction prompt, and validating a model's memory against the chapter.
use vstd::prelude::*;

use crate::digest::{sha256, sha256_of};
use crate::error::AppError;
use crate::models::Chapter;
use crate::text::{
    append, append_chars, ascii_lower, ascii_lowercase, blank, char_views, chars_eq, chars_of, concat, contains,
    contains_any_of, contains_any_seq, contains_seq, find_char, find_from, first_at, hex, hex_of,
    is_blank, is_first_at, is_whitespace, decimal, decimal_of, str_eq, is_ws, join, join_strings, lemma_first_at, lines,
    lines_of, owned, replace, replace_all, rfind_char, slice_of, str_views, string_of, trim,
    trim_chars, trim_end, trim_end_chars, trimmed, views,
};
use crate::text_facts::{
    ends_clean, is_lower_hex_digit, lemma_clean_skip, lemma_clean_take, lemma_hex_shape, lemma_join_clean,
    lemma_lines, lemma_replace_absent, lemma_replace_cr_clears, lemma_trim_end_prefix, lemma_trim_idempotent,
    lemma_trim_start_rest, no_cr, no_lf,
};
use vstd::utf8::encode_utf8;

verus! {

pub const EXTRACTION_PROMPT_HEAD: &'static str = "# 任务\n从完整章节正文中生成供下一章使用的连续性交接记忆。它是可重建的派生资料，不是新设定。\n\n# 首要原则\n- 宁缺勿滥。它会被下一章当作事实使用，因此漏掉一条次要信息，好过写入一条不确定信息。\n- `text` 必须是 `evidence_quote` 的直接、保守改写。引文必须能够单独证明整条 `text`，不能只证明其中一半。\n- 每条记录只表达一个原子事实。禁止在同一条里拼接多个物件、多个动作、多个时间点或多个推论。\n\n# 事实边界\n1. 只记录正文已经发生、明确说出或明确决定的内容。人物猜测、威胁、命令、计划、传闻必须标明其性质，不能改写成已经发生的结果。\n2. 不得推测人物隐藏动机、物件来源、所有权、使用方式、幕后真相或未来剧情。\n3. 物件记录必须区分：谁发现、来源何处、当前由谁持有、存放在哪里、数量多少。正文没有明确写出的字段就不要补。\n   - 物件刻有某人的名字，不等于该物件由此人留下；正文没有“留下、交给、藏在”等明确动作时，只写主角发现了什么。\n4. 数量、期限、伤势、位置、门禁和物件状态必须采用正文时间顺序中最后一次明确确认的状态。\n5. 如果正文对同一事实出现互相冲突的数量或状态，不得自行选择其一，也不得同时写入两种说法。只删除有争议的字段，保留双方都能证明的最低事实。\n   - 例如数量一处写六件、一处写七件，但两处都证明角色仍持有该物件，只写“角色仍持有该物件”，不写数量。\n   - 如果连“是否持有、是否存活、是否开启”等核心状态也冲突，才省略整条事实。\n6. `knowledge_changes` 必须写清楚是谁知道了什么；作者叙述给读者的信息，不等于角色已经知道。\n   - 禁止使用“可能、或许、推测、似乎、应该、显然”等推断词补知识。正文只给线索时，不要替角色得出结论。\n   - 引文必须同时包含认知主体和“看见、听见、得知、确认、意识到”等认知动作。只引用一段别人说的话，不能证明主角听见或相信了这段话。\n7. `commitments` 只记录明确说出口或明确执行的决定。被迫答应、他人下令、暂时打算要如实表述，不能写成自愿承诺。\n8. `open_loops` 只记录章末仍未解决的问题。某人下令要做某事，只能写成“某人下令/威胁”，不能写成该结果已经发生。\n\n# 章末锚点\n1. `final_scene` 只截取正文结尾能够独立成立的连续原文；`text` 与 `evidence_quote` 必须逐字相同，后端会强制用原文覆盖概括。\n   - `final_scene` 不得夹带目的地、计划或下一步意图；这些内容只能放在 `immediate_next_intent`。\n2. `last_action` 必须对应正文最后一个已经发生的动作，并直接引用包含该动作的原句。\n3. `immediate_next_intent` 仅在章末明确写出下一步行动时填写；只有方向性愿望或推测时返回 null。\n4. `summary` 只概括本章已经完成的一个核心变化。若不存在一段能直接支撑它的连续引文，返回 null。\n\n# 引文规则\n1. 每个结论必须附一段正文逐字 `evidence_quote`，长度 6-180 字，必须连续出现，不能改写、拼接或省略号连接。\n2. 引文中的主语、对象、数量、状态和时间必须足以支撑 `text`；任何一项需要依赖另一段正文才能成立，就缩短 `text` 或不记录。\n3. 不要用物件清单证明物件来源，不要用人物台词证明台词内容已经成为事实，不要用计划证明计划已经执行。\n\n# 选择范围\n- `summary` 固定返回 null。单段引文通常无法证明整章摘要，不要冒险概括。\n- `state_changes` 最多 6 条、`knowledge_changes` 最多 4 条、`commitments` 最多 3 条、`open_loops` 最多 4 条，只保留直接影响下一章的内容。\n- `plan_reconciliation` 固定返回空数组。规划对账不进入续写事实。\n- 不确定字段使用 null 或空数组，不要为了填满字段而猜测。\n\n# 覆盖检查\n按下面顺序通读正文查漏。正文明确发生且下一章仍有影响时，优先记录；某类没有变化可以为空。\n1. 先从正文最后三分之一倒序检查人物离场时的最终状态，再回看前文解释变化来源。不得把章中过程状态当成章末库存。\n2. 资源与物件：取得、失去、消耗、损坏、藏匿、剩余数量、当前持有者和离场时携带的关键工具。一次取得一组资源可以是一条事实，但不要把“取得”和“随后使用”合并。\n   - 取得后已被消耗：优先记录“已经消耗”和实际效果，不再把它写成当前持有。\n   - 数量冲突但仍明确存在：记录不带数量的持有、剩余或不可用状态。\n   - 正文明确写出角色带着工具或物件离场时，该离场装备优先于早先放在房间、床板或仓库里的中间状态。\n3. 人物状态：伤势、修为、体力、暴露程度、关系和身份状态的实际变化。\n4. 场景状态：人物当前位置、门禁、封锁、阵法、道路和关键设施的最终状态。\n5. 外部压力：已经说出的命令、追查、期限、交易和威胁。命令仍写成命令，不得写成执行结果。\n6. 下一步衔接：最后动作、仍未解决的近程问题，以及章末明确准备执行的动作。\n7. 明确认知：只有引文同时写出认知主体和认知动作时才进入 `knowledge_changes`。不能满足时宁可不记，不要把该信息从其他分类重复一遍。\n\n`state_changes` 最终自检：如果正文明确写了章末库存或离场装备，至少保留一条资源/物件状态；如果正文明确写了伤势变化，至少保留一条身体状态；同一类最多两条，避免身体状态挤掉资源和场景状态。\n\n# 输出前强制自检\n1. 删除任何需要两段以上正文才能证明的条目。\n2. 删除任何同时包含两个以上动作或前后状态变化的条目。例如“甲拿到药并把药交给乙”必须拆成两条，各自有直接引文。\n   - `text` 出现“并、同时、以及、又”时重新检查；若连接的是两个动作或两个结论，必须拆分或删除。\n   - 同一个动作涉及一组物品时可以保留在一条中，例如“甲把丹炉、火石和断刀装进布袋”；物品清单不是多个状态变化。\n3. 删除任何把“猜测、命令、威胁、计划”改写成“已经发生”的条目。\n4. `evidence_quote` 必须从正文连续复制，保留正文原有的中文引号 `“”`。不要在 JSON 字符串内部使用未转义的 ASCII 双引号。\n5. 最后检查输出能被标准 JSON 解析器直接解析。只输出 JSON 对象，不要 Markdown 代码围栏，不要解释。\n6. 完成草稿后，在心里逐条遮住完整正文，只看该条 `evidence_quote`：若仍不能证明 `text` 的每个词，删除该条，不要寻找第二段引文补证。\n7. `text` 必须写成一个简单句。出现“并、且、同时、以及、又、后来、随后”等连接两个独立动作的词时，拆分；没有各自独立引文就只保留更重要的一条。逗号可用于补充同一状态，顿号可用于同一动作下的物品清单。\n8. “留下、交给、藏在、属于、来自、持有、杀死、处理”等来源、所有权和结果词，必须在本条引文中有同义的明确动作。物件上的姓名、刻字和编号不能证明这些关系。\n\n# JSON 结构\n{\n  \"summary\": {\"text\":\"本章实际进展摘要\",\"evidence_quote\":\"正文逐字引文\"},\n  \"final_scene\": {\"text\":\"结尾场景、时间与在场人物\",\"evidence_quote\":\"正文逐字引文\"},\n  \"last_action\": {\"text\":\"最后一个已经发生的明确动作\",\"evidence_quote\":\"正文逐字引文\"},\n  \"state_changes\": [{\"text\":\"人物、伤势、位置、资源、物件或禁制状态变化\",\"evidence_quote\":\"正文逐字引文\"}],\n  \"knowledge_changes\": [{\"text\":\"某角色在本章新知道或确认的信息\",\"evidence_quote\":\"正文逐字引文\"}],\n  \"commitments\": [{\"text\":\"角色作出的承诺、交易或明确决定\",\"evidence_quote\":\"正文逐字引文\"}],\n  \"open_loops\": [{\"text\":\"尚未解决且已经在正文出现的压力或问题\",\"evidence_quote\":\"正文逐字引文\"}],\n  \"immediate_next_intent\": {\"text\":\"章末角色已经准备执行的下一步\",\"evidence_quote\":\"正文逐字引文\"},\n  \"plan_reconciliation\": [{\"text\":\"计划完成、未完成或发生偏移的项目\",\"evidence_quote\":\"正文逐字引文\"}]\n}\n\n# 章节标题\n";

/// The version of the text normalization that memory hashes are taken over.
pub const NORMALIZATION_VERSION: &'static str = "chapter-text-v8";

/// One remembered fact, with the verbatim quote that proves it.
#[derive(Debug, PartialEq, Eq)]
pub struct MemoryEntry {
    pub text: String,
    pub evidence_quote: String,
}

/// The hand-over memory of one chapter.
#[derive(Debug, PartialEq, Eq)]
pub struct ChapterMemoryPayload {
    pub summary: Option<MemoryEntry>,
    pub final_scene: Option<MemoryEntry>,
    pub last_action: Option<MemoryEntry>,
    pub state_changes: Vec<MemoryEntry>,
    pub knowledge_changes: Vec<MemoryEntry>,
    pub commitments: Vec<MemoryEntry>,
    pub open_loops: Vec<MemoryEntry>,
    pub immediate_next_intent: Option<MemoryEntry>,
    pub plan_reconciliation: Vec<MemoryEntry>,
}

/// An entry as text and quote.
pub open spec fn ev(e: MemoryEntry) -> (Seq<char>, Seq<char>) {
    (e.text@, e.evidence_quote@)
}

/// Entries as texts and quotes.
pub open spec fn evs(s: Seq<MemoryEntry>) -> Seq<(Seq<char>, Seq<char>)> {
    s.map_values(|e: MemoryEntry| ev(e))
}

/// An optional entry as text and quote.
pub open spec fn ev_opt(e: Option<MemoryEntry>) -> Option<(Seq<char>, Seq<char>)> {
    match e {
        Some(x) => Some(ev(x)),
        None => None,
    }
}

// ---------------------------------------------------------------------------
// Source normalization
// ---------------------------------------------------------------------------
/// A chapter text as it is hashed: line endings unified to `\n`, trailing
/// whitespace of each line removed, and the whole trimmed.
pub open spec fn normalized_source(text: Seq<char>) -> Seq<char> {
    let unified = replace_all(replace_all(text, "\r\n"@, "\n"@), "\r"@, "\n"@);
    trim(join(lines(unified).map_values(|l: Seq<char>| trim_end(l)), "\n"@))
}

/// Normalizes a chapter text (see `normalized_source`).
pub fn normalize_source_text(text: &str) -> (r: String)
    ensures
        r@ == normalized_source(text@),
{
    let tv = chars_of(text);
    let crlf = chars_of("\r\n");
    let lf = chars_of("\n");
    let cr = chars_of("\r");
    proof {
        reveal_strlit("\r\n");
        reveal_strlit("\r");
    }
    let a = replace(tv.as_slice(), crlf.as_slice(), lf.as_slice());
    let b = replace(a.as_slice(), cr.as_slice(), lf.as_slice());
    let ls = lines_of(b.as_slice());
    let mut trimmed_lines: Vec<String> = Vec::new();
    let mut i: usize = 0;
    while i < ls.len()
        invariant
            i <= ls.len(),
            views(trimmed_lines@) == char_views(ls@).take(i as int).map_values(
                |l: Seq<char>| trim_end(l),
            ),
        decreases ls.len() - i,
    {
        let t = trim_end_chars(ls[i].as_slice());
        let s = string_of(t.as_slice());
        let ghost old_t = trimmed_lines@;
        trimmed_lines.push(s);
        i = i + 1;
        assert(views(trimmed_lines@) =~= views(old_t).push(s@));
        assert(char_views(ls@).take(i as int).map_values(|l: Seq<char>| trim_end(l))
            =~= char_views(ls@).take(i - 1).map_values(|l: Seq<char>| trim_end(l)).push(
            trim_end(ls@[i - 1]@),
        ));
    }
    assert(char_views(ls@).take(ls.len() as int) == char_views(ls@));
    let joined = join_strings(trimmed_lines.as_slice(), "\n");
    trimmed(joined.as_str())
}

/// The hash of a chapter text: the lowercase hex SHA-256 of the UTF-8 bytes
/// of its normalized form.
pub open spec fn source_hash(text: Seq<char>) -> Seq<char> {
    hex(sha256_of(encode_utf8(normalized_source(text))))
}

/// Hashes a chapter text (see `source_hash`): 64 lowercase hexadecimal
/// digits.
pub fn source_text_hash(text: &str) -> (r: String)
    ensures
        r@ == source_hash(text@),
        r@.len() == 64,
        forall|i: int| 0 <= i < r@.len() ==> is_lower_hex_digit(#[trigger] r@[i]),
{
    let normalized = normalize_source_text(text);
    let bytes = normalized.as_str().as_bytes();
    let digest = sha256(bytes);
    proof {
        lemma_hex_shape(digest@);
    }
    hex_of(digest.as_slice())
}

/// Texts with the same normal form have the same hash.
pub proof fn equal_normal_forms_hash_alike(a: Seq<char>, b: Seq<char>)
    requires
        normalized_source(a) == normalized_source(b),
    ensures
        source_hash(a) == source_hash(b),
{
}

/// A normalized chapter text holds no carriage return, has no whitespace at
/// either end, ends none of its lines in whitespace, and normalizes to
/// itself.
pub proof fn normalized_source_is_normal(text: Seq<char>)
    ensures
        ({
            let r = normalized_source(text);
            &&& forall|i: int| 0 <= i < r.len() ==> r[i] != '\r'
            &&& trim(r) == r
            &&& forall|k: int|
                0 <= k < lines(r).len() ==> trim_end(#[trigger] lines(r)[k]) == lines(r)[k]
            &&& normalized_source(r) == r
        }),
{
    reveal_strlit("\r\n");
    reveal_strlit("\r");
    reveal_strlit("\n");
    let u1 = replace_all(text, "\r\n"@, "\n"@);
    let u = replace_all(u1, "\r"@, "\n"@);
    lemma_replace_cr_clears(u1);
    lemma_lines(u);
    let ls = lines(u);
    let m = ls.map_values(|l: Seq<char>| trim_end(l));
    assert forall|k: int| 0 <= k < m.len() implies no_lf(#[trigger] m[k]) && no_cr(m[k])
        && ends_clean(m[k]) by {
        let q = lemma_trim_end_prefix(ls[k]);
        assert forall|i: int| 0 <= i < m[k].len() implies m[k][i] != '\n' && m[k][i] != '\r' by {
            assert(m[k][i] == ls[k][i]);
        }
        if q > 0 {
            assert(m[k].last() == ls[k][q - 1]);
        }
    }
    let j = join(m, "\n"@);
    lemma_join_clean(m);
    let ks = lemma_trim_start_rest(j);
    lemma_clean_skip(j, ks);
    let t = j.skip(ks);
    let qm = lemma_trim_end_prefix(t);
    lemma_clean_take(t, qm);
    let r = t.take(qm);
    assert(r == normalized_source(text));
    lemma_trim_idempotent(j);
    lemma_lines(r);
    lemma_replace_absent(r, "\r\n"@, "\n"@);
    lemma_replace_absent(r, "\r"@, "\n"@);
    assert forall|k: int| 0 <= k < lines(r).len() implies trim_end(#[trigger] lines(r)[k])
        == lines(r)[k] by {
        assert(ends_clean(lines(r)[k]));
    }
    assert(lines(r).map_values(|l: Seq<char>| trim_end(l)) =~= lines(r));
}

/// Whether a value of the chapter-memory switch turns the feature on:
/// `1`, `true` or `on`, ignoring surrounding whitespace and ASCII case.
pub open spec fn switch_on(value: Seq<char>) -> bool {
    let v = ascii_lower(trim(value));
    v == "1"@ || v == "true"@ || v == "on"@
}

/// Whether chapter memory is enabled, given the value of its switch (absent
/// means off).
pub fn is_enabled(value: Option<&str>) -> (r: bool)
    ensures
        r == match value {
            Some(v) => switch_on(v@),
            None => false,
        },
{
    match value {
        Some(v) => {
            let vv = chars_of(v);
            let t = trim_chars(vv.as_slice());
            let l = ascii_lowercase(t.as_slice());
            let one = chars_of("1");
            let yes = chars_of("true");
            let on = chars_of("on");
            chars_eq(l.as_slice(), one.as_slice()) || chars_eq(l.as_slice(), yes.as_slice())
                || chars_eq(l.as_slice(), on.as_slice())
        },
        None => false,
    }
}

// ---------------------------------------------------------------------------
// Prompt
// ---------------------------------------------------------------------------
/// The prompt that asks the model for a chapter's hand-over memory.
pub open spec fn extraction_prompt_text(title: Seq<char>, plan: Seq<char>, text: Seq<char>) -> Seq<
    char,
> {
    EXTRACTION_PROMPT_HEAD@ + title + "\n\n# 原章节计划\n"@ + plan + "\n\n# 完整正式正文\n"@ + text
}

/// Builds the extraction prompt (see `extraction_prompt_text`).
pub fn build_extraction_prompt(chapter_title: &str, chapter_plan: &str, chapter_text: &str) -> (r:
    String)
    ensures
        r@ == extraction_prompt_text(chapter_title@, chapter_plan@, chapter_text@),
{
    let mut r = concat(EXTRACTION_PROMPT_HEAD, chapter_title);
    append(&mut r, "\n\n# 原章节计划\n");
    append(&mut r, chapter_plan);
    append(&mut r, "\n\n# 完整正式正文\n");
    append(&mut r, chapter_text);
    r
}

/// The span from the first `open` to the last `close`, when the last comes
/// no earlier than the first.
pub open spec fn delimited_span(raw: Seq<char>, open: char, close: char) -> Option<Seq<char>> {
    if exists|i: int| 0 <= i < raw.len() && raw[i] == open {
        let start = choose|i: int|
            0 <= i < raw.len() && raw[i] == open && forall|j: int| 0 <= j < i ==> raw[j] != open;
        let end = choose|i: int|
            0 <= i < raw.len() && raw[i] == close && forall|j: int| i < j < raw.len() ==> raw[j]
                != close;
        if (exists|i: int| 0 <= i < raw.len() && raw[i] == close) && end >= start {
            Some(raw.subrange(start, end + 1))
        } else {
            None
        }
    } else {
        None
    }
}

/// The span of `raw` from the first `open` to the last `close` (see
/// `delimited_span`).
pub fn extract_delimited(raw: &str, open: char, close: char) -> (r: Option<String>)
    ensures
        match r {
            Some(s) => delimited_span(raw@, open, close) == Some(s@),
            None => delimited_span(raw@, open, close) is None,
        },
{
    let v = chars_of(raw);
    match find_char(v.as_slice(), open) {
        None => None,
        Some(start) => {
            proof {
                let s = choose|i: int|
                    0 <= i < raw@.len() && raw@[i] == open && forall|j: int| 0 <= j < i ==> raw@[j]
                        != open;
                assert(0 <= start < raw@.len() && raw@[start as int] == open);
                if s < start {
                    assert(raw@[s] != open);
                }
                if start < s {
                    assert(raw@[start as int] != open);
                }
            }
            match rfind_char(v.as_slice(), close) {
                None => None,
                Some(end) => {
                    proof {
                        let e = choose|i: int|
                            0 <= i < raw@.len() && raw@[i] == close && forall|j: int|
                                i < j < raw@.len() ==> raw@[j] != close;
                        assert(0 <= end < raw@.len() && raw@[end as int] == close);
                        if e < end {
                            assert(raw@[end as int] != close);
                        }
                        if end < e {
                            assert(raw@[e] != close);
                        }
                    }
                    if end >= start {
                        let s = slice_of(v.as_slice(), start, end + 1);
                        Some(string_of(s.as_slice()))
                    } else {
                        None
                    }
                },
            }
        },
    }
}

/// The JSON object in a model reply: from the first `{` to the last `}`.
pub fn extract_json_object(raw: &str) -> (r: Option<String>)
    ensures
        match r {
            Some(s) => delimited_span(raw@, '{', '}') == Some(s@),
            None => delimited_span(raw@, '{', '}') is None,
        },
{
    extract_delimited(raw, '{', '}')
}

// ---------------------------------------------------------------------------
// Evidence
// ---------------------------------------------------------------------------
/// What one character becomes in a normalized quote: whitespace and quote
/// marks vanish, full-width punctuation becomes its ASCII form.
pub open spec fn evidence_char(c: char) -> Option<char> {
    if is_ws(c) {
        None
    } else if c == '“' || c == '”' || c == '‘' || c == '’' || c == '"' || c == '\'' {
        None
    } else if c == '，' {
        Some(',')
    } else if c == '。' {
        Some('.')
    } else if c == '：' {
        Some(':')
    } else if c == '；' {
        Some(';')
    } else if c == '！' {
        Some('!')
    } else if c == '？' {
        Some('?')
    } else if c == '（' {
        Some('(')
    } else if c == '）' {
        Some(')')
    } else if c == '【' {
        Some('[')
    } else if c == '】' {
        Some(']')
    } else if c == '—' || c == '–' {
        Some('-')
    } else {
        Some(c)
    }
}

/// A text normalized for quote matching (see `evidence_char`).
pub open spec fn normalized_evidence(s: Seq<char>) -> Seq<char>
    decreases s.len(),
{
    if s.len() == 0 {
        Seq::empty()
    } else {
        match evidence_char(s.last()) {
            Some(c) => normalized_evidence(s.drop_last()).push(c),
            None => normalized_evidence(s.drop_last()),
        }
    }
}

fn evidence_char_of(c: char) -> (r: Option<char>)
    ensures
        r == evidence_char(c),
{
    if is_whitespace(c) {
        None
    } else if c == '“' || c == '”' || c == '‘' || c == '’' || c == '"' || c == '\'' {
        None
    } else if c == '，' {
        Some(',')
    } else if c == '。' {
        Some('.')
    } else if c == '：' {
        Some(':')
    } else if c == '；' {
        Some(';')
    } else if c == '！' {
        Some('!')
    } else if c == '？' {
        Some('?')
    } else if c == '（' {
        Some('(')
    } else if c == '）' {
        Some(')')
    } else if c == '【' {
        Some('[')
    } else if c == '】' {
        Some(']')
    } else if c == '—' || c == '–' {
        Some('-')
    } else {
        Some(c)
    }
}

/// Normalizes characters for quote matching (see `normalized_evidence`).
pub fn normalize_evidence_chars(s: &[char]) -> (r: Vec<char>)
    ensures
        r@ == normalized_evidence(s@),
{
    let mut r: Vec<char> = Vec::new();
    let mut i: usize = 0;
    while i < s.len()
        invariant
            i <= s.len(),
            r@ == normalized_evidence(s@.take(i as int)),
        decreases s.len() - i,
    {
        assert(s@.take(i + 1).drop_last() == s@.take(i as int));
        match evidence_char_of(s[i]) {
            Some(c) => r.push(c),
            None => {},
        }
        i = i + 1;
    }
    assert(s@.take(s.len() as int) == s@);
    r
}

/// Normalizes a text for quote matching (see `normalized_evidence`).
pub fn normalize_evidence(text: &str) -> (r: String)
    ensures
        r@ == normalized_evidence(text@),
{
    let v = chars_of(text);
    let n = normalize_evidence_chars(v.as_slice());
    string_of(n.as_slice())
}

/// An entry can be checked against the chapter: its text is not blank, and
/// its normalized quote, 6 to 180 characters long, occurs in the normalized
/// chapter text.
pub open spec fn verifiable(e: (Seq<char>, Seq<char>), source: Seq<char>) -> bool {
    let q = normalized_evidence(e.1);
    &&& !blank(e.0)
    &&& 6 <= q.len() <= 180
    &&& contains_seq(normalized_evidence(source), q)
}

/// Whether an entry is verifiable against the chapter text.
pub fn entry_is_verifiable(entry: &MemoryEntry, source_text: &str) -> (r: bool)
    ensures
        r == verifiable(ev(*entry), source_text@),
{
    if is_blank(entry.text.as_str()) {
        return false;
    }
    let qv = chars_of(entry.evidence_quote.as_str());
    let q = normalize_evidence_chars(qv.as_slice());
    if q.len() < 6 || q.len() > 180 {
        return false;
    }
    let sv = chars_of(source_text);
    let s = normalize_evidence_chars(sv.as_slice());
    contains(s.as_slice(), q.as_slice())
}

/// Words that join two facts into one entry.
pub open spec fn compound_markers() -> Seq<Seq<char>> {
    seq![
        "并且"@, "并将"@, "并把"@, "且将"@, "且把"@, "同时"@, "以及"@, "随后"@, "后来"@, "又将"@,
        "又把"@,
    ]
}

/// An entry states one fact: its trimmed text has no `；` and no joining word.
pub open spec fn atomic(text: Seq<char>) -> bool {
    !contains_seq(trim(text), "；"@) && !contains_any_seq(trim(text), compound_markers())
}

/// Whether an entry states one fact (see `atomic`).
pub fn entry_is_atomic(entry: &MemoryEntry) -> (r: bool)
    ensures
        r == atomic(entry.text@),
{
    let tv = chars_of(entry.text.as_str());
    let t = trim_chars(tv.as_slice());
    let semi = chars_of("；");
    let markers: [&str; 11] = [
        "并且",
        "并将",
        "并把",
        "且将",
        "且把",
        "同时",
        "以及",
        "随后",
        "后来",
        "又将",
        "又把",
    ];
    assert(str_views(markers@) == compound_markers());
    !contains(t.as_slice(), semi.as_slice()) && !contains_any_of(t.as_slice(), &markers)
}

/// Words of provenance, ownership and outcome.
pub open spec fn claim_markers() -> Seq<Seq<char>> {
    seq![
        "留下"@, "交给"@, "藏在"@, "属于"@, "来自"@, "持有"@, "拥有"@, "带人"@, "杀死"@, "处理"@,
        "截留"@,
    ]
}

/// Every provenance word in the text also occurs in the quote.
pub open spec fn terms_supported(e: (Seq<char>, Seq<char>)) -> bool {
    forall|k: int|
        0 <= k < claim_markers().len() ==> (contains_seq(e.0, #[trigger] claim_markers()[k])
            ==> contains_seq(e.1, claim_markers()[k]))
}

/// Whether the quote backs every provenance word of the text (see
/// `terms_supported`).
pub fn claim_terms_are_supported(entry: &MemoryEntry) -> (r: bool)
    ensures
        r == terms_supported(ev(*entry)),
{
    let markers: [&str; 11] = [
        "留下",
        "交给",
        "藏在",
        "属于",
        "来自",
        "持有",
        "拥有",
        "带人",
        "杀死",
        "处理",
        "截留",
    ];
    assert(str_views(markers@) == claim_markers());
    let tv = chars_of(entry.text.as_str());
    let qv = chars_of(entry.evidence_quote.as_str());
    let mut k: usize = 0;
    while k < 11
        invariant
            k <= 11,
            str_views(markers@) == claim_markers(),
            tv@ == entry.text@,
            qv@ == entry.evidence_quote@,
            forall|m: int|
                0 <= m < k ==> (contains_seq(tv@, #[trigger] claim_markers()[m]) ==> contains_seq(
                    qv@,
                    claim_markers()[m],
                )),
        decreases 11 - k,
    {
        let mv = chars_of(markers[k]);
        assert(mv@ == claim_markers()[k as int]);
        if contains(tv.as_slice(), mv.as_slice()) && !contains(qv.as_slice(), mv.as_slice()) {
            return false;
        }
        k = k + 1;
    }
    true
}

/// Words that mark a guess rather than a fact.
pub open spec fn inference_markers() -> Seq<Seq<char>> {
    seq!["推测"@, "推断"@, "猜测"@, "可能"@, "或许"@, "似乎"@, "应该"@, "大概"@, "疑似"@]
}

/// Whether a text marks itself as a guess.
pub fn contains_inference_marker(text: &str) -> (r: bool)
    ensures
        r == contains_any_seq(text@, inference_markers()),
{
    let markers: [&str; 9] = ["推测", "推断", "猜测", "可能", "或许", "似乎", "应该", "大概", "疑似"];
    assert(str_views(markers@) == inference_markers());
    let tv = chars_of(text);
    contains_any_of(tv.as_slice(), &markers)
}

/// Words of knowing.
pub open spec fn cognition_markers() -> Seq<Seq<char>> {
    seq!["知道"@, "得知"@, "确认"@, "发现"@, "看见"@, "听见"@, "意识到"@]
}

/// The first of `markers` (in list order) that occurs in `t`.
pub open spec fn first_marker(t: Seq<char>, markers: Seq<Seq<char>>) -> Option<Seq<char>>
    decreases markers.len(),
{
    if markers.len() == 0 {
        None
    } else if contains_seq(t, markers[0]) {
        Some(markers[0])
    } else {
        first_marker(t, markers.drop_first())
    }
}

/// A knowledge entry names who knows: when its trimmed text holds a word of
/// knowing, the text before the first such word (by list order, at its first
/// occurrence), trimmed, is not empty and occurs in the trimmed quote, and the
/// quote holds a word of knowing too.
pub open spec fn knowledge_supported(e: (Seq<char>, Seq<char>)) -> bool {
    let t = trim(e.0);
    let q = trim(e.1);
    match first_marker(t, cognition_markers()) {
        None => true,
        Some(m) => {
            let subject = trim(t.take(first_at(t, m)));
            subject.len() > 0 && contains_seq(q, subject) && contains_any_seq(
                q,
                cognition_markers(),
            )
        },
    }
}

/// Whether a knowledge entry names who knows (see `knowledge_supported`).
pub fn knowledge_subject_is_supported(entry: &MemoryEntry) -> (r: bool)
    ensures
        r == knowledge_supported(ev(*entry)),
{
    let tv = chars_of(entry.text.as_str());
    let t = trim_chars(tv.as_slice());
    let qv = chars_of(entry.evidence_quote.as_str());
    let q = trim_chars(qv.as_slice());
    let markers: [&str; 7] = ["知道", "得知", "确认", "发现", "看见", "听见", "意识到"];
    assert(str_views(markers@) == cognition_markers());
    assert(cognition_markers().skip(0) =~= cognition_markers());
    let mut k: usize = 0;
    while k < 7
        invariant
            k <= 7,
            str_views(markers@) == cognition_markers(),
            t@ == trim(entry.text@),
            q@ == trim(entry.evidence_quote@),
            first_marker(t@, cognition_markers()) == first_marker(
                t@,
                cognition_markers().skip(k as int),
            ),
        decreases 7 - k,
    {
        let mv = chars_of(markers[k]);
        assert(cognition_markers().skip(k as int)[0] == cognition_markers()[k as int]);
        assert(cognition_markers().skip(k as int).drop_first() == cognition_markers().skip(
            k + 1,
        ));
        match find_from(t.as_slice(), mv.as_slice(), 0) {
            Some(at) => {
                proof {
                    assert(is_first_at(t@, mv@, at as int));
                    lemma_first_at(t@, mv@, at as int);
                }
                assert(mv@ == cognition_markers()[k as int]);
                assert(contains_seq(t@, mv@));
                assert(first_marker(t@, cognition_markers().skip(k as int)) == Some(mv@));
                let before = slice_of(t.as_slice(), 0, at);
                assert(before@ == t@.take(at as int));
                let subject = trim_chars(before.as_slice());
                assert(subject@ == trim(t@.take(first_at(t@, mv@))));
                return subject.len() > 0 && contains(q.as_slice(), subject.as_slice())
                    && contains_any_of(q.as_slice(), &markers);
            },
            None => {
                assert(!contains_seq(t@, mv@));
            },
        }
        k = k + 1;
    }
    assert(cognition_markers().skip(7).len() == 0);
    true
}

/// An entry survives validation: verifiable, atomic, with its provenance
/// words backed, and (for knowledge entries) no guessing words and a named
/// knower.
pub open spec fn keeps(e: (Seq<char>, Seq<char>), source: Seq<char>, reject_inferences: bool) -> bool {
    &&& verifiable(e, source)
    &&& atomic(e.0)
    &&& terms_supported(e)
    &&& (!reject_inferences || (!contains_any_seq(e.0, inference_markers()) && knowledge_supported(
        e,
    )))
}

/// The entries that survive validation, in order.
pub open spec fn kept(s: Seq<(Seq<char>, Seq<char>)>, source: Seq<char>, reject_inferences: bool) -> Seq<
    (Seq<char>, Seq<char>),
>
    decreases s.len(),
{
    if s.len() == 0 {
        Seq::empty()
    } else if keeps(s.last(), source, reject_inferences) {
        kept(s.drop_last(), source, reject_inferences).push(s.last())
    } else {
        kept(s.drop_last(), source, reject_inferences)
    }
}

/// At most `limit` leading items of `s`.
pub open spec fn at_most<A>(s: Seq<A>, limit: int) -> Seq<A> {
    if s.len() <= limit {
        s
    } else {
        s.take(limit)
    }
}

/// Whether one entry survives validation (see `keeps`).
fn entry_kept(entry: &MemoryEntry, source_text: &str, reject_inferences: bool) -> (r: bool)
    ensures
        r == keeps(ev(*entry), source_text@, reject_inferences),
{
    entry_is_verifiable(entry, source_text) && entry_is_atomic(entry) && claim_terms_are_supported(
        entry,
    ) && (!reject_inferences || (!contains_inference_marker(entry.text.as_str())
        && knowledge_subject_is_supported(entry)))
}

/// Keeps the entries that survive validation, in order, at most `limit` of
/// them.
pub fn validate_entries(
    entries: &mut Vec<MemoryEntry>,
    source_text: &str,
    limit: usize,
    reject_inferences: bool,
)
    ensures
        evs(final(entries)@) == at_most(
            kept(evs(old(entries)@), source_text@, reject_inferences),
            limit as int,
        ),
{
    let mut given: Vec<MemoryEntry> = Vec::new();
    std::mem::swap(&mut given, entries);
    let ghost all = evs(given@);
    let mut result: Vec<MemoryEntry> = Vec::new();
    for e in it: given
        invariant
            it.seq() == given@,
            evs(result@) == kept(evs(it.seq().take(it.index())), source_text@, reject_inferences),
    {
        let ghost before = it.seq().take(it.index());
        assert(evs(it.seq().take(it.index() + 1)).drop_last() == evs(before));
        assert(evs(it.seq().take(it.index() + 1)).last() == ev(e));
        if entry_kept(&e, source_text, reject_inferences) {
            let ghost old_r = result@;
            result.push(e);
            assert(evs(result@) =~= evs(old_r).push(ev(e)));
        }
    }
    assert(given@.take(given@.len() as int) == given@);
    let ghost full = result@;
    if result.len() > limit {
        result.truncate(limit);
        assert(evs(result@) =~= evs(full).take(limit as int));
    }
    *entries = result;
}

/// An optional entry, kept only when verifiable.
pub fn validate_optional(entry: Option<MemoryEntry>, source_text: &str) -> (r: Option<MemoryEntry>)
    ensures
        ev_opt(r) == match entry {
            Some(e) => if verifiable(ev(e), source_text@) {
                Some(ev(e))
            } else {
                None
            },
            None => None,
        },
{
    match entry {
        Some(e) => if entry_is_verifiable(&e, source_text) {
            Some(e)
        } else {
            None
        },
        None => None,
    }
}

/// The final scene as validation keeps it: only when verifiable, and then
/// with its text replaced by its verbatim quote.
pub open spec fn validated_final_scene(e: Option<MemoryEntry>, source: Seq<char>) -> Option<
    (Seq<char>, Seq<char>),
> {
    match e {
        Some(x) => if verifiable(ev(x), source) {
            Some((x.evidence_quote@, x.evidence_quote@))
        } else {
            None
        },
        None => None,
    }
}

/// The optional entry as validation keeps it.
pub open spec fn validated_optional(e: Option<MemoryEntry>, source: Seq<char>) -> Option<
    (Seq<char>, Seq<char>),
> {
    match e {
        Some(x) => if verifiable(ev(x), source) {
            Some(ev(x))
        } else {
            None
        },
        None => None,
    }
}

/// `r` is what validation makes of `p` against the chapter text `source`:
/// the summary and the plan reconciliation dropped; the final scene, last
/// action and next intent kept only when verifiable (the final scene then
/// reading as its quote); the lists keeping only surviving entries, at most
/// 6 state changes, 4 knowledge changes (which must not guess and must name
/// the knower), 3 commitments and 4 open loops.
pub open spec fn validation_of(p: ChapterMemoryPayload, r: ChapterMemoryPayload, source: Seq<char>) -> bool {
    &&& r.summary is None
    &&& ev_opt(r.final_scene) == validated_final_scene(p.final_scene, source)
    &&& ev_opt(r.last_action) == validated_optional(p.last_action, source)
    &&& ev_opt(r.immediate_next_intent) == validated_optional(p.immediate_next_intent, source)
    &&& evs(r.state_changes@) == at_most(kept(evs(p.state_changes@), source, false), 6)
    &&& evs(r.knowledge_changes@) == at_most(kept(evs(p.knowledge_changes@), source, true), 4)
    &&& evs(r.commitments@) == at_most(kept(evs(p.commitments@), source, false), 3)
    &&& evs(r.open_loops@) == at_most(kept(evs(p.open_loops@), source, false), 4)
    &&& r.plan_reconciliation@.len() == 0
}

/// Validates a memory against the chapter text: the summary and the plan
/// reconciliation are dropped; the final scene, last action and next intent
/// are kept only when verifiable (the final scene then reads as its quote);
/// the lists keep only surviving entries, at most 6 state changes, 4
/// knowledge changes (which must not guess and must name the knower),
/// 3 commitments and 4 open loops.
pub fn validate_payload(payload: ChapterMemoryPayload, source_text: &str) -> (r:
    ChapterMemoryPayload)
    ensures
        validation_of(payload, r, source_text@),
{
    let mut payload = payload;
    payload.summary = None;
    let mut fs: Option<MemoryEntry> = None;
    std::mem::swap(&mut fs, &mut payload.final_scene);
    payload.final_scene = match validate_optional(fs, source_text) {
        Some(e) => {
            let quote = e.evidence_quote.clone();
            Some(MemoryEntry { text: quote, evidence_quote: e.evidence_quote })
        },
        None => None,
    };
    let mut la: Option<MemoryEntry> = None;
    std::mem::swap(&mut la, &mut payload.last_action);
    payload.last_action = validate_optional(la, source_text);
    let mut ni: Option<MemoryEntry> = None;
    std::mem::swap(&mut ni, &mut payload.immediate_next_intent);
    payload.immediate_next_intent = validate_optional(ni, source_text);
    validate_entries(&mut payload.state_changes, source_text, 6, false);
    validate_entries(&mut payload.knowledge_changes, source_text, 4, true);
    validate_entries(&mut payload.commitments, source_text, 3, false);
    validate_entries(&mut payload.open_loops, source_text, 4, false);
    payload.plan_reconciliation.clear();
    payload
}

/// A memory holds something.
pub open spec fn has_any_content(p: ChapterMemoryPayload) -> bool {
    p.summary is Some || p.final_scene is Some || p.last_action is Some
        || p.immediate_next_intent is Some || p.state_changes@.len() > 0
        || p.knowledge_changes@.len() > 0 || p.commitments@.len() > 0 || p.open_loops@.len() > 0
        || p.plan_reconciliation@.len() > 0
}

impl ChapterMemoryPayload {
    /// Whether the memory holds anything.
    pub fn has_content(&self) -> (r: bool)
        ensures
            r == has_any_content(*self),
    {
        self.summary.is_some() || self.final_scene.is_some() || self.last_action.is_some()
            || self.immediate_next_intent.is_some() || self.state_changes.len() > 0
            || self.knowledge_changes.len() > 0 || self.commitments.len() > 0
            || self.open_loops.len() > 0 || self.plan_reconciliation.len() > 0
    }
}

/// Validates a memory and refuses one with nothing left to use.
pub fn validate_memory(payload: ChapterMemoryPayload, source_text: &str) -> (r: Result<
    ChapterMemoryPayload,
    AppError,
>)
    ensures
        match r {
            Ok(p) => has_any_content(p) && validation_of(payload, p, source_text@),
            Err(e) => e is Validation && validate_payload_spec_empty(payload, source_text@),
        },
{
    let validated = validate_payload(payload, source_text);
    if !validated.has_content() {
        assert(evs(validated.state_changes@).len() == 0);
        assert(evs(validated.knowledge_changes@).len() == 0);
        assert(evs(validated.commitments@).len() == 0);
        assert(evs(validated.open_loops@).len() == 0);
        return Err(AppError::Validation(owned("章节交接记忆没有可在正文中验证的内容")));
    }
    Ok(validated)
}

/// Nothing of a memory survives validation.
pub open spec fn validate_payload_spec_empty(payload: ChapterMemoryPayload, source: Seq<char>) -> bool {
    &&& validated_final_scene(payload.final_scene, source) is None
    &&& validated_optional(payload.last_action, source) is None
    &&& validated_optional(payload.immediate_next_intent, source) is None
    &&& kept(evs(payload.state_changes@), source, false).len() == 0
    &&& kept(evs(payload.knowledge_changes@), source, true).len() == 0
    &&& kept(evs(payload.commitments@), source, false).len() == 0
    &&& kept(evs(payload.open_loops@), source, false).len() == 0
}

// ---------------------------------------------------------------------------
// Rendering
// ---------------------------------------------------------------------------
/// One rendered memory line.
pub open spec fn memory_line(label: Seq<char>, e: (Seq<char>, Seq<char>)) -> Seq<char> {
    "- "@ + label + "："@ + trim(e.0) + "｜证据：“"@ + trim(e.1) + "”"@
}

/// Renders one entry as a memory line.
fn entry_line(label: &str, entry: &MemoryEntry) -> (r: String)
    ensures
        r@ == memory_line(label@, ev(*entry)),
{
    let mut line = concat("- ", label);
    append(&mut line, "：");
    append(&mut line, trimmed(entry.text.as_str()).as_str());
    append(&mut line, "｜证据：“");
    append(&mut line, trimmed(entry.evidence_quote.as_str()).as_str());
    append(&mut line, "”");
    line
}

/// Adds the line of an optional entry.
pub fn push_optional(lines: &mut Vec<String>, label: &str, entry: Option<&MemoryEntry>)
    ensures
        views(final(lines)@) == match entry {
            Some(e) => views(old(lines)@).push(memory_line(label@, ev(*e))),
            None => views(old(lines)@),
        },
{
    match entry {
        Some(e) => {
            let line = entry_line(label, e);
            let ghost before = lines@;
            lines.push(line);
            assert(views(lines@) =~= views(before).push(line@));
        },
        None => {},
    }
}

/// The lines of a list of entries under one label.
pub open spec fn entry_lines(label: Seq<char>, es: Seq<(Seq<char>, Seq<char>)>) -> Seq<Seq<char>> {
    es.map_values(|e: (Seq<char>, Seq<char>)| memory_line(label, e))
}

/// Adds one line per entry.
pub fn push_entries(lines: &mut Vec<String>, label: &str, entries: &[MemoryEntry])
    ensures
        views(final(lines)@) == views(old(lines)@) + entry_lines(label@, evs(entries@)),
{
    let ghost start = views(lines@);
    let mut i: usize = 0;
    while i < entries.len()
        invariant
            i <= entries.len(),
            views(lines@) == start + entry_lines(label@, evs(entries@.take(i as int))),
        decreases entries.len() - i,
    {
        let line = entry_line(label, &entries[i]);
        let ghost before = lines@;
        lines.push(line);
        i = i + 1;
        assert(views(lines@) =~= views(before).push(line@));
        assert(entry_lines(label@, evs(entries@.take(i as int))) =~= entry_lines(
            label@,
            evs(entries@.take(i - 1)),
        ).push(memory_line(label@, ev(entries@[i - 1]))));
    }
    assert(entries@.take(entries.len() as int) == entries@);
}


/// The line of an optional entry, if there is one.
pub open spec fn optional_lines(label: Seq<char>, e: Option<(Seq<char>, Seq<char>)>) -> Seq<
    Seq<char>,
> {
    match e {
        Some(x) => seq![memory_line(label, x)],
        None => Seq::empty(),
    }
}

/// The first line of a rendered memory: where it was taken from, with the
/// first 12 characters of the source hash.
pub open spec fn memory_header(artifact: int, hash: Seq<char>, version: Seq<char>) -> Seq<char> {
    let shown = if hash.len() <= 12 {
        hash
    } else {
        hash.take(12)
    };
    "来源：正式正文 artifact "@ + decimal(artifact) + " / SHA-256 "@ + shown + " / "@ + version
}

/// The lines of a rendered memory: the header, then each kind of fact under
/// its label.
pub open spec fn memory_context_lines(
    artifact: int,
    hash: Seq<char>,
    version: Seq<char>,
    p: ChapterMemoryPayload,
) -> Seq<Seq<char>> {
    seq![memory_header(artifact, hash, version)] + optional_lines("本章实际摘要"@, ev_opt(p.summary))
        + optional_lines("结尾场景"@, ev_opt(p.final_scene)) + optional_lines(
        "最后动作"@,
        ev_opt(p.last_action),
    ) + entry_lines("状态变化"@, evs(p.state_changes@)) + entry_lines(
        "角色认知变化"@,
        evs(p.knowledge_changes@),
    ) + entry_lines("承诺与决定"@, evs(p.commitments@)) + entry_lines(
        "未闭环事项"@,
        evs(p.open_loops@),
    ) + optional_lines("章末下一步意图"@, ev_opt(p.immediate_next_intent)) + entry_lines(
        "计划正文对账"@,
        evs(p.plan_reconciliation@),
    )
}

fn header_line(source_artifact_id: i64, source_text_hash: &str, normalization_version: &str) -> (r:
    String)
    ensures
        r@ == memory_header(source_artifact_id as int, source_text_hash@, normalization_version@),
{
    let hv = chars_of(source_text_hash);
    let n = if hv.len() <= 12 {
        hv.len()
    } else {
        12
    };
    let shown = slice_of(hv.as_slice(), 0, n);
    assert(shown@ == (if hv@.len() <= 12 {
        hv@
    } else {
        hv@.take(12)
    }));
    let mut line = owned("来源：正式正文 artifact ");
    append(&mut line, decimal_of(source_artifact_id).as_str());
    append(&mut line, " / SHA-256 ");
    append_chars(&mut line, shown.as_slice());
    append(&mut line, " / ");
    append(&mut line, normalization_version);
    line
}

/// Renders a chapter memory for the next chapter's prompt: a header naming
/// the approved body it was taken from (artifact, hash prefix, normalization
/// version), then one line per fact, joined by newlines.
pub fn render_memory_context(
    source_artifact_id: i64,
    source_text_hash: &str,
    normalization_version: &str,
    payload: &ChapterMemoryPayload,
) -> (r: String)
    ensures
        r@ == join(
            memory_context_lines(
                source_artifact_id as int,
                source_text_hash@,
                normalization_version@,
                *payload,
            ),
            "\n"@,
        ),
{
    let mut lines: Vec<String> = Vec::new();
    lines.push(header_line(source_artifact_id, source_text_hash, normalization_version));
    push_optional(&mut lines, "本章实际摘要", payload.summary.as_ref());
    push_optional(&mut lines, "结尾场景", payload.final_scene.as_ref());
    push_optional(&mut lines, "最后动作", payload.last_action.as_ref());
    push_entries(&mut lines, "状态变化", payload.state_changes.as_slice());
    push_entries(&mut lines, "角色认知变化", payload.knowledge_changes.as_slice());
    push_entries(&mut lines, "承诺与决定", payload.commitments.as_slice());
    push_entries(&mut lines, "未闭环事项", payload.open_loops.as_slice());
    push_optional(&mut lines, "章末下一步意图", payload.immediate_next_intent.as_ref());
    push_entries(&mut lines, "计划正文对账", payload.plan_reconciliation.as_slice());
    assert(views(lines@) =~= memory_context_lines(
        source_artifact_id as int,
        source_text_hash@,
        normalization_version@,
        *payload,
    ));
    join_strings(lines.as_slice(), "\n")
}

// ---------------------------------------------------------------------------
// Currency
// ---------------------------------------------------------------------------
/// A stored memory is current for a chapter when it was taken from the
/// chapter's latest approved body, over that body's hash, under this
/// normalization version.
pub open spec fn memory_current(
    memory_artifact: int,
    memory_hash: Seq<char>,
    memory_version: Seq<char>,
    source_artifact: int,
    source_content: Seq<char>,
) -> bool {
    &&& memory_artifact == source_artifact
    &&& memory_hash == source_hash(source_content)
    &&& memory_version == NORMALIZATION_VERSION@
}

/// Whether a stored memory still describes the chapter's latest approved
/// body (see `memory_current`).
pub fn memory_is_current(
    memory_source_artifact_id: i64,
    memory_source_text_hash: &str,
    memory_normalization_version: &str,
    source_artifact_id: i64,
    source_content: &str,
) -> (r: bool)
    ensures
        r == memory_current(
            memory_source_artifact_id as int,
            memory_source_text_hash@,
            memory_normalization_version@,
            source_artifact_id as int,
            source_content@,
        ),
{
    if memory_source_artifact_id != source_artifact_id {
        return false;
    }
    let current = source_text_hash(source_content);
    str_eq(memory_source_text_hash, current.as_str()) && str_eq(
        memory_normalization_version,
        NORMALIZATION_VERSION,
    )
}

/// The index of the first chapter with the given id.
pub open spec fn first_with_id(chapters: Seq<Chapter>, id: i64) -> Option<int> {
    if exists|i: int| 0 <= i < chapters.len() && chapters[i].id == id {
        Some(
            choose|i: int|
                0 <= i < chapters.len() && chapters[i].id == id && forall|j: int|
                    0 <= j < i ==> chapters[j].id != id,
        )
    } else {
        None
    }
}

/// `p` is the predecessor of chapter number `no` in `chapters`: the last of
/// the chapters with the greatest number below `no`.
pub open spec fn is_predecessor(chapters: Seq<Chapter>, no: i64, p: int) -> bool {
    &&& 0 <= p < chapters.len()
    &&& chapters[p].chapter_no < no
    &&& forall|j: int|
        0 <= j < chapters.len() && #[trigger] chapters[j].chapter_no < no ==> chapters[j].chapter_no
            <= chapters[p].chapter_no
    &&& forall|j: int|
        p < j < chapters.len() && #[trigger] chapters[j].chapter_no < no ==> chapters[j].chapter_no
            < chapters[p].chapter_no
}

/// The index of the first chapter with the given id (see `first_with_id`).
pub fn chapter_index(chapters: &[Chapter], id: i64) -> (r: Option<usize>)
    ensures
        match r {
            Some(c) => c < chapters@.len() && first_with_id(chapters@, id) == Some(c as int),
            None => first_with_id(chapters@, id) is None,
        },
{
    let mut c: usize = 0;
    while c < chapters.len() && chapters[c].id != id
        invariant
            c <= chapters.len(),
            forall|j: int| 0 <= j < c ==> chapters@[j].id != id,
        decreases chapters.len() - c,
    {
        c = c + 1;
    }
    if c == chapters.len() {
        return None;
    }
    proof {
        let k = choose|i: int|
            0 <= i < chapters@.len() && chapters@[i].id == id && forall|j: int|
                0 <= j < i ==> chapters@[j].id != id;
        assert(chapters@[c as int].id == id);
        if k < c {
            assert(chapters@[k].id != id);
        }
        if c < k {
            assert(chapters@[c as int].id != id);
        }
    }
    Some(c)
}

/// The chapter whose memory a chapter continues from: among the chapters
/// numbered before the current one (found by id), the one with the greatest
/// number, the last such on a tie. `None` when the current chapter is not
/// listed or nothing comes before it.
pub fn predecessor_chapter(chapters: &[Chapter], current_chapter_id: i64) -> (r: Option<
    usize,
>)
    ensures
        match first_with_id(chapters@, current_chapter_id) {
            None => r is None,
            Some(c) => match r {
                Some(p) => is_predecessor(chapters@, chapters@[c].chapter_no, p as int),
                None => forall|j: int|
                    0 <= j < chapters@.len() ==> #[trigger] chapters@[j].chapter_no
                        >= chapters@[c].chapter_no,
            },
        },
{
    let c = match chapter_index(chapters, current_chapter_id) {
        Some(c) => c,
        None => return None,
    };
    let no = chapters[c].chapter_no;
    let mut best: Option<usize> = None;
    let mut i: usize = 0;
    while i < chapters.len()
        invariant
            i <= chapters.len(),
            match best {
                None => forall|j: int| 0 <= j < i ==> #[trigger] chapters@[j].chapter_no >= no,
                Some(p) => p < i && chapters@[p as int].chapter_no < no && (forall|j: int|
                    0 <= j < i && #[trigger] chapters@[j].chapter_no < no
                        ==> chapters@[j].chapter_no <= chapters@[p as int].chapter_no) && (forall|
                    j: int,
                |
                    p < j < i && #[trigger] chapters@[j].chapter_no < no
                        ==> chapters@[j].chapter_no < chapters@[p as int].chapter_no),
            },
        decreases chapters.len() - i,
    {
        let n = chapters[i].chapter_no;
        if n < no {
            match best {
                None => {
                    best = Some(i);
                },
                Some(p) => {
                    if n >= chapters[p].chapter_no {
                        best = Some(i);
                    }
                },
            }
        }
        i = i + 1;
    }
    best
}

// ---------------------------------------------------------------------------
// Validation is stable
// ---------------------------------------------------------------------------
proof fn lemma_blank_quote_normalizes_empty(q: Seq<char>)
    requires
        forall|i: int| 0 <= i < q.len() ==> is_ws(#[trigger] q[i]),
    ensures
        normalized_evidence(q).len() == 0,
    decreases q.len(),
{
    if q.len() > 0 {
        assert(is_ws(q[q.len() - 1]));
        lemma_blank_quote_normalizes_empty(q.drop_last());
    }
}

proof fn lemma_kept_keeps(s: Seq<(Seq<char>, Seq<char>)>, source: Seq<char>, rej: bool)
    ensures
        forall|i: int|
            0 <= i < kept(s, source, rej).len() ==> keeps(
                #[trigger] kept(s, source, rej)[i],
                source,
                rej,
            ),
    decreases s.len(),
{
    if s.len() > 0 {
        lemma_kept_keeps(s.drop_last(), source, rej);
        let prev = kept(s.drop_last(), source, rej);
        assert forall|i: int|
            0 <= i < kept(s, source, rej).len() implies keeps(
            #[trigger] kept(s, source, rej)[i],
            source,
            rej,
        ) by {
            if i < prev.len() {
                assert(kept(s, source, rej)[i] == prev[i]);
            }
        }
    }
}

proof fn lemma_kept_identity(t: Seq<(Seq<char>, Seq<char>)>, source: Seq<char>, rej: bool)
    requires
        forall|i: int| 0 <= i < t.len() ==> keeps(#[trigger] t[i], source, rej),
    ensures
        kept(t, source, rej) == t,
    decreases t.len(),
{
    if t.len() > 0 {
        assert(keeps(t[t.len() - 1], source, rej));
        lemma_kept_identity(t.drop_last(), source, rej);
        assert(t.drop_last().push(t.last()) == t);
    }
}

proof fn lemma_list_stable(s: Seq<(Seq<char>, Seq<char>)>, source: Seq<char>, rej: bool, n: int)
    requires
        n >= 0,
    ensures
        at_most(kept(at_most(kept(s, source, rej), n), source, rej), n) == at_most(
            kept(s, source, rej),
            n,
        ),
{
    let x = kept(s, source, rej);
    lemma_kept_keeps(s, source, rej);
    let y = at_most(x, n);
    assert forall|i: int| 0 <= i < y.len() implies keeps(#[trigger] y[i], source, rej) by {
        assert(y[i] == x[i]);
    }
    lemma_kept_identity(y, source, rej);
}

/// Validating a memory twice changes nothing: whatever validation keeps
/// survives a second validation against the same chapter text unchanged.
pub proof fn validation_is_idempotent(
    p: ChapterMemoryPayload,
    r: ChapterMemoryPayload,
    s: ChapterMemoryPayload,
    source: Seq<char>,
)
    requires
        validation_of(p, r, source),
        validation_of(r, s, source),
    ensures
        s.summary is None,
        ev_opt(s.final_scene) == ev_opt(r.final_scene),
        ev_opt(s.last_action) == ev_opt(r.last_action),
        ev_opt(s.immediate_next_intent) == ev_opt(r.immediate_next_intent),
        evs(s.state_changes@) == evs(r.state_changes@),
        evs(s.knowledge_changes@) == evs(r.knowledge_changes@),
        evs(s.commitments@) == evs(r.commitments@),
        evs(s.open_loops@) == evs(r.open_loops@),
        s.plan_reconciliation@.len() == 0,
{
    lemma_list_stable(evs(p.state_changes@), source, false, 6);
    lemma_list_stable(evs(p.knowledge_changes@), source, true, 4);
    lemma_list_stable(evs(p.commitments@), source, false, 3);
    lemma_list_stable(evs(p.open_loops@), source, false, 4);
    match r.final_scene {
        Some(x) => {
            let q = x.evidence_quote@;
            if blank(q) {
                crate::text::lemma_blank_all_ws(q);
                lemma_blank_quote_normalizes_empty(q);
            }
        },
        None => {},
    }
}


proof fn lemma_at_most_kept_keeps(s: Seq<(Seq<char>, Seq<char>)>, source: Seq<char>, rej: bool, n: int)
    requires
        n >= 0,
    ensures
        forall|i: int|
            0 <= i < at_most(kept(s, source, rej), n).len() ==> keeps(
                #[trigger] at_most(kept(s, source, rej), n)[i],
                source,
                rej,
            ),
{
    lemma_kept_keeps(s, source, rej);
    let x = kept(s, source, rej);
    assert forall|i: int| 0 <= i < at_most(x, n).len() implies keeps(#[trigger] at_most(x, n)[i], source, rej) by {
        assert(at_most(x, n)[i] == x[i]);
    }
}

/// Whatever a validated memory holds is grounded in the chapter text: every
/// remaining entry's quote occurs (normalized) in the text and its claim is
/// not blank; knowledge changes also make no guesses.
pub proof fn validated_memory_is_grounded(p: ChapterMemoryPayload, r: ChapterMemoryPayload, source: Seq<char>)
    requires
        validation_of(p, r, source),
    ensures
        forall|i: int| 0 <= i < r.state_changes@.len() ==> verifiable(#[trigger] evs(r.state_changes@)[i], source),
        forall|i: int|
            0 <= i < r.knowledge_changes@.len() ==> verifiable(#[trigger] evs(r.knowledge_changes@)[i], source)
                && !contains_any_seq(evs(r.knowledge_changes@)[i].0, inference_markers()),
        forall|i: int| 0 <= i < r.commitments@.len() ==> verifiable(#[trigger] evs(r.commitments@)[i], source),
        forall|i: int| 0 <= i < r.open_loops@.len() ==> verifiable(#[trigger] evs(r.open_loops@)[i], source),
        r.last_action matches Some(x) ==> verifiable(ev(x), source),
        r.immediate_next_intent matches Some(x) ==> verifiable(ev(x), source),
{
    lemma_at_most_kept_keeps(evs(p.state_changes@), source, false, 6);
    lemma_at_most_kept_keeps(evs(p.knowledge_changes@), source, true, 4);
    lemma_at_most_kept_keeps(evs(p.commitments@), source, false, 3);
    lemma_at_most_kept_keeps(evs(p.open_loops@), source, false, 4);
    assert(evs(r.state_changes@).len() == r.state_changes@.len());
    assert(evs(r.knowledge_changes@).len() == r.knowledge_changes@.len());
    assert(evs(r.commitments@).len() == r.commitments@.len());
    assert(evs(r.open_loops@).len() == r.open_loops@.len());
}

/// The words that join two facts in one sentence.
pub open spec fn fact_joining_words() -> Seq<Seq<char>> {
    seq![
        "并且"@, "并将"@, "并把"@, "且将"@, "且把"@, "同时"@, "以及"@, "随后"@, "后来"@, "又将"@,
        "又把"@,
    ]
}

/// A text states a single fact: trimmed, it holds no `；` and none of the
/// words that join two facts.
pub open spec fn states_one_fact(text: Seq<char>) -> bool {
    &&& !contains_seq(trim(text), "；"@)
    &&& forall|k: int|
        0 <= k < fact_joining_words().len() ==> !contains_seq(trim(text), #[trigger] fact_joining_words()[k])
}

/// Every entry that a validated memory keeps in its lists states a single
/// fact: an entry joining two facts with `；` or a joining word is dropped.
pub proof fn validated_entries_state_one_fact(p: ChapterMemoryPayload, r: ChapterMemoryPayload, source: Seq<char>)
    requires
        validation_of(p, r, source),
    ensures
        forall|i: int| 0 <= i < r.state_changes@.len() ==> states_one_fact(#[trigger] r.state_changes@[i].text@),
        forall|i: int|
            0 <= i < r.knowledge_changes@.len() ==> states_one_fact(#[trigger] r.knowledge_changes@[i].text@),
        forall|i: int| 0 <= i < r.commitments@.len() ==> states_one_fact(#[trigger] r.commitments@[i].text@),
        forall|i: int| 0 <= i < r.open_loops@.len() ==> states_one_fact(#[trigger] r.open_loops@[i].text@),
{
    lemma_at_most_kept_keeps(evs(p.state_changes@), source, false, 6);
    lemma_at_most_kept_keeps(evs(p.knowledge_changes@), source, true, 4);
    lemma_at_most_kept_keeps(evs(p.commitments@), source, false, 3);
    lemma_at_most_kept_keeps(evs(p.open_loops@), source, false, 4);
    assert forall|i: int| 0 <= i < r.state_changes@.len() implies states_one_fact(
        #[trigger] r.state_changes@[i].text@,
    ) by {
        assert(keeps(evs(r.state_changes@)[i], source, false));
    }
    assert forall|i: int| 0 <= i < r.knowledge_changes@.len() implies states_one_fact(
        #[trigger] r.knowledge_changes@[i].text@,
    ) by {
        assert(keeps(evs(r.knowledge_changes@)[i], source, true));
    }
    assert forall|i: int| 0 <= i < r.commitments@.len() implies states_one_fact(
        #[trigger] r.commitments@[i].text@,
    ) by {
        assert(keeps(evs(r.commitments@)[i], source, false));
    }
    assert forall|i: int| 0 <= i < r.open_loops@.len() implies states_one_fact(
        #[trigger] r.open_loops@[i].text@,
    ) by {
        assert(keeps(evs(r.open_loops@)[i], source, false));
    }
}

/// An entry counts as atomic exactly when its text states one fact.
pub proof fn atomic_means_one_fact(text: Seq<char>)
    ensures
        atomic(text) == states_one_fact(text),
{
}

} // verus!
