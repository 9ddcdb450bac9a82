//! How an agent run shows the context it was given: the prompt split into
//! labelled segments.
use vstd::prelude::*;

use crate::chapter_memory::{source_hash, source_text_hash};
use crate::agent_tools::{
    first_index_of, get, registry_keys, registry_kinds, ToolKind, PROPOSE_KNOWLEDGE_CARD,
    PROPOSE_UPDATE_KNOWLEDGE_CARD,
};
use crate::ai::lemma_array_view;
use crate::digest::{sha256, sha256_of};
use crate::error::AppError;
use crate::json::{compact_json, json_compact, Json, JsonView};
use crate::text_facts::{is_lower_hex_digit, lemma_hex_shape};
use vstd::utf8::encode_utf8;
use crate::models::Artifact;
use crate::stage::{stage_name, Stage};
use crate::text::{
    append, begins, blank, chars_of, concat, decimal, decimal_of, hex, hex_of, join, contains_seq, is_blank, lines, owned, slice_of,
    starts_with, str_contains, str_eq, str_lines, string_of, trim, trim_chars, views,
};

verus! {

/// How much of a segment a preview shows, in characters.
pub const MAX_PREVIEW_CHARS: usize = 2400;

/// Where the segments of a run come from.
pub const SEGMENT_SOURCE: &'static str = "application_context_pipeline";

/// What follows a cut preview.
pub const TRUNCATION_NOTE: &'static str = "\n…（预览已截断，正式运行使用完整内容）";

/// One labelled part of the context given to a run.
#[derive(Debug, PartialEq, Eq)]
pub struct ContextSegment {
    pub kind: String,
    pub label: String,
    pub source: String,
    pub content: String,
    pub chars: usize,
    pub truncated: bool,
}

/// A segment as text.
pub struct SegmentView {
    pub kind: Seq<char>,
    pub label: Seq<char>,
    pub source: Seq<char>,
    pub content: Seq<char>,
    pub chars: int,
    pub truncated: bool,
}

impl View for ContextSegment {
    type V = SegmentView;

    open spec fn view(&self) -> SegmentView {
        SegmentView {
            kind: self.kind@,
            label: self.label@,
            source: self.source@,
            content: self.content@,
            chars: self.chars as int,
            truncated: self.truncated,
        }
    }
}

/// The views of a list of segments.
pub open spec fn segment_views(s: Seq<ContextSegment>) -> Seq<SegmentView> {
    s.map_values(|x: ContextSegment| x@)
}

/// The hash of a chapter's memory source (see `source_hash`).
pub fn chapter_memory_hash(content: &str) -> (r: String)
    ensures
        r@ == source_hash(content@),
{
    source_text_hash(content)
}

/// What kind of context a label announces: tool results (tools, searches,
/// the ledger), human instructions, the task (task, output), or static
/// context.
pub open spec fn kind_of_label(label: Seq<char>) -> Seq<char> {
    if contains_seq(label, "工具"@) || contains_seq(label, "检索"@) || contains_seq(label, "账本"@) {
        "tool_result"@
    } else if contains_seq(label, "人工"@) {
        "human_instruction"@
    } else if contains_seq(label, "任务"@) || contains_seq(label, "输出"@) {
        "task"@
    } else {
        "static_context"@
    }
}

/// The kind of context a label announces (see `kind_of_label`).
pub fn segment_kind(label: &str) -> (r: &'static str)
    ensures
        r@ == kind_of_label(label@),
{
    if str_contains(label, "工具") || str_contains(label, "检索") || str_contains(label, "账本") {
        "tool_result"
    } else if str_contains(label, "人工") {
        "human_instruction"
    } else if str_contains(label, "任务") || str_contains(label, "输出") {
        "task"
    } else {
        "static_context"
    }
}

/// `s` without all its leading copies of `p` (a non-empty `p`).
pub open spec fn strip_leading(s: Seq<char>, p: Seq<char>) -> Seq<char>
    decreases s.len(),
{
    if p.len() > 0 && begins(s, p) {
        strip_leading(s.skip(p.len() as int), p)
    } else {
        s
    }
}

/// The segments of a prompt, as labels and contents: each `# ` line opens a
/// segment labelled with its text (leading `# ` marks removed, trimmed);
/// each later line joins the open segment's content, newline-separated
/// (lines before the first heading are dropped).
pub open spec fn scan_segments(ls: Seq<Seq<char>>) -> Seq<(Seq<char>, Seq<char>)>
    decreases ls.len(),
{
    if ls.len() == 0 {
        Seq::empty()
    } else {
        let segs = scan_segments(ls.drop_last());
        let line = ls.last();
        if begins(line, "# "@) {
            segs.push((trim(strip_leading(line, "# "@)), Seq::empty()))
        } else if segs.len() > 0 {
            let (label, content) = segs.last();
            let joined = if content.len() == 0 {
                line
            } else {
                content + "\n"@ + line
            };
            segs.update(segs.len() - 1, (label, joined))
        } else {
            segs
        }
    }
}

/// The labelled parts of a prompt: its segments, or the whole prompt as the
/// generation context when it has no heading.
pub open spec fn prompt_parts(prompt: Seq<char>) -> Seq<(Seq<char>, Seq<char>)> {
    let segs = scan_segments(lines(prompt));
    if segs.len() == 0 {
        seq![("生成上下文"@, prompt)]
    } else {
        segs
    }
}

/// A part as a segment: its kind, label and source, a preview cut at
/// `MAX_PREVIEW_CHARS` characters (with a note after a cut), and its full
/// length.
pub open spec fn segment_of(label: Seq<char>, content: Seq<char>) -> SegmentView {
    let truncated = content.len() > MAX_PREVIEW_CHARS;
    SegmentView {
        kind: kind_of_label(label),
        label,
        source: SEGMENT_SOURCE@,
        content: if truncated {
            content.take(MAX_PREVIEW_CHARS as int) + TRUNCATION_NOTE@
        } else {
            content
        },
        chars: content.len() as int,
        truncated,
    }
}

/// The segments of the parts whose content is not blank, in order.
pub open spec fn shown_segments(parts: Seq<(Seq<char>, Seq<char>)>) -> Seq<SegmentView>
    decreases parts.len(),
{
    if parts.len() == 0 {
        Seq::empty()
    } else if blank(parts.last().1) {
        shown_segments(parts.drop_last())
    } else {
        shown_segments(parts.drop_last()).push(segment_of(parts.last().0, parts.last().1))
    }
}

fn strip_leading_marks(line: &[char]) -> (r: Vec<char>)
    ensures
        r@ == strip_leading(line@, "# "@),
{
    let mark = chars_of("# ");
    proof {
        reveal_strlit("# ");
    }
    let mut start: usize = 0;
    assert(line@.skip(0) == line@);
    assert("# "@ =~= seq!['#', ' ']);
    while line.len() - start >= 2 && line[start] == '#' && line[start + 1] == ' '
        invariant
            start <= line.len(),
            mark@ == "# "@,
            "# "@ == seq!['#', ' '],
            strip_leading(line@, "# "@) == strip_leading(line@.skip(start as int), "# "@),
        decreases line.len() - start,
    {
        let ghost rest = line@.skip(start as int);
        assert(rest.take(2) =~= "# "@);
        assert(rest.skip(2) =~= line@.skip(start + 2));
        start = start + 2;
    }
    let rest = slice_of(line, start, line.len());
    proof {
        let r = line@.skip(start as int);
        assert(rest@ == r);
        if begins(r, "# "@) {
            assert(r.take(2)[0] == r[0]);
            assert(r.take(2)[1] == r[1]);
            assert(r[0] == '#' && r[1] == ' ');
        }
    }
    rest
}

fn segment_for(label: String, content: String) -> (r: ContextSegment)
    ensures
        r@ == segment_of(label@, content@),
{
    let cv = chars_of(content.as_str());
    let chars = cv.len();
    let truncated = chars > MAX_PREVIEW_CHARS;
    let preview = if truncated {
        let cut = slice_of(cv.as_slice(), 0, MAX_PREVIEW_CHARS);
        let mut p = string_of(cut.as_slice());
        append(&mut p, TRUNCATION_NOTE);
        p
    } else {
        content
    };
    let kind = owned(segment_kind(label.as_str()));
    ContextSegment { kind, label, source: owned(SEGMENT_SOURCE), content: preview, chars, truncated }
}

/// Splits a prompt into the segments a run shows (see `shown_segments` of
/// `prompt_parts`).
pub fn split_segments(prompt: &str) -> (r: Vec<ContextSegment>)
    ensures
        segment_views(r@) == shown_segments(prompt_parts(prompt@)),
{
    let ls = str_lines(prompt);
    let ghost lv = views(ls@);
    let mut labels: Vec<String> = Vec::new();
    let mut contents: Vec<String> = Vec::new();
    let mut i: usize = 0;
    while i < ls.len()
        invariant
            i <= ls.len(),
            lv == views(ls@),
            lv == lines(prompt@),
            labels@.len() == contents@.len(),
            scan_segments(lv.take(i as int)).len() == labels@.len(),
            forall|k: int|
                0 <= k < labels@.len() ==> (#[trigger] scan_segments(lv.take(i as int))[k]) == (
                labels@[k]@,
                contents@[k]@,
            ),
        decreases ls.len() - i,
    {
        let line = ls[i].as_str();
        assert(lv.take(i + 1).drop_last() == lv.take(i as int));
        assert(lv.take(i + 1).last() == line@);
        let ghost prev = scan_segments(lv.take(i as int));
        let lc = chars_of(line);
        let mark = chars_of("# ");
        if starts_with(lc.as_slice(), mark.as_slice()) {
            let stripped = strip_leading_marks(lc.as_slice());
            let label = trim_chars(stripped.as_slice());
            labels.push(string_of(label.as_slice()));
            contents.push(String::new());
        } else if labels.len() > 0 {
            let last = contents.len() - 1;
            let joined = if contents[last].as_str().unicode_len() == 0 {
                owned(line)
            } else {
                let mut j = concat(contents[last].as_str(), "\n");
                append(&mut j, line);
                j
            };
            contents.set(last, joined);
        }
        i = i + 1;
    }
    assert(lv.take(ls.len() as int) == lv);
    let ghost parts = prompt_parts(prompt@);
    if labels.len() == 0 {
        labels.push(owned("生成上下文"));
        contents.push(owned(prompt));
    }
    assert(parts.len() == labels@.len());
    assert forall|k: int| 0 <= k < labels@.len() implies (#[trigger] parts[k]) == (
        labels@[k]@,
        contents@[k]@,
    ) by {}
    let mut out: Vec<ContextSegment> = Vec::new();
    let mut k: usize = 0;
    while k < labels.len()
        invariant
            k <= labels.len(),
            labels@.len() == contents@.len(),
            parts.len() == labels@.len(),
            forall|m: int| 0 <= m < labels@.len() ==> (#[trigger] parts[m]) == (
                labels@[m]@,
                contents@[m]@,
            ),
            segment_views(out@) == shown_segments(parts.take(k as int)),
        decreases labels.len() - k,
    {
        assert(parts.take(k + 1).drop_last() == parts.take(k as int));
        assert(parts.take(k + 1).last() == parts[k as int]);
        if !is_blank(contents[k].as_str()) {
            let seg = segment_for(labels[k].clone(), contents[k].clone());
            let ghost before = out@;
            out.push(seg);
            assert(segment_views(out@) =~= segment_views(before).push(seg@));
        }
        k = k + 1;
    }
    assert(parts.take(labels.len() as int) == parts);
    out
}

// ---------------------------------------------------------------------------
// Requests
// ---------------------------------------------------------------------------
/// The book-level stages bind no chapter.
pub open spec fn book_stage(stage: Stage) -> bool {
    stage is Setting || stage is Outline || stage is Characters
}

/// Checks that a request's stage and chapter agree: setting, outline and
/// characters take no chapter; draft, review and revision need one.
pub fn check_request_binding(stage: &Stage, chapter_id: Option<i64>) -> (r: Result<(), AppError>)
    ensures
        book_stage(*stage) && chapter_id is Some ==> (r matches Err(AppError::Validation(m)) && m@
            == "设定、大纲和角色阶段不能绑定章节"@),
        !book_stage(*stage) && chapter_id is None ==> (r matches Err(AppError::Validation(m)) && m@
            == "写作、试读和修订阶段必须选择章节"@),
        book_stage(*stage) == (chapter_id is None) ==> r is Ok,
{
    match stage {
        Stage::Setting | Stage::Outline | Stage::Characters => {
            if chapter_id.is_some() {
                return Err(AppError::Validation(owned("设定、大纲和角色阶段不能绑定章节")));
            }
        },
        Stage::Draft | Stage::Review | Stage::Revision => {
            if chapter_id.is_none() {
                return Err(AppError::Validation(owned("写作、试读和修订阶段必须选择章节")));
            }
        },
    }
    Ok(())
}

/// An artifact can be the source of a request's context: a book-level
/// artifact of the same stage for a book-level stage; a draft or revision
/// of the same chapter for a review; a draft, revision or review of the
/// same chapter for a revision; nothing for a draft.
pub open spec fn source_fits(stage: Stage, chapter_id: Option<i64>, source: Artifact) -> bool {
    match stage {
        Stage::Setting | Stage::Outline | Stage::Characters => source.chapter_id is None
            && source.stage@ == stage_name(stage),
        Stage::Review => source.chapter_id == chapter_id && (source.stage@ == "draft"@
            || source.stage@ == "revision"@),
        Stage::Revision => source.chapter_id == chapter_id && (source.stage@ == "draft"@
            || source.stage@ == "revision"@ || source.stage@ == "review"@),
        Stage::Draft => false,
    }
}

/// Checks a request's source artifact: it must belong to the project, then
/// fit the stage (see `source_fits`).
pub fn check_request_source(stage: &Stage, project_id: i64, chapter_id: Option<i64>, source: &Artifact) -> (r:
    Result<(), AppError>)
    ensures
        source.project_id != project_id ==> (r matches Err(AppError::Validation(m)) && m@
            == "候选产物不属于当前项目"@),
        source.project_id == project_id && !source_fits(*stage, chapter_id, *source) ==> (r matches Err(
            AppError::Validation(m),
        ) && m@ == "当前阶段不支持把这个产物作为上下文来源"@),
        source.project_id == project_id && source_fits(*stage, chapter_id, *source) ==> r is Ok,
{
    if source.project_id != project_id {
        return Err(AppError::Validation(owned("候选产物不属于当前项目")));
    }
    let same_chapter = match (source.chapter_id, chapter_id) {
        (Some(a), Some(b)) => a == b,
        (None, None) => true,
        _ => false,
    };
    let valid = match stage {
        Stage::Setting | Stage::Outline | Stage::Characters => source.chapter_id.is_none()
            && str_eq(source.stage.as_str(), stage.as_str()),
        Stage::Review => same_chapter && (str_eq(source.stage.as_str(), "draft") || str_eq(
            source.stage.as_str(),
            "revision",
        )),
        Stage::Revision => same_chapter && (str_eq(source.stage.as_str(), "draft") || str_eq(
            source.stage.as_str(),
            "revision",
        ) || str_eq(source.stage.as_str(), "review")),
        Stage::Draft => false,
    };
    if !valid {
        return Err(AppError::Validation(owned("当前阶段不支持把这个产物作为上下文来源")));
    }
    Ok(())
}

// ---------------------------------------------------------------------------
// Runs
// ---------------------------------------------------------------------------
/// A tool that the proposal step after a run may use: a registered proposal
/// tool, or (for a book-level stage) the knowledge card proposal tools.
pub open spec fn proposal_tool(key: Seq<char>, book_level: bool) -> bool {
    match first_index_of(registry_keys(), key) {
        Some(i) => registry_kinds()[i] == ToolKind::Proposal || (book_level && (key
            == PROPOSE_KNOWLEDGE_CARD@ || key == PROPOSE_UPDATE_KNOWLEDGE_CARD@)),
        None => false,
    }
}

/// The enabled keys that are proposal tools, in order.
pub open spec fn proposal_keys(keys: Seq<Seq<char>>, book_level: bool) -> Seq<Seq<char>>
    decreases keys.len(),
{
    if keys.len() == 0 {
        Seq::empty()
    } else {
        let prev = proposal_keys(keys.drop_last(), book_level);
        if proposal_tool(keys.last(), book_level) {
            prev.push(keys.last())
        } else {
            prev
        }
    }
}

/// The tools of the proposal step after a run of the stage: those of the
/// agent's enabled tools that are proposal tools (see `proposal_tool`).
pub fn proposal_tool_keys(stage: &Stage, enabled: Vec<String>) -> (r: Vec<String>)
    ensures
        views(r@) == proposal_keys(views(enabled@), book_stage(*stage)),
{
    let book_level = match stage {
        Stage::Setting | Stage::Outline | Stage::Characters => true,
        _ => false,
    };
    let ghost ev = views(enabled@);
    let mut kept: Vec<String> = Vec::new();
    for key in it: enabled
        invariant
            ev == views(it.seq()),
            book_level == book_stage(*stage),
            views(kept@) == proposal_keys(ev.take(it.index()), book_level),
    {
        assert(ev.take(it.index() + 1).drop_last() == ev.take(it.index()));
        assert(ev.take(it.index() + 1).last() == key@);
        let keep = match get(key.as_str()) {
            Some(d) => d.kind == ToolKind::Proposal || (book_level && (str_eq(
                key.as_str(),
                PROPOSE_KNOWLEDGE_CARD,
            ) || str_eq(key.as_str(), PROPOSE_UPDATE_KNOWLEDGE_CARD))),
            None => false,
        };
        if keep {
            let ghost before = views(kept@);
            let ghost k = key@;
            kept.push(key);
            assert(views(kept@) =~= before.push(k));
        }
    }
    assert(ev.take(ev.len() as int) == ev);
    kept
}

/// The head of the proposal step's prompt: the finished artifact and the
/// human's instruction (`未提供` when there was none).
pub open spec fn proposal_prompt_head(stage: Seq<char>, title: Seq<char>, content: Seq<char>, instruction: Seq<char>) -> Seq<
    char,
> {
    "# 已完成的 Agent 产物\n阶段："@ + stage + "\n标题："@ + title + "\n\n"@ + content + "\n\n# 人工原始指令\n"@
        + instruction + "\n\n"@
}

/// What the proposal step is asked to do at a book-level stage.
pub const BOOK_PROPOSAL_TASK: &'static str = "你现在是结构化资料沉淀子流程。不要输出 Markdown，也不要创建资料候选版本。请逐条调用提议知识卡工具，把产物中的世界观、规则、地点、势力、物件、角色或大纲任务创建/更新为独立知识卡。每张卡只表达一个稳定知识单元；已有卡片应优先更新而不是重复创建。所有卡片保持待人工确认状态。完成后停止工具调用。";

/// What the proposal step is asked to do at a chapter stage.
pub const CHAPTER_PROPOSAL_TASK: &'static str = "只在产物明确需要创建章节、重命名章节、生成资料候选、更新或删除知识卡、生成伏笔候选时创建写入提案。不得提议删除章节或正文、批准或直接应用正文。";

/// The prompt of the proposal step after a run (see `proposal_prompt_head`
/// and the two tasks).
pub fn proposal_prompt(stage: &Stage, title: &str, content: &str, instruction: Option<&str>) -> (r: String)
    ensures
        r@ == proposal_prompt_head(
            stage_name(*stage),
            title@,
            content@,
            match instruction {
                Some(i) => i@,
                None => "未提供"@,
            },
        ) + if book_stage(*stage) {
            BOOK_PROPOSAL_TASK@
        } else {
            CHAPTER_PROPOSAL_TASK@
        },
{
    let mut r = owned("# 已完成的 Agent 产物\n阶段：");
    append(&mut r, stage.as_str());
    append(&mut r, "\n标题：");
    append(&mut r, title);
    append(&mut r, "\n\n");
    append(&mut r, content);
    append(&mut r, "\n\n# 人工原始指令\n");
    match instruction {
        Some(i) => append(&mut r, i),
        None => append(&mut r, "未提供"),
    }
    append(&mut r, "\n\n");
    match stage {
        Stage::Setting | Stage::Outline | Stage::Characters => append(&mut r, BOOK_PROPOSAL_TASK),
        _ => append(&mut r, CHAPTER_PROPOSAL_TASK),
    }
    r
}

/// Checks a revision request: the source must be the project's draft,
/// review or revision, and the feedback must not be blank.
pub fn check_revision_request(project_id: i64, source: &Artifact, feedback: &str) -> (r: Result<(), AppError>)
    ensures
        source.project_id != project_id ==> (r matches Err(AppError::Validation(m)) && m@
            == "修订目标不属于当前项目"@),
        source.project_id == project_id && !(source.stage@ == "draft"@ || source.stage@ == "revision"@
            || source.stage@ == "review"@) ==> (r matches Err(AppError::Validation(m)) && m@
            == "只能对章节草稿、试读报告或修订稿发起修订"@),
        source.project_id == project_id && (source.stage@ == "draft"@ || source.stage@ == "revision"@
            || source.stage@ == "review"@) ==> (if blank(feedback@) {
            r matches Err(AppError::Validation(m)) && m@ == "请填写修订反馈"@
        } else {
            r is Ok
        }),
{
    if source.project_id != project_id {
        return Err(AppError::Validation(owned("修订目标不属于当前项目")));
    }
    let st = source.stage.as_str();
    if !(str_eq(st, "draft") || str_eq(st, "revision") || str_eq(st, "review")) {
        return Err(AppError::Validation(owned("只能对章节草稿、试读报告或修订稿发起修订")));
    }
    if is_blank(feedback) {
        return Err(AppError::Validation(owned("请填写修订反馈")));
    }
    Ok(())
}

/// Checks that a run may be cancelled: only a running or streaming run.
pub fn check_cancellable(status: &str) -> (r: Result<(), AppError>)
    ensures
        status@ == "streaming"@ || status@ == "running"@ ==> r is Ok,
        !(status@ == "streaming"@ || status@ == "running"@) ==> (r matches Err(AppError::Validation(m))
            && m@ == "只有正在运行的 Agent 任务可以取消"@),
{
    if str_eq(status, "streaming") || str_eq(status, "running") {
        Ok(())
    } else {
        Err(AppError::Validation(owned("只有正在运行的 Agent 任务可以取消")))
    }
}

/// How a run that ended in an error is closed, given whether cancellation
/// was asked for and the run's current status: `cancelled` or `failed`,
/// when the run is still running, streaming or waiting to be cancelled;
/// else it is left as it is.
pub fn failed_run_status(cancelled: bool, current_status: &str) -> (r: Option<&'static str>)
    ensures
        (current_status@ == "running"@ || current_status@ == "streaming"@ || current_status@
            == "cancellation_requested"@) ==> (r matches Some(s) && s@ == if cancelled {
            "cancelled"@
        } else {
            "failed"@
        }),
        !(current_status@ == "running"@ || current_status@ == "streaming"@ || current_status@
            == "cancellation_requested"@) ==> r is None,
{
    if str_eq(current_status, "running") || str_eq(current_status, "streaming") || str_eq(
        current_status,
        "cancellation_requested",
    ) {
        Some(if cancelled { "cancelled" } else { "failed" })
    } else {
        None
    }
}

/// Checks that a prepared context was prepared for this request: the same
/// project, chapter and stage.
pub fn check_prepared_for_request(
    prepared_project_id: i64,
    prepared_chapter_id: Option<i64>,
    prepared_stage: &str,
    project_id: i64,
    chapter_id: Option<i64>,
    stage: &Stage,
) -> (r: Result<(), AppError>)
    ensures
        (prepared_project_id == project_id && prepared_chapter_id == chapter_id && prepared_stage@
            == stage_name(*stage)) ==> r is Ok,
        !(prepared_project_id == project_id && prepared_chapter_id == chapter_id && prepared_stage@
            == stage_name(*stage)) ==> (r matches Err(AppError::Validation(m)) && m@
            == "准备上下文与当前请求不匹配"@),
{
    let same_chapter = match (prepared_chapter_id, chapter_id) {
        (Some(a), Some(b)) => a == b,
        (None, None) => true,
        _ => false,
    };
    if prepared_project_id != project_id || !same_chapter || !str_eq(prepared_stage, stage.as_str()) {
        return Err(AppError::Validation(owned("准备上下文与当前请求不匹配")));
    }
    Ok(())
}

/// Checks that nothing a prepared context depends on has changed since: its
/// fingerprint must be the current one.
pub fn check_fingerprint(current: &str, prepared: &str) -> (r: Result<(), AppError>)
    ensures
        current@ == prepared@ ==> r is Ok,
        current@ != prepared@ ==> (r matches Err(AppError::Validation(m)) && m@
            == "项目资料、章节、候选稿、Prompt 或工具配置已变化，请重新预览"@),
{
    if str_eq(current, prepared) {
        Ok(())
    } else {
        Err(AppError::Validation(owned("项目资料、章节、候选稿、Prompt 或工具配置已变化，请重新预览")))
    }
}

/// Refuses to start a run while another run of the project is active (the
/// id of that run, if any, is given).
pub fn check_no_active_run(active_run_id: Option<i64>) -> (r: Result<(), AppError>)
    ensures
        active_run_id is Some ==> (r matches Err(AppError::Validation(m)) && m@
            == "当前项目已有 Agent 任务正在运行"@),
        active_run_id is None ==> r is Ok,
{
    match active_run_id {
        Some(_) => Err(AppError::Validation(owned("当前项目已有 Agent 任务正在运行"))),
        None => Ok(()),
    }
}

// ---------------------------------------------------------------------------
// Context fingerprints
// ---------------------------------------------------------------------------
/// What a run's context fingerprint is taken over, besides the source draft.
/// The canonical story fingerprint, the JSON text of the reference
/// selection (`null` when there is none), the provider's configured tool
/// protocol and the fingerprint of the selected references are worked out
/// elsewhere and given here.
pub struct FingerprintInputs {
    pub project_updated_at: String,
    pub canonical_fingerprint: String,
    pub chapter_id: Option<i64>,
    pub chapter_updated_at: Option<String>,
    pub stage: String,
    pub instruction: Option<String>,
    pub reference_selection_json: String,
    pub agent_id: i64,
    pub system_prompt: String,
    pub enabled_tool_keys: Vec<String>,
    pub allowed_skill_keys: Vec<String>,
    pub provider_base_url: String,
    pub model: String,
    pub tool_protocol: String,
    pub reference_fingerprint: String,
}

/// One field of a compact JSON record: the quoted key, a colon, the value's
/// JSON text.
pub open spec fn record_field(key: Seq<char>, value: Seq<char>) -> Seq<char> {
    "\""@ + key + "\":"@ + value
}

/// The fields of a compact JSON record, in order, separated by commas.
pub open spec fn record_body(fields: Seq<(Seq<char>, Seq<char>)>) -> Seq<char> {
    join(fields.map_values(|f: (Seq<char>, Seq<char>)| record_field(f.0, f.1)), ","@)
}

/// The JSON text of a string.
pub open spec fn text_json(s: Seq<char>) -> Seq<char> {
    json_compact(JsonView::Str(s))
}

/// The JSON text of an optional string.
pub open spec fn opt_text_json(s: Option<Seq<char>>) -> Seq<char> {
    match s {
        Some(t) => text_json(t),
        None => "null"@,
    }
}

/// The JSON text of an optional integer.
pub open spec fn opt_int_json(n: Option<i64>) -> Seq<char> {
    match n {
        Some(v) => decimal(v as int),
        None => "null"@,
    }
}

/// The JSON text of a list of strings.
pub open spec fn texts_json(v: Seq<String>) -> Seq<char> {
    json_compact(JsonView::Array(v.map_values(|s: String| JsonView::Str(s@))))
}

/// The fields of a run's context fingerprint record, in the order the
/// record declares them; the source draft gives its id and the hash of its
/// content.
pub open spec fn fingerprint_fields(x: FingerprintInputs, source: Option<Artifact>) -> Seq<(Seq<char>, Seq<char>)> {
    seq![
        ("project_updated_at"@, text_json(x.project_updated_at@)),
        ("canonical_fingerprint"@, text_json(x.canonical_fingerprint@)),
        ("chapter_id"@, opt_int_json(x.chapter_id)),
        ("chapter_updated_at"@, opt_text_json(match x.chapter_updated_at { Some(t) => Some(t@), None => None })),
        ("stage"@, text_json(x.stage@)),
        ("source_id"@, opt_int_json(match source { Some(a) => Some(a.id), None => None })),
        ("source_hash"@, opt_text_json(match source { Some(a) => Some(source_hash(a.content@)), None => None })),
        ("instruction"@, opt_text_json(match x.instruction { Some(t) => Some(t@), None => None })),
        ("reference_selection"@, x.reference_selection_json@),
        ("agent_id"@, decimal(x.agent_id as int)),
        ("system_prompt"@, text_json(x.system_prompt@)),
        ("enabled_tool_keys"@, texts_json(x.enabled_tool_keys@)),
        ("allowed_skill_keys"@, texts_json(x.allowed_skill_keys@)),
        ("provider_base_url"@, text_json(x.provider_base_url@)),
        ("model"@, text_json(x.model@)),
        ("tool_protocol"@, text_json(x.tool_protocol@)),
        ("reference_fingerprint"@, text_json(x.reference_fingerprint@)),
    ]
}

/// The compact JSON record of a run's context.
pub open spec fn fingerprint_record(x: FingerprintInputs, source: Option<Artifact>) -> Seq<char> {
    "{"@ + record_body(fingerprint_fields(x, source)) + "}"@
}

/// A run's context fingerprint: the lowercase hex SHA-256 of the UTF-8
/// bytes of its record.
pub open spec fn fingerprint_of(x: FingerprintInputs, source: Option<Artifact>) -> Seq<char> {
    hex(sha256_of(encode_utf8(fingerprint_record(x, source))))
}

fn string_json(s: &str) -> (r: String)
    ensures
        r@ == text_json(s@),
{
    compact_json(&Json::Str(owned(s)))
}

fn opt_string_json(s: &Option<String>) -> (r: String)
    ensures
        r@ == opt_text_json(match *s { Some(t) => Some(t@), None => None }),
{
    match s {
        Some(t) => string_json(t.as_str()),
        None => owned("null"),
    }
}

fn opt_i64_json(n: Option<i64>) -> (r: String)
    ensures
        r@ == opt_int_json(n),
{
    match n {
        Some(v) => decimal_of(v),
        None => owned("null"),
    }
}

fn strings_json(v: &Vec<String>) -> (r: String)
    ensures
        r@ == texts_json(v@),
{
    let mut items: Vec<Json> = Vec::new();
    let mut i: usize = 0;
    while i < v.len()
        invariant
            i <= v.len(),
            items@.map_values(|j: Json| j@) == v@.take(i as int).map_values(|s: String| JsonView::Str(s@)),
        decreases v.len() - i,
    {
        let ghost before = items@;
        let item = Json::Str(owned(v[i].as_str()));
        items.push(item);
        i = i + 1;
        assert(items@.map_values(|j: Json| j@) =~= before.map_values(|j: Json| j@).push(item@));
        assert(v@.take(i as int).map_values(|s: String| JsonView::Str(s@)) =~= v@.take(i - 1).map_values(
            |s: String| JsonView::Str(s@),
        ).push(JsonView::Str(v@[i - 1]@)));
        assert(items@.map_values(|j: Json| j@) =~= v@.take(i as int).map_values(|s: String| JsonView::Str(s@)));
    }
    assert(v@.take(v.len() as int) == v@);
    proof {
        lemma_array_view(items);
    }
    compact_json(&Json::Array(items))
}

/// Appends the next field of a record under way.
fn add_field(
    out: &mut String,
    Ghost(fs): Ghost<Seq<(Seq<char>, Seq<char>)>>,
    key: &str,
    value: &str,
)
    requires
        fs.len() > 0,
        old(out)@ == "{"@ + record_body(fs),
    ensures
        final(out)@ == "{"@ + record_body(fs.push((key@, value@))),
{
    append(out, ",\"");
    append(out, key);
    append(out, "\":");
    append(out, value);
    proof {
        let f = |p: (Seq<char>, Seq<char>)| record_field(p.0, p.1);
        let m = fs.map_values(f);
        let m2 = fs.push((key@, value@)).map_values(f);
        assert(m2.drop_last() =~= m);
        assert(m2.last() == record_field(key@, value@));
        assert(join(m2, ","@) == join(m, ","@) + ","@ + record_field(key@, value@));
        reveal_strlit(",\"");
        reveal_strlit(",");
        reveal_strlit("\"");
        assert(final(out)@ =~= "{"@ + join(m2, ","@));
    }
}

/// The fingerprint of a run's context (see `fingerprint_of`): 64 lowercase
/// hexadecimal digits.
pub fn context_fingerprint(inputs: &FingerprintInputs, source: Option<&Artifact>) -> (r: String)
    ensures
        r@ == fingerprint_of(*inputs, match source { Some(a) => Some(*a), None => None }),
        r@.len() == 64,
        forall|i: int| 0 <= i < r@.len() ==> is_lower_hex_digit(#[trigger] r@[i]),
{
    let ghost src = match source { Some(a) => Some(*a), None => None::<Artifact> };
    let ghost all = fingerprint_fields(*inputs, src);
    let first = string_json(inputs.project_updated_at.as_str());
    let mut out = concat("{\"project_updated_at\":", first.as_str());
    proof {
        reveal_strlit("{\"project_updated_at\":");
        reveal_strlit("{");
        reveal_strlit("\"");
        reveal_strlit("\":");
        reveal_strlit("project_updated_at");
        let fs = all.take(1);
        assert(fs.map_values(|f: (Seq<char>, Seq<char>)| record_field(f.0, f.1)) =~= seq![
            record_field("project_updated_at"@, first@),
        ]);
        assert(out@ =~= "{"@ + record_body(fs));
    }
    let v = string_json(inputs.canonical_fingerprint.as_str());
    add_field(&mut out, Ghost(all.take(1)), "canonical_fingerprint", v.as_str());
    assert(all.take(1).push(("canonical_fingerprint"@, v@)) =~= all.take(2));
    let v = opt_i64_json(inputs.chapter_id);
    add_field(&mut out, Ghost(all.take(2)), "chapter_id", v.as_str());
    assert(all.take(2).push(("chapter_id"@, v@)) =~= all.take(3));
    let v = opt_string_json(&inputs.chapter_updated_at);
    add_field(&mut out, Ghost(all.take(3)), "chapter_updated_at", v.as_str());
    assert(all.take(3).push(("chapter_updated_at"@, v@)) =~= all.take(4));
    let v = string_json(inputs.stage.as_str());
    add_field(&mut out, Ghost(all.take(4)), "stage", v.as_str());
    assert(all.take(4).push(("stage"@, v@)) =~= all.take(5));
    let (id, hash) = match source {
        Some(a) => (Some(a.id), Some(source_text_hash(a.content.as_str()))),
        None => (None, None),
    };
    let v = opt_i64_json(id);
    add_field(&mut out, Ghost(all.take(5)), "source_id", v.as_str());
    assert(all.take(5).push(("source_id"@, v@)) =~= all.take(6));
    let v = opt_string_json(&hash);
    add_field(&mut out, Ghost(all.take(6)), "source_hash", v.as_str());
    assert(all.take(6).push(("source_hash"@, v@)) =~= all.take(7));
    let v = opt_string_json(&inputs.instruction);
    add_field(&mut out, Ghost(all.take(7)), "instruction", v.as_str());
    assert(all.take(7).push(("instruction"@, v@)) =~= all.take(8));
    add_field(&mut out, Ghost(all.take(8)), "reference_selection", inputs.reference_selection_json.as_str());
    assert(all.take(8).push(("reference_selection"@, inputs.reference_selection_json@)) =~= all.take(9));
    let v = decimal_of(inputs.agent_id);
    add_field(&mut out, Ghost(all.take(9)), "agent_id", v.as_str());
    assert(all.take(9).push(("agent_id"@, v@)) =~= all.take(10));
    let v = string_json(inputs.system_prompt.as_str());
    add_field(&mut out, Ghost(all.take(10)), "system_prompt", v.as_str());
    assert(all.take(10).push(("system_prompt"@, v@)) =~= all.take(11));
    let v = strings_json(&inputs.enabled_tool_keys);
    add_field(&mut out, Ghost(all.take(11)), "enabled_tool_keys", v.as_str());
    assert(all.take(11).push(("enabled_tool_keys"@, v@)) =~= all.take(12));
    let v = strings_json(&inputs.allowed_skill_keys);
    add_field(&mut out, Ghost(all.take(12)), "allowed_skill_keys", v.as_str());
    assert(all.take(12).push(("allowed_skill_keys"@, v@)) =~= all.take(13));
    let v = string_json(inputs.provider_base_url.as_str());
    add_field(&mut out, Ghost(all.take(13)), "provider_base_url", v.as_str());
    assert(all.take(13).push(("provider_base_url"@, v@)) =~= all.take(14));
    let v = string_json(inputs.model.as_str());
    add_field(&mut out, Ghost(all.take(14)), "model", v.as_str());
    assert(all.take(14).push(("model"@, v@)) =~= all.take(15));
    let v = string_json(inputs.tool_protocol.as_str());
    add_field(&mut out, Ghost(all.take(15)), "tool_protocol", v.as_str());
    assert(all.take(15).push(("tool_protocol"@, v@)) =~= all.take(16));
    let v = string_json(inputs.reference_fingerprint.as_str());
    add_field(&mut out, Ghost(all.take(16)), "reference_fingerprint", v.as_str());
    assert(all.take(16).push(("reference_fingerprint"@, v@)) =~= all);
    append(&mut out, "}");
    assert(out@ == fingerprint_record(*inputs, src));
    let digest = sha256(out.as_str().as_bytes());
    proof {
        lemma_hex_shape(digest@);
    }
    hex_of(digest.as_slice())
}

} // verus!
