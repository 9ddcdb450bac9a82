//! The check before a chapter is approved: which problems block a candidate,
//! and what to do next.
use vstd::prelude::*;

use crate::error::AppError;
use crate::models::{Artifact, Chapter};
use crate::text::{
    append, concat, contains_any, contains_any_seq, decimal, decimal_of, decimal_of_count, owned,
    str_eq,
};

verus! {

/// The lowest quality score a candidate may pass with.
pub const MIN_ACCEPTABLE_QUALITY: u8 = 72;

/// One measured property of a draft. The value is kept in hundredths (a
/// value of 6.4 is 640).
#[derive(Debug, PartialEq, Eq)]
pub struct QualityMetric {
    pub label: String,
    pub value_hundredths: i64,
    pub unit: String,
    pub target_hundredths: Option<i64>,
}

/// A warning of the quality analysis.
#[derive(Debug, PartialEq, Eq)]
pub struct QualityWarning {
    pub title: String,
    pub detail: String,
    pub suggestion: String,
}

/// The quality analysis of a draft.
#[derive(Debug, PartialEq, Eq)]
pub struct QualityReport {
    pub artifact_id: i64,
    pub stage: String,
    pub verdict: String,
    pub score: u8,
    pub summary: String,
    pub metrics: Vec<QualityMetric>,
    pub warnings: Vec<QualityWarning>,
}

/// A problem that a continuity review found.
#[derive(Debug, PartialEq, Eq)]
pub struct ContinuityIssue {
    pub issue_type: String,
    pub severity: String,
    pub location: String,
    pub reason: String,
    pub suggestion: String,
}

/// The continuity review of a candidate against earlier chapters.
#[derive(Debug, PartialEq, Eq)]
pub struct ContinuityReport {
    pub project_id: i64,
    pub chapter_titles: Vec<String>,
    pub verdict: String,
    pub summary: String,
    pub issues: Vec<ContinuityIssue>,
}

/// A problem that blocks a candidate.
#[derive(Debug, PartialEq, Eq)]
pub struct GateBlocker {
    pub kind: String,
    pub severity: String,
    pub title: String,
    pub detail: String,
    pub suggestion: String,
}

/// The outcome of the check before approval.
#[derive(Debug, PartialEq, Eq)]
pub struct ChapterGateReport {
    pub project_id: i64,
    pub chapter_id: i64,
    pub artifact_id: i64,
    pub passed: bool,
    pub verdict: String,
    pub recommended_action: String,
    pub action_reason: String,
    pub summary: String,
    pub blockers: Vec<GateBlocker>,
    pub quality: QualityReport,
    pub continuity: ContinuityReport,
}

/// A blocker as text.
pub struct BlockerView {
    pub kind: Seq<char>,
    pub severity: Seq<char>,
    pub title: Seq<char>,
    pub detail: Seq<char>,
    pub suggestion: Seq<char>,
}

impl View for GateBlocker {
    type V = BlockerView;

    open spec fn view(&self) -> BlockerView {
        BlockerView {
            kind: self.kind@,
            severity: self.severity@,
            title: self.title@,
            detail: self.detail@,
            suggestion: self.suggestion@,
        }
    }
}

/// The views of a list of blockers.
pub open spec fn blocker_views(s: Seq<GateBlocker>) -> Seq<BlockerView> {
    s.map_values(|b: GateBlocker| b@)
}

// ---------------------------------------------------------------------------
// Quality blockers
// ---------------------------------------------------------------------------
/// What the score blocker advises.
pub const SCORE_SUGGESTION: &'static str = "先请求修订，优先处理章节功能、结尾落点、段落重量、解释感和信息密度。";

/// The blocker raised by a score below the line.
pub open spec fn score_blocker(score: u8) -> BlockerView {
    BlockerView {
        kind: "quality"@,
        severity: "major"@,
        title: "质量分未达可用线"@,
        detail: "当前本地质量分为 "@ + decimal(score as int) + "，低于 "@ + decimal(
            MIN_ACCEPTABLE_QUALITY as int,
        ) + "。"@,
        suggestion: SCORE_SUGGESTION@,
    }
}

/// How severe a quality warning is as a blocker, if it blocks at all: a
/// title in the body always, an unfocused narrative moderately, and dense
/// reveals when the score is below 82.
pub open spec fn warning_severity(title: Seq<char>, score: u8) -> Option<Seq<char>> {
    if title == "正文含标题"@ {
        Some("major"@)
    } else if title == "叙事失焦"@ {
        Some("moderate"@)
    } else if title == "信息反转偏密"@ && score < 82 {
        Some("major"@)
    } else {
        None
    }
}

/// The blockers that the warnings raise, in order.
pub open spec fn warning_blockers(ws: Seq<QualityWarning>, score: u8) -> Seq<BlockerView>
    decreases ws.len(),
{
    if ws.len() == 0 {
        Seq::empty()
    } else {
        let w = ws.last();
        match warning_severity(w.title@, score) {
            Some(sev) => warning_blockers(ws.drop_last(), score).push(
                BlockerView {
                    kind: "quality"@,
                    severity: sev,
                    title: w.title@,
                    detail: w.detail@,
                    suggestion: w.suggestion@,
                },
            ),
            None => warning_blockers(ws.drop_last(), score),
        }
    }
}

/// The score is under the line or the verdict is weak.
pub open spec fn score_blocks(q: QualityReport) -> bool {
    q.score < MIN_ACCEPTABLE_QUALITY || q.verdict@ == "weak"@
}

/// The blockers of a quality report: the score blocker when the score
/// blocks, then those of the warnings.
pub open spec fn quality_blocker_views(q: QualityReport) -> Seq<BlockerView> {
    let head = if score_blocks(q) {
        seq![score_blocker(q.score)]
    } else {
        Seq::empty()
    };
    head + warning_blockers(q.warnings@, q.score)
}

fn copy_str(s: &str) -> (r: String)
    ensures
        r@ == s@,
{
    String::from_str(s)
}

/// The blockers of a quality report (see `quality_blocker_views`).
pub fn quality_blockers(report: &QualityReport) -> (r: Vec<GateBlocker>)
    ensures
        blocker_views(r@) == quality_blocker_views(*report),
{
    let mut blockers: Vec<GateBlocker> = Vec::new();
    if report.score < MIN_ACCEPTABLE_QUALITY || str_eq(report.verdict.as_str(), "weak") {
        let mut detail = concat("当前本地质量分为 ", decimal_of(report.score as i64).as_str());
        append(&mut detail, "，低于 ");
        append(&mut detail, decimal_of(MIN_ACCEPTABLE_QUALITY as i64).as_str());
        append(&mut detail, "。");
        blockers.push(
            GateBlocker {
                kind: owned("quality"),
                severity: owned("major"),
                title: owned("质量分未达可用线"),
                detail,
                suggestion: owned(SCORE_SUGGESTION),
            },
        );
    }
    let ghost head = blocker_views(blockers@);
    let ws = &report.warnings;
    let mut i: usize = 0;
    while i < ws.len()
        invariant
            i <= ws.len(),
            ws@ == report.warnings@,
            head == (if score_blocks(*report) {
                seq![score_blocker(report.score)]
            } else {
                Seq::empty()
            }),
            blocker_views(blockers@) == head + warning_blockers(ws@.take(i as int), report.score),
        decreases ws.len() - i,
    {
        let w = &ws[i];
        assert(ws@.take(i + 1).drop_last() == ws@.take(i as int));
        assert(ws@.take(i + 1).last() == *w);
        let title = w.title.as_str();
        let severity: Option<&str> = if str_eq(title, "正文含标题") {
            Some("major")
        } else if str_eq(title, "叙事失焦") {
            Some("moderate")
        } else if str_eq(title, "信息反转偏密") && report.score < 82 {
            Some("major")
        } else {
            None
        };
        match severity {
            Some(sev) => {
                let b = GateBlocker {
                    kind: owned("quality"),
                    severity: copy_str(sev),
                    title: w.title.clone(),
                    detail: w.detail.clone(),
                    suggestion: w.suggestion.clone(),
                };
                let ghost before = blockers@;
                blockers.push(b);
                assert(blocker_views(blockers@) =~= blocker_views(before).push(b@));
            },
            None => {},
        }
        i = i + 1;
    }
    assert(ws@.take(ws.len() as int) == ws@);
    blockers
}

// ---------------------------------------------------------------------------
// Splitting a chapter
// ---------------------------------------------------------------------------
/// The value of the first metric with the given label, in hundredths, or 0.
pub open spec fn metric_value(ms: Seq<QualityMetric>, label: Seq<char>) -> int
    decreases ms.len(),
{
    if ms.len() == 0 {
        0
    } else if ms[0].label@ == label {
        ms[0].value_hundredths as int
    } else {
        metric_value(ms.drop_first(), label)
    }
}

fn metric_value_of(ms: &[QualityMetric], label: &str) -> (r: i64)
    ensures
        r == metric_value(ms@, label@),
{
    let mut i: usize = 0;
    assert(ms@.skip(0) == ms@);
    while i < ms.len()
        invariant
            i <= ms.len(),
            metric_value(ms@, label@) == metric_value(ms@.skip(i as int), label@),
        decreases ms.len() - i,
    {
        assert(ms@.skip(i as int)[0] == ms@[i as int]);
        if str_eq(ms[i].label.as_str(), label) {
            return ms[i].value_hundredths;
        }
        assert(ms@.skip(i as int).drop_first() == ms@.skip(i + 1));
        i = i + 1;
    }
    0
}

/// Words of a review that ask for a chapter to be split.
pub open spec fn split_markers() -> Seq<Seq<char>> {
    seq!["拆成两章"@, "至少拆分"@, "拆分"@, "信息倾泻"@, "信息轰炸"@, "单章内集中"@, "单章负载"@]
}

/// A major continuity issue that asks for the chapter to be split.
pub open spec fn asks_split(i: ContinuityIssue) -> bool {
    i.severity@ == "major"@ && contains_any_seq(
        i.issue_type@ + " "@ + i.reason@ + " "@ + i.suggestion@,
        split_markers(),
    )
}

/// A chapter is better split than revised: a dense-reveal blocker with a
/// reveal density of at least 4 (or at least 18 reveal signals at a density
/// of at least 3), or a major review issue that asks for a split.
pub open spec fn split_advised(q: QualityReport, c: ContinuityReport, blockers: Seq<BlockerView>) -> bool {
    let count = metric_value(q.metrics@, "反转/真相信号"@);
    let density = metric_value(q.metrics@, "反转/真相密度"@);
    let dense = exists|k: int| 0 <= k < blockers.len() && #[trigger] blockers[k].title == "信息反转偏密"@;
    (dense && (density >= 400 || (count >= 1800 && density >= 300))) || exists|k: int|
        0 <= k < c.issues@.len() && asks_split(#[trigger] c.issues@[k])
}

fn issue_asks_split(issue: &ContinuityIssue) -> (r: bool)
    ensures
        r == asks_split(*issue),
{
    if !str_eq(issue.severity.as_str(), "major") {
        return false;
    }
    let mut text = concat(issue.issue_type.as_str(), " ");
    append(&mut text, issue.reason.as_str());
    append(&mut text, " ");
    append(&mut text, issue.suggestion.as_str());
    let markers: [&str; 7] = ["拆成两章", "至少拆分", "拆分", "信息倾泻", "信息轰炸", "单章内集中", "单章负载"];
    assert(crate::text::str_views(markers@) =~= split_markers());
    contains_any(text.as_str(), &markers)
}

/// Whether a chapter is better split than revised (see `split_advised`).
pub fn should_split_chapter(
    quality: &QualityReport,
    continuity: &ContinuityReport,
    blockers: &[GateBlocker],
) -> (r: bool)
    ensures
        r == split_advised(*quality, *continuity, blocker_views(blockers@)),
{
    let ghost bv = blocker_views(blockers@);
    let count = metric_value_of(quality.metrics.as_slice(), "反转/真相信号");
    let density = metric_value_of(quality.metrics.as_slice(), "反转/真相密度");
    let mut dense = false;
    let mut k: usize = 0;
    while k < blockers.len()
        invariant
            k <= blockers.len(),
            bv == blocker_views(blockers@),
            dense <==> exists|j: int| 0 <= j < k && #[trigger] bv[j].title == "信息反转偏密"@,
        decreases blockers.len() - k,
    {
        assert(bv[k as int] == blockers@[k as int]@);
        if str_eq(blockers[k].title.as_str(), "信息反转偏密") {
            dense = true;
            assert(bv[k as int].title == "信息反转偏密"@);
        } else {
            assert(bv[k as int].title != "信息反转偏密"@);
        }
        k = k + 1;
    }
    if dense && (density >= 400 || (count >= 1800 && density >= 300)) {
        return true;
    }
    let issues = &continuity.issues;
    let mut i: usize = 0;
    while i < issues.len()
        invariant
            i <= issues.len(),
            issues@ == continuity.issues@,
            forall|j: int| 0 <= j < i ==> !asks_split(#[trigger] issues@[j]),
        decreases issues.len() - i,
    {
        if issue_asks_split(&issues[i]) {
            return true;
        }
        i = i + 1;
    }
    false
}

/// Why approval is advised.
pub const APPROVE_REASON: &'static str = "通过前检查未发现硬阻断，仍保留人工最终判断。";

/// Why a split is advised.
pub const SPLIT_REASON: &'static str = "候选稿的信息密度或审校意见显示单章负载过高，继续同章修订可能只会反复压缩，建议先拆章或重规划本章任务。";

/// Why a revision is advised.
pub const REVISE_REASON: &'static str = "候选稿存在可通过同章修订处理的问题。";

/// What to do next, and why: approve a passed candidate; else split the
/// chapter when a split is advised; else revise it.
pub open spec fn advised_action(
    passed: bool,
    q: QualityReport,
    c: ContinuityReport,
    blockers: Seq<BlockerView>,
) -> (Seq<char>, Seq<char>) {
    if passed {
        ("approve"@, APPROVE_REASON@)
    } else if split_advised(q, c, blockers) {
        ("split"@, SPLIT_REASON@)
    } else {
        ("revise"@, REVISE_REASON@)
    }
}

/// What to do next (see `advised_action`).
pub fn recommended_action(
    passed: bool,
    quality: &QualityReport,
    continuity: &ContinuityReport,
    blockers: &[GateBlocker],
) -> (r: (String, String))
    ensures
        (r.0@, r.1@) == advised_action(passed, *quality, *continuity, blocker_views(blockers@)),
{
    if passed {
        return (owned("approve"), owned(APPROVE_REASON));
    }
    if should_split_chapter(quality, continuity, blockers) {
        return (owned("split"), owned(SPLIT_REASON));
    }
    (owned("revise"), owned(REVISE_REASON))
}

// ---------------------------------------------------------------------------
// The chapter gate
// ---------------------------------------------------------------------------
/// The blocker that a major continuity issue raises.
pub open spec fn continuity_blocker(i: ContinuityIssue) -> BlockerView {
    BlockerView {
        kind: "continuity"@,
        severity: i.severity@,
        title: i.issue_type@,
        detail: i.reason@,
        suggestion: i.suggestion@,
    }
}

/// The blockers that the major continuity issues raise, in order.
pub open spec fn continuity_blockers(issues: Seq<ContinuityIssue>) -> Seq<BlockerView>
    decreases issues.len(),
{
    if issues.len() == 0 {
        Seq::empty()
    } else if issues.last().severity@ == "major"@ {
        continuity_blockers(issues.drop_last()).push(continuity_blocker(issues.last()))
    } else {
        continuity_blockers(issues.drop_last())
    }
}

/// All blockers of a candidate: those of its quality, then those of its
/// continuity.
pub open spec fn gate_blockers(q: QualityReport, c: ContinuityReport) -> Seq<BlockerView> {
    quality_blocker_views(q) + continuity_blockers(c.issues@)
}

/// A candidate passes: nothing blocks it, its score reaches the line, and
/// neither review calls it weak or in need of revision.
pub open spec fn gate_passed(q: QualityReport, c: ContinuityReport) -> bool {
    &&& gate_blockers(q, c).len() == 0
    &&& q.score >= MIN_ACCEPTABLE_QUALITY
    &&& q.verdict@ != "needs_revision"@
    &&& q.verdict@ != "weak"@
    &&& c.verdict@ != "needs_revision"@
    &&& c.verdict@ != "weak"@
}

/// The chapter gate's outcome: `strong` or `usable` when passed (strong when both
/// reviews say so), `blocked` when a major blocker stands, else
/// `needs_revision`.
pub open spec fn gate_verdict(q: QualityReport, c: ContinuityReport) -> Seq<char> {
    if gate_passed(q, c) {
        if q.verdict@ == "strong"@ && c.verdict@ == "strong"@ {
            "strong"@
        } else {
            "usable"@
        }
    } else if exists|k: int|
        0 <= k < gate_blockers(q, c).len() && #[trigger] gate_blockers(q, c)[k].severity
            == "major"@ {
        "blocked"@
    } else {
        "needs_revision"@
    }
}

/// The chapter gate's summary line.
pub open spec fn gate_summary(q: QualityReport, c: ContinuityReport) -> Seq<char> {
    if gate_passed(q, c) {
        "候选稿已通过检查：质量 "@ + decimal(q.score as int) + " / "@ + q.verdict@ + "，连续性 "@
            + c.verdict@ + "。"@
    } else {
        "候选稿未通过检查："@ + decimal(gate_blockers(q, c).len() as int) + " 个阻断项。质量 "@
            + decimal(q.score as int) + " / "@ + q.verdict@ + "，连续性 "@ + c.verdict@ + "。"@
    }
}

fn continuity_blockers_of(issues: &[ContinuityIssue]) -> (r: Vec<GateBlocker>)
    ensures
        blocker_views(r@) == continuity_blockers(issues@),
{
    let mut out: Vec<GateBlocker> = Vec::new();
    let mut i: usize = 0;
    while i < issues.len()
        invariant
            i <= issues.len(),
            blocker_views(out@) == continuity_blockers(issues@.take(i as int)),
        decreases issues.len() - i,
    {
        let issue = &issues[i];
        assert(issues@.take(i + 1).drop_last() == issues@.take(i as int));
        assert(issues@.take(i + 1).last() == *issue);
        if str_eq(issue.severity.as_str(), "major") {
            let b = GateBlocker {
                kind: owned("continuity"),
                severity: issue.severity.clone(),
                title: issue.issue_type.clone(),
                detail: issue.reason.clone(),
                suggestion: issue.suggestion.clone(),
            };
            let ghost before = out@;
            out.push(b);
            assert(blocker_views(out@) =~= blocker_views(before).push(b@));
        }
        i = i + 1;
    }
    assert(issues@.take(issues.len() as int) == issues@);
    out
}

fn any_major(blockers: &[GateBlocker]) -> (r: bool)
    ensures
        r == exists|k: int|
            0 <= k < blocker_views(blockers@).len() && #[trigger] blocker_views(blockers@)[k].severity
                == "major"@,
{
    let ghost bv = blocker_views(blockers@);
    let mut k: usize = 0;
    while k < blockers.len()
        invariant
            k <= blockers.len(),
            bv == blocker_views(blockers@),
            forall|j: int| 0 <= j < k ==> #[trigger] bv[j].severity != "major"@,
        decreases blockers.len() - k,
    {
        assert(bv[k as int] == blockers@[k as int]@);
        if str_eq(blockers[k].severity.as_str(), "major") {
            assert(blocker_views(blockers@)[k as int].severity == "major"@);
            return true;
        }
        k = k + 1;
    }
    false
}

/// The check before approval, from the two reviews of a candidate: its
/// blockers, whether it passes, its verdict, what to do next, and a summary.
pub fn chapter_gate_report(
    project_id: i64,
    chapter_id: i64,
    artifact_id: i64,
    quality: QualityReport,
    continuity: ContinuityReport,
) -> (r: ChapterGateReport)
    ensures
        r.project_id == project_id,
        r.chapter_id == chapter_id,
        r.artifact_id == artifact_id,
        blocker_views(r.blockers@) == gate_blockers(quality, continuity),
        r.passed == gate_passed(quality, continuity),
        r.verdict@ == gate_verdict(quality, continuity),
        (r.recommended_action@, r.action_reason@) == advised_action(
            r.passed,
            quality,
            continuity,
            gate_blockers(quality, continuity),
        ),
        r.summary@ == gate_summary(quality, continuity),
        r.quality == quality,
        r.continuity == continuity,
{
    let mut blockers = quality_blockers(&quality);
    let mut more = continuity_blockers_of(continuity.issues.as_slice());
    let ghost qb = blocker_views(blockers@);
    let ghost cb = blocker_views(more@);
    blockers.append(&mut more);
    assert(blocker_views(blockers@) =~= qb + cb);
    let passed = blockers.len() == 0 && quality.score >= MIN_ACCEPTABLE_QUALITY && !str_eq(
        quality.verdict.as_str(),
        "needs_revision",
    ) && !str_eq(quality.verdict.as_str(), "weak") && !str_eq(
        continuity.verdict.as_str(),
        "needs_revision",
    ) && !str_eq(continuity.verdict.as_str(), "weak");
    let verdict = if passed {
        if str_eq(quality.verdict.as_str(), "strong") && str_eq(continuity.verdict.as_str(), "strong") {
            owned("strong")
        } else {
            owned("usable")
        }
    } else if any_major(blockers.as_slice()) {
        owned("blocked")
    } else {
        owned("needs_revision")
    };
    let (recommended_action, action_reason) = recommended_action(
        passed,
        &quality,
        &continuity,
        blockers.as_slice(),
    );
    let summary = if passed {
        let mut s = concat("候选稿已通过检查：质量 ", decimal_of(quality.score as i64).as_str());
        append(&mut s, " / ");
        append(&mut s, quality.verdict.as_str());
        append(&mut s, "，连续性 ");
        append(&mut s, continuity.verdict.as_str());
        append(&mut s, "。");
        s
    } else {
        let mut s = concat("候选稿未通过检查：", decimal_of_count(blockers.len()).as_str());
        append(&mut s, " 个阻断项。质量 ");
        append(&mut s, decimal_of(quality.score as i64).as_str());
        append(&mut s, " / ");
        append(&mut s, quality.verdict.as_str());
        append(&mut s, "，连续性 ");
        append(&mut s, continuity.verdict.as_str());
        append(&mut s, "。");
        s
    };
    ChapterGateReport {
        project_id,
        chapter_id,
        artifact_id,
        passed,
        verdict,
        recommended_action,
        action_reason,
        summary,
        blockers,
        quality,
        continuity,
    }
}

/// A candidate can pass the chapter gate: a draft or revision of this project's
/// chapter.
pub open spec fn gate_candidate(artifact: Artifact, project_id: i64, chapter_id: i64) -> bool {
    &&& artifact.project_id == project_id
    &&& artifact.chapter_id == Some(chapter_id)
    &&& (artifact.stage@ == "draft"@ || artifact.stage@ == "revision"@)
}

/// Refuses a candidate that cannot pass the chapter gate (see `gate_candidate`).
pub fn validate_gate_candidate(artifact: &Artifact, project_id: i64, chapter_id: i64) -> (r: Result<
    (),
    AppError,
>)
    ensures
        r is Ok <==> gate_candidate(*artifact, project_id, chapter_id),
        r is Err ==> (r matches Err(AppError::Validation(m)) && m@ == "通过前检查只能检查当前章节的草稿或修订稿"@),
{
    let same_chapter = match artifact.chapter_id {
        Some(id) => id == chapter_id,
        None => false,
    };
    if artifact.project_id != project_id || !same_chapter || (!str_eq(
        artifact.stage.as_str(),
        "draft",
    ) && !str_eq(artifact.stage.as_str(), "revision")) {
        return Err(AppError::Validation(owned("通过前检查只能检查当前章节的草稿或修订稿")));
    }
    Ok(())
}

/// The ids of the chapters numbered up to `chapter_no`, in order.
pub open spec fn ids_up_to(chapters: Seq<Chapter>, chapter_no: i64) -> Seq<i64>
    decreases chapters.len(),
{
    if chapters.len() == 0 {
        Seq::empty()
    } else if chapters.last().chapter_no <= chapter_no {
        ids_up_to(chapters.drop_last(), chapter_no).push(chapters.last().id)
    } else {
        ids_up_to(chapters.drop_last(), chapter_no)
    }
}

/// The chapters a continuity review of the chapter gate covers: those numbered up to
/// the current one, with the current chapter added when it is missing.
pub open spec fn gate_chapter_ids_of(chapters: Seq<Chapter>, chapter_no: i64, chapter_id: i64) -> Seq<i64> {
    let ids = ids_up_to(chapters, chapter_no);
    if ids.contains(chapter_id) {
        ids
    } else {
        ids.push(chapter_id)
    }
}

/// The chapters a continuity review of the chapter gate covers (see
/// `gate_chapter_ids_of`).
pub fn gate_chapter_ids(chapters: &[Chapter], chapter_no: i64, chapter_id: i64) -> (r: Vec<i64>)
    ensures
        r@ == gate_chapter_ids_of(chapters@, chapter_no, chapter_id),
{
    let mut ids: Vec<i64> = Vec::new();
    let mut i: usize = 0;
    while i < chapters.len()
        invariant
            i <= chapters.len(),
            ids@ == ids_up_to(chapters@.take(i as int), chapter_no),
        decreases chapters.len() - i,
    {
        assert(chapters@.take(i + 1).drop_last() == chapters@.take(i as int));
        if chapters[i].chapter_no <= chapter_no {
            ids.push(chapters[i].id);
        }
        i = i + 1;
    }
    assert(chapters@.take(chapters.len() as int) == chapters@);
    let mut found = false;
    let mut k: usize = 0;
    while k < ids.len()
        invariant
            k <= ids.len(),
            found <==> exists|j: int| 0 <= j < k && ids@[j] == chapter_id,
        decreases ids.len() - k,
    {
        if ids[k] == chapter_id {
            found = true;
        }
        k = k + 1;
    }
    if !found {
        ids.push(chapter_id);
    }
    ids
}

/// The summary of the continuity review skipped for a first chapter.
pub const FIRST_CHAPTER_SUMMARY: &'static str = "第一章暂无跨章衔接可审校，已跳过连续性硬阻断。";

/// The continuity review of a chapter with nothing before it: strong, with
/// no issues.
pub fn first_chapter_continuity(project_id: i64, chapter_title: &str) -> (r: ContinuityReport)
    ensures
        r.project_id == project_id,
        r.chapter_titles@.len() == 1,
        r.chapter_titles@[0]@ == chapter_title@,
        r.verdict@ == "strong"@,
        r.summary@ == FIRST_CHAPTER_SUMMARY@,
        r.issues@.len() == 0,
{
    let mut titles: Vec<String> = Vec::new();
    titles.push(owned(chapter_title));
    ContinuityReport {
        project_id,
        chapter_titles: titles,
        verdict: owned("strong"),
        summary: owned(FIRST_CHAPTER_SUMMARY),
        issues: Vec::new(),
    }
}

/// The chapter gate advises approval exactly when the candidate passed; a passed
/// candidate has no blocker and is strong or usable; one that failed with a
/// major blocker is blocked.
pub proof fn gate_outcome_consistent(q: QualityReport, c: ContinuityReport)
    ensures
        (advised_action(gate_passed(q, c), q, c, gate_blockers(q, c)).0 == "approve"@) <==> gate_passed(
            q,
            c,
        ),
        gate_passed(q, c) ==> gate_blockers(q, c).len() == 0 && (gate_verdict(q, c) == "strong"@
            || gate_verdict(q, c) == "usable"@),
        !gate_passed(q, c) && (exists|k: int|
            0 <= k < gate_blockers(q, c).len() && #[trigger] gate_blockers(q, c)[k].severity
                == "major"@) ==> gate_verdict(q, c) == "blocked"@,
{
    reveal_strlit("approve");
    reveal_strlit("split");
    reveal_strlit("revise");
    assert("approve"@ != "split"@) by {
        assert("approve"@[0] != "split"@[0]);
    }
    assert("approve"@ != "revise"@) by {
        assert("approve"@[0] != "revise"@[0]);
    }
}

/// A candidate that either review calls weak or in need of revision does
/// not pass: it is neither strong nor usable, and approval is not advised.
/// A candidate passes exactly when it has no blocker, a quality score of at
/// least 72, and neither review calls it weak or in need of revision.
pub proof fn reviews_asking_revision_block_approval(q: QualityReport, c: ContinuityReport)
    ensures
        (q.verdict@ == "needs_revision"@ || q.verdict@ == "weak"@ || c.verdict@ == "needs_revision"@
            || c.verdict@ == "weak"@) ==> {
            &&& !gate_passed(q, c)
            &&& advised_action(gate_passed(q, c), q, c, gate_blockers(q, c)).0 != "approve"@
            &&& gate_verdict(q, c) != "strong"@
            &&& gate_verdict(q, c) != "usable"@
        },
        gate_passed(q, c) <==> {
            &&& gate_blockers(q, c).len() == 0
            &&& q.score >= 72
            &&& q.verdict@ != "needs_revision"@
            &&& q.verdict@ != "weak"@
            &&& c.verdict@ != "needs_revision"@
            &&& c.verdict@ != "weak"@
        },
{
    reveal_strlit("approve");
    reveal_strlit("split");
    reveal_strlit("revise");
    reveal_strlit("strong");
    reveal_strlit("usable");
    reveal_strlit("blocked");
    reveal_strlit("needs_revision");
    assert("approve"@[0] != "split"@[0]);
    assert("approve"@[0] != "revise"@[0]);
    assert("blocked"@[0] != "strong"@[0]);
    assert("blocked"@[0] != "usable"@[0]);
    assert("needs_revision"@[0] != "strong"@[0]);
    assert("needs_revision"@[0] != "usable"@[0]);
}

} // verus!
