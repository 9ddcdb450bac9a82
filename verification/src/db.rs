//! Rules of the store that do not touch the database itself.
use vstd::prelude::*;

use crate::error::{error_message, AppError};
use crate::models::Artifact;
use crate::text::{
    ascii_lower, ascii_lowercase, chars_of, contains, contains_seq, decimal, decimal_of, decimal_of_count,
    str_eq, trim,
};

verus! {

/// How a stage is named to a reader.
pub open spec fn stage_label_text(stage: Seq<char>) -> Seq<char> {
    if stage == "setting"@ {
        "设定"@
    } else if stage == "outline"@ {
        "大纲"@
    } else if stage == "characters"@ {
        "角色"@
    } else if stage == "draft"@ {
        "章节草稿"@
    } else if stage == "review"@ {
        "试读报告"@
    } else if stage == "revision"@ {
        "修订稿"@
    } else {
        "产物"@
    }
}

/// The reader's name of a stage (see `stage_label_text`).
pub fn stage_label(stage: &str) -> (r: &'static str)
    ensures
        r@ == stage_label_text(stage@),
{
    if str_eq(stage, "setting") {
        "设定"
    } else if str_eq(stage, "outline") {
        "大纲"
    } else if str_eq(stage, "characters") {
        "角色"
    } else if str_eq(stage, "draft") {
        "章节草稿"
    } else if str_eq(stage, "review") {
        "试读报告"
    } else if str_eq(stage, "revision") {
        "修订稿"
    } else {
        "产物"
    }
}

/// An artifact insert is worth another try: the message (in ASCII
/// lowercase) says a database or table is locked, or that a unique
/// constraint of the artifacts failed.
pub open spec fn insert_retryable(message: Seq<char>) -> bool {
    let m = ascii_lower(message);
    contains_seq(m, "database is locked"@) || contains_seq(m, "database table is locked"@) || (
    contains_seq(m, "unique constraint failed"@) && contains_seq(m, "artifacts"@))
}

/// Whether a failed artifact insert is worth another try (see
/// `insert_retryable`, over the error's message).
pub fn retryable_artifact_insert_error(error: &AppError) -> (r: bool)
    ensures
        r == insert_retryable(error_message(*error)),
{
    let message = error.message();
    let v = chars_of(message.as_str());
    let m = ascii_lowercase(v.as_slice());
    let a = chars_of("database is locked");
    let b = chars_of("database table is locked");
    let c = chars_of("unique constraint failed");
    let d = chars_of("artifacts");
    contains(m.as_slice(), a.as_slice()) || contains(m.as_slice(), b.as_slice()) || (contains(
        m.as_slice(),
        c.as_slice(),
    ) && contains(m.as_slice(), d.as_slice()))
}

// ---------------------------------------------------------------------------
// Approving a stage
// ---------------------------------------------------------------------------
/// The stages whose artifact is a chapter's body.
pub open spec fn body_stage(stage: Seq<char>) -> bool {
    stage == "draft"@ || stage == "revision"@
}

/// The stages whose artifact belongs to the story bible.
pub open spec fn bible_stage(stage: Seq<char>) -> bool {
    stage == "setting"@ || stage == "outline"@ || stage == "characters"@
}

/// The chapter that an approved artifact must belong to the project by.
#[derive(Debug, PartialEq, Eq)]
pub enum ChapterRequirement {
    /// The artifact has no chapter.
    NoChapter,
    /// A body's chapter.
    BodyChapter(i64),
    /// Another artifact's chapter.
    ArtifactChapter(i64),
}

/// Checks an approval's target: the artifact must be of the project and the
/// stage, and a body must belong to a chapter; gives the chapter that must
/// then be found in the project.
pub fn approval_requirement(project_id: i64, stage: &str, artifact: &Artifact) -> (r: Result<
    ChapterRequirement,
    AppError,
>)
    ensures
        artifact.project_id != project_id || artifact.stage@ != stage@ ==> (r matches Err(
            AppError::Validation(m),
        ) && m@ == "审批目标与阶段不匹配"@),
        artifact.project_id == project_id && artifact.stage@ == stage@ ==> (if body_stage(stage@) {
            match artifact.chapter_id {
                None => r matches Err(AppError::Validation(m)) && m@ == "正文产物必须属于章节"@,
                Some(c) => r == Ok::<ChapterRequirement, AppError>(ChapterRequirement::BodyChapter(c)),
            }
        } else {
            match artifact.chapter_id {
                None => r == Ok::<ChapterRequirement, AppError>(ChapterRequirement::NoChapter),
                Some(c) => r == Ok::<ChapterRequirement, AppError>(ChapterRequirement::ArtifactChapter(c)),
            }
        }),
{
    if artifact.project_id != project_id || !str_eq(artifact.stage.as_str(), stage) {
        return Err(AppError::Validation(crate::text::owned("审批目标与阶段不匹配")));
    }
    if str_eq(stage, "draft") || str_eq(stage, "revision") {
        match artifact.chapter_id {
            None => Err(AppError::Validation(crate::text::owned("正文产物必须属于章节"))),
            Some(c) => Ok(ChapterRequirement::BodyChapter(c)),
        }
    } else {
        match artifact.chapter_id {
            None => Ok(ChapterRequirement::NoChapter),
            Some(c) => Ok(ChapterRequirement::ArtifactChapter(c)),
        }
    }
}

/// The error when the required chapter is not the project's.
pub fn missing_chapter_error(requirement: &ChapterRequirement) -> (r: Option<AppError>)
    ensures
        match requirement {
            ChapterRequirement::NoChapter => r is None,
            ChapterRequirement::BodyChapter(_) => r matches Some(AppError::Validation(m)) && m@
                == "正文产物的章节不属于当前项目"@,
            ChapterRequirement::ArtifactChapter(_) => r matches Some(AppError::Validation(m)) && m@
                == "产物章节不属于当前项目"@,
        },
{
    match requirement {
        ChapterRequirement::NoChapter => None,
        ChapterRequirement::BodyChapter(_) => Some(
            AppError::Validation(crate::text::owned("正文产物的章节不属于当前项目")),
        ),
        ChapterRequirement::ArtifactChapter(_) => Some(
            AppError::Validation(crate::text::owned("产物章节不属于当前项目")),
        ),
    }
}

/// What an approval changes besides the approval itself: a body makes its
/// chapter approved and current (and the chapter's derived indexes stale);
/// a story bible stage queues the project's search index and marks the
/// bible changed.
#[derive(Debug, PartialEq, Eq)]
pub struct ApprovalEffects {
    pub updates_chapter: bool,
    pub refreshes_story_bible: bool,
}

/// The effects of approving a stage (see `ApprovalEffects`).
pub fn approval_effects(stage: &str) -> (r: ApprovalEffects)
    ensures
        r.updates_chapter == body_stage(stage@),
        r.refreshes_story_bible == bible_stage(stage@),
{
    ApprovalEffects {
        updates_chapter: str_eq(stage, "draft") || str_eq(stage, "revision"),
        refreshes_story_bible: str_eq(stage, "setting") || str_eq(stage, "outline") || str_eq(
            stage,
            "characters",
        ),
    }
}

/// The note recorded with an approval: the stage, `已人工通过。`, and the
/// trimmed note.
pub fn approval_message(stage: &str, note: &str) -> (r: String)
    ensures
        r@ == stage@ + " 已人工通过。"@ + trim(note@),
{
    let mut r = crate::text::concat(stage, " 已人工通过。");
    crate::text::append(&mut r, crate::text::trimmed(note).as_str());
    r
}

// ---------------------------------------------------------------------------
// Chapters and their history
// ---------------------------------------------------------------------------
/// The title of a new chapter: the given one trimmed, unless that is empty;
/// else `第 n 章` with its number.
pub fn new_chapter_title(title: Option<&str>, chapter_no: i64) -> (r: String)
    ensures
        r@ == match title {
            Some(t) => if trim(t@).len() > 0 {
                trim(t@)
            } else {
                "第 "@ + decimal(chapter_no as int) + " 章"@
            },
            None => "第 "@ + decimal(chapter_no as int) + " 章"@,
        },
{
    match title {
        Some(t) => {
            let trimmed = crate::text::trimmed(t);
            if crate::text::char_count(trimmed.as_str()) > 0 {
                return trimmed;
            }
        },
        None => {},
    }
    let mut r = crate::text::concat("第 ", decimal_of(chapter_no).as_str());
    crate::text::append(&mut r, " 章");
    r
}

/// Why an artifact may not be deleted, if it may not: a chapter's current
/// body (given the chapter's current artifact), or the approved artifact of
/// a book-level stage (given that stage's approved artifact).
pub fn protection_reason(artifact: &Artifact, chapter_current: Option<i64>, approved_id: Option<i64>) -> (r:
    Option<String>)
    ensures
        match artifact.chapter_id {
            Some(_) => if chapter_current == Some(artifact.id) {
                r matches Some(m) && m@ == "当前正式正文不能删除"@
            } else {
                r is None
            },
            None => if approved_id == Some(artifact.id) {
                r matches Some(m) && m@ == "当前已批准的"@ + stage_label_text(artifact.stage@) + "不能删除"@
            } else {
                r is None
            },
        },
{
    match artifact.chapter_id {
        Some(_) => {
            if chapter_current == Some(artifact.id) {
                Some(crate::text::owned("当前正式正文不能删除"))
            } else {
                None
            }
        },
        None => {
            if approved_id == Some(artifact.id) {
                let mut m = crate::text::concat("当前已批准的", stage_label(artifact.stage.as_str()));
                crate::text::append(&mut m, "不能删除");
                Some(m)
            } else {
                None
            }
        },
    }
}

/// The note of a deleted artifact: `删除历史版本：`, its stage's name and
/// its version.
pub fn deletion_message(stage: &str, version: i64) -> (r: String)
    ensures
        r@ == "删除历史版本："@ + stage_label_text(stage@) + " v"@ + decimal(version as int),
{
    let mut m = crate::text::concat("删除历史版本：", stage_label(stage));
    crate::text::append(&mut m, " v");
    crate::text::append(&mut m, decimal_of(version).as_str());
    m
}

/// Walks a chapter's artifacts for a history cleanup: an artifact already
/// kept is passed over; a protected one is kept; any other is deleted.
/// Gives the deleted ids in order and the kept set.
pub open spec fn cleanup_walk(ids: Seq<i64>, protected: Seq<bool>, keep: Set<i64>) -> (Seq<i64>, Set<i64>)
    decreases ids.len(),
{
    if ids.len() == 0 {
        (Seq::empty(), keep)
    } else {
        let (deleted, kept) = cleanup_walk(ids.drop_last(), protected, keep);
        let id = ids.last();
        if kept.contains(id) {
            (deleted, kept)
        } else if protected[ids.len() - 1] {
            (deleted, kept.insert(id))
        } else {
            (deleted.push(id), kept)
        }
    }
}

/// The ids asked to be kept, with the chapter's current artifact.
pub open spec fn keep_set(keep: Seq<i64>, current: Option<i64>) -> Set<i64> {
    match current {
        Some(c) => keep.to_set().insert(c),
        None => keep.to_set(),
    }
}

/// What a history cleanup does: the ids it deletes, in order, and those it
/// keeps, ascending.
#[derive(Debug, PartialEq, Eq)]
pub struct HistoryCleanup {
    pub deleted: Vec<i64>,
    pub kept: Vec<i64>,
}

fn contains_id(v: &Vec<i64>, x: i64) -> (r: bool)
    ensures
        r == v@.contains(x),
{
    let mut i: usize = 0;
    while i < v.len()
        invariant
            i <= v@.len(),
            forall|k: int| 0 <= k < i ==> v@[k] != x,
        decreases v.len() - i,
    {
        if v[i] == x {
            assert(v@[i as int] == x);
            return true;
        }
        i = i + 1;
    }
    false
}

fn insert_sorted_id(v: &mut Vec<i64>, x: i64)
    requires
        forall|i: int, j: int| 0 <= i < j < old(v)@.len() ==> old(v)@[i] < old(v)@[j],
    ensures
        forall|i: int, j: int| 0 <= i < j < final(v)@.len() ==> final(v)@[i] < final(v)@[j],
        final(v)@.to_set() == old(v)@.to_set().insert(x),
{
    let ghost before = v@;
    let mut k: usize = 0;
    while k < v.len() && v[k] < x
        invariant
            k <= v@.len(),
            v@ == before,
            forall|m: int| 0 <= m < k ==> v@[m] < x,
        decreases v.len() - k,
    {
        k = k + 1;
    }
    if k < v.len() && v[k] == x {
        assert(before.to_set() =~= before.to_set().insert(x)) by {
            assert(before[k as int] == x);
        }
        return;
    }
    v.insert(k, x);
    let ghost after = v@;
    assert(after =~= before.insert(k as int, x));
    assert forall|i: int, j: int| 0 <= i < j < after.len() implies after[i] < after[j] by {
        if i < k && j > k {
            assert(after[i] == before[i] && after[j] == before[j - 1]);
            assert(before[k as int] > x);
            if j - 1 > k {
                assert(before[k as int] < before[j - 1]);
            }
        }
    }
    assert(after.to_set() =~= before.to_set().insert(x)) by {
        assert forall|y: i64| after.to_set().contains(y) <==> before.to_set().insert(x).contains(y) by {
            if after.contains(y) {
                let m = choose|m: int| 0 <= m < after.len() && after[m] == y;
                if m < k {
                    assert(before[m] == y);
                } else if m > k {
                    assert(before[m - 1] == y);
                }
            }
            if before.contains(y) {
                let m = choose|m: int| 0 <= m < before.len() && before[m] == y;
                if m < k {
                    assert(after[m] == y);
                } else {
                    assert(after[m + 1] == y);
                }
            }
            if y == x {
                assert(after[k as int] == x);
            }
        }
    }
}

/// Plans the cleanup of a chapter's history: the chapter's artifacts in
/// order with whether each is protected, the ids asked to be kept and the
/// chapter's current artifact (see `cleanup_walk`).
pub fn history_cleanup(
    artifact_ids: &[i64],
    protected: &[bool],
    keep_ids: &[i64],
    current: Option<i64>,
) -> (r: HistoryCleanup)
    requires
        protected@.len() == artifact_ids@.len(),
    ensures
        r.deleted@ == cleanup_walk(artifact_ids@, protected@, keep_set(keep_ids@, current)).0,
        r.kept@.to_set() == cleanup_walk(artifact_ids@, protected@, keep_set(keep_ids@, current)).1,
        forall|i: int, j: int| 0 <= i < j < r.kept@.len() ==> r.kept@[i] < r.kept@[j],
{
    let mut kept: Vec<i64> = Vec::new();
    let mut i: usize = 0;
    assert(kept@.to_set() =~= Set::<i64>::empty());
    while i < keep_ids.len()
        invariant
            i <= keep_ids@.len(),
            kept@.to_set() == keep_ids@.take(i as int).to_set(),
            forall|a: int, b: int| 0 <= a < b < kept@.len() ==> kept@[a] < kept@[b],
        decreases keep_ids.len() - i,
    {
        insert_sorted_id(&mut kept, keep_ids[i]);
        assert(keep_ids@.take(i + 1) =~= keep_ids@.take(i as int).push(keep_ids@[i as int]));
        proof {
            keep_ids@.take(i as int).lemma_push_to_set_commute(keep_ids@[i as int]);
        }
        i = i + 1;
    }
    assert(keep_ids@.take(keep_ids.len() as int) == keep_ids@);
    match current {
        Some(c) => insert_sorted_id(&mut kept, c),
        None => {},
    }
    let ghost start = keep_set(keep_ids@, current);
    let mut deleted: Vec<i64> = Vec::new();
    let mut j: usize = 0;
    assert(artifact_ids@.take(0) =~= Seq::<i64>::empty());
    while j < artifact_ids.len()
        invariant
            j <= artifact_ids@.len(),
            protected@.len() == artifact_ids@.len(),
            forall|a: int, b: int| 0 <= a < b < kept@.len() ==> kept@[a] < kept@[b],
            (deleted@, kept@.to_set()) == cleanup_walk(artifact_ids@.take(j as int), protected@, start),
        decreases artifact_ids.len() - j,
    {
        let ghost t = artifact_ids@.take(j + 1);
        assert(t.drop_last() == artifact_ids@.take(j as int));
        assert(t.last() == artifact_ids@[j as int]);
        let id = artifact_ids[j];
        if contains_id(&kept, id) {
            assert(kept@.to_set().contains(id));
        } else {
            assert(!kept@.to_set().contains(id));
            if protected[j] {
                insert_sorted_id(&mut kept, id);
            } else {
                deleted.push(id);
            }
        }
        j = j + 1;
    }
    assert(artifact_ids@.take(artifact_ids.len() as int) == artifact_ids@);
    HistoryCleanup { deleted, kept }
}

/// The note of a history cleanup: how many artifacts were deleted and how
/// many are kept.
pub fn cleanup_message(deleted: usize, kept: usize) -> (r: String)
    ensures
        r@ == "清理章节历史版本：删除 "@ + decimal(deleted as int) + " 个，保留 "@ + decimal(kept as int)
            + " 个。"@,
{
    let mut m = crate::text::concat("清理章节历史版本：删除 ", decimal_of_count(deleted).as_str());
    crate::text::append(&mut m, " 个，保留 ");
    crate::text::append(&mut m, decimal_of_count(kept).as_str());
    crate::text::append(&mut m, " 个。");
    m
}

} // verus!
