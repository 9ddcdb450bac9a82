use book_studio::db::{
    approval_effects, approval_message, approval_requirement, cleanup_message, deletion_message,
    history_cleanup, missing_chapter_error, new_chapter_title, protection_reason,
    retryable_artifact_insert_error, stage_label, ApprovalEffects, ChapterRequirement,
};
use book_studio::models::Artifact;
use book_studio::error::AppError;

#[test]
fn stage_labels_name_each_stage() {
    assert_eq!(stage_label("setting"), "设定");
    assert_eq!(stage_label("revision"), "修订稿");
    assert_eq!(stage_label("other"), "产物");
}

#[test]
fn artifact_insert_retries_only_on_lock_or_version_conflict() {
    assert!(retryable_artifact_insert_error(&AppError::Database("database is locked".to_string())));
    assert!(retryable_artifact_insert_error(&AppError::Database(
        "UNIQUE constraint failed: artifacts.project_id, artifacts.version".to_string()
    )));
    assert!(!retryable_artifact_insert_error(&AppError::Database(
        "UNIQUE constraint failed: chapters.id".to_string()
    )));
}

fn artifact(id: i64, chapter_id: Option<i64>, stage: &str) -> Artifact {
    Artifact {
        id,
        project_id: 1,
        chapter_id,
        stage: stage.to_string(),
        title: String::new(),
        content: String::new(),
        version: 2,
        status: "approved".to_string(),
        parent_artifact_id: None,
        created_at: String::new(),
    }
}

#[test]
fn approval_target_must_match_project_and_stage() {
    assert_eq!(
        approval_requirement(2, "draft", &artifact(5, Some(3), "draft")).unwrap_err(),
        AppError::Validation("审批目标与阶段不匹配".to_string())
    );
    assert_eq!(
        approval_requirement(1, "draft", &artifact(5, None, "draft")).unwrap_err(),
        AppError::Validation("正文产物必须属于章节".to_string())
    );
    assert_eq!(
        approval_requirement(1, "draft", &artifact(5, Some(3), "draft")).unwrap(),
        ChapterRequirement::BodyChapter(3)
    );
    assert_eq!(
        approval_requirement(1, "review", &artifact(5, Some(3), "review")).unwrap(),
        ChapterRequirement::ArtifactChapter(3)
    );
    assert_eq!(approval_requirement(1, "outline", &artifact(5, None, "outline")).unwrap(), ChapterRequirement::NoChapter);
    assert_eq!(
        missing_chapter_error(&ChapterRequirement::BodyChapter(3)),
        Some(AppError::Validation("正文产物的章节不属于当前项目".to_string()))
    );
    assert_eq!(missing_chapter_error(&ChapterRequirement::NoChapter), None);
}

#[test]
fn approval_effects_and_note() {
    assert_eq!(approval_effects("revision"), ApprovalEffects { updates_chapter: true, refreshes_story_bible: false });
    assert_eq!(approval_effects("characters"), ApprovalEffects { updates_chapter: false, refreshes_story_bible: true });
    assert_eq!(approval_effects("review"), ApprovalEffects { updates_chapter: false, refreshes_story_bible: false });
    assert_eq!(approval_message("draft", "  通过 "), "draft 已人工通过。通过");
}

#[test]
fn creates_next_chapter_title_when_empty() {
    assert_eq!(new_chapter_title(None, 3), "第 3 章");
    assert_eq!(new_chapter_title(Some("   "), 4), "第 4 章");
    assert_eq!(new_chapter_title(Some(" 黑石 "), 4), "黑石");
}

#[test]
fn current_bodies_and_approved_bible_artifacts_are_protected() {
    assert_eq!(protection_reason(&artifact(5, Some(3), "draft"), Some(5), None).as_deref(), Some("当前正式正文不能删除"));
    assert_eq!(protection_reason(&artifact(5, Some(3), "draft"), Some(6), None), None);
    assert_eq!(protection_reason(&artifact(5, None, "outline"), None, Some(5)).as_deref(), Some("当前已批准的大纲不能删除"));
    assert_eq!(deletion_message("draft", 2), "删除历史版本：章节草稿 v2");
}

#[test]
fn history_cleanup_keeps_current_requested_and_protected() {
    let plan = history_cleanup(&[1, 2, 3, 4, 5], &[false, false, true, false, false], &[4], Some(2));
    assert_eq!(plan.deleted, vec![1, 5]);
    assert_eq!(plan.kept, vec![2, 3, 4]);
    assert_eq!(cleanup_message(plan.deleted.len(), plan.kept.len()), "清理章节历史版本：删除 2 个，保留 3 个。");
}
