use book_studio::agent_run_service::{check_no_active_run, context_fingerprint};
use sha2::Digest;
use book_studio::agent_run_service::{
    chapter_memory_hash, check_cancellable, check_fingerprint, check_prepared_for_request, check_request_binding, check_request_source,
    check_revision_request, failed_run_status, proposal_prompt, proposal_tool_keys, segment_kind,
    split_segments,
};
use book_studio::error::AppError;
use book_studio::models::Artifact;
use book_studio::stage::Stage;

#[test]
fn prompt_segments_keep_heading_boundaries() {
    let segments = split_segments("# 项目\nA\n# Agent 工具执行结果\nB");
    assert_eq!(segments.len(), 2);
    assert_eq!(segments[1].kind, "tool_result");
}

#[test]
fn prompt_without_headings_is_one_segment() {
    let segments = split_segments("只有正文");
    assert_eq!(segments.len(), 1);
    assert_eq!(segments[0].content, "只有正文");
}

#[test]
fn segment_kinds_follow_labels() {
    assert_eq!(segment_kind("Agent 工具执行结果"), "tool_result");
}

#[test]
fn chapter_memory_hash_is_stable() {
    assert_eq!(chapter_memory_hash("abc"), chapter_memory_hash("abc"));
    assert_ne!(chapter_memory_hash("abc"), chapter_memory_hash("abd"));
}

fn artifact(project_id: i64, chapter_id: Option<i64>, stage: &str) -> Artifact {
    Artifact {
        id: 1,
        project_id,
        chapter_id,
        stage: stage.to_string(),
        title: String::new(),
        content: String::new(),
        version: 1,
        status: "approved".to_string(),
        parent_artifact_id: None,
        created_at: String::new(),
    }
}

#[test]
fn request_stage_and_chapter_must_agree() {
    assert!(check_request_binding(&Stage::Outline, None).is_ok());
    assert_eq!(
        check_request_binding(&Stage::Outline, Some(3)).unwrap_err(),
        AppError::Validation("设定、大纲和角色阶段不能绑定章节".to_string())
    );
    assert_eq!(
        check_request_binding(&Stage::Draft, None).unwrap_err(),
        AppError::Validation("写作、试读和修订阶段必须选择章节".to_string())
    );
    assert!(check_request_binding(&Stage::Review, Some(3)).is_ok());
}

#[test]
fn request_sources_must_fit_the_stage() {
    assert!(check_request_source(&Stage::Review, 1, Some(3), &artifact(1, Some(3), "draft")).is_ok());
    assert!(check_request_source(&Stage::Revision, 1, Some(3), &artifact(1, Some(3), "review")).is_ok());
    assert!(check_request_source(&Stage::Setting, 1, None, &artifact(1, None, "setting")).is_ok());
    assert_eq!(
        check_request_source(&Stage::Review, 1, Some(3), &artifact(2, Some(3), "draft")).unwrap_err(),
        AppError::Validation("候选产物不属于当前项目".to_string())
    );
    assert_eq!(
        check_request_source(&Stage::Review, 1, Some(3), &artifact(1, Some(4), "draft")).unwrap_err(),
        AppError::Validation("当前阶段不支持把这个产物作为上下文来源".to_string())
    );
    assert!(check_request_source(&Stage::Draft, 1, Some(3), &artifact(1, Some(3), "draft")).is_err());
}

#[test]
fn proposal_step_uses_only_proposal_tools() {
    let enabled = vec![
        "search_story".to_string(),
        "propose_create_chapter".to_string(),
        "propose_knowledge_card".to_string(),
        "unknown_tool".to_string(),
    ];
    let keys = proposal_tool_keys(&Stage::Draft, enabled.clone());
    assert_eq!(keys, vec!["propose_create_chapter".to_string(), "propose_knowledge_card".to_string()]);
    let keys = proposal_tool_keys(&Stage::Outline, vec!["history_context".to_string()]);
    assert!(keys.is_empty());
}

#[test]
fn proposal_prompt_names_the_artifact_and_task() {
    let prompt = proposal_prompt(&Stage::Outline, "大纲", "正文", None);
    assert!(prompt.starts_with("# 已完成的 Agent 产物\n阶段：outline\n标题：大纲\n\n正文\n\n# 人工原始指令\n未提供\n\n"));
    assert!(prompt.ends_with("完成后停止工具调用。"));
    let prompt = proposal_prompt(&Stage::Draft, "第一章", "正文", Some("加快节奏"));
    assert!(prompt.contains("加快节奏"));
    assert!(prompt.ends_with("批准或直接应用正文。"));
}

#[test]
fn revision_and_cancellation_checks() {
    assert!(check_revision_request(1, &artifact(1, Some(3), "review"), "再紧凑些").is_ok());
    assert_eq!(
        check_revision_request(1, &artifact(1, None, "outline"), "x").unwrap_err(),
        AppError::Validation("只能对章节草稿、试读报告或修订稿发起修订".to_string())
    );
    assert_eq!(
        check_revision_request(1, &artifact(1, Some(3), "draft"), "  ").unwrap_err(),
        AppError::Validation("请填写修订反馈".to_string())
    );
    assert!(check_cancellable("streaming").is_ok());
    assert!(check_cancellable("success").is_err());
    assert_eq!(failed_run_status(true, "streaming"), Some("cancelled"));
    assert_eq!(failed_run_status(false, "running"), Some("failed"));
    assert_eq!(failed_run_status(false, "success"), None);
}

#[test]
fn prepared_context_must_match_the_request_and_be_unchanged() {
    assert!(check_prepared_for_request(1, Some(3), "draft", 1, Some(3), &Stage::Draft).is_ok());
    assert_eq!(
        check_prepared_for_request(1, Some(3), "draft", 1, Some(4), &Stage::Draft).unwrap_err(),
        AppError::Validation("准备上下文与当前请求不匹配".to_string())
    );
    assert!(check_prepared_for_request(1, None, "outline", 1, None, &Stage::Draft).is_err());
    assert!(check_fingerprint("abc", "abc").is_ok());
    assert!(check_fingerprint("abc", "abd").unwrap_err().message().ends_with("请重新预览"));
}

#[test]
fn an_active_run_refuses_another() {
    assert_eq!(
        check_no_active_run(Some(9)),
        Err(AppError::Validation("当前项目已有 Agent 任务正在运行".to_string()))
    );
    assert_eq!(check_no_active_run(None), Ok(()));
}

fn fingerprint_inputs() -> book_studio::agent_run_service::FingerprintInputs {
    book_studio::agent_run_service::FingerprintInputs {
        project_updated_at: "2024-01-01".to_string(),
        canonical_fingerprint: "canon".to_string(),
        chapter_id: Some(3),
        chapter_updated_at: None,
        stage: "draft".to_string(),
        instruction: Some("写\"紧凑\"".to_string()),
        reference_selection_json: "null".to_string(),
        agent_id: -2,
        system_prompt: "sys".to_string(),
        enabled_tool_keys: vec!["web_search".to_string()],
        allowed_skill_keys: Vec::new(),
        provider_base_url: "https://api.example.com/v1".to_string(),
        model: "m".to_string(),
        tool_protocol: "native".to_string(),
        reference_fingerprint: "ref".to_string(),
    }
}

#[test]
fn context_fingerprint_hashes_the_record() {
    let mut source = artifact(1, Some(3), "draft");
    source.id = 5;
    source.content = "正文".to_string();
    let inputs = fingerprint_inputs();
    let record = format!(
        "{{\"project_updated_at\":\"2024-01-01\",\"canonical_fingerprint\":\"canon\",\"chapter_id\":3,\"chapter_updated_at\":null,\"stage\":\"draft\",\"source_id\":5,\"source_hash\":\"{}\",\"instruction\":\"写\\\"紧凑\\\"\",\"reference_selection\":null,\"agent_id\":-2,\"system_prompt\":\"sys\",\"enabled_tool_keys\":[\"web_search\"],\"allowed_skill_keys\":[],\"provider_base_url\":\"https://api.example.com/v1\",\"model\":\"m\",\"tool_protocol\":\"native\",\"reference_fingerprint\":\"ref\"}}",
        chapter_memory_hash("正文")
    );
    let expected: String = sha2::Sha256::digest(record.as_bytes())
        .iter()
        .map(|b| format!("{b:02x}"))
        .collect();
    let fingerprint = context_fingerprint(&inputs, Some(&source));
    assert_eq!(fingerprint, expected);
    assert_eq!(fingerprint.len(), 64);
    let mut other = fingerprint_inputs();
    other.model = "n".to_string();
    assert_ne!(context_fingerprint(&other, Some(&source)), fingerprint);
    assert_ne!(context_fingerprint(&inputs, None), fingerprint);
}
