use book_studio::adoption::{candidate_array_span, extracted_candidate_text};
use book_studio::adoption::{
    adoption_message, approved_source, check_candidate, decidable_proposal, editable_proposal,
    preflight_checks, preflight_target, stale_preflight, first_of_each_identity, foreshadowing_status,
    human_foreshadowing_data, human_knowledge_card_data, knowledge_card_status, proposal_identity, default_operation, is_canonical_foreshadowing_status, normalize_category,
    normalize_data, normalize_target, normalized_identity, normalized_ids, DataObject, FieldValue,
    FORESHADOWING, KNOWLEDGE_CARD,
};
use book_studio::error::AppError;

fn text(s: &str) -> FieldValue {
    FieldValue::Text(s.to_string())
}

fn object(fields: Vec<(&str, FieldValue)>) -> DataObject {
    DataObject { fields: fields.into_iter().map(|(k, v)| (k.to_string(), v)).collect() }
}

fn field<'a>(data: &'a DataObject, key: &str) -> Option<&'a FieldValue> {
    data.fields.iter().rev().find(|(k, _)| k == key).map(|(_, v)| v)
}

#[test]
fn registry_normalizes_aliases_and_categories() {
    let normalized = normalize_data(
        KNOWLEDGE_CARD,
        Some(object(vec![("type", text("角色")), ("name", text("宁烬")), ("body", text("矿奴少年。"))])),
    )
    .unwrap();
    assert_eq!(field(&normalized, "category"), Some(&text("character")));
    assert_eq!(field(&normalized, "title"), Some(&text("宁烬")));
    assert_eq!(field(&normalized, "source_chapter_id"), Some(&FieldValue::Null));
}

#[test]
fn registry_rejects_unknown_fields() {
    let error = normalize_data(
        KNOWLEDGE_CARD,
        Some(object(vec![
            ("category", text("world")),
            ("title", text("矿场")),
            ("content", text("事实")),
            ("status", text("approved")),
        ])),
    )
    .unwrap_err();
    assert!(error.message().contains("status"));
}

#[test]
fn data_that_is_not_an_object_is_rejected() {
    let error = normalize_data(KNOWLEDGE_CARD, None).unwrap_err();
    assert!(matches!(error, AppError::Validation(_)));
}

#[test]
fn unknown_target_kind_is_rejected() {
    let error = normalize_data("timeline", Some(object(vec![("title", text("a"))]))).unwrap_err();
    assert!(error.message().contains("timeline"));
}

#[test]
fn knowledge_card_requires_title_and_content() {
    let error = normalize_data(
        KNOWLEDGE_CARD,
        Some(object(vec![("category", text("world")), ("title", text("  ")), ("content", text("x"))])),
    )
    .unwrap_err();
    assert!(error.message().contains("title"));
}

#[test]
fn invalid_category_is_rejected() {
    let error = normalize_data(
        KNOWLEDGE_CARD,
        Some(object(vec![("category", text("菜谱")), ("title", text("a")), ("content", text("b"))])),
    );
    assert!(error.is_err());
}

#[test]
fn foreshadowing_aliases_and_trimmed_note() {
    let normalized = normalize_data(
        FORESHADOWING,
        Some(object(vec![
            ("name", text("黑石")),
            ("body", text("矿洞深处的声音")),
            ("chapter_id", FieldValue::Int(3)),
            ("payoff_note", text("  第十章揭晓 ")),
        ])),
    )
    .unwrap();
    assert_eq!(field(&normalized, "title"), Some(&text("黑石")));
    assert_eq!(field(&normalized, "planted_chapter_id"), Some(&FieldValue::Int(3)));
    assert_eq!(field(&normalized, "planned_payoff_note"), Some(&text("第十章揭晓")));
    assert_eq!(field(&normalized, "planned_payoff_chapter_id"), Some(&FieldValue::Null));
}

#[test]
fn chapter_ids_must_be_positive_integers() {
    let error = normalize_data(
        FORESHADOWING,
        Some(object(vec![
            ("title", text("a")),
            ("content", text("b")),
            ("chapter_id", FieldValue::Int(0)),
        ])),
    );
    assert!(error.is_err());
}

#[test]
fn identity_joins_category_and_title() {
    let data = object(vec![("category", text(" World ")), ("title", text(" Black Stone "))]);
    assert_eq!(normalized_identity(KNOWLEDGE_CARD, &data), "world:black stone");
    assert_eq!(normalized_identity(FORESHADOWING, &data), "black stone");
}

#[test]
fn category_aliases_map_to_canonical_names() {
    assert_eq!(normalize_category("角色"), Some("character"));
    assert_eq!(normalize_category("world"), Some("world"));
    assert_eq!(normalize_category("unknown-category"), None);
}

#[test]
fn targets_and_defaults() {
    assert_eq!(default_operation(), "create");
    assert!(is_canonical_foreshadowing_status("active"));
    assert!(is_canonical_foreshadowing_status("resolved"));
    assert!(!is_canonical_foreshadowing_status("pending"));
    assert_eq!(normalize_target(" Knowledge_Card "), "knowledge_card");
    assert_eq!(normalize_target("伏笔"), "foreshadowing");
    assert_eq!(normalize_target(" Timeline "), "timeline");
}

#[test]
fn ids_are_deduplicated_and_must_be_positive() {
    assert_eq!(normalized_ids(&[3, 1, 3, 2]).unwrap(), vec![3, 1, 2]);
    assert_eq!(normalized_ids(&[1, 0, -2]).unwrap(), vec![1]);
    assert!(normalized_ids(&[-4, 0]).is_err());
    assert!(normalized_ids(&[]).is_err());
}

#[test]
fn only_approved_artifacts_of_the_same_project_are_sources() {
    assert!(approved_source(1, "approved", 1).is_ok());
    assert!(approved_source(2, "approved", 1).is_err());
    assert!(approved_source(1, "pending", 1).is_err());
}

#[test]
fn candidate_checks_report_each_problem_in_order() {
    let checked = check_candidate(
        " 伏笔 ",
        "create",
        "  宁烬来自黑石矿场  ",
        Some(object(vec![("title", text("黑石")), ("content", text("矿场"))])),
        "宁烬来自黑石矿场。",
    );
    assert_eq!(checked.target_kind, "foreshadowing");
    assert_eq!(checked.evidence_quote, "宁烬来自黑石矿场");
    assert!(checked.errors.is_empty());

    let checked = check_candidate("timeline", "merge", "不存在的话", None, "正文");
    assert_eq!(
        checked.errors,
        vec![
            "未知采纳目标：timeline".to_string(),
            "证据引文不是来源产物中的逐字连续文本".to_string(),
            "operation 只能是 create 或 update".to_string(),
            "候选 data 必须是对象".to_string(),
        ]
    );
    assert!(checked.data.fields.is_empty());
}

#[test]
fn proposal_identities_keep_the_first_of_each() {
    let data = object(vec![("category", text("World")), ("title", text("矿场"))]);
    assert_eq!(proposal_identity(KNOWLEDGE_CARD, None, &data), "knowledge_card:0:world:矿场");
    assert_eq!(proposal_identity(KNOWLEDGE_CARD, Some(7), &data), "knowledge_card:7:world:矿场");
    let ids = vec!["a".to_string(), "b".to_string(), "a".to_string(), "c".to_string(), "b".to_string()];
    assert_eq!(first_of_each_identity(&ids), vec![0, 1, 3]);
}

#[test]
fn hand_saved_entries_are_normalized_and_status_checked() {
    assert_eq!(knowledge_card_status(" approved ").unwrap(), "approved");
    assert_eq!(
        knowledge_card_status("active").unwrap_err(),
        AppError::Validation("资料卡状态无效".to_string())
    );
    assert_eq!(foreshadowing_status("ready_for_payoff").unwrap(), "ready_for_payoff");
    assert_eq!(foreshadowing_status("draft").unwrap_err(), AppError::Validation("伏笔状态无效".to_string()));

    let card = human_knowledge_card_data("角色", " 宁烬 ", "矿奴少年", Some(3)).unwrap();
    assert_eq!(field(&card, "category"), Some(&text("character")));
    assert_eq!(field(&card, "source_chapter_id"), Some(&FieldValue::Int(3)));
    assert!(human_knowledge_card_data("world", "", "x", None).is_err());

    let item = human_foreshadowing_data("黑石", "声音", None, Some(9), "  第九章 ").unwrap();
    assert_eq!(field(&item, "planned_payoff_note"), Some(&text("第九章")));
    assert_eq!(field(&item, "planned_payoff_chapter_id"), Some(&FieldValue::Int(9)));
    assert!(human_foreshadowing_data("黑石", "声音", Some(-1), None, "").is_err());
}

#[test]
fn proposals_are_decided_only_when_pending_in_the_project() {
    assert!(editable_proposal(1, "pending", 1).is_ok());
    assert_eq!(editable_proposal(2, "pending", 1).unwrap_err(), AppError::Validation("候选不属于当前项目".to_string()));
    assert_eq!(
        editable_proposal(1, "applied", 1).unwrap_err(),
        AppError::Validation("只有待确认候选可以编辑".to_string())
    );
    assert_eq!(
        decidable_proposal(12, 1, "rejected", 1).unwrap_err(),
        AppError::Validation("候选 #12 不属于当前项目或已被处理".to_string())
    );
    assert!(decidable_proposal(12, 1, "pending", 1).is_ok());
}

#[test]
fn preflight_rejects_changed_sources_and_targets() {
    let data = || Some(object(vec![("category", text("world")), ("title", text("矿场")), ("content", text("事实"))]));
    assert_eq!(
        preflight_checks(3, 1, Some("坏数据"), 1, "approved", "矿场", "矿场", KNOWLEDGE_CARD, data()).unwrap_err(),
        AppError::Validation("候选 #3 校验失败：坏数据".to_string())
    );
    assert_eq!(
        preflight_checks(3, 1, None, 1, "draft", "矿场", "矿场", KNOWLEDGE_CARD, data()).unwrap_err(),
        AppError::Validation("候选 #3 的来源产物不再是已批准状态".to_string())
    );
    assert_eq!(
        preflight_checks(3, 1, None, 1, "approved", "别处", "矿场", KNOWLEDGE_CARD, data()).unwrap_err(),
        AppError::Validation("候选 #3 的证据已失效".to_string())
    );
    assert!(preflight_checks(3, 1, None, 1, "approved", "黑石矿场", "矿场", KNOWLEDGE_CARD, data()).is_ok());
    let changed = preflight_target(3, Some(9), Some("new"), Some("old"), false).unwrap_err();
    assert_eq!(changed, AppError::Validation("候选 #3 的目标资料已变化，请重新整理".to_string()));
    assert!(stale_preflight(&changed.message()));
    assert!(preflight_target(3, Some(9), Some("same"), Some("same"), false).is_ok());
    let taken = preflight_target(3, None, None, None, true).unwrap_err();
    assert!(stale_preflight(&taken.message()));
    assert!(!stale_preflight("候选 #3 的证据已失效"));
    assert_eq!(adoption_message(2, " 好 "), "人工采纳 2 条资料变更。好");
}

#[test]
fn candidate_text_strips_fences() {
    assert_eq!(extracted_candidate_text("  ```json\n[{\"a\":1}]\n```  "), "[{\"a\":1}]");
    assert_eq!(extracted_candidate_text("```\n[]\n```"), "[]");
    assert_eq!(extracted_candidate_text(" [1] "), "[1]");
}

#[test]
fn candidate_span_reports_missing_brackets() {
    assert_eq!(candidate_array_span("说明 [1, 2] 结束").unwrap(), "[1, 2]");
    assert_eq!(
        candidate_array_span("没有数组"),
        Err(AppError::Validation("资料整理 Agent 未返回 JSON 数组".to_string()))
    );
    assert_eq!(
        candidate_array_span("[ 不完整"),
        Err(AppError::Validation("资料整理 Agent 返回的 JSON 不完整".to_string()))
    );
    assert_eq!(candidate_array_span("]["), Ok(String::new()));
}

#[test]
fn candidate_parse_error_names_the_cause() {
    assert_eq!(
        book_studio::adoption::candidate_parse_error("EOF"),
        AppError::Validation("无法解析资料候选：EOF".to_string())
    );
}
