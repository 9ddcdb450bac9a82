use book_studio::context_search::{LedgerHit, SearchRequest, StoryContextSnippet};
use book_studio::error::AppError;
use book_studio::models::{Chapter, ContinuityLedgerEntry, StoryEntity, StoryFact};
use book_studio::search_hits::{
    collect_history_snippets, known_reference_labels, matching_ledger_hits,
    matching_story_fact_hits, prior_ledger_catalog, prior_ledger_entries, tool_context_result,
};
use book_studio::stage::Stage;

fn chapter(id: i64, no: i64, title: &str) -> Chapter {
    Chapter {
        id,
        project_id: 1,
        chapter_no: no,
        title: title.to_string(),
        status: "draft".to_string(),
        current_artifact_id: None,
        created_at: String::new(),
        updated_at: String::new(),
    }
}

fn entry(id: i64, chapter_id: i64, key: &str, label: &str, kind: &str, value: &str) -> ContinuityLedgerEntry {
    ContinuityLedgerEntry {
        id,
        project_id: 1,
        chapter_id,
        source_artifact_id: 1,
        source_text_hash: String::new(),
        normalization_version: String::new(),
        entity_kind: "item".to_string(),
        entity_key: key.to_string(),
        entity_label: label.to_string(),
        state_kind: kind.to_string(),
        state_value: value.to_string(),
        evidence_quote: String::new(),
        created_at: String::new(),
    }
}

fn search(query: &str) -> SearchRequest {
    SearchRequest { query: query.to_string(), reason: "r".to_string(), evidence_quote: "q".to_string() }
}

fn chapters() -> Vec<Chapter> {
    vec![chapter(10, 1, "一"), chapter(11, 2, "二"), chapter(12, 3, "三")]
}

#[test]
fn prior_entries_keep_only_earlier_chapters() {
    let entries = vec![
        entry(1, 10, "玉佩", "玉佩", "possession", "held"),
        entry(2, 12, "玉佩", "玉佩", "possession", "lost"),
        entry(3, 11, "剑", "青锋剑", "condition", "broken"),
        entry(4, 99, "灯", "灯", "condition", "lit"),
    ];
    let hits = prior_ledger_entries(&chapters(), 12, entries).unwrap();
    assert_eq!(hits.len(), 2);
    assert_eq!(hits[0].entry.id, 1);
    assert_eq!(hits[0].chapter_title, "一");
    assert_eq!(hits[1].chapter_no, 2);
    let missing = prior_ledger_entries(&chapters(), 77, Vec::new()).unwrap_err();
    assert_eq!(missing, AppError::Validation("章节不存在".to_string()));
}

#[test]
fn catalog_is_sorted_distinct_and_skips_blank_labels() {
    let hits = prior_ledger_entries(
        &chapters(),
        12,
        vec![
            entry(1, 10, "b", "乙", "k", "v"),
            entry(2, 11, "a", "甲", "k", "v"),
            entry(3, 11, "c", "  ", "k", "v"),
            entry(4, 10, "b", "乙", "k2", "v"),
        ],
    )
    .unwrap();
    assert_eq!(prior_ledger_catalog(&hits), vec!["乙".to_string(), "甲".to_string()]);
}

#[test]
fn ledger_hits_keep_the_newest_state_of_named_entities() {
    let hits: Vec<LedgerHit> = prior_ledger_entries(
        &chapters(),
        12,
        vec![
            entry(1, 10, "玉佩", "玉佩", "possession", "held"),
            entry(2, 11, "玉佩", "玉佩", "possession", "lost"),
            entry(3, 11, "剑", "青锋剑", "condition", "broken"),
            entry(4, 10, "灯", "灯", "condition", "lit"),
        ],
    )
    .unwrap();
    let found = matching_ledger_hits(hits, "他摸了摸玉佩。", &[search("青锋剑")]);
    assert_eq!(found.len(), 2);
    assert_eq!(found[0].entry.state_value, "lost");
    assert_eq!(found[1].entry.state_value, "broken");
}

fn fact(entity_id: i64, dimension: &str, value: &str, chapter_id: i64, status: &str) -> StoryFact {
    StoryFact {
        id: 0,
        project_id: 1,
        entity_id,
        event_id: None,
        dimension: dimension.to_string(),
        value: value.to_string(),
        visibility: "world".to_string(),
        status: status.to_string(),
        narrative_chapter_id: Some(chapter_id),
        source_artifact_id: 1,
        source_quote: "quote".to_string(),
        supersedes_fact_id: None,
        created_at: String::new(),
    }
}

fn entity(id: i64, name: &str) -> StoryEntity {
    StoryEntity {
        id,
        project_id: 1,
        kind: "character".to_string(),
        name: name.to_string(),
        status: "active".to_string(),
        first_seen_chapter_id: None,
        source_artifact_id: None,
        source_quote: String::new(),
        created_at: String::new(),
        updated_at: String::new(),
    }
}

#[test]
fn story_facts_keep_the_latest_active_value_per_dimension() {
    let entities = vec![entity(1, "宁烬"), entity(2, "沈砚")];
    let facts = vec![
        fact(1, "location", "矿场", 10, "active"),
        fact(1, "location", "山门", 11, "active"),
        fact(1, "injury", "左臂", 11, "superseded"),
        fact(2, "location", "京城", 10, "active"),
        fact(1, "rank", "外门", 12, "active"),
    ];
    let hits = matching_story_fact_hits(&chapters(), 12, &entities, facts, "宁烬回头。", &[]).unwrap();
    assert_eq!(hits.len(), 1);
    assert_eq!(hits[0].value, "山门");
    assert_eq!(hits[0].chapter_no, 2);
    assert!(matching_story_fact_hits(&chapters(), 5, &entities, Vec::new(), "", &[]).is_err());
}

fn snippet(label: &str, content: &str) -> StoryContextSnippet {
    StoryContextSnippet { source_label: label.to_string(), matched_term: "t".to_string(), content: content.to_string() }
}

#[test]
fn history_snippets_take_two_per_search_once_each() {
    let found = vec![
        (search("甲"), vec![snippet("第1章", "a"), snippet("第1章", "b"), snippet("第1章", "c")]),
        (search("乙"), vec![snippet("第1章", "a"), snippet("第2章", "d")]),
    ];
    let collected = collect_history_snippets(&found);
    let contents: Vec<&str> = collected.iter().map(|(_, s)| s.content.as_str()).collect();
    assert_eq!(contents, vec!["a", "b", "d"]);
    assert_eq!(collected[2].0.query, "乙");
}

#[test]
fn reference_labels_rank_by_weight_then_length() {
    let labels = known_reference_labels(
        vec!["玉佩".to_string()],
        Some("## 宁烬：主角\n## 主要角色\n"),
        vec!["黑石矿场".to_string()],
        vec![("矿场禁令".to_string(), "approved".to_string()), ("草稿卡".to_string(), "pending".to_string())],
        vec![("旧伤".to_string(), "resolved".to_string()), ("血契".to_string(), "active".to_string())],
        vec!["很长很长很长很长很长很长的线索".to_string(), "追杀".to_string()],
    );
    assert_eq!(
        labels,
        vec!["黑石矿场", "玉佩", "矿场禁令", "宁烬", "血契", "追杀"]
    );
}

#[test]
fn tool_context_is_absent_without_searches_and_a_notice_without_hits() {
    assert_eq!(tool_context_result(&Stage::Draft, &[], &[], &[], &[]), None);
    let notice = tool_context_result(&Stage::Draft, &[search("玉佩")], &[], &[], &[]).unwrap();
    assert!(notice.starts_with("# App 上下文工具执行结果"));
    assert!(notice.contains("`玉佩`：r"));
    let found = vec![(search("玉佩"), snippet("第1章", "玉佩碎了"))];
    let rendered = tool_context_result(&Stage::Draft, &[search("玉佩")], &found, &[], &[]).unwrap();
    assert!(rendered.contains("玉佩碎了"));
}
