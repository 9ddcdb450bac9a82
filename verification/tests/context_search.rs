use book_studio::context_search::{
    build_planner_prompt, clean_plan_reply, excerpt_around_term, fallback_searches,
    filter_search_plan, markdown_entity_headings, merge_searches, rank_reference_labels,
    render_no_hit_context, render_tool_context, sample_source, stage_instruction, LedgerHit,
    SearchRequest, StoryContextSnippet,
};
use book_studio::models::ContinuityLedgerEntry;
use book_studio::stage::Stage;

fn request(query: &str, reason: &str, quote: &str) -> SearchRequest {
    SearchRequest {
        query: query.to_string(),
        reason: reason.to_string(),
        evidence_quote: quote.to_string(),
    }
}

#[test]
fn planner_queries_must_be_grounded_in_source() {
    let source = "沈砚重新取出裂纹玉牌，想用它开启炉门。";
    let raw = vec![
        request("裂纹玉牌", "核对归属和状态", "沈砚重新取出裂纹玉牌，想用它开启炉门。"),
        request("玄铁令", "核对不存在的物件", "沈砚取出玄铁令"),
    ];
    let plan = filter_search_plan(raw, source);
    assert_eq!(plan.len(), 1);
    assert_eq!(plan[0].query, "裂纹玉牌");
}

#[test]
fn long_source_sampling_keeps_both_ends_for_planning() {
    let source = format!("开头旧人物{}结尾旧物件", "中间内容".repeat(100));
    let sampled = sample_source(&source, 24);

    assert!(sampled.contains("开头旧人物"));
    assert!(sampled.contains("结尾旧物件"));
    assert!(sampled.contains("中间正文已省略"));
    assert!(sampled.chars().count() > 24);
}

#[test]
fn planner_accepts_top_level_array_for_provider_compatibility() {
    let source = "顾青知道三年前矿洞坍塌的真相。";
    let raw = vec![request("矿洞坍塌", "核对旧事件结果和知情边界", "顾青知道三年前矿洞坍塌的真相")];
    let plan = filter_search_plan(raw, source);
    assert_eq!(plan.len(), 1);
    assert_eq!(plan[0].query, "矿洞坍塌");
}

#[test]
fn duplicate_and_overlong_queries_are_rejected() {
    let source = "他再次看见旧门。";
    let raw = vec![
        request("旧门", "核对状态", "他再次看见旧门"),
        request("旧门", "重复", "他再次看见旧门"),
        request("这是一个超过二十四个汉字而且没有必要如此冗长的历史检索查询", "过长", "他再次看见旧门"),
    ];
    let plan = filter_search_plan(raw, source);
    assert_eq!(plan.len(), 1);
}

#[test]
fn app_expands_compound_agent_query_to_registered_entity() {
    let agent = vec![SearchRequest {
        query: "黑牌背面金纹".to_string(),
        reason: "核对状态".to_string(),
        evidence_quote: "黑牌背面金纹仍在发烫".to_string(),
    }];
    let safeguards = vec![SearchRequest {
        query: "黑牌".to_string(),
        reason: "App 补查".to_string(),
        evidence_quote: "黑牌背面金纹仍在发烫".to_string(),
    }];

    let merged = merge_searches(&agent, &safeguards);
    assert_eq!(merged[0].query, "黑牌背面金纹");
    assert_eq!(merged[1].query, "黑牌");
}

#[test]
fn merged_searches_are_distinct_and_capped() {
    let agent: Vec<SearchRequest> = (0..8).map(|i| request(&format!("甲{i}"), "r", "q")).collect();
    let safeguards: Vec<SearchRequest> = (0..8).map(|i| request(&format!("乙{i}"), "r", "q")).collect();
    let merged = merge_searches(&agent, &safeguards);
    assert_eq!(merged.len(), 12);
    let mut queries: Vec<&str> = merged.iter().map(|r| r.query.as_str()).collect();
    queries.sort();
    queries.dedup();
    assert_eq!(queries.len(), 12);
    assert_eq!(merged[8].query, "乙0");
}

#[test]
fn plan_replies_lose_their_fences() {
    assert_eq!(clean_plan_reply("```json\n{\"searches\":[]}\n```"), "{\"searches\":[]}");
    assert_eq!(clean_plan_reply(" [] "), "[]");
}

#[test]
fn excerpts_quote_around_the_first_occurrence() {
    assert_eq!(excerpt_around_term("一二三四五六七八九十", "五", 4), "三四五六七");
    assert_eq!(excerpt_around_term("一二三", "无", 4), "无");
    assert_eq!(excerpt_around_term("一二三", "一", 10), "一二三");
}

#[test]
fn fallback_searches_quote_known_labels() {
    let source = "沈砚握紧裂纹玉牌。";
    let labels = vec!["裂纹玉牌".to_string(), "石".to_string(), "玄铁令".to_string()];
    let searches = fallback_searches(&labels, source);
    assert_eq!(searches.len(), 1);
    assert_eq!(searches[0].query, "裂纹玉牌");
    assert_eq!(searches[0].evidence_quote, source);
}

#[test]
fn labels_are_ranked_by_weight_then_length() {
    let labels = rank_reference_labels(vec![
        (1, "短".to_string()),
        (4, " 宁烬 ".to_string()),
        (5, "裂纹玉牌".to_string()),
        (5, "石门".to_string()),
        (4, "宁烬".to_string()),
    ]);
    assert_eq!(labels, vec!["裂纹玉牌".to_string(), "石门".to_string(), "宁烬".to_string()]);
}

#[test]
fn character_sheet_headings_name_entities() {
    let content = "## 主要角色\n## 宁烬：矿奴少年\n### 不是二级\n## 韩厉（执事）\n## 甲";
    assert_eq!(markdown_entity_headings(content), vec!["宁烬".to_string(), "韩厉".to_string()]);
}

#[test]
fn rendered_results_list_requests_and_hits() {
    let searches = vec![request("黑牌", "核对", "他取出黑牌")];
    let snippet = StoryContextSnippet {
        source_label: "第 1 章".to_string(),
        matched_term: "黑牌".to_string(),
        content: "黑牌已耗尽".to_string(),
    };
    let hit = LedgerHit {
        entry: ContinuityLedgerEntry {
            id: 1,
            project_id: 1,
            chapter_id: 1,
            source_artifact_id: 1,
            source_text_hash: String::new(),
            normalization_version: String::new(),
            entity_kind: "item".to_string(),
            entity_key: "黑牌".to_string(),
            entity_label: "黑牌".to_string(),
            state_kind: "possession".to_string(),
            state_value: "consumed".to_string(),
            evidence_quote: "黑牌已耗尽".to_string(),
            created_at: String::new(),
        },
        chapter_no: 1,
        chapter_title: "旧章".to_string(),
    };
    let text = render_tool_context(&Stage::Review, &searches, &[(request("黑牌", "核对", "他取出黑牌"), snippet)], &[hit], &[]);
    assert!(text.starts_with("# App 上下文工具执行结果\n以下内容不是模型记忆"));
    assert!(text.contains("\n- `黑牌`：核对 | 触发原文：\"他取出黑牌\""));
    assert!(text.contains("\n\n## search_story_context 命中\n- 查询 `黑牌` -> [第 1 章] 命中 `黑牌`：黑牌已耗尽"));
    assert!(text.contains("\n- 黑牌 / possession = consumed（第 1 章《旧章》；原文：\"黑牌已耗尽\"）"));
    assert!(!text.contains("## 资料索引事实"));
    assert!(text.ends_with(stage_instruction(&Stage::Review)));
    let none = render_no_hit_context(&Stage::Outline, &searches);
    assert!(none.contains("\n- `黑牌`：核对\n未命中不等于候选稿正确"));
    assert_eq!(stage_instruction(&Stage::Outline), "");
    let prompt = build_planner_prompt(&Stage::Draft, "正文", &[]);
    assert!(prompt.contains("（当前没有可用的结构化状态账本目录）"));
    assert!(prompt.contains("# 当前输入\n正文"));
    assert!(prompt.contains("最多 6 次"));
}
