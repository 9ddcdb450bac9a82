use book_studio::continuity_ledger::{
    action_targets_entity, candidate_sentences, compare_claims, continuity_report, empty_report,
    entries_before_chapter, explicit_exact_match_claims, extract_json_array, filter_candidate_claims,
    finish_continuity_check,
    hash_ledger, latest_states, merge_candidate_claims, normalize_entity_key,
    render_report_for_prompt, source_entries, validate_candidate, CandidateClaim,
    ExtractedLedgerEntry, NORMALIZATION_VERSION,
};
use book_studio::error::AppError;
use book_studio::models::{Artifact, Chapter, ContinuityLedgerEntry};

fn entry(state_kind: &str, state_value: &str) -> ContinuityLedgerEntry {
    ContinuityLedgerEntry {
        id: 1,
        project_id: 1,
        chapter_id: 1,
        source_artifact_id: 1,
        source_text_hash: "hash".to_string(),
        normalization_version: NORMALIZATION_VERSION.to_string(),
        entity_kind: "item".to_string(),
        entity_key: "黑牌".to_string(),
        entity_label: "黑牌".to_string(),
        state_kind: state_kind.to_string(),
        state_value: state_value.to_string(),
        evidence_quote: "陆烬将黑牌投入火中，黑牌已经耗尽灵光。".to_string(),
        created_at: String::new(),
    }
}

fn chapter(id: i64, chapter_no: i64, title: &str) -> Chapter {
    Chapter {
        id,
        project_id: 1,
        chapter_no,
        title: title.to_string(),
        status: "approved".to_string(),
        current_artifact_id: Some(1),
        created_at: String::new(),
        updated_at: String::new(),
    }
}

fn claim(key: &str, kind: &str, required: &str, mode: &str, quote: &str) -> CandidateClaim {
    CandidateClaim {
        entity_key: key.to_string(),
        entity_label: key.to_string(),
        state_kind: kind.to_string(),
        required_state: required.to_string(),
        claim_mode: mode.to_string(),
        evidence_quote: quote.to_string(),
    }
}

#[test]
fn consumed_item_conflicts_with_later_direct_use() {
    let states = latest_states(&[entry("possession", "consumed")]);
    let claim = CandidateClaim {
        entity_key: "黑牌".to_string(),
        entity_label: "黑牌".to_string(),
        state_kind: "possession".to_string(),
        required_state: "held".to_string(),
        claim_mode: "reference".to_string(),
        evidence_quote: "陆烬从袖中取出黑牌，按在石门上。".to_string(),
    };
    let chapters = vec![chapter(1, 1, "旧章")];
    assert_eq!(compare_claims(&[claim], &states, &chapters).len(), 1);
}

#[test]
fn explicit_transition_is_not_a_conflict() {
    let states = latest_states(&[entry("availability", "damaged")]);
    let claim = CandidateClaim {
        entity_key: "黑牌".to_string(),
        entity_label: "黑牌".to_string(),
        state_kind: "availability".to_string(),
        required_state: "usable".to_string(),
        claim_mode: "transition".to_string(),
        evidence_quote: "他以精血修复黑牌裂纹，才将它贴上石门。".to_string(),
    };
    assert!(compare_claims(&[claim], &states, &[]).is_empty());
}

#[test]
fn exact_named_barrier_action_catches_a_model_extraction_miss() {
    let mut furnace = entry("availability", "sealed");
    furnace.entity_kind = "barrier".to_string();
    furnace.entity_key = "七号旧炉".to_string();
    furnace.entity_label = "七号旧炉".to_string();
    furnace.evidence_quote = "封炉箱已经钉进七号旧炉门口，朱砂镇火纹仍在发亮。".to_string();
    let states = latest_states(&[furnace]);

    let claims =
        explicit_exact_match_claims("陆烬抬手推开七号旧炉的炉门，径直跨入炉内。", &states);

    assert_eq!(claims.len(), 1);
    assert_eq!(claims[0].required_state, "usable");
    assert_eq!(compare_claims(&claims, &states, &[]).len(), 1);
}

#[test]
fn exact_match_pass_does_not_flag_an_explicit_unsealing() {
    let mut furnace = entry("availability", "sealed");
    furnace.entity_kind = "barrier".to_string();
    furnace.entity_key = "七号旧炉".to_string();
    furnace.entity_label = "七号旧炉".to_string();
    let states = latest_states(&[furnace]);

    let claims =
        explicit_exact_match_claims("陆烬以精血解封七号旧炉，才推开炉门踏入其中。", &states);

    assert!(claims.is_empty());
}

#[test]
fn consumed_resource_effect_is_not_treated_as_current_possession() {
    let candidate = "赤髓胚修的那层新肉正在往里缩，火脉裂口比刚才宽了一丝。";
    let model = vec![claim("赤髓胚", "possession", "held", "reference", candidate)];

    assert!(filter_candidate_claims(model, candidate).is_empty());

    let mut resource = entry("possession", "consumed");
    resource.entity_kind = "resource".to_string();
    resource.entity_key = "赤髓胚".to_string();
    resource.entity_label = "赤髓胚".to_string();
    let states = latest_states(&[resource]);
    assert!(explicit_exact_match_claims(candidate, &states).is_empty());
}

#[test]
fn source_entries_require_a_verifiable_quote() {
    let items = vec![ExtractedLedgerEntry {
        entity_kind: "item".to_string(),
        entity_key: "黑牌".to_string(),
        entity_label: "黑牌".to_string(),
        state_kind: "availability".to_string(),
        state_value: "depleted".to_string(),
        evidence_quote: "不存在的引文内容".to_string(),
    }];
    assert!(source_entries(&items, 1, 1, 1, "hash", "陆烬收起黑牌。").is_empty());
}

#[test]
fn source_entries_keep_the_last_state_per_entity() {
    let source = "陆烬把黑牌投入火中，黑牌已经耗尽灵光。随后他又找回了一块新的黑牌并收好。";
    let item = |value: &str, quote: &str| ExtractedLedgerEntry {
        entity_kind: "item".to_string(),
        entity_key: " 黑 牌 ".to_string(),
        entity_label: " 黑牌 ".to_string(),
        state_kind: "possession".to_string(),
        state_value: value.to_string(),
        evidence_quote: quote.to_string(),
    };
    let items = vec![
        item("consumed", "陆烬把黑牌投入火中，黑牌已经耗尽灵光"),
        item("held", "他又找回了一块新的黑牌并收好"),
    ];
    let entries = source_entries(&items, 5, 6, 7, "h", source);
    assert_eq!(entries.len(), 1);
    assert_eq!(entries[0].entity_key, "黑牌");
    assert_eq!(entries[0].entity_label, "黑牌");
    assert_eq!(entries[0].state_value, "held");
    assert_eq!(entries[0].project_id, 5);
    assert_eq!(entries[0].normalization_version, NORMALIZATION_VERSION);
}

#[test]
fn issues_are_sorted_by_label_and_deduplicated() {
    let mut a = entry("possession", "consumed");
    a.entity_key = "乙牌".to_string();
    a.entity_label = "乙牌".to_string();
    let mut b = entry("possession", "lost");
    b.entity_key = "甲牌".to_string();
    b.entity_label = "甲牌".to_string();
    let states = latest_states(&[a, b]);
    let claims = vec![
        claim("乙牌", "possession", "held", "reference", "他取出乙牌。"),
        claim("甲牌", "possession", "held", "reference", "他取出甲牌。"),
        claim("甲牌", "possession", "held", "reference", "他取出甲牌。"),
    ];
    let issues = compare_claims(&claims, &states, &[chapter(1, 2, "旧章")]);
    assert_eq!(issues.len(), 2);
    assert!(issues[0].entity_label <= issues[1].entity_label);
    assert_eq!(issues[0].source_chapter, "第 2 章《旧章》");
    assert_eq!(issues[0].reason, "候选稿把它当作“仍在持有”，但最后已通过状态是“已消耗”。");
    assert_eq!(issues[1].reason, "候选稿把它当作“仍在持有”，但最后已通过状态是“已遗失”。");
    let report = continuity_report(1, 9, issues);
    assert!(report.summary.starts_with("发现 2 条"));
    let prompt = render_report_for_prompt(&report);
    assert!(prompt.starts_with("# 状态账本核对\n"));
    assert!(prompt.contains("\n- 甲牌（major）：候选稿“他取出甲牌。”；第 2 章《旧章》"));
    assert_eq!(render_report_for_prompt(&empty_report(1, 9)), "");
}

#[test]
fn later_entries_replace_earlier_states() {
    let states = latest_states(&[entry("possession", "held"), entry("possession", "consumed")]);
    assert_eq!(states.len(), 1);
    assert_eq!(states.entries()[0].state_value, "consumed");
}

#[test]
fn actions_must_stand_close_to_the_entity() {
    assert!(action_targets_entity("他取出了黑牌", "黑牌", &["取出"]));
    assert!(!action_targets_entity("他取出一把刀又拿了很久的黑牌", "黑牌", &["取出"]));
    assert!(!action_targets_entity("他取出黑牌", "", &["取出"]));
    assert_eq!(normalize_entity_key(" 《黑 牌》！ABC "), "黑牌abc".chars().collect::<Vec<_>>());
}

#[test]
fn sentences_split_after_terminators() {
    assert_eq!(
        candidate_sentences("短句。这一句足够长可以入选。最后一句没有句号但也够长"),
        vec!["这一句足够长可以入选。".to_string(), "最后一句没有句号但也够长".to_string()]
    );
}

#[test]
fn model_and_exact_claims_merge_without_repeats() {
    let model = vec![claim("黑牌", "possession", "held", "reference", "他取出黑牌。")];
    let exact = vec![
        claim(" 黑牌 ", "possession", "held", "reference", "他取出黑牌。"),
        claim("白牌", "possession", "held", "reference", "他取出白牌。"),
    ];
    let merged = merge_candidate_claims(model, exact);
    assert_eq!(merged.len(), 2);
    assert_eq!(merged[1].entity_key, "白牌");
}

#[test]
fn candidates_must_be_chapter_drafts_of_the_project() {
    let artifact = Artifact {
        id: 1,
        project_id: 1,
        chapter_id: Some(1),
        stage: "draft".to_string(),
        title: String::new(),
        content: String::new(),
        version: 1,
        status: "pending_human_approval".to_string(),
        parent_artifact_id: None,
        created_at: String::new(),
    };
    assert!(validate_candidate(&artifact, 1).is_ok());
    assert!(matches!(validate_candidate(&artifact, 2), Err(AppError::Validation(_))));
}

#[test]
fn ledger_helpers_behave() {
    assert_eq!(extract_json_array("x [1, [2]] y").unwrap(), "[1, [2]]");
    assert!(extract_json_array("no array").is_none());
    assert_eq!(hash_ledger(&[]), "e3b0c44298fc1c149afbf4c8996fb92427ae41e4649b934ca495991b7852b855");
    let mut later = entry("possession", "held");
    later.chapter_id = 2;
    let kept = entries_before_chapter(
        vec![entry("possession", "held"), later],
        &[chapter(1, 1, "一"), chapter(2, 2, "二")],
        2,
    );
    assert_eq!(kept.len(), 1);
    assert_eq!(kept[0].chapter_id, 1);
}

#[test]
fn whole_check_reports_model_claims_against_the_ledger() {
    let states = latest_states(&[entry("possession", "consumed")]);
    let chapters = vec![chapter(1, 1, "旧章")];
    let candidate = "陆烬从袖中取出黑牌，按在石门上。";
    let model = vec![claim("黑牌", "possession", "held", "reference", candidate)];
    let report = finish_continuity_check(1, 9, candidate, model, &states, &chapters);
    assert_eq!(report.artifact_id, 9);
    assert_eq!(report.issues.len(), 1);
    assert!(report.summary.starts_with("发现 1 条"));
    let clean = finish_continuity_check(1, 9, "他看着远山。", Vec::new(), &states, &chapters);
    assert!(clean.issues.is_empty());
}
