use book_studio::chapter_memory::{
    build_extraction_prompt, extract_json_object, is_enabled, memory_is_current,
    normalize_source_text, predecessor_chapter, render_memory_context, source_text_hash,
    validate_memory, ChapterMemoryPayload, MemoryEntry, NORMALIZATION_VERSION,
};
use book_studio::error::AppError;
use book_studio::models::Chapter;

fn entry(text: &str, quote: &str) -> MemoryEntry {
    MemoryEntry {
        text: text.to_string(),
        evidence_quote: quote.to_string(),
    }
}

fn empty_payload() -> ChapterMemoryPayload {
    ChapterMemoryPayload {
        summary: None,
        final_scene: None,
        last_action: None,
        state_changes: Vec::new(),
        knowledge_changes: Vec::new(),
        commitments: Vec::new(),
        open_loops: Vec::new(),
        immediate_next_intent: None,
        plan_reconciliation: Vec::new(),
    }
}

fn chapter(id: i64, chapter_no: i64) -> Chapter {
    Chapter {
        id,
        project_id: 1,
        chapter_no,
        title: format!("第{chapter_no}章"),
        status: "approved".to_string(),
        current_artifact_id: None,
        created_at: String::new(),
        updated_at: String::new(),
    }
}

#[test]
fn source_hash_normalizes_line_endings_and_trailing_space() {
    assert_eq!(
        source_text_hash("第一行  \r\n第二行\r\n"),
        source_text_hash("第一行\n第二行")
    );
}

#[test]
fn rejects_memory_entries_without_source_evidence() {
    let mut payload = empty_payload();
    payload.summary = Some(entry("陆烬拿走黑牌", "陆烬把黑牌收进怀里"));
    payload.state_changes = vec![
        entry("陆烬受伤", "陆烬左腕裂口又深了一寸"),
        entry("韩厉得知秘密", "韩厉已经知道全部真相"),
    ];
    let source = "陆烬把黑牌收进怀里。陆烬左腕裂口又深了一寸。";
    let memory = validate_memory(payload, source).unwrap();
    assert!(memory.summary.is_none());
    assert_eq!(memory.state_changes.len(), 1);
    assert_eq!(memory.state_changes[0].text, "陆烬受伤");
}

#[test]
fn extraction_prompt_requires_atomic_supported_facts() {
    let prompt = build_extraction_prompt("第四章", "夺取赤髓", "陆烬拿到赤髓。\n");

    assert!(prompt.contains("每条记录只表达一个原子事实"));
    assert!(prompt.contains("命令、计划、传闻必须标明其性质"));
    assert!(prompt.contains("物件记录必须区分"));
    assert!(prompt.contains("互相冲突的数量或状态"));
    assert!(prompt.contains("只删除有争议的字段"));
    assert!(prompt.contains("正文最后三分之一倒序检查"));
    assert!(prompt.contains("引文必须能够单独证明整条"));
    assert!(prompt.contains("遮住完整正文"));
    assert!(prompt.contains("夺取赤髓"));
}

#[test]
fn validator_drops_compound_and_inferred_entries() {
    let mut payload = empty_payload();
    payload.summary = Some(entry("本章完成全部任务", "陆烬拿到赤髓"));
    payload.state_changes = vec![
        entry("陆烬拿到赤髓，并将它藏入怀中", "陆烬拿到赤髓，并将它藏入怀中。"),
        entry("陆烬左腕疼痛减轻三分", "陆烬左腕疼痛减轻三分。"),
    ];
    payload.knowledge_changes = vec![
        entry("陆烬推断周三已经遇害", "陆烬推断周三已经遇害。"),
        entry("陆烬听见药房今夜关闭", "陆烬听见管事说药房今夜关闭。"),
    ];
    payload.plan_reconciliation = vec![entry("计划已经完成", "陆烬拿到赤髓。")];
    let source = "陆烬拿到赤髓，并将它藏入怀中。陆烬左腕疼痛减轻三分。陆烬推断周三已经遇害。陆烬听见管事说药房今夜关闭。";

    let memory = validate_memory(payload, source).unwrap();

    assert!(memory.summary.is_none());
    assert_eq!(memory.state_changes.len(), 1);
    assert_eq!(memory.knowledge_changes.len(), 1);
    assert!(memory.plan_reconciliation.is_empty());
}

#[test]
fn validator_uses_verbatim_final_scene_and_requires_grounded_knowledge_subject() {
    let mut payload = empty_payload();
    payload.final_scene = Some(entry("陆烬去往废料间", "他走进雾里。身后草棚空了。"));
    payload.knowledge_changes = vec![
        entry("陆烬知道赵执事要封炉", "“今天就封炉。”"),
        entry("陆烬听见赵执事下令封炉", "陆烬躲在墙后，听见赵执事下令封炉。"),
    ];
    let source = "“今天就封炉。”陆烬躲在墙后，听见赵执事下令封炉。他走进雾里。身后草棚空了。";

    let memory = validate_memory(payload, source).unwrap();

    assert_eq!(
        memory.final_scene.unwrap().text,
        "他走进雾里。身后草棚空了。"
    );
    assert_eq!(memory.knowledge_changes.len(), 1);
    assert_eq!(memory.knowledge_changes[0].text, "陆烬听见赵执事下令封炉");
}

#[test]
fn validator_rejects_unsupported_provenance_claims() {
    let mut payload = empty_payload();
    payload.state_changes = vec![
        entry("陆烬发现周三留下的布片", "布片上刻着周三的名字。"),
        entry("陆烬发现布片上刻着周三的名字", "布片上刻着周三的名字。"),
    ];
    let source = "布片上刻着周三的名字。";

    let memory = validate_memory(payload, source).unwrap();

    assert_eq!(memory.state_changes.len(), 1);
    assert_eq!(memory.state_changes[0].text, "陆烬发现布片上刻着周三的名字");
}

#[test]
fn memory_with_nothing_verifiable_is_refused() {
    let mut payload = empty_payload();
    payload.state_changes = vec![entry("凭空出现", "正文中没有这一句话")];
    let result = validate_memory(payload, "陆烬拿到赤髓。");
    assert!(matches!(result, Err(AppError::Validation(m)) if m == "章节交接记忆没有可在正文中验证的内容"));
}

#[test]
fn lists_are_cut_to_their_limits() {
    let source = "甲乙丙丁戊己庚辛壬癸子丑寅卯辰巳午未申酉戌亥天地玄黄宇宙洪荒日月盈昃辰宿列张";
    let mut payload = empty_payload();
    let chars: Vec<char> = source.chars().collect();
    payload.commitments = (0..5)
        .map(|i| {
            let quote: String = chars[i * 6..i * 6 + 6].iter().collect();
            entry(&format!("承诺{i}"), &quote)
        })
        .collect();
    let memory = validate_memory(payload, source).unwrap();
    assert_eq!(memory.commitments.len(), 3);
    assert_eq!(memory.commitments[2].text, "承诺2");
}

#[test]
fn validating_a_validated_memory_changes_nothing() {
    let mut payload = empty_payload();
    payload.final_scene = Some(entry("概括", "他走进雾里。身后草棚空了。"));
    payload.state_changes = vec![entry("陆烬受伤", "陆烬左腕裂口又深了一寸")];
    let source = "陆烬左腕裂口又深了一寸。他走进雾里。身后草棚空了。";
    let once = validate_memory(payload, source).unwrap();
    let twice = validate_memory(
        ChapterMemoryPayload {
            summary: None,
            final_scene: once.final_scene.as_ref().map(|e| entry(&e.text, &e.evidence_quote)),
            last_action: None,
            state_changes: once
                .state_changes
                .iter()
                .map(|e| entry(&e.text, &e.evidence_quote))
                .collect(),
            knowledge_changes: Vec::new(),
            commitments: Vec::new(),
            open_loops: Vec::new(),
            immediate_next_intent: None,
            plan_reconciliation: Vec::new(),
        },
        source,
    )
    .unwrap();
    assert_eq!(once, twice);
}

#[test]
fn source_text_is_normalized_before_hashing() {
    assert_eq!(normalize_source_text("  a \r\n b\t\r\n\r\n"), "a\n b");
    assert_eq!(source_text_hash("").len(), 64);
    assert_eq!(
        source_text_hash(""),
        "e3b0c44298fc1c149afbf4c8996fb92427ae41e4649b934ca495991b7852b855"
    );
}

#[test]
fn memory_switch_reads_common_true_values() {
    assert!(is_enabled(Some(" TRUE ")));
    assert!(is_enabled(Some("1")));
    assert!(is_enabled(Some("On")));
    assert!(!is_enabled(Some("yes")));
    assert!(!is_enabled(None));
}

#[test]
fn json_object_is_cut_from_the_reply() {
    assert_eq!(extract_json_object("说明 {\"a\": {}} 结束").unwrap(), "{\"a\": {}}");
    assert!(extract_json_object("} {").is_none());
    assert!(extract_json_object("none").is_none());
}

#[test]
fn rendered_memory_names_its_source() {
    let mut payload = empty_payload();
    payload.last_action = Some(entry(" 关门 ", " 他关上门 "));
    payload.open_loops = vec![entry("药房关闭", "药房今夜关闭")];
    let text = render_memory_context(7, "0123456789abcdef", NORMALIZATION_VERSION, &payload);
    assert_eq!(
        text,
        "来源：正式正文 artifact 7 / SHA-256 0123456789ab / chapter-text-v8\n- 最后动作：关门｜证据：“他关上门”\n- 未闭环事项：药房关闭｜证据：“药房今夜关闭”"
    );
}

#[test]
fn memory_is_current_only_for_the_same_body() {
    let body = "陆烬拿到赤髓。";
    let hash = source_text_hash(body);
    assert!(memory_is_current(3, &hash, NORMALIZATION_VERSION, 3, body));
    assert!(!memory_is_current(2, &hash, NORMALIZATION_VERSION, 3, body));
    assert!(!memory_is_current(3, &hash, "chapter-text-v7", 3, body));
    assert!(!memory_is_current(3, &hash, NORMALIZATION_VERSION, 3, "陆烬没拿到赤髓。"));
}

#[test]
fn predecessor_is_the_latest_earlier_chapter() {
    let chapters = vec![chapter(10, 1), chapter(11, 3), chapter(12, 2), chapter(13, 2)];
    assert_eq!(predecessor_chapter(&chapters, 11), Some(3));
    assert_eq!(predecessor_chapter(&chapters, 10), None);
    assert_eq!(predecessor_chapter(&chapters, 99), None);
}

#[test]
fn source_hash_is_64_lowercase_hex_digits() {
    let hash = source_text_hash("第一行  \r\n第二行\r\n");
    assert_eq!(hash.len(), 64);
    assert!(hash.chars().all(|c| c.is_ascii_digit() || ('a'..='f').contains(&c)));
}

#[test]
fn normalized_text_is_its_own_normal_form() {
    let inputs = [
        "  a \r\n b\t\r\n\r\n",
        "x\r\ry \t\n\n z  ",
        "\r\n\r\n",
        "第一行  \r\n第二行\r\n",
        "",
    ];
    for input in inputs {
        let once = normalize_source_text(input);
        assert!(!once.contains('\r'));
        assert_eq!(once, once.trim());
        assert!(once.lines().all(|line| line == line.trim_end()));
        assert_eq!(normalize_source_text(&once), once);
    }
}
