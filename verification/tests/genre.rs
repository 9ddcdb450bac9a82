use book_studio::genre_agent::{
    backfill_agent_key, compose_stage_agent, detect_genre_agent, resolve_project_agent, Agent,
};
use book_studio::genre_skill::{
    detect_genre_skill, genre_skill_for_id, render_genre_skill, GenreSkillKind,
};
use book_studio::stage::Stage;

#[test]
fn routes_supported_genres_to_specialists() {
    assert_eq!(
        detect_genre_agent("都市异能").unwrap().agent_key,
        "urban_supernatural"
    );
    assert_eq!(detect_genre_agent("悬疑").unwrap().agent_key, "mystery");
    assert_eq!(
        detect_genre_agent("男频修仙").unwrap().agent_key,
        "xianxia_power_fantasy"
    );
    assert_eq!(
        detect_genre_agent("历史").unwrap().agent_key,
        "general_serialized"
    );
}

#[test]
fn specialist_exposes_only_its_genre_skill_and_shared_allowlist() {
    let profile = detect_genre_agent("悬疑").unwrap();
    assert!(profile.allowed_skill_keys.contains(&"mystery".to_string()));
    assert!(!profile
        .allowed_skill_keys
        .contains(&"urban_supernatural".to_string()));
    assert!(!profile
        .allowed_skill_keys
        .contains(&"xianxia_power_fantasy".to_string()));
}

#[test]
fn composed_agent_separates_fact_protocol_from_genre_and_stage_roles() {
    let profile = detect_genre_agent("男频修仙").unwrap();
    let agent = compose_stage_agent(
        Agent {
            id: 1,
            stage: "draft".to_string(),
            name: "写作 Agent".to_string(),
            role: "写正文".to_string(),
            editable_role: "写正文".to_string(),
            system_prompt: "只输出正文。".to_string(),
            editable_system_prompt: "只输出正文。".to_string(),
            provider_base_url: "https://api.example.com".to_string(),
            model: "example-model".to_string(),
            thinking_enabled: false,
            thinking_level: "off".to_string(),
            uses_global_runtime_settings: false,
            enabled_tool_keys: book_studio::agent_tools::default_keys(),
            allowed_skill_keys: vec!["continuity_and_agency".to_string()],
        },
        &profile,
    );

    assert!(agent.system_prompt.contains("# 共享 Agent 协议"));
    assert!(agent
        .system_prompt
        .contains("Skill 只能提供方法，不能补充本书事实"));
    assert!(agent
        .system_prompt
        .contains("不强制固定场景数、固定中段反转"));
    assert!(agent.system_prompt.contains("# 题材专属 Agent 身份"));
    assert!(agent.system_prompt.contains("# 当前工作模式"));
    assert!(agent
        .system_prompt
        .contains("男频修仙/玄幻升级流专属 Agent"));
    assert!(agent.role.contains("专注升级、资源、能力边界与阶段收益"));
    assert!(agent.role.contains("写正文"));
    assert!(!agent.editable_role.contains("男频修仙/玄幻升级流"));
    assert_eq!(agent.editable_role, "写正文");
}

#[test]
fn separates_urban_supernatural_and_mystery_skills() {
    assert_eq!(
        detect_genre_skill("都市异能"),
        GenreSkillKind::UrbanSupernatural
    );
    assert_eq!(detect_genre_skill("悬疑"), GenreSkillKind::Mystery);
    assert_eq!(detect_genre_skill("都市悬疑"), GenreSkillKind::Mystery);
    assert_eq!(
        detect_genre_skill("都市生活"),
        GenreSkillKind::GeneralSerialized
    );
}

#[test]
fn detects_xianxia_skill() {
    assert_eq!(
        detect_genre_skill("男频修仙爽文"),
        GenreSkillKind::XianxiaPowerFantasy
    );
}

#[test]
fn renders_stage_specific_xianxia_guidance() {
    let text = render_genre_skill("男频修仙爽文", &Stage::Draft, None);
    assert!(text.contains("应用内写作资料库 / xianxia_power_fantasy"));
    assert!(text.contains("男频修仙/升级流"));
    assert!(text.contains("发育修炼章"));
    assert!(text.contains("不要连续堆谜团而不给进度"));
}

#[test]
fn skill_ids_round_trip_through_lookup() {
    for kind in [
        GenreSkillKind::GeneralSerialized,
        GenreSkillKind::UrbanSupernatural,
        GenreSkillKind::Mystery,
        GenreSkillKind::XianxiaPowerFantasy,
    ] {
        assert_eq!(genre_skill_for_id(kind.skill_id()), Some(kind));
    }
    assert_eq!(genre_skill_for_id("unknown"), None);
}

#[test]
fn projects_keep_a_valid_assigned_agent() {
    let (kept, write) = resolve_project_agent("修仙", Some("mystery"));
    assert_eq!(kept.agent_key, "mystery");
    assert!(!write);
    let (detected, write) = resolve_project_agent("修仙", Some("retired"));
    assert_eq!(detected.agent_key, "xianxia_power_fantasy");
    assert!(write);
    assert_eq!(backfill_agent_key("悬疑推理", Some("urban_mystery")).as_deref(), Some("mystery"));
    assert_eq!(backfill_agent_key("悬疑推理", Some("general_serialized")), None);
    assert_eq!(backfill_agent_key("都市异能", None).as_deref(), Some("urban_supernatural"));
}
