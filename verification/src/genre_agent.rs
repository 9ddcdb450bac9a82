//! Genre agents: one specialist agent per genre skill, and the composition of a
//! stage agent with the project's genre agent.
use vstd::prelude::*;

use crate::error::AppError;
use crate::genre_skill::{
    detect_genre_skill, genre_for_text, skill_name, unicode_lowercase, GenreSkillKind,
};
use crate::text::{append, concat, copy_strings, join, join_strings, owned, str_eq, views};

verus! {

pub const GENERAL_PROMPT: &'static str = "你是通用连载小说专属 Agent。你长期负责没有归入更窄类型的商业连载项目，核心判断标准是读者承诺、人物欲望、章节推进和稳定追读。你可以使用通用连载方法，但不得擅自借用都市异能、悬疑或修仙类型的专属套路。";

pub const URBAN_SUPERNATURAL_PROMPT: &'static str = "你是都市异能小说专属 Agent。你长期负责超常能力进入现代社会后产生的身份、资源、组织、职业与现实关系变化。所有阶段都要维护能力合同、成长代价、暴露风险和社会反馈；不得默认把故事写成案件调查，也不能为了过关临时扩充能力。";

pub const MYSTERY_PROMPT: &'static str = "你是悬疑小说专属 Agent。你长期负责谜面、证据链、知情差、嫌疑变化与解释竞争。所有阶段都要维护线索来源、角色知情边界、推理可追溯性和公平性；不得默认存在异能体系，也不能用无来源的新证据制造反转。";

pub const XIANXIA_PROMPT: &'static str = "你是男频修仙/玄幻升级流专属 Agent。你长期负责资源循环、修炼成长、压迫链、能力合同和阶段性收益驱动的项目。所有阶段都要维护实力边界、资源来源、升级代价和爽点兑现；不能把一次性触发偷换成永久能力。";

pub const BASE_AGENT_PROTOCOL: &'static str = "这是所有 Agent 共享、优先级最高的工作协议：\n1. 事实优先级依次为：已通过正式正文与带来源引文的状态记录；已通过创作基准、设定、大纲和角色资料；本次人工指令；题材与写作 Skill。Skill 只能提供方法，不能补充本书事实。\n2. 未经人工通过的候选稿、试读意见和模型推测都不是 Canon。你只能生成候选产物，不能替人工确认，也不能宣称已经写入正式资料。\n3. 资料缺失时保留未知；资料冲突时明确指出冲突或采用不越界的最低事实，不能静默发明解释。\n4. 只完成当前阶段职责。故事架构 Agent 不代写正文，写作 Agent 不修改 Canon，试读 Agent 不编造修法，修订 Agent 不引入来源中不存在的新事实。\n5. 章节结构由本章模式和实际内容决定。允许修炼、恢复、交易、关系、探索和过渡章节；不强制固定场景数、固定中段反转或危险式章末钩子。章节仍需产生可感知的状态变化，并形成自然的结束或延续。";

/// The profile of a genre-specialist agent.
#[derive(Debug, PartialEq, Eq)]
pub struct GenreAgentProfile {
    pub agent_key: String,
    pub name: String,
    pub role: String,
    pub system_prompt: String,
    pub primary_skill_key: String,
    pub allowed_skill_keys: Vec<String>,
}

/// A stage agent, as configured for one workflow stage.
#[derive(Debug, PartialEq, Eq)]
pub struct Agent {
    pub id: i64,
    pub stage: String,
    pub name: String,
    pub role: String,
    pub editable_role: String,
    pub system_prompt: String,
    pub editable_system_prompt: String,
    pub provider_base_url: String,
    pub model: String,
    pub thinking_enabled: bool,
    pub thinking_level: String,
    pub uses_global_runtime_settings: bool,
    pub enabled_tool_keys: Vec<String>,
    pub allowed_skill_keys: Vec<String>,
}

impl GenreAgentProfile {
    /// A copy of this profile.
    pub fn duplicate(&self) -> (r: GenreAgentProfile)
        ensures
            r.agent_key == self.agent_key,
            r.name == self.name,
            r.role == self.role,
            r.system_prompt == self.system_prompt,
            r.primary_skill_key == self.primary_skill_key,
            r.allowed_skill_keys@ == self.allowed_skill_keys@,
    {
        GenreAgentProfile {
            agent_key: self.agent_key.clone(),
            name: self.name.clone(),
            role: self.role.clone(),
            system_prompt: self.system_prompt.clone(),
            primary_skill_key: self.primary_skill_key.clone(),
            allowed_skill_keys: copy_strings(&self.allowed_skill_keys),
        }
    }
}

/// The display name of the agent of a genre skill.
pub open spec fn agent_name(kind: GenreSkillKind) -> Seq<char> {
    match kind {
        GenreSkillKind::GeneralSerialized => "通用连载 Agent"@,
        GenreSkillKind::UrbanSupernatural => "都市异能 Agent"@,
        GenreSkillKind::Mystery => "悬疑 Agent"@,
        GenreSkillKind::XianxiaPowerFantasy => "男频修仙/玄幻 Agent"@,
    }
}

/// The role line of the agent of a genre skill.
pub open spec fn agent_role(kind: GenreSkillKind) -> Seq<char> {
    match kind {
        GenreSkillKind::GeneralSerialized => "负责未细分题材的商业连载创作"@,
        GenreSkillKind::UrbanSupernatural => "专注能力边界、成长代价与现代社会反馈"@,
        GenreSkillKind::Mystery => "专注谜面、证据链、知情边界与公平推理"@,
        GenreSkillKind::XianxiaPowerFantasy => "专注升级、资源、能力边界与阶段收益"@,
    }
}

/// The system prompt of the agent of a genre skill.
pub open spec fn agent_prompt(kind: GenreSkillKind) -> Seq<char> {
    match kind {
        GenreSkillKind::GeneralSerialized => GENERAL_PROMPT@,
        GenreSkillKind::UrbanSupernatural => URBAN_SUPERNATURAL_PROMPT@,
        GenreSkillKind::Mystery => MYSTERY_PROMPT@,
        GenreSkillKind::XianxiaPowerFantasy => XIANXIA_PROMPT@,
    }
}

/// The profile of the agent of `kind`: keyed by the skill's id, with the
/// skill itself and the shared continuity skill as its only allowed skills.
pub open spec fn is_profile_of(p: GenreAgentProfile, kind: GenreSkillKind) -> bool {
    &&& p.agent_key@ == skill_name(kind)
    &&& p.name@ == agent_name(kind)
    &&& p.role@ == agent_role(kind)
    &&& p.system_prompt@ == agent_prompt(kind)
    &&& p.primary_skill_key@ == skill_name(kind)
    &&& views(p.allowed_skill_keys@) == seq![skill_name(kind), "continuity_and_agency"@]
}

/// The genre skills in the order of the default agents.
pub open spec fn agent_kinds() -> Seq<GenreSkillKind> {
    seq![
        GenreSkillKind::GeneralSerialized,
        GenreSkillKind::UrbanSupernatural,
        GenreSkillKind::Mystery,
        GenreSkillKind::XianxiaPowerFantasy,
    ]
}

/// The agent whose key is `key`, if any.
pub open spec fn kind_for_agent_key(key: Seq<char>) -> Option<GenreSkillKind> {
    if key == skill_name(GenreSkillKind::GeneralSerialized) {
        Some(GenreSkillKind::GeneralSerialized)
    } else if key == skill_name(GenreSkillKind::UrbanSupernatural) {
        Some(GenreSkillKind::UrbanSupernatural)
    } else if key == skill_name(GenreSkillKind::Mystery) {
        Some(GenreSkillKind::Mystery)
    } else if key == skill_name(GenreSkillKind::XianxiaPowerFantasy) {
        Some(GenreSkillKind::XianxiaPowerFantasy)
    } else {
        None
    }
}

/// The profile of the agent of one genre skill.
pub fn profile(
    agent_key: &str,
    name: &str,
    role: &str,
    system_prompt: &str,
    genre_skill: GenreSkillKind,
) -> (r: GenreAgentProfile)
    ensures
        r.agent_key@ == agent_key@,
        r.name@ == name@,
        r.role@ == role@,
        r.system_prompt@ == system_prompt@,
        r.primary_skill_key@ == skill_name(genre_skill),
        views(r.allowed_skill_keys@) == seq![skill_name(genre_skill), "continuity_and_agency"@],
{
    let mut allowed: Vec<String> = Vec::new();
    allowed.push(owned(genre_skill.skill_id()));
    allowed.push(owned("continuity_and_agency"));
    assert(views(allowed@) =~= seq![skill_name(genre_skill), "continuity_and_agency"@]);
    GenreAgentProfile {
        agent_key: owned(agent_key),
        name: owned(name),
        role: owned(role),
        system_prompt: owned(system_prompt),
        primary_skill_key: owned(genre_skill.skill_id()),
        allowed_skill_keys: allowed,
    }
}

/// The profile of the agent of `kind`.
fn profile_of(kind: GenreSkillKind) -> (r: GenreAgentProfile)
    ensures
        is_profile_of(r, kind),
{
    match kind {
        GenreSkillKind::GeneralSerialized => profile(
            "general_serialized",
            "通用连载 Agent",
            "负责未细分题材的商业连载创作",
            GENERAL_PROMPT,
            kind,
        ),
        GenreSkillKind::UrbanSupernatural => profile(
            "urban_supernatural",
            "都市异能 Agent",
            "专注能力边界、成长代价与现代社会反馈",
            URBAN_SUPERNATURAL_PROMPT,
            kind,
        ),
        GenreSkillKind::Mystery => profile(
            "mystery",
            "悬疑 Agent",
            "专注谜面、证据链、知情边界与公平推理",
            MYSTERY_PROMPT,
            kind,
        ),
        GenreSkillKind::XianxiaPowerFantasy => profile(
            "xianxia_power_fantasy",
            "男频修仙/玄幻 Agent",
            "专注升级、资源、能力边界与阶段收益",
            XIANXIA_PROMPT,
            kind,
        ),
    }
}

/// The four genre agents, in the order general, urban supernatural, mystery,
/// xianxia.
pub fn default_genre_agents() -> (r: Vec<GenreAgentProfile>)
    ensures
        r@.len() == 4,
        forall|i: int| 0 <= i < 4 ==> is_profile_of(#[trigger] r@[i], agent_kinds()[i]),
{
    let mut r: Vec<GenreAgentProfile> = Vec::new();
    r.push(profile_of(GenreSkillKind::GeneralSerialized));
    r.push(profile_of(GenreSkillKind::UrbanSupernatural));
    r.push(profile_of(GenreSkillKind::Mystery));
    r.push(profile_of(GenreSkillKind::XianxiaPowerFantasy));
    r
}

proof fn lemma_agent_keys_distinct()
    ensures
        forall|i: int, j: int|
            0 <= i < 4 && 0 <= j < 4 && i != j ==> skill_name(agent_kinds()[i]) != skill_name(
                agent_kinds()[j],
            ),
{
    reveal_strlit("general_serialized");
    reveal_strlit("urban_supernatural");
    reveal_strlit("mystery");
    reveal_strlit("xianxia_power_fantasy");
    assert forall|i: int, j: int|
        0 <= i < 4 && 0 <= j < 4 && i != j implies skill_name(agent_kinds()[i]) != skill_name(
        agent_kinds()[j],
    ) by {
        assert(skill_name(agent_kinds()[i])[0] != skill_name(agent_kinds()[j])[0]);
    }
}

/// The default agent whose key is `agent_key`.
pub fn profile_for_key(agent_key: &str) -> (r: Option<GenreAgentProfile>)
    ensures
        match kind_for_agent_key(agent_key@) {
            Some(kind) => r is Some && is_profile_of(r->0, kind),
            None => r is None,
        },
{
    let agents = default_genre_agents();
    proof {
        lemma_agent_keys_distinct();
    }
    let mut i: usize = 0;
    while i < agents.len()
        invariant
            i <= agents.len() == 4,
            forall|k: int| 0 <= k < 4 ==> is_profile_of(#[trigger] agents@[k], agent_kinds()[k]),
            forall|k: int| 0 <= k < i ==> agents@[k].agent_key@ != agent_key@,
        decreases agents.len() - i,
    {
        if str_eq(agents[i].agent_key.as_str(), agent_key) {
            let found = agents[i].duplicate();
            assert(agents@[i as int].agent_key@ == skill_name(agent_kinds()[i as int]));
            proof {
                lemma_kind_for_own_key(agent_kinds()[i as int]);
            }
            return Some(found);
        }
        i = i + 1;
    }
    assert(agents@[0].agent_key@ != agent_key@);
    assert(agents@[1].agent_key@ != agent_key@);
    assert(agents@[2].agent_key@ != agent_key@);
    assert(agents@[3].agent_key@ != agent_key@);
    assert(agent_kinds()[0] == GenreSkillKind::GeneralSerialized);
    assert(agent_kinds()[1] == GenreSkillKind::UrbanSupernatural);
    assert(agent_kinds()[2] == GenreSkillKind::Mystery);
    assert(agent_kinds()[3] == GenreSkillKind::XianxiaPowerFantasy);
    None
}

/// The agent of a project genre: the agent of the genre's skill. Every skill
/// has an agent, so this never fails.
pub fn detect_genre_agent(genre: &str) -> (r: Result<GenreAgentProfile, AppError>)
    ensures
        r is Ok,
        is_profile_of(r->Ok_0, genre_for_text(unicode_lowercase(genre@))),
{
    let kind = detect_genre_skill(genre);
    proof {
        lemma_kind_for_own_key(kind);
    }
    match profile_for_key(kind.skill_id()) {
        Some(p) => Ok(p),
        None => {
            let mut message = concat("未找到题材 '", genre);
            append(&mut message, "' 对应的 Agent 配置");
            Err(AppError::Validation(message))
        },
    }
}

proof fn lemma_kind_for_own_key(kind: GenreSkillKind)
    ensures
        kind_for_agent_key(skill_name(kind)) == Some(kind),
{
    reveal_strlit("general_serialized");
    reveal_strlit("urban_supernatural");
    reveal_strlit("mystery");
    reveal_strlit("xianxia_power_fantasy");
    if kind != GenreSkillKind::GeneralSerialized {
        assert(skill_name(kind)[0] != skill_name(GenreSkillKind::GeneralSerialized)[0]);
    }
    if kind != GenreSkillKind::UrbanSupernatural {
        assert(skill_name(kind)[0] != skill_name(GenreSkillKind::UrbanSupernatural)[0]);
    }
    if kind != GenreSkillKind::Mystery {
        assert(skill_name(kind)[0] != skill_name(GenreSkillKind::Mystery)[0]);
    }
}

/// The keys of `keys` that also occur in `allowed`, in the order of `keys`.
pub open spec fn keys_allowed(keys: Seq<Seq<char>>, allowed: Seq<Seq<char>>) -> Seq<Seq<char>>
    decreases keys.len(),
{
    if keys.len() == 0 {
        Seq::empty()
    } else if allowed.contains(keys.last()) {
        keys_allowed(keys.drop_last(), allowed).push(keys.last())
    } else {
        keys_allowed(keys.drop_last(), allowed)
    }
}

/// The system prompt of a stage agent composed with a genre agent.
pub open spec fn composed_prompt(stage_prompt: Seq<char>, p: GenreAgentProfile, effective: Seq<
    Seq<char>,
>) -> Seq<char> {
    "# 共享 Agent 协议\n"@ + BASE_AGENT_PROTOCOL@ + "\n\n# 题材专属 Agent 身份\n"@ + p.system_prompt@
        + "\n\n你当前绑定的主类型 Skill 是 `"@ + p.primary_skill_key@ + "`。只允许使用白名单 Skill："@
        + (if effective.len() == 0 {
        "（无辅助 Skill）"@
    } else {
        join(effective, "、"@)
    }) + "。即使技能库中存在其他题材规则，也不能调用、混合或模仿它们。\n\n# 当前工作模式\n"@
        + stage_prompt
}

/// Whether some string of `list` equals `key`.
fn list_contains(list: &Vec<String>, key: &str) -> (r: bool)
    ensures
        r == views(list@).contains(key@),
{
    let mut i: usize = 0;
    while i < list.len()
        invariant
            i <= list.len(),
            forall|k: int| 0 <= k < i ==> list@[k]@ != key@,
        decreases list.len() - i,
    {
        if str_eq(list[i].as_str(), key) {
            assert(views(list@)[i as int] == key@);
            return true;
        }
        i = i + 1;
    }
    assert(!views(list@).contains(key@)) by {
        if views(list@).contains(key@) {
            let k = choose|k: int| 0 <= k < views(list@).len() && views(list@)[k] == key@;
            assert(list@[k]@ == key@);
        }
    }
    false
}

/// Composes a stage agent with the project's genre agent: the shared protocol,
/// the genre identity, the skill allowlist and the stage's own prompt make up
/// the new system prompt, and the genre role prefixes the stage role. The
/// editable fields and the allowed skills of the stage agent are kept.
pub fn compose_stage_agent(stage_agent: Agent, profile: &GenreAgentProfile) -> (r: Agent)
    ensures
        r.system_prompt@ == composed_prompt(
            stage_agent.system_prompt@,
            *profile,
            keys_allowed(views(stage_agent.allowed_skill_keys@), views(profile.allowed_skill_keys@)),
        ),
        r.role@ == profile.role@ + "；当前工作模式："@ + stage_agent.role@,
        r.id == stage_agent.id,
        r.stage == stage_agent.stage,
        r.name == stage_agent.name,
        r.editable_role == stage_agent.editable_role,
        r.editable_system_prompt == stage_agent.editable_system_prompt,
        r.provider_base_url == stage_agent.provider_base_url,
        r.model == stage_agent.model,
        r.thinking_enabled == stage_agent.thinking_enabled,
        r.thinking_level == stage_agent.thinking_level,
        r.uses_global_runtime_settings == stage_agent.uses_global_runtime_settings,
        r.enabled_tool_keys == stage_agent.enabled_tool_keys,
        r.allowed_skill_keys == stage_agent.allowed_skill_keys,
{
    let mut stage_agent = stage_agent;
    let ghost given = stage_agent;
    let mut effective: Vec<String> = Vec::new();
    let mut i: usize = 0;
    while i < stage_agent.allowed_skill_keys.len()
        invariant
            i <= stage_agent.allowed_skill_keys.len(),
            stage_agent == given,
            views(effective@) == keys_allowed(
                views(stage_agent.allowed_skill_keys@).take(i as int),
                views(profile.allowed_skill_keys@),
            ),
        decreases stage_agent.allowed_skill_keys.len() - i,
    {
        let ghost prefix = views(stage_agent.allowed_skill_keys@).take(i as int);
        assert(views(stage_agent.allowed_skill_keys@).take(i + 1).drop_last() == prefix);
        assert(views(stage_agent.allowed_skill_keys@).take(i + 1).last()
            == stage_agent.allowed_skill_keys@[i as int]@);
        if list_contains(&profile.allowed_skill_keys, stage_agent.allowed_skill_keys[i].as_str()) {
            let key = stage_agent.allowed_skill_keys[i].clone();
            let ghost old_e = effective@;
            effective.push(key);
            assert(views(effective@) =~= views(old_e).push(key@));
        }
        i = i + 1;
    }
    assert(views(stage_agent.allowed_skill_keys@).take(stage_agent.allowed_skill_keys.len() as int)
        == views(stage_agent.allowed_skill_keys@));
    let mut prompt = concat("# 共享 Agent 协议\n", BASE_AGENT_PROTOCOL);
    append(&mut prompt, "\n\n# 题材专属 Agent 身份\n");
    append(&mut prompt, profile.system_prompt.as_str());
    append(&mut prompt, "\n\n你当前绑定的主类型 Skill 是 `");
    append(&mut prompt, profile.primary_skill_key.as_str());
    append(&mut prompt, "`。只允许使用白名单 Skill：");
    if effective.len() == 0 {
        append(&mut prompt, "（无辅助 Skill）");
    } else {
        let joined = join_strings(effective.as_slice(), "、");
        append(&mut prompt, joined.as_str());
    }
    append(&mut prompt, "。即使技能库中存在其他题材规则，也不能调用、混合或模仿它们。\n\n# 当前工作模式\n");
    append(&mut prompt, stage_agent.system_prompt.as_str());
    let mut role = concat(profile.role.as_str(), "；当前工作模式：");
    append(&mut role, stage_agent.role.as_str());
    stage_agent.system_prompt = prompt;
    stage_agent.role = role;
    stage_agent
}

// ---------------------------------------------------------------------------
// Which agent a project keeps
// ---------------------------------------------------------------------------
/// The agent a project keeps: the one its assigned key names, when it names
/// one (then nothing is written); else the agent of its genre, which is then
/// assigned to it (the flag says so).
pub fn resolve_project_agent(genre: &str, assigned_key: Option<&str>) -> (r: (GenreAgentProfile, bool))
    ensures
        match assigned_key {
            Some(k) => match kind_for_agent_key(k@) {
                Some(kind) => is_profile_of(r.0, kind) && !r.1,
                None => is_profile_of(r.0, genre_for_text(unicode_lowercase(genre@))) && r.1,
            },
            None => is_profile_of(r.0, genre_for_text(unicode_lowercase(genre@))) && r.1,
        },
{
    match assigned_key {
        Some(k) => match profile_for_key(k) {
            Some(p) => return (p, false),
            None => {},
        },
        None => {},
    }
    match detect_genre_agent(genre) {
        Ok(p) => (p, true),
        Err(_) => vstd::pervasive::unreached(),
    }
}

/// The key that a backfill of genre agents writes for a project, if any: a
/// project without an agent gets its genre's; one still assigned the
/// retired combined agent `urban_mystery` is moved to its genre's; any other
/// keeps its own.
pub fn backfill_agent_key(genre: &str, assigned_key: Option<&str>) -> (r: Option<String>)
    ensures
        match assigned_key {
            Some(k) => if k@ == "urban_mystery"@ {
                r matches Some(key) && key@ == skill_name(genre_for_text(unicode_lowercase(genre@)))
            } else {
                r is None
            },
            None => r matches Some(key) && key@ == skill_name(genre_for_text(unicode_lowercase(genre@))),
        },
{
    let replace = match assigned_key {
        Some(k) => str_eq(k, "urban_mystery"),
        None => true,
    };
    if !replace {
        return None;
    }
    match detect_genre_agent(genre) {
        Ok(p) => Some(p.agent_key),
        Err(_) => None,
    }
}

} // verus!
