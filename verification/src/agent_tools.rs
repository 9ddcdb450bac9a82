//! The registry of agent tools, and the allowlists that select from it.
use vstd::prelude::*;

use crate::text_facts::lemma_trim_fixed;
use crate::text::{
    chars_eq, chars_of, owned, str_eq, str_views, trim, trim_chars, views,
};

verus! {

pub const HISTORY_CONTEXT: &'static str = "history_context";
pub const SEARCH_STORY: &'static str = "search_story";
pub const SEARCH_STORY_FACTS: &'static str = "search_story_facts";
pub const REFERENCE_MATERIALS: &'static str = "reference_materials";
pub const CHAPTER_MEMORY: &'static str = "chapter_memory";
pub const REQUEST_CHAPTER_MEMORY: &'static str = "request_chapter_memory";
pub const CONTINUITY_CHECK: &'static str = "continuity_check";
pub const QUALITY_ANALYSIS: &'static str = "quality_analysis";
pub const CHAPTER_SPLIT: &'static str = "chapter_split";
pub const WEB_SEARCH: &'static str = "web_search";
pub const PROPOSE_CREATE_CHAPTER: &'static str = "propose_create_chapter";
pub const PROPOSE_RENAME_CHAPTER: &'static str = "propose_rename_chapter";
pub const PROPOSE_ARTIFACT_CANDIDATE: &'static str = "propose_artifact_candidate";
pub const PROPOSE_KNOWLEDGE_CARD: &'static str = "propose_knowledge_card";
pub const PROPOSE_UPDATE_KNOWLEDGE_CARD: &'static str = "propose_update_knowledge_card";
pub const PROPOSE_DELETE_KNOWLEDGE_CARD: &'static str = "propose_delete_knowledge_card";
pub const PROPOSE_FORESHADOWING: &'static str = "propose_foreshadowing";
pub const REPLACE_TEXT: &'static str = "replace_text";
pub const INSERT_AFTER: &'static str = "insert_after";
pub const DELETE_RANGE: &'static str = "delete_range";
pub const APPLY_PATCH: &'static str = "apply_patch";

/// What a tool does when an agent calls it.
#[derive(Debug, Clone, Copy, PartialEq, Eq, Structural)]
pub enum ToolKind {
    /// Reads context; changes nothing.
    Read,
    /// Hands work to another agent.
    Delegate,
    /// Creates a proposal that a human must confirm.
    Proposal,
}

/// A tool that agents may be allowed to call.
#[derive(Debug, PartialEq, Eq)]
pub struct AgentToolDefinition {
    pub key: String,
    pub name: String,
    pub description: String,
    pub category: String,
    pub kind: ToolKind,
    pub supported_stages: Vec<String>,
    pub previewable: bool,
    /// The JSON schema of the tool's arguments, as JSON text.
    pub parameters_schema: String,
}

/// The keys of the registered tools, in registry order.
pub open spec fn registry_keys() -> Seq<Seq<char>> {
    seq![
        "search_story"@,
        "search_story_facts"@,
        "history_context"@,
        "reference_materials"@,
        "chapter_memory"@,
        "request_chapter_memory"@,
        "continuity_check"@,
        "quality_analysis"@,
        "chapter_split"@,
        "web_search"@,
        "replace_text"@,
        "insert_after"@,
        "delete_range"@,
        "apply_patch"@,
        "propose_create_chapter"@,
        "propose_rename_chapter"@,
        "propose_artifact_candidate"@,
        "propose_knowledge_card"@,
        "propose_update_knowledge_card"@,
        "propose_delete_knowledge_card"@,
        "propose_foreshadowing"@,
    ]
}

/// The names of the registered tools, in registry order.
pub open spec fn registry_names() -> Seq<Seq<char>> {
    seq![
        "故事原文检索"@,
        "故事事实检索"@,
        "历史上下文检索（兼容）"@,
        "参考资料"@,
        "章节记忆"@,
        "委托生成章节记忆"@,
        "连续性检查"@,
        "质量分析"@,
        "拆章规划"@,
        "网络搜索"@,
        "替换文本"@,
        "插入文本"@,
        "删除范围"@,
        "应用多处修订"@,
        "提议创建章节"@,
        "提议重命名章节"@,
        "提议资料候选版本"@,
        "提议知识卡"@,
        "更新知识卡"@,
        "删除知识卡"@,
        "提议伏笔"@,
    ]
}

/// The descriptions of the registered tools, in registry order.
pub open spec fn registry_descriptions() -> Seq<Seq<char>> {
    seq![
        "检索已生效的章节正文、设定、提纲和故事原文片段；需要查找事件经过或人物出现位置时使用。"@,
        "只检索已确认的结构化事实、连续性状态和有效章节记忆，不替代正文检索。"@,
        "兼容旧 Agent 配置，等价于故事原文检索。"@,
        "检索当前项目导入并启用的外部参考资料。"@,
        "读取上一章的事实交接记忆，减少长篇续写中的状态丢失。"@,
        "委托章节记忆 Agent 从已生效正文提取事实交接记忆；主 Agent 不直接写入记忆。"@,
        "使用状态账本核对物件、资源、禁制和伤势等已确认状态。"@,
        "读取候选产物的本地质量信号。"@,
        "分析超载章节并生成可执行的拆章方案。"@,
        "仅在人工明确要求联网时查询现实资料；结果不自动成为 Canon。"@,
        "在当前章节候选稿中，按唯一原文锚点替换一处文本；生成章节修订候选，不直接覆盖正文。"@,
        "在当前章节候选稿的唯一原文锚点后插入文本；生成章节修订候选。"@,
        "删除当前章节候选稿中唯一匹配的原文范围；生成章节修订候选。"@,
        "按顺序应用多条基于唯一原文锚点的章节修订；生成一个章节修订候选。"@,
        "创建一个待人工确认的新章节提案，不直接写入章节表。"@,
        "创建章节重命名提案，不直接修改章节。"@,
        "为设定、大纲或角色资料创建待人工确认的候选版本。"@,
        "创建待人工确认的知识卡提案。"@,
        "更新已存在知识卡的标题、类型或内容，创建待人工确认的提案。"@,
        "删除已存在的知识卡，创建待人工确认的提案。"@,
        "创建待人工确认的伏笔提案。"@,
    ]
}

/// The categories of the registered tools, in registry order.
pub open spec fn registry_categories() -> Seq<Seq<char>> {
    seq![
        "上下文"@,
        "连续性"@,
        "上下文"@,
        "上下文"@,
        "连续性"@,
        "连续性"@,
        "连续性"@,
        "审校"@,
        "规划"@,
        "研究"@,
        "章节修订"@,
        "章节修订"@,
        "章节修订"@,
        "章节修订"@,
        "章节创建"@,
        "章节修订"@,
        "编辑提案"@,
        "编辑提案"@,
        "编辑提案"@,
        "编辑提案"@,
        "编辑提案"@,
    ]
}

/// The kinds of the registered tools, in registry order.
pub open spec fn registry_kinds() -> Seq<ToolKind> {
    seq![
        ToolKind::Read,
        ToolKind::Read,
        ToolKind::Read,
        ToolKind::Read,
        ToolKind::Read,
        ToolKind::Delegate,
        ToolKind::Read,
        ToolKind::Read,
        ToolKind::Read,
        ToolKind::Read,
        ToolKind::Proposal,
        ToolKind::Proposal,
        ToolKind::Proposal,
        ToolKind::Proposal,
        ToolKind::Proposal,
        ToolKind::Proposal,
        ToolKind::Proposal,
        ToolKind::Proposal,
        ToolKind::Proposal,
        ToolKind::Proposal,
        ToolKind::Proposal,
    ]
}

/// The stages that the registered tools support, in registry order.
pub open spec fn registry_stages() -> Seq<Seq<Seq<char>>> {
    seq![
        seq!["draft"@, "review"@, "revision"@],
        seq!["draft"@, "review"@, "revision"@],
        seq!["draft"@, "review"@, "revision"@],
        seq!["setting"@, "outline"@, "characters"@, "draft"@, "review"@, "revision"@],
        seq!["draft"@, "review"@, "revision"@],
        seq!["draft"@, "review"@, "revision"@],
        seq!["draft"@, "review"@, "revision"@],
        seq!["review"@, "revision"@],
        seq!["draft"@, "revision"@],
        seq!["setting"@, "outline"@, "characters"@, "draft"@, "review"@, "revision"@],
        seq!["draft"@, "revision"@],
        seq!["draft"@, "revision"@],
        seq!["draft"@, "revision"@],
        seq!["draft"@, "revision"@],
        seq!["setting"@, "outline"@, "characters"@],
        seq!["setting"@, "outline"@, "characters"@, "draft"@, "review"@, "revision"@],
        seq!["setting"@, "outline"@, "characters"@],
        seq!["setting"@, "outline"@, "characters"@, "draft"@, "review"@, "revision"@],
        seq!["setting"@, "outline"@, "characters"@, "draft"@, "review"@, "revision"@],
        seq!["setting"@, "outline"@, "characters"@, "draft"@, "review"@, "revision"@],
        seq!["setting"@, "outline"@, "characters"@, "draft"@, "review"@, "revision"@],
    ]
}

/// Whether the registered tools can be previewed, in registry order.
pub open spec fn registry_previewable() -> Seq<bool> {
    seq![
        true,
        true,
        true,
        true,
        true,
        false,
        true,
        true,
        true,
        true,
        false,
        false,
        false,
        false,
        false,
        false,
        false,
        false,
        false,
        false,
        false,
    ]
}

/// The parameter schemas (JSON text) of the registered tools, in registry order.
pub open spec fn registry_schemas() -> Seq<Seq<char>> {
    seq![
        "{\"additionalProperties\":false,\"properties\":{\"limit\":{\"maximum\":12,\"minimum\":1,\"type\":\"integer\"},\"query\":{\"maxLength\":240,\"minLength\":1,\"type\":\"string\"}},\"required\":[\"query\"],\"type\":\"object\"}"@,
        "{\"additionalProperties\":false,\"properties\":{\"limit\":{\"maximum\":12,\"minimum\":1,\"type\":\"integer\"},\"query\":{\"maxLength\":240,\"minLength\":1,\"type\":\"string\"}},\"required\":[\"query\"],\"type\":\"object\"}"@,
        "{\"additionalProperties\":false,\"properties\":{\"limit\":{\"maximum\":12,\"minimum\":1,\"type\":\"integer\"},\"query\":{\"maxLength\":240,\"minLength\":1,\"type\":\"string\"}},\"required\":[\"query\"],\"type\":\"object\"}"@,
        "{\"additionalProperties\":false,\"properties\":{\"query\":{\"maxLength\":500,\"type\":\"string\"}},\"type\":\"object\"}"@,
        "{\"additionalProperties\":false,\"properties\":{},\"type\":\"object\"}"@,
        "{\"additionalProperties\":false,\"properties\":{\"chapter_id\":{\"minimum\":1,\"type\":\"integer\"}},\"required\":[\"chapter_id\"],\"type\":\"object\"}"@,
        "{\"additionalProperties\":false,\"properties\":{\"artifact_id\":{\"minimum\":1,\"type\":\"integer\"}},\"type\":\"object\"}"@,
        "{\"additionalProperties\":false,\"properties\":{\"artifact_id\":{\"minimum\":1,\"type\":\"integer\"}},\"required\":[\"artifact_id\"],\"type\":\"object\"}"@,
        "{\"additionalProperties\":false,\"properties\":{\"artifact_id\":{\"minimum\":1,\"type\":\"integer\"}},\"required\":[\"artifact_id\"],\"type\":\"object\"}"@,
        "{\"additionalProperties\":false,\"properties\":{\"query\":{\"maxLength\":240,\"minLength\":1,\"type\":\"string\"}},\"required\":[\"query\"],\"type\":\"object\"}"@,
        "{\"additionalProperties\":false,\"properties\":{\"artifact_id\":{\"minimum\":1,\"type\":\"integer\"},\"find_text\":{\"minLength\":1,\"type\":\"string\"},\"note\":{\"maxLength\":500,\"type\":\"string\"},\"replace_text\":{\"type\":\"string\"}},\"required\":[\"artifact_id\",\"find_text\",\"replace_text\"],\"type\":\"object\"}"@,
        "{\"additionalProperties\":false,\"properties\":{\"anchor_text\":{\"minLength\":1,\"type\":\"string\"},\"artifact_id\":{\"minimum\":1,\"type\":\"integer\"},\"insert_text\":{\"minLength\":1,\"type\":\"string\"},\"note\":{\"maxLength\":500,\"type\":\"string\"}},\"required\":[\"artifact_id\",\"anchor_text\",\"insert_text\"],\"type\":\"object\"}"@,
        "{\"additionalProperties\":false,\"properties\":{\"artifact_id\":{\"minimum\":1,\"type\":\"integer\"},\"find_text\":{\"minLength\":1,\"type\":\"string\"},\"note\":{\"maxLength\":500,\"type\":\"string\"}},\"required\":[\"artifact_id\",\"find_text\"],\"type\":\"object\"}"@,
        "{\"additionalProperties\":false,\"properties\":{\"artifact_id\":{\"minimum\":1,\"type\":\"integer\"},\"note\":{\"maxLength\":500,\"type\":\"string\"},\"operations\":{\"items\":{\"additionalProperties\":false,\"properties\":{\"anchor_text\":{\"type\":\"string\"},\"find_text\":{\"type\":\"string\"},\"insert_text\":{\"type\":\"string\"},\"replace_text\":{\"type\":\"string\"},\"type\":{\"enum\":[\"replace_text\",\"insert_after\",\"delete_range\"],\"type\":\"string\"}},\"required\":[\"type\"],\"type\":\"object\"},\"minItems\":1,\"type\":\"array\"}},\"required\":[\"artifact_id\",\"operations\"],\"type\":\"object\"}"@,
        "{\"additionalProperties\":false,\"properties\":{\"title\":{\"maxLength\":120,\"minLength\":1,\"type\":\"string\"}},\"required\":[\"title\"],\"type\":\"object\"}"@,
        "{\"additionalProperties\":false,\"properties\":{\"chapter_id\":{\"minimum\":1,\"type\":\"integer\"},\"title\":{\"maxLength\":120,\"minLength\":1,\"type\":\"string\"}},\"required\":[\"chapter_id\",\"title\"],\"type\":\"object\"}"@,
        "{\"additionalProperties\":false,\"properties\":{\"content\":{\"minLength\":1,\"type\":\"string\"},\"stage\":{\"enum\":[\"setting\",\"outline\",\"characters\"],\"type\":\"string\"},\"title\":{\"maxLength\":160,\"minLength\":1,\"type\":\"string\"}},\"required\":[\"stage\",\"title\",\"content\"],\"type\":\"object\"}"@,
        "{\"additionalProperties\":false,\"properties\":{\"category\":{\"maxLength\":80,\"minLength\":1,\"type\":\"string\"},\"content\":{\"minLength\":1,\"type\":\"string\"},\"title\":{\"maxLength\":160,\"minLength\":1,\"type\":\"string\"}},\"required\":[\"category\",\"title\",\"content\"],\"type\":\"object\"}"@,
        "{\"additionalProperties\":false,\"properties\":{\"card_id\":{\"minimum\":1,\"type\":\"integer\"},\"category\":{\"maxLength\":80,\"minLength\":1,\"type\":\"string\"},\"content\":{\"minLength\":1,\"type\":\"string\"},\"title\":{\"maxLength\":160,\"minLength\":1,\"type\":\"string\"}},\"required\":[\"card_id\",\"category\",\"title\",\"content\"],\"type\":\"object\"}"@,
        "{\"additionalProperties\":false,\"properties\":{\"card_id\":{\"minimum\":1,\"type\":\"integer\"}},\"required\":[\"card_id\"],\"type\":\"object\"}"@,
        "{\"additionalProperties\":false,\"properties\":{\"content\":{\"minLength\":1,\"type\":\"string\"},\"planned_payoff_note\":{\"maxLength\":500,\"type\":\"string\"},\"title\":{\"maxLength\":160,\"minLength\":1,\"type\":\"string\"}},\"required\":[\"title\",\"content\"],\"type\":\"object\"}"@,
    ]
}

/// The number of registered tools.
pub open spec fn registry_len() -> int {
    21
}

/// `d` is the registered tool at position `i`.
pub open spec fn is_registered_at(d: AgentToolDefinition, i: int) -> bool {
    &&& d.key@ == registry_keys()[i]
    &&& d.name@ == registry_names()[i]
    &&& d.description@ == registry_descriptions()[i]
    &&& d.category@ == registry_categories()[i]
    &&& d.kind == registry_kinds()[i]
    &&& views(d.supported_stages@) == registry_stages()[i]
    &&& d.previewable == registry_previewable()[i]
    &&& d.parameters_schema@ == registry_schemas()[i]
}

/// One tool definition.
fn definition(
    key: &str,
    name: &str,
    description: &str,
    category: &str,
    kind: ToolKind,
    supported_stages: &[&str],
    previewable: bool,
    parameters_schema: &str,
) -> (r: AgentToolDefinition)
    ensures
        r.key@ == key@,
        r.name@ == name@,
        r.description@ == description@,
        r.category@ == category@,
        r.kind == kind,
        views(r.supported_stages@) == str_views(supported_stages@),
        r.previewable == previewable,
        r.parameters_schema@ == parameters_schema@,
{
    let mut stages: Vec<String> = Vec::new();
    let mut i: usize = 0;
    while i < supported_stages.len()
        invariant
            i <= supported_stages.len(),
            views(stages@) == str_views(supported_stages@.take(i as int)),
        decreases supported_stages.len() - i,
    {
        let ghost old_s = stages@;
        let st = owned(supported_stages[i]);
        stages.push(st);
        i = i + 1;
        assert(views(stages@) =~= views(old_s).push(st@));
        assert(str_views(supported_stages@.take(i as int)) =~= str_views(
            supported_stages@.take(i - 1),
        ).push(supported_stages@[i - 1]@));
    }
    assert(supported_stages@.take(supported_stages.len() as int) == supported_stages@);
    AgentToolDefinition {
        key: owned(key),
        name: owned(name),
        description: owned(description),
        category: owned(category),
        kind,
        supported_stages: stages,
        previewable,
        parameters_schema: owned(parameters_schema),
    }
}

/// Every registered tool, in registry order.
#[verifier::rlimit(50)]
pub fn definitions() -> (r: Vec<AgentToolDefinition>)
    ensures
        r@.len() == registry_len(),
        forall|i: int| 0 <= i < registry_len() ==> is_registered_at(#[trigger] r@[i], i),
{
    let mut r: Vec<AgentToolDefinition> = Vec::new();
    r.push(
        definition(
            "search_story",
            "故事原文检索",
            "检索已生效的章节正文、设定、提纲和故事原文片段；需要查找事件经过或人物出现位置时使用。",
            "上下文",
            ToolKind::Read,
            &["draft", "review", "revision"],
            true,
            "{\"additionalProperties\":false,\"properties\":{\"limit\":{\"maximum\":12,\"minimum\":1,\"type\":\"integer\"},\"query\":{\"maxLength\":240,\"minLength\":1,\"type\":\"string\"}},\"required\":[\"query\"],\"type\":\"object\"}",
        ),
    );
    assert(r@[0].key@ == registry_keys()[0]);
    assert(r@[0].name@ == registry_names()[0]);
    assert(r@[0].description@ == registry_descriptions()[0]);
    assert(r@[0].category@ == registry_categories()[0]);
    assert(r@[0].kind == registry_kinds()[0]);
    assert(views(r@[0].supported_stages@) == registry_stages()[0]);
    assert(r@[0].parameters_schema@ == registry_schemas()[0]);
    assert(is_registered_at(r@[0], 0));
    r.push(
        definition(
            "search_story_facts",
            "故事事实检索",
            "只检索已确认的结构化事实、连续性状态和有效章节记忆，不替代正文检索。",
            "连续性",
            ToolKind::Read,
            &["draft", "review", "revision"],
            true,
            "{\"additionalProperties\":false,\"properties\":{\"limit\":{\"maximum\":12,\"minimum\":1,\"type\":\"integer\"},\"query\":{\"maxLength\":240,\"minLength\":1,\"type\":\"string\"}},\"required\":[\"query\"],\"type\":\"object\"}",
        ),
    );
    assert(r@[1].key@ == registry_keys()[1]);
    assert(r@[1].name@ == registry_names()[1]);
    assert(r@[1].description@ == registry_descriptions()[1]);
    assert(r@[1].category@ == registry_categories()[1]);
    assert(r@[1].kind == registry_kinds()[1]);
    assert(views(r@[1].supported_stages@) == registry_stages()[1]);
    assert(r@[1].parameters_schema@ == registry_schemas()[1]);
    assert(is_registered_at(r@[1], 1));
    r.push(
        definition(
            "history_context",
            "历史上下文检索（兼容）",
            "兼容旧 Agent 配置，等价于故事原文检索。",
            "上下文",
            ToolKind::Read,
            &["draft", "review", "revision"],
            true,
            "{\"additionalProperties\":false,\"properties\":{\"limit\":{\"maximum\":12,\"minimum\":1,\"type\":\"integer\"},\"query\":{\"maxLength\":240,\"minLength\":1,\"type\":\"string\"}},\"required\":[\"query\"],\"type\":\"object\"}",
        ),
    );
    assert(r@[2].key@ == registry_keys()[2]);
    assert(r@[2].name@ == registry_names()[2]);
    assert(r@[2].description@ == registry_descriptions()[2]);
    assert(r@[2].category@ == registry_categories()[2]);
    assert(r@[2].kind == registry_kinds()[2]);
    assert(views(r@[2].supported_stages@) == registry_stages()[2]);
    assert(r@[2].parameters_schema@ == registry_schemas()[2]);
    assert(is_registered_at(r@[2], 2));
    r.push(
        definition(
            "reference_materials",
            "参考资料",
            "检索当前项目导入并启用的外部参考资料。",
            "上下文",
            ToolKind::Read,
            &["setting", "outline", "characters", "draft", "review", "revision"],
            true,
            "{\"additionalProperties\":false,\"properties\":{\"query\":{\"maxLength\":500,\"type\":\"string\"}},\"type\":\"object\"}",
        ),
    );
    assert(r@[3].key@ == registry_keys()[3]);
    assert(r@[3].name@ == registry_names()[3]);
    assert(r@[3].description@ == registry_descriptions()[3]);
    assert(r@[3].category@ == registry_categories()[3]);
    assert(r@[3].kind == registry_kinds()[3]);
    assert(views(r@[3].supported_stages@) == registry_stages()[3]);
    assert(r@[3].parameters_schema@ == registry_schemas()[3]);
    assert(is_registered_at(r@[3], 3));
    r.push(
        definition(
            "chapter_memory",
            "章节记忆",
            "读取上一章的事实交接记忆，减少长篇续写中的状态丢失。",
            "连续性",
            ToolKind::Read,
            &["draft", "review", "revision"],
            true,
            "{\"additionalProperties\":false,\"properties\":{},\"type\":\"object\"}",
        ),
    );
    assert(r@[4].key@ == registry_keys()[4]);
    assert(r@[4].name@ == registry_names()[4]);
    assert(r@[4].description@ == registry_descriptions()[4]);
    assert(r@[4].category@ == registry_categories()[4]);
    assert(r@[4].kind == registry_kinds()[4]);
    assert(views(r@[4].supported_stages@) == registry_stages()[4]);
    assert(r@[4].parameters_schema@ == registry_schemas()[4]);
    assert(is_registered_at(r@[4], 4));
    r.push(
        definition(
            "request_chapter_memory",
            "委托生成章节记忆",
            "委托章节记忆 Agent 从已生效正文提取事实交接记忆；主 Agent 不直接写入记忆。",
            "连续性",
            ToolKind::Delegate,
            &["draft", "review", "revision"],
            false,
            "{\"additionalProperties\":false,\"properties\":{\"chapter_id\":{\"minimum\":1,\"type\":\"integer\"}},\"required\":[\"chapter_id\"],\"type\":\"object\"}",
        ),
    );
    assert(r@[5].key@ == registry_keys()[5]);
    assert(r@[5].name@ == registry_names()[5]);
    assert(r@[5].description@ == registry_descriptions()[5]);
    assert(r@[5].category@ == registry_categories()[5]);
    assert(r@[5].kind == registry_kinds()[5]);
    assert(views(r@[5].supported_stages@) == registry_stages()[5]);
    assert(r@[5].parameters_schema@ == registry_schemas()[5]);
    assert(is_registered_at(r@[5], 5));
    r.push(
        definition(
            "continuity_check",
            "连续性检查",
            "使用状态账本核对物件、资源、禁制和伤势等已确认状态。",
            "连续性",
            ToolKind::Read,
            &["draft", "review", "revision"],
            true,
            "{\"additionalProperties\":false,\"properties\":{\"artifact_id\":{\"minimum\":1,\"type\":\"integer\"}},\"type\":\"object\"}",
        ),
    );
    assert(r@[6].key@ == registry_keys()[6]);
    assert(r@[6].name@ == registry_names()[6]);
    assert(r@[6].description@ == registry_descriptions()[6]);
    assert(r@[6].category@ == registry_categories()[6]);
    assert(r@[6].kind == registry_kinds()[6]);
    assert(views(r@[6].supported_stages@) == registry_stages()[6]);
    assert(r@[6].parameters_schema@ == registry_schemas()[6]);
    assert(is_registered_at(r@[6], 6));
    r.push(
        definition(
            "quality_analysis",
            "质量分析",
            "读取候选产物的本地质量信号。",
            "审校",
            ToolKind::Read,
            &["review", "revision"],
            true,
            "{\"additionalProperties\":false,\"properties\":{\"artifact_id\":{\"minimum\":1,\"type\":\"integer\"}},\"required\":[\"artifact_id\"],\"type\":\"object\"}",
        ),
    );
    assert(r@[7].key@ == registry_keys()[7]);
    assert(r@[7].name@ == registry_names()[7]);
    assert(r@[7].description@ == registry_descriptions()[7]);
    assert(r@[7].category@ == registry_categories()[7]);
    assert(r@[7].kind == registry_kinds()[7]);
    assert(views(r@[7].supported_stages@) == registry_stages()[7]);
    assert(r@[7].parameters_schema@ == registry_schemas()[7]);
    assert(is_registered_at(r@[7], 7));
    r.push(
        definition(
            "chapter_split",
            "拆章规划",
            "分析超载章节并生成可执行的拆章方案。",
            "规划",
            ToolKind::Read,
            &["draft", "revision"],
            true,
            "{\"additionalProperties\":false,\"properties\":{\"artifact_id\":{\"minimum\":1,\"type\":\"integer\"}},\"required\":[\"artifact_id\"],\"type\":\"object\"}",
        ),
    );
    assert(r@[8].key@ == registry_keys()[8]);
    assert(r@[8].name@ == registry_names()[8]);
    assert(r@[8].description@ == registry_descriptions()[8]);
    assert(r@[8].category@ == registry_categories()[8]);
    assert(r@[8].kind == registry_kinds()[8]);
    assert(views(r@[8].supported_stages@) == registry_stages()[8]);
    assert(r@[8].parameters_schema@ == registry_schemas()[8]);
    assert(is_registered_at(r@[8], 8));
    r.push(
        definition(
            "web_search",
            "网络搜索",
            "仅在人工明确要求联网时查询现实资料；结果不自动成为 Canon。",
            "研究",
            ToolKind::Read,
            &["setting", "outline", "characters", "draft", "review", "revision"],
            true,
            "{\"additionalProperties\":false,\"properties\":{\"query\":{\"maxLength\":240,\"minLength\":1,\"type\":\"string\"}},\"required\":[\"query\"],\"type\":\"object\"}",
        ),
    );
    assert(r@[9].key@ == registry_keys()[9]);
    assert(r@[9].name@ == registry_names()[9]);
    assert(r@[9].description@ == registry_descriptions()[9]);
    assert(r@[9].category@ == registry_categories()[9]);
    assert(r@[9].kind == registry_kinds()[9]);
    assert(views(r@[9].supported_stages@) == registry_stages()[9]);
    assert(r@[9].parameters_schema@ == registry_schemas()[9]);
    assert(is_registered_at(r@[9], 9));
    r.push(
        definition(
            "replace_text",
            "替换文本",
            "在当前章节候选稿中，按唯一原文锚点替换一处文本；生成章节修订候选，不直接覆盖正文。",
            "章节修订",
            ToolKind::Proposal,
            &["draft", "revision"],
            false,
            "{\"additionalProperties\":false,\"properties\":{\"artifact_id\":{\"minimum\":1,\"type\":\"integer\"},\"find_text\":{\"minLength\":1,\"type\":\"string\"},\"note\":{\"maxLength\":500,\"type\":\"string\"},\"replace_text\":{\"type\":\"string\"}},\"required\":[\"artifact_id\",\"find_text\",\"replace_text\"],\"type\":\"object\"}",
        ),
    );
    assert(r@[10].key@ == registry_keys()[10]);
    assert(r@[10].name@ == registry_names()[10]);
    assert(r@[10].description@ == registry_descriptions()[10]);
    assert(r@[10].category@ == registry_categories()[10]);
    assert(r@[10].kind == registry_kinds()[10]);
    assert(views(r@[10].supported_stages@) == registry_stages()[10]);
    assert(r@[10].parameters_schema@ == registry_schemas()[10]);
    assert(is_registered_at(r@[10], 10));
    r.push(
        definition(
            "insert_after",
            "插入文本",
            "在当前章节候选稿的唯一原文锚点后插入文本；生成章节修订候选。",
            "章节修订",
            ToolKind::Proposal,
            &["draft", "revision"],
            false,
            "{\"additionalProperties\":false,\"properties\":{\"anchor_text\":{\"minLength\":1,\"type\":\"string\"},\"artifact_id\":{\"minimum\":1,\"type\":\"integer\"},\"insert_text\":{\"minLength\":1,\"type\":\"string\"},\"note\":{\"maxLength\":500,\"type\":\"string\"}},\"required\":[\"artifact_id\",\"anchor_text\",\"insert_text\"],\"type\":\"object\"}",
        ),
    );
    assert(r@[11].key@ == registry_keys()[11]);
    assert(r@[11].name@ == registry_names()[11]);
    assert(r@[11].description@ == registry_descriptions()[11]);
    assert(r@[11].category@ == registry_categories()[11]);
    assert(r@[11].kind == registry_kinds()[11]);
    assert(views(r@[11].supported_stages@) == registry_stages()[11]);
    assert(r@[11].parameters_schema@ == registry_schemas()[11]);
    assert(is_registered_at(r@[11], 11));
    r.push(
        definition(
            "delete_range",
            "删除范围",
            "删除当前章节候选稿中唯一匹配的原文范围；生成章节修订候选。",
            "章节修订",
            ToolKind::Proposal,
            &["draft", "revision"],
            false,
            "{\"additionalProperties\":false,\"properties\":{\"artifact_id\":{\"minimum\":1,\"type\":\"integer\"},\"find_text\":{\"minLength\":1,\"type\":\"string\"},\"note\":{\"maxLength\":500,\"type\":\"string\"}},\"required\":[\"artifact_id\",\"find_text\"],\"type\":\"object\"}",
        ),
    );
    assert(r@[12].key@ == registry_keys()[12]);
    assert(r@[12].name@ == registry_names()[12]);
    assert(r@[12].description@ == registry_descriptions()[12]);
    assert(r@[12].category@ == registry_categories()[12]);
    assert(r@[12].kind == registry_kinds()[12]);
    assert(views(r@[12].supported_stages@) == registry_stages()[12]);
    assert(r@[12].parameters_schema@ == registry_schemas()[12]);
    assert(is_registered_at(r@[12], 12));
    r.push(
        definition(
            "apply_patch",
            "应用多处修订",
            "按顺序应用多条基于唯一原文锚点的章节修订；生成一个章节修订候选。",
            "章节修订",
            ToolKind::Proposal,
            &["draft", "revision"],
            false,
            "{\"additionalProperties\":false,\"properties\":{\"artifact_id\":{\"minimum\":1,\"type\":\"integer\"},\"note\":{\"maxLength\":500,\"type\":\"string\"},\"operations\":{\"items\":{\"additionalProperties\":false,\"properties\":{\"anchor_text\":{\"type\":\"string\"},\"find_text\":{\"type\":\"string\"},\"insert_text\":{\"type\":\"string\"},\"replace_text\":{\"type\":\"string\"},\"type\":{\"enum\":[\"replace_text\",\"insert_after\",\"delete_range\"],\"type\":\"string\"}},\"required\":[\"type\"],\"type\":\"object\"},\"minItems\":1,\"type\":\"array\"}},\"required\":[\"artifact_id\",\"operations\"],\"type\":\"object\"}",
        ),
    );
    assert(r@[13].key@ == registry_keys()[13]);
    assert(r@[13].name@ == registry_names()[13]);
    assert(r@[13].description@ == registry_descriptions()[13]);
    assert(r@[13].category@ == registry_categories()[13]);
    assert(r@[13].kind == registry_kinds()[13]);
    assert(views(r@[13].supported_stages@) == registry_stages()[13]);
    assert(r@[13].parameters_schema@ == registry_schemas()[13]);
    assert(is_registered_at(r@[13], 13));
    r.push(
        definition(
            "propose_create_chapter",
            "提议创建章节",
            "创建一个待人工确认的新章节提案，不直接写入章节表。",
            "章节创建",
            ToolKind::Proposal,
            &["setting", "outline", "characters"],
            false,
            "{\"additionalProperties\":false,\"properties\":{\"title\":{\"maxLength\":120,\"minLength\":1,\"type\":\"string\"}},\"required\":[\"title\"],\"type\":\"object\"}",
        ),
    );
    assert(r@[14].key@ == registry_keys()[14]);
    assert(r@[14].name@ == registry_names()[14]);
    assert(r@[14].description@ == registry_descriptions()[14]);
    assert(r@[14].category@ == registry_categories()[14]);
    assert(r@[14].kind == registry_kinds()[14]);
    assert(views(r@[14].supported_stages@) == registry_stages()[14]);
    assert(r@[14].parameters_schema@ == registry_schemas()[14]);
    assert(is_registered_at(r@[14], 14));
    r.push(
        definition(
            "propose_rename_chapter",
            "提议重命名章节",
            "创建章节重命名提案，不直接修改章节。",
            "章节修订",
            ToolKind::Proposal,
            &["setting", "outline", "characters", "draft", "review", "revision"],
            false,
            "{\"additionalProperties\":false,\"properties\":{\"chapter_id\":{\"minimum\":1,\"type\":\"integer\"},\"title\":{\"maxLength\":120,\"minLength\":1,\"type\":\"string\"}},\"required\":[\"chapter_id\",\"title\"],\"type\":\"object\"}",
        ),
    );
    assert(r@[15].key@ == registry_keys()[15]);
    assert(r@[15].name@ == registry_names()[15]);
    assert(r@[15].description@ == registry_descriptions()[15]);
    assert(r@[15].category@ == registry_categories()[15]);
    assert(r@[15].kind == registry_kinds()[15]);
    assert(views(r@[15].supported_stages@) == registry_stages()[15]);
    assert(r@[15].parameters_schema@ == registry_schemas()[15]);
    assert(is_registered_at(r@[15], 15));
    r.push(
        definition(
            "propose_artifact_candidate",
            "提议资料候选版本",
            "为设定、大纲或角色资料创建待人工确认的候选版本。",
            "编辑提案",
            ToolKind::Proposal,
            &["setting", "outline", "characters"],
            false,
            "{\"additionalProperties\":false,\"properties\":{\"content\":{\"minLength\":1,\"type\":\"string\"},\"stage\":{\"enum\":[\"setting\",\"outline\",\"characters\"],\"type\":\"string\"},\"title\":{\"maxLength\":160,\"minLength\":1,\"type\":\"string\"}},\"required\":[\"stage\",\"title\",\"content\"],\"type\":\"object\"}",
        ),
    );
    assert(r@[16].key@ == registry_keys()[16]);
    assert(r@[16].name@ == registry_names()[16]);
    assert(r@[16].description@ == registry_descriptions()[16]);
    assert(r@[16].category@ == registry_categories()[16]);
    assert(r@[16].kind == registry_kinds()[16]);
    assert(views(r@[16].supported_stages@) == registry_stages()[16]);
    assert(r@[16].parameters_schema@ == registry_schemas()[16]);
    assert(is_registered_at(r@[16], 16));
    r.push(
        definition(
            "propose_knowledge_card",
            "提议知识卡",
            "创建待人工确认的知识卡提案。",
            "编辑提案",
            ToolKind::Proposal,
            &["setting", "outline", "characters", "draft", "review", "revision"],
            false,
            "{\"additionalProperties\":false,\"properties\":{\"category\":{\"maxLength\":80,\"minLength\":1,\"type\":\"string\"},\"content\":{\"minLength\":1,\"type\":\"string\"},\"title\":{\"maxLength\":160,\"minLength\":1,\"type\":\"string\"}},\"required\":[\"category\",\"title\",\"content\"],\"type\":\"object\"}",
        ),
    );
    assert(r@[17].key@ == registry_keys()[17]);
    assert(r@[17].name@ == registry_names()[17]);
    assert(r@[17].description@ == registry_descriptions()[17]);
    assert(r@[17].category@ == registry_categories()[17]);
    assert(r@[17].kind == registry_kinds()[17]);
    assert(views(r@[17].supported_stages@) == registry_stages()[17]);
    assert(r@[17].parameters_schema@ == registry_schemas()[17]);
    assert(is_registered_at(r@[17], 17));
    r.push(
        definition(
            "propose_update_knowledge_card",
            "更新知识卡",
            "更新已存在知识卡的标题、类型或内容，创建待人工确认的提案。",
            "编辑提案",
            ToolKind::Proposal,
            &["setting", "outline", "characters", "draft", "review", "revision"],
            false,
            "{\"additionalProperties\":false,\"properties\":{\"card_id\":{\"minimum\":1,\"type\":\"integer\"},\"category\":{\"maxLength\":80,\"minLength\":1,\"type\":\"string\"},\"content\":{\"minLength\":1,\"type\":\"string\"},\"title\":{\"maxLength\":160,\"minLength\":1,\"type\":\"string\"}},\"required\":[\"card_id\",\"category\",\"title\",\"content\"],\"type\":\"object\"}",
        ),
    );
    assert(r@[18].key@ == registry_keys()[18]);
    assert(r@[18].name@ == registry_names()[18]);
    assert(r@[18].description@ == registry_descriptions()[18]);
    assert(r@[18].category@ == registry_categories()[18]);
    assert(r@[18].kind == registry_kinds()[18]);
    assert(views(r@[18].supported_stages@) == registry_stages()[18]);
    assert(r@[18].parameters_schema@ == registry_schemas()[18]);
    assert(is_registered_at(r@[18], 18));
    r.push(
        definition(
            "propose_delete_knowledge_card",
            "删除知识卡",
            "删除已存在的知识卡，创建待人工确认的提案。",
            "编辑提案",
            ToolKind::Proposal,
            &["setting", "outline", "characters", "draft", "review", "revision"],
            false,
            "{\"additionalProperties\":false,\"properties\":{\"card_id\":{\"minimum\":1,\"type\":\"integer\"}},\"required\":[\"card_id\"],\"type\":\"object\"}",
        ),
    );
    assert(r@[19].key@ == registry_keys()[19]);
    assert(r@[19].name@ == registry_names()[19]);
    assert(r@[19].description@ == registry_descriptions()[19]);
    assert(r@[19].category@ == registry_categories()[19]);
    assert(r@[19].kind == registry_kinds()[19]);
    assert(views(r@[19].supported_stages@) == registry_stages()[19]);
    assert(r@[19].parameters_schema@ == registry_schemas()[19]);
    assert(is_registered_at(r@[19], 19));
    r.push(
        definition(
            "propose_foreshadowing",
            "提议伏笔",
            "创建待人工确认的伏笔提案。",
            "编辑提案",
            ToolKind::Proposal,
            &["setting", "outline", "characters", "draft", "review", "revision"],
            false,
            "{\"additionalProperties\":false,\"properties\":{\"content\":{\"minLength\":1,\"type\":\"string\"},\"planned_payoff_note\":{\"maxLength\":500,\"type\":\"string\"},\"title\":{\"maxLength\":160,\"minLength\":1,\"type\":\"string\"}},\"required\":[\"title\",\"content\"],\"type\":\"object\"}",
        ),
    );
    assert(r@[20].key@ == registry_keys()[20]);
    assert(r@[20].name@ == registry_names()[20]);
    assert(r@[20].description@ == registry_descriptions()[20]);
    assert(r@[20].category@ == registry_categories()[20]);
    assert(r@[20].kind == registry_kinds()[20]);
    assert(views(r@[20].supported_stages@) == registry_stages()[20]);
    assert(r@[20].parameters_schema@ == registry_schemas()[20]);
    assert(is_registered_at(r@[20], 20));
    r
}

/// The registry keys of the read and delegate tools, without the legacy
/// history tool.
pub open spec fn default_key_filter(n: int) -> Seq<Seq<char>>
    decreases n,
{
    if n <= 0 {
        Seq::empty()
    } else {
        let rest = default_key_filter(n - 1);
        let k = registry_kinds()[n - 1];
        if (k == ToolKind::Read || k == ToolKind::Delegate) && registry_keys()[n - 1] != "history_context"@ {
            rest.push(registry_keys()[n - 1])
        } else {
            rest
        }
    }
}

/// The tools enabled for an agent by default: every read and delegate tool
/// except the legacy history tool, in registry order.
pub fn default_keys() -> (r: Vec<String>)
    ensures
        views(r@) == default_key_filter(registry_len()),
{
    let defs = definitions();
    let mut r: Vec<String> = Vec::new();
    let mut i: usize = 0;
    while i < defs.len()
        invariant
            i <= defs.len(),
            defs@.len() == registry_len(),
            forall|k: int| 0 <= k < registry_len() ==> is_registered_at(#[trigger] defs@[k], k),
            views(r@) == default_key_filter(i as int),
        decreases defs.len() - i,
    {
        assert(is_registered_at(defs@[i as int], i as int));
        let kind = defs[i].kind;
        let keep = match kind {
            ToolKind::Read => true,
            ToolKind::Delegate => true,
            ToolKind::Proposal => false,
        };
        if keep && !str_eq(defs[i].key.as_str(), HISTORY_CONTEXT) {
            let ghost old_r = r@;
            r.push(defs[i].key.clone());
            assert(views(r@) =~= views(old_r).push(defs@[i as int].key@));
        }
        i = i + 1;
    }
    r
}

/// The registry keys selected by `keys` (compared after trimming), in
/// registry order, each at most once.
pub open spec fn selected_keys(keys: Seq<Seq<char>>, n: int) -> Seq<Seq<char>>
    decreases n,
{
    if n <= 0 {
        Seq::empty()
    } else {
        let rest = selected_keys(keys, n - 1);
        if exists|j: int| 0 <= j < keys.len() && trim(#[trigger] keys[j]) == registry_keys()[n - 1] {
            rest.push(registry_keys()[n - 1])
        } else {
            rest
        }
    }
}

/// Whether `key` equals one of `keys` once that is trimmed.
fn selects(keys: &[String], key: &str) -> (r: bool)
    ensures
        r == exists|j: int| 0 <= j < keys@.len() && trim(#[trigger] views(keys@)[j]) == key@,
{
    let kv = chars_of(key);
    let mut j: usize = 0;
    while j < keys.len()
        invariant
            j <= keys.len(),
            kv@ == key@,
            forall|m: int| 0 <= m < j ==> trim(#[trigger] views(keys@)[m]) != key@,
        decreases keys.len() - j,
    {
        let cv = chars_of(keys[j].as_str());
        let t = trim_chars(cv.as_slice());
        if chars_eq(t.as_slice(), kv.as_slice()) {
            assert(trim(views(keys@)[j as int]) == key@);
            return true;
        }
        j = j + 1;
    }
    false
}

/// The registered tools that an allowlist names, in registry order; unknown
/// keys are dropped and repeated keys kept once.
pub fn normalize_keys(keys: &[String]) -> (r: Vec<String>)
    ensures
        views(r@) == selected_keys(views(keys@), registry_len()),
{
    let defs = definitions();
    let mut r: Vec<String> = Vec::new();
    let mut i: usize = 0;
    while i < defs.len()
        invariant
            i <= defs.len(),
            defs@.len() == registry_len(),
            forall|k: int| 0 <= k < registry_len() ==> is_registered_at(#[trigger] defs@[k], k),
            views(r@) == selected_keys(views(keys@), i as int),
        decreases defs.len() - i,
    {
        assert(is_registered_at(defs@[i as int], i as int));
        if selects(keys, defs[i].key.as_str()) {
            let ghost old_r = r@;
            r.push(defs[i].key.clone());
            assert(views(r@) =~= views(old_r).push(defs@[i as int].key@));
        }
        i = i + 1;
    }
    r
}

/// Each registry key trims to itself.
proof fn lemma_registry_keys_trimmed()
    ensures
        forall|i: int| 0 <= i < registry_len() ==> trim(#[trigger] registry_keys()[i]) == registry_keys()[i],
{
    reveal_strlit("search_story");
    reveal_strlit("search_story_facts");
    reveal_strlit("history_context");
    reveal_strlit("reference_materials");
    reveal_strlit("chapter_memory");
    reveal_strlit("request_chapter_memory");
    reveal_strlit("continuity_check");
    reveal_strlit("quality_analysis");
    reveal_strlit("chapter_split");
    reveal_strlit("web_search");
    reveal_strlit("replace_text");
    reveal_strlit("insert_after");
    reveal_strlit("delete_range");
    reveal_strlit("apply_patch");
    reveal_strlit("propose_create_chapter");
    reveal_strlit("propose_rename_chapter");
    reveal_strlit("propose_artifact_candidate");
    reveal_strlit("propose_knowledge_card");
    reveal_strlit("propose_update_knowledge_card");
    reveal_strlit("propose_delete_knowledge_card");
    reveal_strlit("propose_foreshadowing");
    assert forall|i: int| 0 <= i < registry_len() implies trim(#[trigger] registry_keys()[i])
        == registry_keys()[i] by {
        lemma_trim_fixed(registry_keys()[i]);
    }
}

/// What `selected_keys(keys, m)` holds: registry keys before position `m`
/// that `keys` names, and each of those.
proof fn lemma_selected_contents(keys: Seq<Seq<char>>, m: int)
    requires
        0 <= m <= registry_len(),
    ensures
        forall|t: int|
            0 <= t < selected_keys(keys, m).len() ==> exists|i: int|
                0 <= i < m && #[trigger] selected_keys(keys, m)[t] == registry_keys()[i] && exists|j: int|
                    0 <= j < keys.len() && trim(#[trigger] keys[j]) == registry_keys()[i],
        forall|i: int|
            0 <= i < m && (exists|j: int| 0 <= j < keys.len() && trim(#[trigger] keys[j]) == registry_keys()[i])
                ==> selected_keys(keys, m).contains(#[trigger] registry_keys()[i]),
    decreases m,
{
    if m > 0 {
        lemma_selected_contents(keys, m - 1);
        let prev = selected_keys(keys, m - 1);
        let cur = selected_keys(keys, m);
        if exists|j: int| 0 <= j < keys.len() && trim(#[trigger] keys[j]) == registry_keys()[m - 1] {
            assert(cur == prev.push(registry_keys()[m - 1]));
            assert forall|t: int| 0 <= t < cur.len() implies exists|i: int|
                0 <= i < m && #[trigger] cur[t] == registry_keys()[i] && exists|j: int|
                    0 <= j < keys.len() && trim(#[trigger] keys[j]) == registry_keys()[i] by {
                if t < prev.len() {
                    assert(cur[t] == prev[t]);
                } else {
                    assert(cur[t] == registry_keys()[m - 1]);
                }
            }
            assert forall|i: int|
                0 <= i < m && (exists|j: int| 0 <= j < keys.len() && trim(#[trigger] keys[j]) == registry_keys()[i])
                implies cur.contains(#[trigger] registry_keys()[i]) by {
                if i < m - 1 {
                    let t = choose|t: int| 0 <= t < prev.len() && prev[t] == registry_keys()[i];
                    assert(cur[t] == prev[t]);
                } else {
                    assert(cur[prev.len() as int] == registry_keys()[i]);
                }
            }
        } else {
            assert(cur == prev);
        }
    }
}

/// Selecting again from what was selected selects the same keys.
proof fn lemma_selected_again(keys: Seq<Seq<char>>, m: int)
    requires
        0 <= m <= registry_len(),
    ensures
        selected_keys(selected_keys(keys, registry_len()), m) == selected_keys(keys, m),
    decreases m,
{
    if m > 0 {
        lemma_selected_again(keys, m - 1);
        lemma_selected_contents(keys, registry_len());
        lemma_registry_keys_trimmed();
        let s = selected_keys(keys, registry_len());
        let r = registry_keys()[m - 1];
        let in_keys = exists|j: int| 0 <= j < keys.len() && trim(#[trigger] keys[j]) == r;
        let in_s = exists|j: int| 0 <= j < s.len() && trim(#[trigger] s[j]) == r;
        if in_keys {
            assert(s.contains(registry_keys()[m - 1]));
            let t = choose|t: int| 0 <= t < s.len() && s[t] == r;
            assert(trim(s[t]) == r);
        }
        if in_s {
            let j = choose|j: int| 0 <= j < s.len() && trim(#[trigger] s[j]) == r;
            let i = choose|i: int|
                0 <= i < registry_len() && #[trigger] s[j] == registry_keys()[i] && exists|j2: int|
                    0 <= j2 < keys.len() && trim(#[trigger] keys[j2]) == registry_keys()[i];
            assert(trim(registry_keys()[i]) == registry_keys()[i]);
            let j2 = choose|j2: int| 0 <= j2 < keys.len() && trim(#[trigger] keys[j2]) == registry_keys()[i];
            assert(trim(keys[j2]) == r);
        }
        assert(in_keys == in_s);
    }
}

/// No two registry positions hold the same key.
proof fn lemma_registry_keys_distinct()
    ensures
        forall|i: int, j: int|
            0 <= i < j < registry_len() ==> #[trigger] registry_keys()[i] != #[trigger] registry_keys()[j],
{
    reveal_strlit("search_story");
    reveal_strlit("search_story_facts");
    reveal_strlit("history_context");
    reveal_strlit("reference_materials");
    reveal_strlit("chapter_memory");
    reveal_strlit("request_chapter_memory");
    reveal_strlit("continuity_check");
    reveal_strlit("quality_analysis");
    reveal_strlit("chapter_split");
    reveal_strlit("web_search");
    reveal_strlit("replace_text");
    reveal_strlit("insert_after");
    reveal_strlit("delete_range");
    reveal_strlit("apply_patch");
    reveal_strlit("propose_create_chapter");
    reveal_strlit("propose_rename_chapter");
    reveal_strlit("propose_artifact_candidate");
    reveal_strlit("propose_knowledge_card");
    reveal_strlit("propose_update_knowledge_card");
    reveal_strlit("propose_delete_knowledge_card");
    reveal_strlit("propose_foreshadowing");
    assert forall|i: int, j: int| 0 <= i < j < registry_len() implies #[trigger] registry_keys()[i]
        != #[trigger] registry_keys()[j] by {
        let a = registry_keys()[i];
        let b = registry_keys()[j];
        if a.len() == b.len() {
            assert(a[0] != b[0] || a[1] != b[1] || a[2] != b[2] || a[8] != b[8] || a[9] != b[9]
                || a[10] != b[10]);
        }
    }
}

/// Each key occurs at most once in `selected_keys(keys, m)`.
proof fn lemma_selected_unique(keys: Seq<Seq<char>>, m: int)
    requires
        0 <= m <= registry_len(),
    ensures
        forall|a: int, b: int|
            0 <= a < b < selected_keys(keys, m).len() ==> #[trigger] selected_keys(keys, m)[a]
                != #[trigger] selected_keys(keys, m)[b],
    decreases m,
{
    if m > 0 {
        lemma_selected_unique(keys, m - 1);
        lemma_selected_contents(keys, m - 1);
        lemma_registry_keys_distinct();
        let prev = selected_keys(keys, m - 1);
        let cur = selected_keys(keys, m);
        if exists|j: int| 0 <= j < keys.len() && trim(#[trigger] keys[j]) == registry_keys()[m - 1] {
            assert(cur == prev.push(registry_keys()[m - 1]));
            assert forall|a: int, b: int| 0 <= a < b < cur.len() implies #[trigger] cur[a]
                != #[trigger] cur[b] by {
                assert(cur[a] == prev[a]);
                if b < prev.len() {
                    assert(cur[b] == prev[b]);
                } else {
                    let i = choose|i: int|
                        0 <= i < m - 1 && #[trigger] prev[a] == registry_keys()[i] && exists|j: int|
                            0 <= j < keys.len() && trim(#[trigger] keys[j]) == registry_keys()[i];
                    assert(registry_keys()[i] != registry_keys()[m - 1]);
                }
            }
        }
    }
}

/// A normalized allowlist names each tool at most once.
pub proof fn normalized_keys_are_unique(keys: Seq<Seq<char>>)
    ensures
        forall|a: int, b: int|
            0 <= a < b < selected_keys(keys, registry_len()).len() ==> #[trigger] selected_keys(
                keys,
                registry_len(),
            )[a] != #[trigger] selected_keys(keys, registry_len())[b],
{
    lemma_selected_unique(keys, registry_len());
}

/// An empty allowlist selects no tool.
pub proof fn normalize_keys_of_nothing()
    ensures
        selected_keys(Seq::empty(), registry_len()) == Seq::<Seq<char>>::empty(),
{
    lemma_selected_contents(Seq::empty(), registry_len());
    assert(selected_keys(Seq::empty(), registry_len()).len() == 0) by {
        if selected_keys(Seq::empty(), registry_len()).len() > 0 {
            let s = selected_keys(Seq::<Seq<char>>::empty(), registry_len());
            assert(s[0] == s[0]);
        }
    }
}

/// Normalizing an allowlist that was already normalized changes nothing.
pub proof fn normalize_keys_is_idempotent(keys: Seq<Seq<char>>)
    ensures
        selected_keys(selected_keys(keys, registry_len()), registry_len()) == selected_keys(
            keys,
            registry_len(),
        ),
{
    lemma_selected_again(keys, registry_len());
}

/// Whether an allowlist holds `key` exactly.
pub fn has_tool(keys: &[String], key: &str) -> (r: bool)
    ensures
        r == views(keys@).contains(key@),
{
    let mut i: usize = 0;
    while i < keys.len()
        invariant
            i <= keys.len(),
            forall|m: int| 0 <= m < i ==> keys@[m]@ != key@,
        decreases keys.len() - i,
    {
        if str_eq(keys[i].as_str(), key) {
            assert(views(keys@)[i as int] == key@);
            return true;
        }
        i = i + 1;
    }
    assert(!views(keys@).contains(key@)) by {
        if views(keys@).contains(key@) {
            let m = choose|m: int| 0 <= m < views(keys@).len() && views(keys@)[m] == key@;
            assert(keys@[m]@ == key@);
        }
    }
    false
}

/// The first position of `key` in `keys`.
pub open spec fn first_index_of(keys: Seq<Seq<char>>, key: Seq<char>) -> Option<int>
    decreases keys.len(),
{
    if keys.len() == 0 {
        None
    } else {
        match first_index_of(keys.drop_last(), key) {
            Some(i) => Some(i),
            None => if keys.last() == key {
                Some(keys.len() - 1)
            } else {
                None
            },
        }
    }
}

proof fn lemma_first_index_at(keys: Seq<Seq<char>>, key: Seq<char>, i: int)
    requires
        0 <= i < keys.len(),
        keys[i] == key,
        forall|k: int| 0 <= k < i ==> keys[k] != key,
    ensures
        first_index_of(keys, key) == Some(i),
    decreases keys.len(),
{
    if i < keys.len() - 1 {
        lemma_first_index_at(keys.drop_last(), key, i);
    } else {
        lemma_first_index_none(keys.drop_last(), key);
    }
}

proof fn lemma_first_index_none(keys: Seq<Seq<char>>, key: Seq<char>)
    requires
        forall|k: int| 0 <= k < keys.len() ==> keys[k] != key,
    ensures
        first_index_of(keys, key) is None,
    decreases keys.len(),
{
    if keys.len() > 0 {
        lemma_first_index_none(keys.drop_last(), key);
    }
}

/// The registered tool whose key is `key`, if any: the first one
/// registered with it.
pub fn get(key: &str) -> (r: Option<AgentToolDefinition>)
    ensures
        match r {
            Some(d) => exists|i: int| 0 <= i < registry_len() && registry_keys()[i] == key@ && is_registered_at(d, i),
            None => !registry_keys().contains(key@),
        },
        match first_index_of(registry_keys(), key@) {
            Some(i) => r matches Some(d) && is_registered_at(d, i),
            None => r is None,
        },
{
    let mut defs = definitions();
    let ghost all = defs@;
    let n = defs.len();
    let mut i: usize = 0;
    while i < n
        invariant
            i <= n == registry_len(),
            defs@ == all,
            all.len() == registry_len(),
            forall|k: int| 0 <= k < registry_len() ==> is_registered_at(#[trigger] all[k], k),
            forall|k: int| 0 <= k < i ==> registry_keys()[k] != key@,
        decreases n - i,
    {
        assert(is_registered_at(all[i as int], i as int));
        if str_eq(defs[i].key.as_str(), key) {
            let d = defs.swap_remove(i);
            assert(d == all[i as int]);
            proof {
                lemma_first_index_at(registry_keys(), key@, i as int);
            }
            return Some(d);
        }
        i = i + 1;
    }
    assert(!registry_keys().contains(key@)) by {
        if registry_keys().contains(key@) {
            let m = choose|m: int| 0 <= m < registry_keys().len() && registry_keys()[m] == key@;
            assert(registry_keys()[m] != key@);
        }
    }
    proof {
        lemma_first_index_none(registry_keys(), key@);
    }
    None
}

} // verus!
