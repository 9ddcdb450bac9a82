//! Genre writing skills: routing a project genre to its skill, and rendering the
//! stage-scoped part of a skill template into an agent prompt.
use vstd::prelude::*;

use crate::stage::{stage_name, stage_title, Stage};
use crate::text::{
    append, begins, blank, char_views, chars_eq, chars_of, concat, contains_any_of, contains_any_seq,
    is_blank, is_ws, join, join_strings, lines, lines_of, owned, starts_with, str_eq, str_views,
    string_of, trim, trim_chars, trim_end, trim_start, trimmed, views,
};

verus! {

pub const GENERAL_SERIALIZED_FALLBACK: &'static str = "# General Serialized Skill\n\n## Always\n- 以读者承诺、人物欲望和章节推进为核心，保持稳定追读。\n- 每章都要有可感知的状态变化，不强制固定场景数或危险式章末钩子。\n\n## Stage: setting\n- 明确故事承诺、主角欲望和长期阻力。\n\n## Stage: outline\n- 每章写清进入状态、章节模式、目标与结束时的变化。\n\n## Stage: characters\n- 为主要角色写清欲望、缺陷、关系与可变化的空间。\n\n## Stage: draft\n- 进入状态、章节模式、目标在开篇尽快落地；不强制危险、反转或悬念句。\n- 若结尾功能不足，用已有冲突推进，不凭空补新危险。\n\n## Stage: review\n- 检查章节功能是否兑现、人物选择是否主动、信息是否过密。\n\n## Stage: revision\n- 只修正试读指出的问题，不引入来源中不存在的新事实。\n";

pub const URBAN_SUPERNATURAL_FALLBACK: &'static str = "# Urban Supernatural Skill\n\n## Always\n- 维护能力合同：能力边界、成长代价与暴露风险必须前后一致。\n- 超常能力进入现代社会后要有身份、资源、组织与现实关系的反馈。\n\n## Stage: setting\n- 写清能力来源、上限、代价以及社会如何感知异常。\n\n## Stage: outline\n- 每个阶段安排能力成长与相应代价，不把故事默认写成案件调查。\n\n## Stage: characters\n- 写清角色与能力、组织和普通生活之间的牵扯。\n\n## Stage: draft\n- 能力使用必须符合既有合同，不为了过关临时扩充能力。\n\n## Stage: review\n- 检查能力是否越界、代价是否兑现、社会反馈是否缺席。\n\n## Stage: revision\n- 用已有能力和代价修正问题，不新增能力解释冲突。\n";

pub const MYSTERY_FALLBACK: &'static str = "# Mystery Skill\n\n## Always\n- 维护谜面、证据链、知情差与解释竞争。\n- 线索必须有来源，推理必须可追溯，对读者保持公平。\n\n## Stage: setting\n- 写清核心谜面、真相边界与公平线索的投放原则。\n\n## Stage: outline\n- 每章推进证据或嫌疑变化，不用无来源的新证据制造反转。\n\n## Stage: characters\n- 写清每个角色的知情边界与隐瞒动机。\n\n## Stage: draft\n- 角色只能依据已知线索推理，不替角色得出正文未证明的结论。\n\n## Stage: review\n- 检查线索来源、知情边界和推理链是否可追溯。\n\n## Stage: revision\n- 修正推理断点，不新增过去事件解释冲突。\n";

pub const XIANXIA_POWER_FANTASY_FALLBACK: &'static str = "# Xianxia Power Fantasy Skill\n\n## Always\n- 题材定位：男频修仙/升级流，核心是资源循环、修炼成长、压迫链与阶段性收益。\n- 维护实力边界、资源来源和升级代价，不把一次性触发偷换成永久能力。\n\n## Stage: setting\n- 写清境界体系、资源来源、升级代价和压迫链。\n\n## Stage: outline\n- 区分不同章节模式：发育修炼章、资源争夺章、冲突爆发章、过渡章。\n\n## Stage: characters\n- 写清主角的成长路线、对手的实力边界和资源关系。\n\n## Stage: draft\n- 按本章模式写作：发育修炼章写清资源投入、修炼过程和可感知的进度增量。\n- 爽点要兑现在实力、资源或地位变化上，不要连续堆谜团而不给进度。\n\n## Stage: review\n- 检查收益是否兑现、实力是否越界、资源来源是否清楚。\n\n## Stage: revision\n- 用已有资源与代价修正问题，不临时新增能力或设定。\n";

pub const CONTINUITY_AND_AGENCY_FALLBACK: &'static str = "# Continuity And Agency Skill\n\n## Always\n- 旧角色只知道正文已经让其知道的信息，物件状态以最后一次明确确认为准。\n- 主角的推进应来自主动选择，探索章控制信息密度。\n\n## Stage: draft\n- 引用旧物件、旧伤势和旧承诺前先核对末态。\n\n## Stage: review\n- 检查知情边界、物件状态和主角主动性。\n\n## Stage: revision\n- 修正连续性断点，不用新增设定解释冲突。\n";

/// The four genre skills.
#[derive(Debug, Clone, Copy, PartialEq, Eq, Structural)]
pub enum GenreSkillKind {
    GeneralSerialized,
    UrbanSupernatural,
    Mystery,
    XianxiaPowerFantasy,
}

/// The identifier of a genre skill.
pub open spec fn skill_name(kind: GenreSkillKind) -> Seq<char> {
    match kind {
        GenreSkillKind::GeneralSerialized => "general_serialized"@,
        GenreSkillKind::UrbanSupernatural => "urban_supernatural"@,
        GenreSkillKind::Mystery => "mystery"@,
        GenreSkillKind::XianxiaPowerFantasy => "xianxia_power_fantasy"@,
    }
}

/// The built-in template of a genre skill.
pub open spec fn fallback_text(kind: GenreSkillKind) -> Seq<char> {
    match kind {
        GenreSkillKind::GeneralSerialized => GENERAL_SERIALIZED_FALLBACK@,
        GenreSkillKind::UrbanSupernatural => URBAN_SUPERNATURAL_FALLBACK@,
        GenreSkillKind::Mystery => MYSTERY_FALLBACK@,
        GenreSkillKind::XianxiaPowerFantasy => XIANXIA_POWER_FANTASY_FALLBACK@,
    }
}

/// Markers of the xianxia / power-fantasy genre.
pub open spec fn xianxia_markers() -> Seq<Seq<char>> {
    seq!["修仙"@, "玄幻"@, "仙侠"@, "升级"@, "男频"@]
}

/// Markers of the mystery genre.
pub open spec fn mystery_markers() -> Seq<Seq<char>> {
    seq!["悬疑"@, "怪谈"@, "推理"@]
}

/// Markers of the urban supernatural genre.
pub open spec fn urban_markers() -> Seq<Seq<char>> {
    seq!["异能"@, "超能"@, "灵气复苏"@]
}

/// The skill that a lowercased genre text is routed to: xianxia markers win
/// over mystery markers, which win over urban supernatural markers.
pub open spec fn genre_for_text(lowered: Seq<char>) -> GenreSkillKind {
    if contains_any_seq(lowered, xianxia_markers()) {
        GenreSkillKind::XianxiaPowerFantasy
    } else if contains_any_seq(lowered, mystery_markers()) {
        GenreSkillKind::Mystery
    } else if contains_any_seq(lowered, urban_markers()) {
        GenreSkillKind::UrbanSupernatural
    } else {
        GenreSkillKind::GeneralSerialized
    }
}

/// The skill for an identifier, if the identifier names one.
pub open spec fn kind_for_name(id: Seq<char>) -> Option<GenreSkillKind> {
    if id == "general_serialized"@ {
        Some(GenreSkillKind::GeneralSerialized)
    } else if id == "urban_supernatural"@ {
        Some(GenreSkillKind::UrbanSupernatural)
    } else if id == "mystery"@ {
        Some(GenreSkillKind::Mystery)
    } else if id == "xianxia_power_fantasy"@ {
        Some(GenreSkillKind::XianxiaPowerFantasy)
    } else {
        None
    }
}

impl GenreSkillKind {
    /// The identifier of this skill.
    pub fn skill_id(self) -> (r: &'static str)
        ensures
            r@ == skill_name(self),
    {
        match self {
            GenreSkillKind::GeneralSerialized => "general_serialized",
            GenreSkillKind::UrbanSupernatural => "urban_supernatural",
            GenreSkillKind::Mystery => "mystery",
            GenreSkillKind::XianxiaPowerFantasy => "xianxia_power_fantasy",
        }
    }

    /// The built-in template of this skill.
    pub fn fallback_template(self) -> (r: &'static str)
        ensures
            r@ == fallback_text(self),
    {
        match self {
            GenreSkillKind::GeneralSerialized => GENERAL_SERIALIZED_FALLBACK,
            GenreSkillKind::UrbanSupernatural => URBAN_SUPERNATURAL_FALLBACK,
            GenreSkillKind::Mystery => MYSTERY_FALLBACK,
            GenreSkillKind::XianxiaPowerFantasy => XIANXIA_POWER_FANTASY_FALLBACK,
        }
    }
}

/// The Unicode lowercase mapping that `str::to_lowercase` computes.
pub uninterp spec fn unicode_lowercase(s: Seq<char>) -> Seq<char>;

/// `str::to_lowercase`: the result is the Unicode lowercase mapping of the
/// argument, a function of the argument alone. What that mapping is, character
/// by character, is not stated here.
#[verifier::external_body]
pub(crate) fn to_lowercase(s: &str) -> (r: String)
    ensures
        r@ == unicode_lowercase(s@),
{
    s.to_lowercase()
}

/// Routes an already lowercased genre text to its skill.
pub fn classify_lowered_genre(lowered: &str) -> (r: GenreSkillKind)
    ensures
        r == genre_for_text(lowered@),
{
    let v = chars_of(lowered);
    let xianxia: [&str; 5] = ["修仙", "玄幻", "仙侠", "升级", "男频"];
    let mystery: [&str; 3] = ["悬疑", "怪谈", "推理"];
    let urban: [&str; 3] = ["异能", "超能", "灵气复苏"];
    assert(str_views(xianxia@) == xianxia_markers());
    assert(str_views(mystery@) == mystery_markers());
    assert(str_views(urban@) == urban_markers());
    if contains_any_of(v.as_slice(), &xianxia) {
        GenreSkillKind::XianxiaPowerFantasy
    } else if contains_any_of(v.as_slice(), &mystery) {
        GenreSkillKind::Mystery
    } else if contains_any_of(v.as_slice(), &urban) {
        GenreSkillKind::UrbanSupernatural
    } else {
        GenreSkillKind::GeneralSerialized
    }
}

/// Routes a project genre to its skill: the genre is lowercased, then its
/// markers decide (see `genre_for_text`).
pub fn detect_genre_skill(genre: &str) -> (r: GenreSkillKind)
    ensures
        r == genre_for_text(unicode_lowercase(genre@)),
{
    let lowered = to_lowercase(genre);
    classify_lowered_genre(lowered.as_str())
}

/// The skill that an identifier names, if any.
pub fn genre_skill_for_id(skill_id: &str) -> (r: Option<GenreSkillKind>)
    ensures
        r == kind_for_name(skill_id@),
{
    if str_eq(skill_id, "general_serialized") {
        Some(GenreSkillKind::GeneralSerialized)
    } else if str_eq(skill_id, "urban_supernatural") {
        Some(GenreSkillKind::UrbanSupernatural)
    } else if str_eq(skill_id, "mystery") {
        Some(GenreSkillKind::Mystery)
    } else if str_eq(skill_id, "xianxia_power_fantasy") {
        Some(GenreSkillKind::XianxiaPowerFantasy)
    } else {
        None
    }
}

/// Every skill identifier leads back to its skill, and two skills never share
/// an identifier.
pub proof fn skill_id_round_trip(kind: GenreSkillKind, other: GenreSkillKind)
    ensures
        kind_for_name(skill_name(kind)) == Some(kind),
        skill_name(kind) == skill_name(other) ==> kind == other,
{
    lemma_skill_names_differ(kind, other);
    lemma_skill_names_differ(kind, GenreSkillKind::GeneralSerialized);
    lemma_skill_names_differ(kind, GenreSkillKind::UrbanSupernatural);
    lemma_skill_names_differ(kind, GenreSkillKind::Mystery);
}

proof fn lemma_skill_names_differ(a: GenreSkillKind, b: GenreSkillKind)
    ensures
        a != b ==> skill_name(a) != skill_name(b),
{
    reveal_strlit("general_serialized");
    reveal_strlit("urban_supernatural");
    reveal_strlit("mystery");
    reveal_strlit("xianxia_power_fantasy");
    if a != b {
        assert(skill_name(a)[0] != skill_name(b)[0]);
    }
}

/// A built-in writing skill of the app library.
pub struct DefaultWritingSkill {
    pub skill_key: &'static str,
    pub name: &'static str,
    pub category: &'static str,
    pub description: &'static str,
    pub content: &'static str,
}

/// The keys of the built-in writing skills, in library order.
pub open spec fn default_skill_keys() -> Seq<Seq<char>> {
    seq![
        "general_serialized"@,
        "urban_supernatural"@,
        "mystery"@,
        "xianxia_power_fantasy"@,
        "continuity_and_agency"@,
    ]
}

/// The built-in writing skills: the four genre skills, then the cross-genre
/// continuity skill.
pub fn default_writing_skills() -> (r: Vec<DefaultWritingSkill>)
    ensures
        r@.len() == 5,
        forall|i: int| 0 <= i < 5 ==> (#[trigger] r@[i]).skill_key@ == default_skill_keys()[i],
        forall|i: int| 0 <= i < 4 ==> (#[trigger] r@[i]).category@ == "genre"@,
        r@[4].category@ == "craft"@,
        r@[0].content@ == GENERAL_SERIALIZED_FALLBACK@,
        r@[1].content@ == URBAN_SUPERNATURAL_FALLBACK@,
        r@[2].content@ == MYSTERY_FALLBACK@,
        r@[3].content@ == XIANXIA_POWER_FANTASY_FALLBACK@,
        r@[4].content@ == CONTINUITY_AND_AGENCY_FALLBACK@,
        r@[0].name@ == "通用连载写法"@,
        r@[1].name@ == "都市异能"@,
        r@[2].name@ == "悬疑"@,
        r@[3].name@ == "男频修仙爽文"@,
        r@[4].name@ == "长篇连续性与主动性"@,
{
    let mut r: Vec<DefaultWritingSkill> = Vec::new();
    r.push(
        DefaultWritingSkill {
            skill_key: GenreSkillKind::GeneralSerialized.skill_id(),
            name: "通用连载写法",
            category: "genre",
            description: "适用于未细分题材的连载节奏、章节功能和修订原则。",
            content: GENERAL_SERIALIZED_FALLBACK,
        },
    );
    r.push(
        DefaultWritingSkill {
            skill_key: GenreSkillKind::UrbanSupernatural.skill_id(),
            name: "都市异能",
            category: "genre",
            description: "强调异能边界、现代社会反馈、身份变化和能力成长。",
            content: URBAN_SUPERNATURAL_FALLBACK,
        },
    );
    r.push(
        DefaultWritingSkill {
            skill_key: GenreSkillKind::Mystery.skill_id(),
            name: "悬疑",
            category: "genre",
            description: "强调谜面、证据链、知情边界、解释竞争和公平性。",
            content: MYSTERY_FALLBACK,
        },
    );
    r.push(
        DefaultWritingSkill {
            skill_key: GenreSkillKind::XianxiaPowerFantasy.skill_id(),
            name: "男频修仙爽文",
            category: "genre",
            description: "强调升级流长线发育、资源收益、压迫链和不同章节模式。",
            content: XIANXIA_POWER_FANTASY_FALLBACK,
        },
    );
    r.push(
        DefaultWritingSkill {
            skill_key: "continuity_and_agency",
            name: "长篇连续性与主动性",
            category: "craft",
            description: "跨题材补充旧角色已知信息、物件状态、主角主动选择和探索章控密度。",
            content: CONTINUITY_AND_AGENCY_FALLBACK,
        },
    );
    r
}

// ---------------------------------------------------------------------------
// Sections of a skill template
// ---------------------------------------------------------------------------
/// Scans template lines for the section under `marker`: whether the section is
/// being collected, whether it has ended, and the lines collected so far.
pub open spec fn section_scan(ls: Seq<Seq<char>>, marker: Seq<char>) -> (bool, bool, Seq<Seq<char>>)
    decreases ls.len(),
{
    if ls.len() == 0 {
        (false, false, Seq::empty())
    } else {
        let (collecting, stopped, acc) = section_scan(ls.drop_last(), marker);
        let line = ls.last();
        if stopped {
            (collecting, stopped, acc)
        } else if begins(trim(line), "## "@) {
            if collecting {
                (collecting, true, acc)
            } else {
                (trim(line) == marker, false, acc)
            }
        } else if collecting {
            (collecting, false, acc.push(line))
        } else {
            (collecting, false, acc)
        }
    }
}

/// The body of the section headed `## {heading}`: its lines joined and
/// trimmed.
pub open spec fn section_body(template: Seq<char>, heading: Seq<char>) -> Seq<char> {
    trim(join(section_scan(lines(template), "## "@ + heading).2, "\n"@))
}

/// The section headed `## {heading}`, preceded by a newline; empty when the
/// section is missing or blank.
pub open spec fn section_text(template: Seq<char>, heading: Seq<char>) -> Seq<char> {
    let body = section_body(template, heading);
    if body.len() == 0 {
        Seq::empty()
    } else {
        "\n"@ + body
    }
}

/// The section of `template` headed `## {heading}` (see `section_text`).
pub fn section(template: &str, heading: &str) -> (r: String)
    ensures
        r@ == section_text(template@, heading@),
{
    let marker = concat("## ", heading);
    let mv = chars_of(marker.as_str());
    let tv = chars_of(template);
    let ls = lines_of(tv.as_slice());
    let prefix = chars_of("## ");
    let mut collecting = false;
    let mut stopped = false;
    let mut collected: Vec<String> = Vec::new();
    let mut i: usize = 0;
    while i < ls.len()
        invariant
            i <= ls.len(),
            char_views(ls@) == lines(template@),
            mv@ == "## "@ + heading@,
            prefix@ == "## "@,
            (collecting, stopped, views(collected@)) == section_scan(
                char_views(ls@).take(i as int),
                mv@,
            ),
        decreases ls.len() - i,
    {
        let ghost before = char_views(ls@).take(i as int);
        assert(char_views(ls@).take(i + 1).drop_last() == before);
        assert(char_views(ls@).take(i + 1).last() == ls@[i as int]@);
        if !stopped {
            let trimmed = trim_chars(ls[i].as_slice());
            if starts_with(trimmed.as_slice(), prefix.as_slice()) {
                if collecting {
                    stopped = true;
                } else {
                    collecting = chars_eq(trimmed.as_slice(), mv.as_slice());
                }
            } else if collecting {
                let line = string_of(ls[i].as_slice());
                let ghost old_c = collected@;
                collected.push(line);
                assert(views(collected@) =~= views(old_c).push(line@));
            }
        }
        i = i + 1;
    }
    assert(char_views(ls@).take(ls.len() as int) == char_views(ls@));
    let joined = join_strings(collected.as_slice(), "\n");
    let body = trimmed(joined.as_str());
    if body.as_str().unicode_len() == 0 {
        String::new()
    } else {
        concat("\n", body.as_str())
    }
}

/// A stage-scoped skill as it is rendered into a prompt.
pub open spec fn scoped_skill_text(
    title: Seq<char>,
    source_label: Seq<char>,
    intro: Seq<char>,
    stage: Stage,
    template: Seq<char>,
) -> Seq<char> {
    let always = section_text(template, "Always"@);
    let stage_rules = section_text(template, "Stage: "@ + stage_name(stage));
    let head = "\n\n# "@ + title + "\nSkill 来源：应用内写作资料库 / "@ + trim(source_label) + "\n"@
        + trim(intro);
    let with_always = if !blank(always) {
        head + "\n\n## 通用规则"@ + always
    } else {
        head
    };
    if !blank(stage_rules) {
        with_always + "\n\n## "@ + stage_title(stage) + " 阶段规则"@ + stage_rules
    } else {
        with_always
    }
}

/// Renders the `Always` section and the section of `stage` of a skill
/// template under a title, a source label and an introduction.
pub fn render_stage_scoped_skill(
    title: &str,
    source_label: &str,
    intro: &str,
    stage: &Stage,
    template: &str,
) -> (r: String)
    ensures
        r@ == scoped_skill_text(title@, source_label@, intro@, *stage, template@),
{
    let always = section(template, "Always");
    let stage_heading = concat("Stage: ", stage.as_str());
    let stage_rules = section(template, stage_heading.as_str());
    let mut output = concat("\n\n# ", title);
    append(&mut output, "\nSkill 来源：应用内写作资料库 / ");
    let label = trimmed(source_label);
    append(&mut output, label.as_str());
    append(&mut output, "\n");
    let intro_t = trimmed(intro);
    append(&mut output, intro_t.as_str());
    if !is_blank(always.as_str()) {
        append(&mut output, "\n\n## 通用规则");
        append(&mut output, always.as_str());
    }
    if !is_blank(stage_rules.as_str()) {
        append(&mut output, "\n\n## ");
        append(&mut output, stage.title());
        append(&mut output, " 阶段规则");
        append(&mut output, stage_rules.as_str());
    }
    output
}

/// The introduction line of a rendered genre skill.
pub open spec fn genre_intro(genre: Seq<char>) -> Seq<char> {
    "当前项目题材："@ + trim(genre) + "。以下不是具体某本书的设定，而是这一类题材在当前阶段必须兑现的写法约束。"@
}

/// The source label of a rendered genre skill: the given skill id, or the id
/// of the genre's own skill when none is given.
pub open spec fn genre_source_label(genre: Seq<char>, skill_id: Seq<char>) -> Seq<char> {
    if blank(skill_id) {
        skill_name(genre_for_text(unicode_lowercase(genre)))
    } else {
        trim(skill_id)
    }
}

/// Renders a genre skill template for a stage.
pub fn render_genre_skill_from_template(
    genre: &str,
    stage: &Stage,
    skill_id: &str,
    template: &str,
) -> (r: String)
    ensures
        r@ == scoped_skill_text(
            "题材 Skill"@,
            genre_source_label(genre@, skill_id@),
            genre_intro(genre@),
            *stage,
            template@,
        ),
{
    let skill = detect_genre_skill(genre);
    let label = if is_blank(skill_id) {
        owned(skill.skill_id())
    } else {
        trimmed(skill_id)
    };
    let mut intro = concat("当前项目题材：", trimmed(genre).as_str());
    append(&mut intro, "。以下不是具体某本书的设定，而是这一类题材在当前阶段必须兑现的写法约束。");
    render_stage_scoped_skill("题材 Skill", label.as_str(), intro.as_str(), stage, template)
}

/// The template a skill is rendered from: the runtime copy when one was read,
/// else the built-in one.
pub fn load_skill_template(skill: GenreSkillKind, runtime: Option<String>) -> (r: String)
    ensures
        r@ == match runtime {
            Some(t) => t@,
            None => fallback_text(skill),
        },
{
    match runtime {
        Some(t) => t,
        None => owned(skill.fallback_template()),
    }
}

/// Renders the genre skill of a project for a stage, from the runtime
/// template when one was read, else from the built-in template.
pub fn render_genre_skill(genre: &str, stage: &Stage, runtime: Option<String>) -> (r: String)
    ensures
        r@ == scoped_skill_text(
            "题材 Skill"@,
            skill_name(genre_for_text(unicode_lowercase(genre@))),
            genre_intro(genre@),
            *stage,
            match runtime {
                Some(t) => t@,
                None => fallback_text(genre_for_text(unicode_lowercase(genre@))),
            },
        ),
{
    let skill = detect_genre_skill(genre);
    let template = load_skill_template(skill, runtime);
    let id = skill.skill_id();
    proof {
        reveal_strlit("general_serialized");
        reveal_strlit("urban_supernatural");
        reveal_strlit("mystery");
        reveal_strlit("xianxia_power_fantasy");
        lemma_skill_name_trimmed(skill);
    }
    render_genre_skill_from_template(genre, stage, id, template.as_str())
}

proof fn lemma_skill_name_trimmed(kind: GenreSkillKind)
    ensures
        !blank(skill_name(kind)),
        trim(skill_name(kind)) == skill_name(kind),
{
    reveal_strlit("general_serialized");
    reveal_strlit("urban_supernatural");
    reveal_strlit("mystery");
    reveal_strlit("xianxia_power_fantasy");
    let s = skill_name(kind);
    assert(!is_ws(s[0]));
    assert(trim_start(s) == s);
    assert(!is_ws(s.last()));
    assert(trim_end(s) == s);
}

} // verus!
