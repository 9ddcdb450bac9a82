//! Adopting what an agent extracted into the book's library: knowledge cards
//! and foreshadowings, with their fields normalized before anything is
//! written.
use vstd::prelude::*;

use crate::error::AppError;
use crate::genre_skill::{to_lowercase, unicode_lowercase};
use crate::ai_reply::{first_pos, first_pos_of, issue_span_reversed, last_pos, last_pos_of};
use crate::text::{
    begins, chars_of, ends_with, finishes, slice_of, starts_with, string_of, trim_chars,
    append, concat, contains_seq, decimal, decimal_of, owned, str_contains, str_eq, trim, trimmed, views,
};

verus! {

/// The target kind of a knowledge card.
pub const KNOWLEDGE_CARD: &'static str = "knowledge_card";

/// The target kind of a foreshadowing.
pub const FORESHADOWING: &'static str = "foreshadowing";

/// The status of a proposal awaiting a decision.
pub const PENDING: &'static str = "pending";

/// The operation of a candidate that names none.
pub fn default_operation() -> (r: String)
    ensures
        r@ == "create"@,
{
    owned("create")
}

/// Whether a foreshadowing status belongs to the canonical story: active,
/// ready for payoff, or resolved.
pub fn is_canonical_foreshadowing_status(status: &str) -> (r: bool)
    ensures
        r == (status@ == "active"@ || status@ == "ready_for_payoff"@ || status@ == "resolved"@),
{
    str_eq(status, "active") || str_eq(status, "ready_for_payoff") || str_eq(status, "resolved")
}

/// The category a name stands for, in the Unicode lowercase of its trimmed
/// form.
pub open spec fn category_for(lowered: Seq<char>) -> Option<Seq<char>> {
    if lowered == "world"@ || lowered == "世界"@ || lowered == "世界观"@ {
        Some("world"@)
    } else if lowered == "cultivation"@ || lowered == "修行"@ || lowered == "修行体系"@ {
        Some("cultivation"@)
    } else if lowered == "map"@ || lowered == "地图"@ || lowered == "地点"@ {
        Some("map"@)
    } else if lowered == "faction"@ || lowered == "势力"@ || lowered == "组织"@ {
        Some("faction"@)
    } else if lowered == "taboo"@ || lowered == "禁忌"@ || lowered == "边界"@ {
        Some("taboo"@)
    } else if lowered == "item"@ || lowered == "物件"@ || lowered == "道具"@ {
        Some("item"@)
    } else if lowered == "outline"@ || lowered == "大纲"@ {
        Some("outline"@)
    } else if lowered == "character"@ || lowered == "角色"@ || lowered == "人物"@ {
        Some("character"@)
    } else if lowered == "other"@ || lowered == "其他"@ {
        Some("other"@)
    } else {
        None
    }
}

/// The canonical category of a knowledge card (see `category_for` of the
/// lowercased trimmed name).
pub fn normalize_category(category: &str) -> (r: Option<&'static str>)
    ensures
        match category_for(unicode_lowercase(trim(category@))) {
            Some(c) => r is Some && r->0@ == c,
            None => r is None,
        },
{
    let t = trimmed(category);
    let l = to_lowercase(t.as_str());
    let c = l.as_str();
    if str_eq(c, "world") || str_eq(c, "世界") || str_eq(c, "世界观") {
        Some("world")
    } else if str_eq(c, "cultivation") || str_eq(c, "修行") || str_eq(c, "修行体系") {
        Some("cultivation")
    } else if str_eq(c, "map") || str_eq(c, "地图") || str_eq(c, "地点") {
        Some("map")
    } else if str_eq(c, "faction") || str_eq(c, "势力") || str_eq(c, "组织") {
        Some("faction")
    } else if str_eq(c, "taboo") || str_eq(c, "禁忌") || str_eq(c, "边界") {
        Some("taboo")
    } else if str_eq(c, "item") || str_eq(c, "物件") || str_eq(c, "道具") {
        Some("item")
    } else if str_eq(c, "outline") || str_eq(c, "大纲") {
        Some("outline")
    } else if str_eq(c, "character") || str_eq(c, "角色") || str_eq(c, "人物") {
        Some("character")
    } else if str_eq(c, "other") || str_eq(c, "其他") {
        Some("other")
    } else {
        None
    }
}

/// The names of the knowledge-card categories. Each of the nine canonical
/// names and each of its aliases, as a trimmed, lowercased name, stands for
/// the canonical name; no other name stands for any category.
pub proof fn category_names(lowered: Seq<char>)
    ensures
        (lowered == "world"@ || lowered == "世界"@ || lowered == "世界观"@) ==> category_for(lowered)
            == Some("world"@),
        (lowered == "cultivation"@ || lowered == "修行"@ || lowered == "修行体系"@) ==> category_for(
            lowered,
        ) == Some("cultivation"@),
        (lowered == "map"@ || lowered == "地图"@ || lowered == "地点"@) ==> category_for(lowered)
            == Some("map"@),
        (lowered == "faction"@ || lowered == "势力"@ || lowered == "组织"@) ==> category_for(lowered)
            == Some("faction"@),
        (lowered == "taboo"@ || lowered == "禁忌"@ || lowered == "边界"@) ==> category_for(lowered)
            == Some("taboo"@),
        (lowered == "item"@ || lowered == "物件"@ || lowered == "道具"@) ==> category_for(lowered)
            == Some("item"@),
        (lowered == "outline"@ || lowered == "大纲"@) ==> category_for(lowered) == Some("outline"@),
        (lowered == "character"@ || lowered == "角色"@ || lowered == "人物"@) ==> category_for(lowered)
            == Some("character"@),
        (lowered == "other"@ || lowered == "其他"@) ==> category_for(lowered) == Some("other"@),
        category_for(lowered) is Some ==> (lowered == "world"@ || lowered == "世界"@ || lowered
            == "世界观"@ || lowered == "cultivation"@ || lowered == "修行"@ || lowered == "修行体系"@
            || lowered == "map"@ || lowered == "地图"@ || lowered == "地点"@ || lowered == "faction"@
            || lowered == "势力"@ || lowered == "组织"@ || lowered == "taboo"@ || lowered == "禁忌"@
            || lowered == "边界"@ || lowered == "item"@ || lowered == "物件"@ || lowered == "道具"@
            || lowered == "outline"@ || lowered == "大纲"@ || lowered == "character"@ || lowered
            == "角色"@ || lowered == "人物"@ || lowered == "other"@ || lowered == "其他"@),
{
    reveal_strlit("world");
    reveal_strlit("世界");
    reveal_strlit("世界观");
    reveal_strlit("cultivation");
    reveal_strlit("修行");
    reveal_strlit("修行体系");
    reveal_strlit("map");
    reveal_strlit("地图");
    reveal_strlit("地点");
    reveal_strlit("faction");
    reveal_strlit("势力");
    reveal_strlit("组织");
    reveal_strlit("taboo");
    reveal_strlit("禁忌");
    reveal_strlit("边界");
    reveal_strlit("item");
    reveal_strlit("物件");
    reveal_strlit("道具");
    reveal_strlit("outline");
    reveal_strlit("大纲");
    reveal_strlit("character");
    reveal_strlit("角色");
    reveal_strlit("人物");
    reveal_strlit("other");
    reveal_strlit("其他");
    assert((lowered == "cultivation"@ || lowered == "修行"@ || lowered == "修行体系"@) ==> category_for(lowered) == Some("cultivation"@)) by {
        assert("修行"@[0] != "世界"@[0]);
    }
    assert((lowered == "map"@ || lowered == "地图"@ || lowered == "地点"@) ==> category_for(lowered) == Some("map"@)) by {
        assert("map"@[0] != "世界观"@[0]);
        assert("地图"@[0] != "世界"@[0]);
        assert("地图"@[0] != "修行"@[0]);
        assert("地点"@[0] != "世界"@[0]);
        assert("地点"@[0] != "修行"@[0]);
    }
    assert((lowered == "faction"@ || lowered == "势力"@ || lowered == "组织"@) ==> category_for(lowered) == Some("faction"@)) by {
        assert("势力"@[0] != "世界"@[0]);
        assert("势力"@[0] != "修行"@[0]);
        assert("势力"@[0] != "地图"@[0]);
        assert("势力"@[0] != "地点"@[0]);
        assert("组织"@[0] != "世界"@[0]);
        assert("组织"@[0] != "修行"@[0]);
        assert("组织"@[0] != "地图"@[0]);
        assert("组织"@[0] != "地点"@[0]);
    }
    assert((lowered == "taboo"@ || lowered == "禁忌"@ || lowered == "边界"@) ==> category_for(lowered) == Some("taboo"@)) by {
        assert("taboo"@[0] != "world"@[0]);
        assert("禁忌"@[0] != "世界"@[0]);
        assert("禁忌"@[0] != "修行"@[0]);
        assert("禁忌"@[0] != "地图"@[0]);
        assert("禁忌"@[0] != "地点"@[0]);
        assert("禁忌"@[0] != "势力"@[0]);
        assert("禁忌"@[0] != "组织"@[0]);
        assert("边界"@[0] != "世界"@[0]);
        assert("边界"@[0] != "修行"@[0]);
        assert("边界"@[0] != "地图"@[0]);
        assert("边界"@[0] != "地点"@[0]);
        assert("边界"@[0] != "势力"@[0]);
        assert("边界"@[0] != "组织"@[0]);
    }
    assert((lowered == "item"@ || lowered == "物件"@ || lowered == "道具"@) ==> category_for(lowered) == Some("item"@)) by {
        assert("item"@[0] != "修行体系"@[0]);
        assert("物件"@[0] != "世界"@[0]);
        assert("物件"@[0] != "修行"@[0]);
        assert("物件"@[0] != "地图"@[0]);
        assert("物件"@[0] != "地点"@[0]);
        assert("物件"@[0] != "势力"@[0]);
        assert("物件"@[0] != "组织"@[0]);
        assert("物件"@[0] != "禁忌"@[0]);
        assert("物件"@[0] != "边界"@[0]);
        assert("道具"@[0] != "世界"@[0]);
        assert("道具"@[0] != "修行"@[0]);
        assert("道具"@[0] != "地图"@[0]);
        assert("道具"@[0] != "地点"@[0]);
        assert("道具"@[0] != "势力"@[0]);
        assert("道具"@[0] != "组织"@[0]);
        assert("道具"@[0] != "禁忌"@[0]);
        assert("道具"@[0] != "边界"@[0]);
    }
    assert((lowered == "outline"@ || lowered == "大纲"@) ==> category_for(lowered) == Some("outline"@)) by {
        assert("outline"@[0] != "faction"@[0]);
        assert("大纲"@[0] != "世界"@[0]);
        assert("大纲"@[0] != "修行"@[0]);
        assert("大纲"@[0] != "地图"@[0]);
        assert("大纲"@[0] != "地点"@[0]);
        assert("大纲"@[0] != "势力"@[0]);
        assert("大纲"@[0] != "组织"@[0]);
        assert("大纲"@[0] != "禁忌"@[0]);
        assert("大纲"@[0] != "边界"@[0]);
        assert("大纲"@[0] != "物件"@[0]);
        assert("大纲"@[0] != "道具"@[0]);
    }
    assert((lowered == "character"@ || lowered == "角色"@ || lowered == "人物"@) ==> category_for(lowered) == Some("character"@)) by {
        assert("角色"@[0] != "世界"@[0]);
        assert("角色"@[0] != "修行"@[0]);
        assert("角色"@[0] != "地图"@[0]);
        assert("角色"@[0] != "地点"@[0]);
        assert("角色"@[0] != "势力"@[0]);
        assert("角色"@[0] != "组织"@[0]);
        assert("角色"@[0] != "禁忌"@[0]);
        assert("角色"@[0] != "边界"@[0]);
        assert("角色"@[0] != "物件"@[0]);
        assert("角色"@[0] != "道具"@[0]);
        assert("角色"@[0] != "大纲"@[0]);
        assert("人物"@[0] != "世界"@[0]);
        assert("人物"@[0] != "修行"@[0]);
        assert("人物"@[0] != "地图"@[0]);
        assert("人物"@[0] != "地点"@[0]);
        assert("人物"@[0] != "势力"@[0]);
        assert("人物"@[0] != "组织"@[0]);
        assert("人物"@[0] != "禁忌"@[0]);
        assert("人物"@[0] != "边界"@[0]);
        assert("人物"@[0] != "物件"@[0]);
        assert("人物"@[0] != "道具"@[0]);
        assert("人物"@[0] != "大纲"@[0]);
    }
    assert((lowered == "other"@ || lowered == "其他"@) ==> category_for(lowered) == Some("other"@)) by {
        assert("other"@[0] != "world"@[0]);
        assert("other"@[0] != "taboo"@[0]);
        assert("其他"@[0] != "世界"@[0]);
        assert("其他"@[0] != "修行"@[0]);
        assert("其他"@[0] != "地图"@[0]);
        assert("其他"@[0] != "地点"@[0]);
        assert("其他"@[0] != "势力"@[0]);
        assert("其他"@[0] != "组织"@[0]);
        assert("其他"@[0] != "禁忌"@[0]);
        assert("其他"@[0] != "边界"@[0]);
        assert("其他"@[0] != "物件"@[0]);
        assert("其他"@[0] != "道具"@[0]);
        assert("其他"@[0] != "大纲"@[0]);
        assert("其他"@[0] != "角色"@[0]);
        assert("其他"@[0] != "人物"@[0]);
    }
}

/// The target kind a name stands for, in the Unicode lowercase of its
/// trimmed form; any other name stays as lowercased.
pub open spec fn target_for(lowered: Seq<char>) -> Seq<char> {
    if lowered == "knowledge_card"@ || lowered == "knowledge"@ || lowered == "card"@ || lowered
        == "资料卡"@ || lowered == "角色卡"@ {
        KNOWLEDGE_CARD@
    } else if lowered == "foreshadowing"@ || lowered == "foreshadow"@ || lowered == "伏笔"@ {
        FORESHADOWING@
    } else {
        lowered
    }
}

/// The target kind of a candidate (see `target_for` of the lowercased
/// trimmed name).
pub fn normalize_target(target: &str) -> (r: String)
    ensures
        r@ == target_for(unicode_lowercase(trim(target@))),
{
    let t = trimmed(target);
    let l = to_lowercase(t.as_str());
    let c = l.as_str();
    if str_eq(c, "knowledge_card") || str_eq(c, "knowledge") || str_eq(c, "card") || str_eq(
        c,
        "资料卡",
    ) || str_eq(c, "角色卡") {
        owned(KNOWLEDGE_CARD)
    } else if str_eq(c, "foreshadowing") || str_eq(c, "foreshadow") || str_eq(c, "伏笔") {
        owned(FORESHADOWING)
    } else {
        l
    }
}

/// The positive ids, each at its first occurrence, in order.
pub open spec fn positive_unique(ids: Seq<i64>) -> Seq<i64>
    decreases ids.len(),
{
    if ids.len() == 0 {
        Seq::empty()
    } else {
        let prev = positive_unique(ids.drop_last());
        if ids.last() > 0 && !prev.contains(ids.last()) {
            prev.push(ids.last())
        } else {
            prev
        }
    }
}

/// The chosen proposal ids: the positive ones, each once, in order; an
/// error when none is left.
pub fn normalized_ids(ids: &[i64]) -> (r: Result<Vec<i64>, AppError>)
    ensures
        positive_unique(ids@).len() > 0 ==> (r matches Ok(v) && v@ == positive_unique(ids@)),
        positive_unique(ids@).len() == 0 ==> (r matches Err(AppError::Validation(m)) && m@
            == "请至少选择一条候选"@),
{
    let mut out: Vec<i64> = Vec::new();
    let mut i: usize = 0;
    while i < ids.len()
        invariant
            i <= ids.len(),
            out@ == positive_unique(ids@.take(i as int)),
        decreases ids.len() - i,
    {
        let id = ids[i];
        assert(ids@.take(i + 1).drop_last() == ids@.take(i as int));
        let mut seen = false;
        let mut k: usize = 0;
        while k < out.len()
            invariant
                k <= out.len(),
                seen <==> exists|j: int| 0 <= j < k && out@[j] == id,
            decreases out.len() - k,
        {
            if out[k] == id {
                seen = true;
            }
            k = k + 1;
        }
        if id > 0 && !seen {
            out.push(id);
        } else {
            assert(seen ==> out@.contains(id));
        }
        i = i + 1;
    }
    assert(ids@.take(ids.len() as int) == ids@);
    if out.len() == 0 {
        return Err(AppError::Validation(owned("请至少选择一条候选")));
    }
    Ok(out)
}

// ---------------------------------------------------------------------------
// Candidate data
// ---------------------------------------------------------------------------
/// One JSON value of a candidate's data, as far as the rules read it:
/// integer ids are told apart from other numbers, and arrays and objects are
/// carried as their JSON text.
#[derive(Debug, PartialEq, Eq)]
pub enum FieldValue {
    Null,
    Bool(bool),
    Int(i64),
    Number(String),
    Text(String),
    Nested(String),
}

/// A field value as text.
pub enum FieldView {
    Null,
    Bool(bool),
    Int(i64),
    Number(Seq<char>),
    Text(Seq<char>),
    Nested(Seq<char>),
}

impl View for FieldValue {
    type V = FieldView;

    open spec fn view(&self) -> FieldView {
        match self {
            FieldValue::Null => FieldView::Null,
            FieldValue::Bool(b) => FieldView::Bool(*b),
            FieldValue::Int(i) => FieldView::Int(*i),
            FieldValue::Number(s) => FieldView::Number(s@),
            FieldValue::Text(s) => FieldView::Text(s@),
            FieldValue::Nested(s) => FieldView::Nested(s@),
        }
    }
}

/// A JSON object of a candidate's data: its fields, in order.
#[derive(Debug, PartialEq, Eq)]
pub struct DataObject {
    pub fields: Vec<(String, FieldValue)>,
}

/// The fields of an object as text.
pub open spec fn fields_view(s: Seq<(String, FieldValue)>) -> Seq<(Seq<char>, FieldView)> {
    s.map_values(|f: (String, FieldValue)| (f.0@, f.1@))
}

/// The name a field is known by for a target kind (its alias resolved).
pub open spec fn canonical_field(kind: Seq<char>, key: Seq<char>) -> Seq<char> {
    if kind == KNOWLEDGE_CARD@ {
        if key == "name"@ {
            "title"@
        } else if key == "body"@ {
            "content"@
        } else if key == "type"@ {
            "category"@
        } else if key == "chapter_id"@ {
            "source_chapter_id"@
        } else {
            key
        }
    } else {
        if key == "name"@ {
            "title"@
        } else if key == "body"@ {
            "content"@
        } else if key == "chapter_id"@ {
            "planted_chapter_id"@
        } else if key == "payoff_chapter_id"@ {
            "planned_payoff_chapter_id"@
        } else if key == "payoff_note"@ {
            "planned_payoff_note"@
        } else {
            key
        }
    }
}

/// The fields a target kind may hold.
pub open spec fn field_allowed(kind: Seq<char>, field: Seq<char>) -> bool {
    if kind == KNOWLEDGE_CARD@ {
        field == "category"@ || field == "title"@ || field == "content"@ || field
            == "source_chapter_id"@
    } else {
        field == "title"@ || field == "content"@ || field == "planted_chapter_id"@ || field
            == "planned_payoff_chapter_id"@ || field == "planned_payoff_note"@
    }
}

/// The last position of a field in an object.
pub open spec fn field_position(m: Seq<(Seq<char>, FieldView)>, key: Seq<char>) -> Option<int>
    decreases m.len(),
{
    if m.len() == 0 {
        None
    } else if m.last().0 == key {
        Some(m.len() - 1)
    } else {
        field_position(m.drop_last(), key)
    }
}

/// An object with a field set: replaced in place, or added at the end.
pub open spec fn put_field(m: Seq<(Seq<char>, FieldView)>, key: Seq<char>, v: FieldView) -> Seq<
    (Seq<char>, FieldView),
> {
    match field_position(m, key) {
        Some(i) => m.update(i, (key, v)),
        None => m.push((key, v)),
    }
}

/// The text of a field, or nothing when it is absent or not text.
pub open spec fn field_text(m: Seq<(Seq<char>, FieldView)>, key: Seq<char>) -> Seq<char> {
    match field_position(m, key) {
        Some(i) => match m[i].1 {
            FieldView::Text(t) => t,
            _ => Seq::empty(),
        },
        None => Seq::empty(),
    }
}

/// The fields renamed to their canonical names, in order: an error for the
/// first field a kind may not hold, or the first canonical name met twice.
pub open spec fn canonical_fields(kind: Seq<char>, fields: Seq<(Seq<char>, FieldView)>) -> Result<
    Seq<(Seq<char>, FieldView)>,
    Seq<char>,
>
    decreases fields.len(),
{
    if fields.len() == 0 {
        Ok(Seq::empty())
    } else {
        match canonical_fields(kind, fields.drop_last()) {
            Err(e) => Err(e),
            Ok(m) => {
                let key = fields.last().0;
                let c = canonical_field(kind, key);
                if !field_allowed(kind, c) {
                    Err("字段 "@ + key + " 不允许写入 "@ + kind)
                } else if field_position(m, c) is Some {
                    Err("字段 "@ + c + " 重复"@)
                } else {
                    Ok(m.push((c, fields.last().1)))
                }
            },
        }
    }
}

/// A required text field, trimmed and set; an error when it is empty.
pub open spec fn require_text(m: Seq<(Seq<char>, FieldView)>, field: Seq<char>) -> Result<
    Seq<(Seq<char>, FieldView)>,
    Seq<char>,
> {
    let t = trim(field_text(m, field));
    if t.len() == 0 {
        Err("字段 "@ + field + " 不能为空"@)
    } else {
        Ok(put_field(m, field, FieldView::Text(t)))
    }
}

/// An optional chapter id: set to null when absent or null, kept when a
/// positive integer, else an error.
pub open spec fn optional_id(m: Seq<(Seq<char>, FieldView)>, field: Seq<char>) -> Result<
    Seq<(Seq<char>, FieldView)>,
    Seq<char>,
> {
    match field_position(m, field) {
        None => Ok(m.push((field, FieldView::Null))),
        Some(i) => match m[i].1 {
            FieldView::Null => Ok(m.update(i, (field, FieldView::Null))),
            FieldView::Int(id) => if id > 0 {
                Ok(m)
            } else {
                Err("字段 "@ + field + " 必须是有效章节 ID 或 null"@)
            },
            _ => Err("字段 "@ + field + " 必须是有效章节 ID 或 null"@),
        },
    }
}

/// The normalized data of a candidate for a target kind: an object whose
/// fields, under their canonical names, the kind may hold, once each; a
/// title and a content that are not empty once trimmed; for a knowledge
/// card a known category (set to its canonical name) and an optional source
/// chapter; for a foreshadowing optional planted and payoff chapters and a
/// trimmed payoff note. Each rule that fails gives its error message.
pub open spec fn normalized_data(kind: Seq<char>, data: Option<Seq<(Seq<char>, FieldView)>>) -> Result<
    Seq<(Seq<char>, FieldView)>,
    Seq<char>,
> {
    match data {
        None => Err("候选 data 必须是对象"@),
        Some(fields) => if kind != KNOWLEDGE_CARD@ && kind != FORESHADOWING@ {
            Err("未知采纳目标："@ + kind)
        } else {
            match canonical_fields(kind, fields) {
                Err(e) => Err(e),
                Ok(m) => match require_text(m, "title"@) {
                    Err(e) => Err(e),
                    Ok(m) => match require_text(m, "content"@) {
                        Err(e) => Err(e),
                        Ok(m) => if kind == KNOWLEDGE_CARD@ {
                            match category_for(unicode_lowercase(trim(field_text(m, "category"@)))) {
                                None => Err("资料分类无效"@),
                                Some(c) => optional_id(
                                    put_field(m, "category"@, FieldView::Text(c)),
                                    "source_chapter_id"@,
                                ),
                            }
                        } else {
                            match optional_id(m, "planted_chapter_id"@) {
                                Err(e) => Err(e),
                                Ok(m) => match optional_id(m, "planned_payoff_chapter_id"@) {
                                    Err(e) => Err(e),
                                    Ok(m) => Ok(
                                        put_field(
                                            m,
                                            "planned_payoff_note"@,
                                            FieldView::Text(
                                                trim(field_text(m, "planned_payoff_note"@)),
                                            ),
                                        ),
                                    ),
                                },
                            }
                        },
                    },
                },
            }
        },
    }
}

fn copy_value(v: &FieldValue) -> (r: FieldValue)
    ensures
        r@ == v@,
{
    match v {
        FieldValue::Null => FieldValue::Null,
        FieldValue::Bool(b) => FieldValue::Bool(*b),
        FieldValue::Int(i) => FieldValue::Int(*i),
        FieldValue::Number(s) => FieldValue::Number(s.clone()),
        FieldValue::Text(s) => FieldValue::Text(s.clone()),
        FieldValue::Nested(s) => FieldValue::Nested(s.clone()),
    }
}

fn find_field(m: &Vec<(String, FieldValue)>, key: &str) -> (r: Option<usize>)
    ensures
        match r {
            Some(j) => j < m@.len() && field_position(fields_view(m@), key@) == Some(j as int),
            None => field_position(fields_view(m@), key@) is None,
        },
{
    let ghost mv = fields_view(m@);
    let mut i = m.len();
    assert(mv.take(i as int) == mv);
    while i > 0
        invariant
            i <= m.len(),
            mv == fields_view(m@),
            field_position(mv, key@) == field_position(mv.take(i as int), key@),
        decreases i,
    {
        assert(mv.take(i as int).drop_last() == mv.take(i - 1));
        assert(mv.take(i as int).last() == mv[i - 1]);
        if str_eq(m[i - 1].0.as_str(), key) {
            return Some(i - 1);
        }
        i = i - 1;
    }
    assert(mv.take(0) == Seq::<(Seq<char>, FieldView)>::empty());
    None
}

fn put(m: &mut Vec<(String, FieldValue)>, key: String, v: FieldValue)
    ensures
        fields_view(final(m)@) == put_field(fields_view(old(m)@), key@, v@),
{
    let ghost before = fields_view(m@);
    match find_field(m, key.as_str()) {
        Some(i) => {
            let ghost kv = (key@, v@);
            m.set(i, (key, v));
            assert(fields_view(m@) =~= before.update(i as int, kv));
        },
        None => {
            let ghost kv = (key@, v@);
            m.push((key, v));
            assert(fields_view(m@) =~= before.push(kv));
        },
    }
}

fn text_of(m: &Vec<(String, FieldValue)>, key: &str) -> (r: String)
    ensures
        r@ == field_text(fields_view(m@), key@),
{
    match find_field(m, key) {
        Some(i) => match &m[i].1 {
            FieldValue::Text(t) => t.clone(),
            _ => String::new(),
        },
        None => String::new(),
    }
}

fn field_message(a: &str, field: &str, b: &str) -> (r: String)
    ensures
        r@ == a@ + field@ + b@,
{
    let mut s = concat(a, field);
    append(&mut s, b);
    s
}

fn require_text_of(m: Vec<(String, FieldValue)>, field: &str) -> (r: Result<
    Vec<(String, FieldValue)>,
    String,
>)
    ensures
        match require_text(fields_view(m@), field@) {
            Ok(n) => r matches Ok(v) && fields_view(v@) == n,
            Err(e) => r matches Err(s) && s@ == e,
        },
{
    let t = trimmed(text_of(&m, field).as_str());
    if t.as_str().unicode_len() == 0 {
        return Err(field_message("字段 ", field, " 不能为空"));
    }
    let mut m = m;
    put(&mut m, owned(field), FieldValue::Text(t));
    Ok(m)
}

fn optional_id_of(m: Vec<(String, FieldValue)>, field: &str) -> (r: Result<
    Vec<(String, FieldValue)>,
    String,
>)
    ensures
        match optional_id(fields_view(m@), field@) {
            Ok(n) => r matches Ok(v) && fields_view(v@) == n,
            Err(e) => r matches Err(s) && s@ == e,
        },
{
    let ghost before = fields_view(m@);
    let mut m = m;
    match find_field(&m, field) {
        None => {
            m.push((owned(field), FieldValue::Null));
            assert(fields_view(m@) =~= before.push((field@, FieldView::Null)));
            Ok(m)
        },
        Some(i) => {
            let ok = match &m[i].1 {
                FieldValue::Null => 0u8,
                FieldValue::Int(id) => if *id > 0 {
                    1u8
                } else {
                    2u8
                },
                _ => 2u8,
            };
            if ok == 0 {
                m.set(i, (owned(field), FieldValue::Null));
                assert(fields_view(m@) =~= before.update(i as int, (field@, FieldView::Null)));
                Ok(m)
            } else if ok == 1 {
                Ok(m)
            } else {
                Err(field_message("字段 ", field, " 必须是有效章节 ID 或 null"))
            }
        },
    }
}

fn canonical_name(kind: &str, key: &str) -> (r: String)
    ensures
        r@ == canonical_field(kind@, key@),
{
    if str_eq(kind, KNOWLEDGE_CARD) {
        if str_eq(key, "name") {
            owned("title")
        } else if str_eq(key, "body") {
            owned("content")
        } else if str_eq(key, "type") {
            owned("category")
        } else if str_eq(key, "chapter_id") {
            owned("source_chapter_id")
        } else {
            owned(key)
        }
    } else {
        if str_eq(key, "name") {
            owned("title")
        } else if str_eq(key, "body") {
            owned("content")
        } else if str_eq(key, "chapter_id") {
            owned("planted_chapter_id")
        } else if str_eq(key, "payoff_chapter_id") {
            owned("planned_payoff_chapter_id")
        } else if str_eq(key, "payoff_note") {
            owned("planned_payoff_note")
        } else {
            owned(key)
        }
    }
}

fn allowed_name(kind: &str, field: &str) -> (r: bool)
    ensures
        r == field_allowed(kind@, field@),
{
    if str_eq(kind, KNOWLEDGE_CARD) {
        str_eq(field, "category") || str_eq(field, "title") || str_eq(field, "content") || str_eq(
            field,
            "source_chapter_id",
        )
    } else {
        str_eq(field, "title") || str_eq(field, "content") || str_eq(field, "planted_chapter_id")
            || str_eq(field, "planned_payoff_chapter_id") || str_eq(field, "planned_payoff_note")
    }
}

proof fn lemma_error_stays(kind: Seq<char>, s: Seq<(Seq<char>, FieldView)>, i: int)
    requires
        0 <= i <= s.len(),
        canonical_fields(kind, s.take(i)) is Err,
    ensures
        canonical_fields(kind, s) == canonical_fields(kind, s.take(i)),
    decreases s.len() - i,
{
    if i < s.len() {
        assert(s.drop_last().take(i) == s.take(i));
        lemma_error_stays(kind, s.drop_last(), i);
        assert(s.take(s.len() as int) == s);
    } else {
        assert(s.take(i) == s);
    }
}

fn canonical_fields_of(kind: &str, fields: &Vec<(String, FieldValue)>) -> (r: Result<
    Vec<(String, FieldValue)>,
    String,
>)
    ensures
        match canonical_fields(kind@, fields_view(fields@)) {
            Ok(n) => r matches Ok(v) && fields_view(v@) == n,
            Err(e) => r matches Err(s) && s@ == e,
        },
{
    let ghost fv = fields_view(fields@);
    let mut out: Vec<(String, FieldValue)> = Vec::new();
    let mut i: usize = 0;
    assert(fv.take(0) =~= Seq::<(Seq<char>, FieldView)>::empty());
    assert(fields_view(out@) =~= Seq::<(Seq<char>, FieldView)>::empty());
    while i < fields.len()
        invariant
            i <= fields.len(),
            fv == fields_view(fields@),
            canonical_fields(kind@, fv.take(i as int)) == Ok::<
                Seq<(Seq<char>, FieldView)>,
                Seq<char>,
            >(fields_view(out@)),
        decreases fields.len() - i,
    {
        assert(fv.take(i + 1).drop_last() == fv.take(i as int));
        assert(fv.take(i + 1).last() == fv[i as int]);
        let key = fields[i].0.as_str();
        let c = canonical_name(kind, key);
        if !allowed_name(kind, c.as_str()) {
            let mut msg = field_message("字段 ", key, " 不允许写入 ");
            append(&mut msg, kind);
            proof {
                lemma_error_stays(kind@, fv, i + 1);
            }
            return Err(msg);
        }
        if find_field(&out, c.as_str()).is_some() {
            proof {
                lemma_error_stays(kind@, fv, i + 1);
            }
            return Err(field_message("字段 ", c.as_str(), " 重复"));
        }
        let value = copy_value(&fields[i].1);
        let ghost before = fields_view(out@);
        let ghost kv = (c@, value@);
        out.push((c, value));
        assert(fields_view(out@) =~= before.push(kv));
        i = i + 1;
    }
    assert(fv.take(fields.len() as int) == fv);
    Ok(out)
}

/// The view of optional candidate data.
pub open spec fn data_view(data: Option<DataObject>) -> Option<Seq<(Seq<char>, FieldView)>> {
    match data {
        Some(o) => Some(fields_view(o.fields@)),
        None => None,
    }
}

/// Normalizes a candidate's data for a target kind (see `normalized_data`);
/// `None` stands for data that is not a JSON object.
pub fn normalize_data(target_kind: &str, data: Option<DataObject>) -> (r: Result<DataObject, AppError>)
    ensures
        match normalized_data(target_kind@, data_view(data)) {
            Ok(n) => r matches Ok(o) && fields_view(o.fields@) == n,
            Err(e) => r matches Err(AppError::Validation(s)) && s@ == e,
        },
{
    let object = match data {
        Some(o) => o,
        None => return Err(AppError::Validation(owned("候选 data 必须是对象"))),
    };
    let knowledge = str_eq(target_kind, KNOWLEDGE_CARD);
    if !knowledge && !str_eq(target_kind, FORESHADOWING) {
        return Err(AppError::Validation(concat("未知采纳目标：", target_kind)));
    }
    let m = match canonical_fields_of(target_kind, &object.fields) {
        Ok(m) => m,
        Err(e) => return Err(AppError::Validation(e)),
    };
    let m = match require_text_of(m, "title") {
        Ok(m) => m,
        Err(e) => return Err(AppError::Validation(e)),
    };
    let m = match require_text_of(m, "content") {
        Ok(m) => m,
        Err(e) => return Err(AppError::Validation(e)),
    };
    if knowledge {
        let category = text_of(&m, "category");
        let c = match normalize_category(category.as_str()) {
            Some(c) => c,
            None => return Err(AppError::Validation(owned("资料分类无效"))),
        };
        let mut m = m;
        put(&mut m, owned("category"), FieldValue::Text(owned(c)));
        match optional_id_of(m, "source_chapter_id") {
            Ok(m) => Ok(DataObject { fields: m }),
            Err(e) => Err(AppError::Validation(e)),
        }
    } else {
        let m = match optional_id_of(m, "planted_chapter_id") {
            Ok(m) => m,
            Err(e) => return Err(AppError::Validation(e)),
        };
        let m = match optional_id_of(m, "planned_payoff_chapter_id") {
            Ok(m) => m,
            Err(e) => return Err(AppError::Validation(e)),
        };
        let note = trimmed(text_of(&m, "planned_payoff_note").as_str());
        let mut m = m;
        put(&mut m, owned("planned_payoff_note"), FieldValue::Text(note));
        Ok(DataObject { fields: m })
    }
}

/// The identity under which a candidate matches an existing entry: the
/// lowercased trimmed title, after the lowercased trimmed category and a
/// colon for a knowledge card.
pub open spec fn identity_of(kind: Seq<char>, m: Seq<(Seq<char>, FieldView)>) -> Seq<char> {
    let title = unicode_lowercase(trim(field_text(m, "title"@)));
    if kind == KNOWLEDGE_CARD@ {
        unicode_lowercase(trim(field_text(m, "category"@))) + ":"@ + title
    } else {
        title
    }
}

/// The identity of a candidate (see `identity_of`).
pub fn normalized_identity(target_kind: &str, data: &DataObject) -> (r: String)
    ensures
        r@ == identity_of(target_kind@, fields_view(data.fields@)),
{
    let title = to_lowercase(trimmed(text_of(&data.fields, "title").as_str()).as_str());
    if str_eq(target_kind, KNOWLEDGE_CARD) {
        let category = to_lowercase(
            trimmed(text_of(&data.fields, "category").as_str()).as_str(),
        );
        let mut r = concat(category.as_str(), ":");
        append(&mut r, title.as_str());
        r
    } else {
        title
    }
}

/// What adopting a proposal writes.
#[derive(Debug, PartialEq, Eq)]
pub enum AdoptionWrite {
    KnowledgeCard {
        category: String,
        title: String,
        content: String,
        source_chapter_id: Option<i64>,
    },
    Foreshadowing {
        title: String,
        content: String,
        planted_chapter_id: Option<i64>,
        planned_payoff_chapter_id: Option<i64>,
        planned_payoff_note: String,
    },
}

/// A text field that a write needs: its text, or an error when it is absent
/// or not text.
pub open spec fn text_field(m: Seq<(Seq<char>, FieldView)>, field: Seq<char>) -> Result<
    Seq<char>,
    Seq<char>,
> {
    match field_position(m, field) {
        Some(i) => match m[i].1 {
            FieldView::Text(t) => Ok(t),
            _ => Err("字段 "@ + field + " 必须是文本"@),
        },
        None => Err("字段 "@ + field + " 必须是文本"@),
    }
}

/// An id field that a write takes: none when absent or null, the id when a
/// positive integer, else an error.
pub open spec fn id_field(m: Seq<(Seq<char>, FieldView)>, field: Seq<char>) -> Result<
    Option<i64>,
    Seq<char>,
> {
    match field_position(m, field) {
        None => Ok(None),
        Some(i) => match m[i].1 {
            FieldView::Null => Ok(None),
            FieldView::Int(id) => if id > 0 {
                Ok(Some(id))
            } else {
                Err("字段 "@ + field + " 必须是有效 ID 或 null"@)
            },
            _ => Err("字段 "@ + field + " 必须是有效 ID 或 null"@),
        },
    }
}

fn text_field_of(m: &Vec<(String, FieldValue)>, field: &str) -> (r: Result<String, AppError>)
    ensures
        match text_field(fields_view(m@), field@) {
            Ok(t) => r matches Ok(s) && s@ == t,
            Err(e) => r matches Err(AppError::Validation(s)) && s@ == e,
        },
{
    match find_field(m, field) {
        Some(i) => match &m[i].1 {
            FieldValue::Text(t) => Ok(t.clone()),
            _ => Err(AppError::Validation(field_message("字段 ", field, " 必须是文本"))),
        },
        None => Err(AppError::Validation(field_message("字段 ", field, " 必须是文本"))),
    }
}

fn id_field_of(m: &Vec<(String, FieldValue)>, field: &str) -> (r: Result<Option<i64>, AppError>)
    ensures
        match id_field(fields_view(m@), field@) {
            Ok(v) => r == Ok::<Option<i64>, AppError>(v),
            Err(e) => r matches Err(AppError::Validation(s)) && s@ == e,
        },
{
    match find_field(m, field) {
        None => Ok(None),
        Some(i) => match &m[i].1 {
            FieldValue::Null => Ok(None),
            FieldValue::Int(id) => if *id > 0 {
                Ok(Some(*id))
            } else {
                Err(AppError::Validation(field_message("字段 ", field, " 必须是有效 ID 或 null")))
            },
            _ => Err(AppError::Validation(field_message("字段 ", field, " 必须是有效 ID 或 null"))),
        },
    }
}

/// The write of a knowledge card: its category, title and content texts and
/// its optional source chapter, in that order of checking.
pub open spec fn card_write_ok(m: Seq<(Seq<char>, FieldView)>, w: AdoptionWrite) -> bool {
    &&& text_field(m, "category"@) is Ok
    &&& text_field(m, "title"@) is Ok
    &&& text_field(m, "content"@) is Ok
    &&& id_field(m, "source_chapter_id"@) is Ok
    &&& w matches AdoptionWrite::KnowledgeCard { category, title, content, source_chapter_id }
        && Ok::<Seq<char>, Seq<char>>(category@) == text_field(m, "category"@) && Ok::<
        Seq<char>,
        Seq<char>,
    >(title@) == text_field(m, "title"@) && Ok::<Seq<char>, Seq<char>>(content@) == text_field(
        m,
        "content"@,
    ) && Ok::<Option<i64>, Seq<char>>(source_chapter_id) == id_field(m, "source_chapter_id"@)
}

/// The write of a foreshadowing: its title and content texts, its optional
/// planted and payoff chapters, and its payoff note text.
pub open spec fn foreshadowing_write_ok(m: Seq<(Seq<char>, FieldView)>, w: AdoptionWrite) -> bool {
    &&& text_field(m, "title"@) is Ok
    &&& text_field(m, "content"@) is Ok
    &&& id_field(m, "planted_chapter_id"@) is Ok
    &&& id_field(m, "planned_payoff_chapter_id"@) is Ok
    &&& text_field(m, "planned_payoff_note"@) is Ok
    &&& w matches AdoptionWrite::Foreshadowing {
        title,
        content,
        planted_chapter_id,
        planned_payoff_chapter_id,
        planned_payoff_note,
    } && Ok::<Seq<char>, Seq<char>>(title@) == text_field(m, "title"@) && Ok::<
        Seq<char>,
        Seq<char>,
    >(content@) == text_field(m, "content"@) && Ok::<Option<i64>, Seq<char>>(planted_chapter_id)
        == id_field(m, "planted_chapter_id"@) && Ok::<Option<i64>, Seq<char>>(
        planned_payoff_chapter_id,
    ) == id_field(m, "planned_payoff_chapter_id"@) && Ok::<Seq<char>, Seq<char>>(
        planned_payoff_note@,
    ) == text_field(m, "planned_payoff_note"@)
}

/// What adopting a proposal writes, read from its normalized data: the
/// fields of a knowledge card or of a foreshadowing, each checked in order
/// (the first failing check gives the error); an unknown kind is refused.
pub fn proposal_write(target_kind: &str, data: &DataObject) -> (r: Result<AdoptionWrite, AppError>)
    ensures
        ({
            let m = fields_view(data.fields@);
            if target_kind@ == KNOWLEDGE_CARD@ {
                match r {
                    Ok(w) => card_write_ok(m, w),
                    Err(AppError::Validation(e)) => {
                        ||| text_field(m, "category"@) == Err::<Seq<char>, Seq<char>>(e@)
                        ||| (text_field(m, "category"@) is Ok && text_field(m, "title"@) == Err::<
                            Seq<char>,
                            Seq<char>,
                        >(e@))
                        ||| (text_field(m, "category"@) is Ok && text_field(m, "title"@) is Ok
                            && text_field(m, "content"@) == Err::<Seq<char>, Seq<char>>(e@))
                        ||| (text_field(m, "category"@) is Ok && text_field(m, "title"@) is Ok
                            && text_field(m, "content"@) is Ok && id_field(
                            m,
                            "source_chapter_id"@,
                        ) == Err::<Option<i64>, Seq<char>>(e@))
                    },
                    _ => false,
                }
            } else if target_kind@ == FORESHADOWING@ {
                match r {
                    Ok(w) => foreshadowing_write_ok(m, w),
                    Err(AppError::Validation(e)) => {
                        ||| text_field(m, "title"@) == Err::<Seq<char>, Seq<char>>(e@)
                        ||| (text_field(m, "title"@) is Ok && text_field(m, "content"@) == Err::<
                            Seq<char>,
                            Seq<char>,
                        >(e@))
                        ||| (text_field(m, "title"@) is Ok && text_field(m, "content"@) is Ok
                            && id_field(m, "planted_chapter_id"@) == Err::<Option<i64>, Seq<char>>(
                            e@,
                        ))
                        ||| (text_field(m, "title"@) is Ok && text_field(m, "content"@) is Ok
                            && id_field(m, "planted_chapter_id"@) is Ok && id_field(
                            m,
                            "planned_payoff_chapter_id"@,
                        ) == Err::<Option<i64>, Seq<char>>(e@))
                        ||| (text_field(m, "title"@) is Ok && text_field(m, "content"@) is Ok
                            && id_field(m, "planted_chapter_id"@) is Ok && id_field(
                            m,
                            "planned_payoff_chapter_id"@,
                        ) is Ok && text_field(m, "planned_payoff_note"@) == Err::<
                            Seq<char>,
                            Seq<char>,
                        >(e@))
                    },
                    _ => false,
                }
            } else {
                r matches Err(AppError::Validation(e)) && e@ == "未知采纳目标"@
            }
        }),
{
    let m = &data.fields;
    if str_eq(target_kind, KNOWLEDGE_CARD) {
        let category = text_field_of(m, "category")?;
        let title = text_field_of(m, "title")?;
        let content = text_field_of(m, "content")?;
        let source_chapter_id = id_field_of(m, "source_chapter_id")?;
        Ok(AdoptionWrite::KnowledgeCard { category, title, content, source_chapter_id })
    } else if str_eq(target_kind, FORESHADOWING) {
        let title = text_field_of(m, "title")?;
        let content = text_field_of(m, "content")?;
        let planted_chapter_id = id_field_of(m, "planted_chapter_id")?;
        let planned_payoff_chapter_id = id_field_of(m, "planned_payoff_chapter_id")?;
        let planned_payoff_note = text_field_of(m, "planned_payoff_note")?;
        Ok(
            AdoptionWrite::Foreshadowing {
                title,
                content,
                planted_chapter_id,
                planned_payoff_chapter_id,
                planned_payoff_note,
            },
        )
    } else {
        Err(AppError::Validation(owned("未知采纳目标")))
    }
}

/// Refuses a source artifact that cannot be adopted from: one of another
/// project, or one not approved by a person.
pub fn approved_source(artifact_project_id: i64, artifact_status: &str, project_id: i64) -> (r: Result<
    (),
    AppError,
>)
    ensures
        artifact_project_id != project_id ==> (r matches Err(AppError::Validation(m)) && m@
            == "来源产物不属于当前项目"@),
        artifact_project_id == project_id && artifact_status@ != "approved"@ ==> (r matches Err(
            AppError::Validation(m),
        ) && m@ == "请先人工通过该产物，再整理资料"@),
        artifact_project_id == project_id && artifact_status@ == "approved"@ ==> r is Ok,
{
    if artifact_project_id != project_id {
        return Err(AppError::Validation(owned("来源产物不属于当前项目")));
    }
    if !str_eq(artifact_status, "approved") {
        return Err(AppError::Validation(owned("请先人工通过该产物，再整理资料")));
    }
    Ok(())
}

/// The chosen ids are positive and distinct.
pub proof fn normalized_ids_positive_and_distinct(ids: Seq<i64>)
    ensures
        forall|i: int| 0 <= i < positive_unique(ids).len() ==> #[trigger] positive_unique(ids)[i] > 0,
        forall|i: int, j: int|
            0 <= i < j < positive_unique(ids).len() ==> #[trigger] positive_unique(ids)[i]
                != #[trigger] positive_unique(ids)[j],
    decreases ids.len(),
{
    if ids.len() > 0 {
        normalized_ids_positive_and_distinct(ids.drop_last());
        let prev = positive_unique(ids.drop_last());
        let r = positive_unique(ids);
        if ids.last() > 0 && !prev.contains(ids.last()) {
            assert forall|i: int| 0 <= i < r.len() implies #[trigger] r[i] > 0 by {
                if i < prev.len() {
                    assert(r[i] == prev[i]);
                }
            }
            assert forall|i: int, j: int| 0 <= i < j < r.len() implies #[trigger] r[i]
                != #[trigger] r[j] by {
                assert(r[i] == prev[i]);
                if j < prev.len() {
                    assert(r[j] == prev[j]);
                }
            }
        }
    }
}

// ---------------------------------------------------------------------------
// Checking a candidate
// ---------------------------------------------------------------------------
/// A candidate after the checks that need nothing but itself and its
/// source: its target kind, its trimmed quote, its normalized data (an empty
/// object when that failed) and the problems found, in order.
#[derive(Debug, PartialEq)]
pub struct CheckedCandidate {
    pub target_kind: String,
    pub evidence_quote: String,
    pub data: DataObject,
    pub errors: Vec<String>,
}

/// The problem with a target kind, if any.
pub open spec fn target_problem(raw: Seq<char>) -> Seq<Seq<char>> {
    let kind = target_for(unicode_lowercase(trim(raw)));
    if kind == KNOWLEDGE_CARD@ || kind == FORESHADOWING@ {
        Seq::empty()
    } else {
        seq!["未知采纳目标："@ + raw]
    }
}

/// The problem with an evidence quote, if any: it must be a verbatim,
/// non-empty passage of the source.
pub open spec fn quote_problem(quote: Seq<char>, source: Seq<char>) -> Seq<Seq<char>> {
    let q = trim(quote);
    if q.len() == 0 || !contains_seq(source, q) {
        seq!["证据引文不是来源产物中的逐字连续文本"@]
    } else {
        Seq::empty()
    }
}

/// The problem with an operation, if any.
pub open spec fn operation_problem(operation: Seq<char>) -> Seq<Seq<char>> {
    let o = trim(operation);
    if o == "create"@ || o == "update"@ {
        Seq::empty()
    } else {
        seq!["operation 只能是 create 或 update"@]
    }
}

/// The problem with the data, if any.
pub open spec fn data_problem(kind: Seq<char>, data: Option<Seq<(Seq<char>, FieldView)>>) -> Seq<Seq<char>> {
    match normalized_data(kind, data) {
        Ok(_) => Seq::empty(),
        Err(e) => seq![e],
    }
}

/// Checks a candidate against itself and its source artifact's content
/// (see `CheckedCandidate`): the problems are those of its target kind,
/// quote, operation and data, in that order.
pub fn check_candidate(
    target_kind: &str,
    operation: &str,
    evidence_quote: &str,
    data: Option<DataObject>,
    source_content: &str,
) -> (r: CheckedCandidate)
    ensures
        r.target_kind@ == target_for(unicode_lowercase(trim(target_kind@))),
        r.evidence_quote@ == trim(evidence_quote@),
        views(r.errors@) == target_problem(target_kind@) + quote_problem(evidence_quote@, source_content@)
            + operation_problem(operation@) + data_problem(r.target_kind@, data_view(data)),
        match normalized_data(r.target_kind@, data_view(data)) {
            Ok(n) => fields_view(r.data.fields@) == n,
            Err(_) => r.data.fields@.len() == 0,
        },
{
    let kind = normalize_target(target_kind);
    let quote = trimmed(evidence_quote);
    let mut errors: Vec<String> = Vec::new();
    if !str_eq(kind.as_str(), KNOWLEDGE_CARD) && !str_eq(kind.as_str(), FORESHADOWING) {
        errors.push(concat("未知采纳目标：", target_kind));
    }
    let ghost e1 = views(errors@);
    assert(e1 =~= target_problem(target_kind@));
    if crate::text::char_count(quote.as_str()) == 0 || !str_contains(source_content, quote.as_str()) {
        errors.push(owned("证据引文不是来源产物中的逐字连续文本"));
    }
    let ghost e2 = views(errors@);
    assert(e2 =~= e1 + quote_problem(evidence_quote@, source_content@));
    let op = trimmed(operation);
    if !str_eq(op.as_str(), "create") && !str_eq(op.as_str(), "update") {
        errors.push(owned("operation 只能是 create 或 update"));
    }
    let ghost e3 = views(errors@);
    assert(e3 =~= e2 + operation_problem(operation@));
    let normalized = match normalize_data(kind.as_str(), data) {
        Ok(d) => d,
        Err(e) => {
            let ghost before = views(errors@);
            let message = e.message();
            errors.push(message);
            assert(views(errors@) =~= before.push(message@));
            DataObject { fields: Vec::new() }
        },
    };
    CheckedCandidate { target_kind: kind, evidence_quote: quote, data: normalized, errors }
}

/// The identity under which one extraction's candidates are told apart:
/// target kind, target id (0 when none) and the data's identity, joined by
/// colons.
pub open spec fn proposal_identity_text(kind: Seq<char>, target_id: Option<i64>, data: Seq<(Seq<char>, FieldView)>) -> Seq<
    char,
> {
    let id = match target_id {
        Some(i) => i,
        None => 0,
    };
    kind + ":"@ + decimal(id as int) + ":"@ + identity_of(kind, data)
}

/// The identity of a resolved candidate (see `proposal_identity_text`).
pub fn proposal_identity(target_kind: &str, target_id: Option<i64>, data: &DataObject) -> (r: String)
    ensures
        r@ == proposal_identity_text(target_kind@, target_id, fields_view(data.fields@)),
{
    let id = match target_id {
        Some(i) => i,
        None => 0,
    };
    let mut r = concat(target_kind, ":");
    append(&mut r, decimal_of(id).as_str());
    append(&mut r, ":");
    append(&mut r, normalized_identity(target_kind, data).as_str());
    r
}

/// The positions of the identities that occur for the first time, in order.
pub open spec fn first_occurrences(ids: Seq<Seq<char>>) -> Seq<int>
    decreases ids.len(),
{
    if ids.len() == 0 {
        Seq::empty()
    } else if ids.drop_last().contains(ids.last()) {
        first_occurrences(ids.drop_last())
    } else {
        first_occurrences(ids.drop_last()).push(ids.len() - 1)
    }
}

/// Which candidates of one extraction are kept: the first of each identity.
pub fn first_of_each_identity(identities: &[String]) -> (r: Vec<usize>)
    ensures
        r@.map_values(|i: usize| i as int) == first_occurrences(views(identities@)),
{
    let ghost iv = views(identities@);
    let mut kept: Vec<usize> = Vec::new();
    let mut i: usize = 0;
    while i < identities.len()
        invariant
            i <= identities@.len(),
            iv == views(identities@),
            kept@.map_values(|k: usize| k as int) == first_occurrences(iv.take(i as int)),
        decreases identities.len() - i,
    {
        let t = Ghost(iv.take(i + 1));
        assert(t@.drop_last() == iv.take(i as int));
        assert(t@.last() == identities@[i as int]@);
        let mut seen = false;
        let mut k: usize = 0;
        while k < i
            invariant
                k <= i < identities@.len(),
                iv == views(identities@),
                seen <==> exists|m: int| 0 <= m < k && iv[m] == iv[i as int],
            decreases i - k,
        {
            assert(iv[k as int] == identities@[k as int]@ && iv[i as int] == identities@[i as int]@);
            if str_eq(identities[k].as_str(), identities[i].as_str()) {
                seen = true;
            }
            k = k + 1;
        }
        proof {
            if seen {
                let m = choose|m: int| 0 <= m < i && iv[m] == iv[i as int];
                assert(t@.drop_last()[m] == iv[i as int]);
            } else {
                assert forall|m: int| 0 <= m < t@.drop_last().len() implies t@.drop_last()[m] != t@.last() by {
                    assert(t@.drop_last()[m] == iv[m]);
                }
            }
        }
        if !seen {
            let ghost before = kept@.map_values(|k: usize| k as int);
            kept.push(i);
            assert(kept@.map_values(|k: usize| k as int) =~= before.push(i as int));
        }
        i = i + 1;
    }
    assert(iv.take(identities.len() as int) == iv);
    kept
}

// ---------------------------------------------------------------------------
// Entries saved by hand
// ---------------------------------------------------------------------------
/// The status of a knowledge card saved by hand, trimmed: pending human
/// approval, approved or archived; else an error.
pub fn knowledge_card_status(status: &str) -> (r: Result<String, AppError>)
    ensures
        ({
            let t = trim(status@);
            if t == "pending_human_approval"@ || t == "approved"@ || t == "archived"@ {
                r matches Ok(s) && s@ == t
            } else {
                r matches Err(AppError::Validation(m)) && m@ == "资料卡状态无效"@
            }
        }),
{
    let t = trimmed(status);
    if str_eq(t.as_str(), "pending_human_approval") || str_eq(t.as_str(), "approved") || str_eq(
        t.as_str(),
        "archived",
    ) {
        Ok(t)
    } else {
        Err(AppError::Validation(owned("资料卡状态无效")))
    }
}

/// The status of a foreshadowing saved by hand, trimmed: pending human
/// approval, active, ready for payoff, resolved or archived; else an error.
pub fn foreshadowing_status(status: &str) -> (r: Result<String, AppError>)
    ensures
        ({
            let t = trim(status@);
            if t == "pending_human_approval"@ || t == "active"@ || t == "ready_for_payoff"@ || t
                == "resolved"@ || t == "archived"@ {
                r matches Ok(s) && s@ == t
            } else {
                r matches Err(AppError::Validation(m)) && m@ == "伏笔状态无效"@
            }
        }),
{
    let t = trimmed(status);
    let c = t.as_str();
    if str_eq(c, "pending_human_approval") || str_eq(c, "active") || str_eq(c, "ready_for_payoff")
        || str_eq(c, "resolved") || str_eq(c, "archived") {
        Ok(t)
    } else {
        Err(AppError::Validation(owned("伏笔状态无效")))
    }
}

/// An optional id as a field value.
pub open spec fn optional_id_field(id: Option<i64>) -> FieldView {
    match id {
        Some(i) => FieldView::Int(i),
        None => FieldView::Null,
    }
}

fn id_value(id: Option<i64>) -> (r: FieldValue)
    ensures
        r@ == optional_id_field(id),
{
    match id {
        Some(i) => FieldValue::Int(i),
        None => FieldValue::Null,
    }
}

/// The fields of a knowledge card saved by hand, by key.
pub open spec fn human_card_fields(
    category: Seq<char>,
    title: Seq<char>,
    content: Seq<char>,
    source_chapter_id: Option<i64>,
) -> Seq<(Seq<char>, FieldView)> {
    seq![
        ("category"@, FieldView::Text(category)),
        ("content"@, FieldView::Text(content)),
        ("source_chapter_id"@, optional_id_field(source_chapter_id)),
        ("title"@, FieldView::Text(title)),
    ]
}

/// The data of a knowledge card saved by hand, normalized as a candidate's
/// is (see `normalized_data`).
pub fn human_knowledge_card_data(category: &str, title: &str, content: &str, source_chapter_id: Option<i64>) -> (r:
    Result<DataObject, AppError>)
    ensures
        match normalized_data(KNOWLEDGE_CARD@, Some(human_card_fields(category@, title@, content@, source_chapter_id))) {
            Ok(n) => r matches Ok(o) && fields_view(o.fields@) == n,
            Err(e) => r matches Err(AppError::Validation(s)) && s@ == e,
        },
{
    let fields = vec![
        (owned("category"), FieldValue::Text(owned(category))),
        (owned("content"), FieldValue::Text(owned(content))),
        (owned("source_chapter_id"), id_value(source_chapter_id)),
        (owned("title"), FieldValue::Text(owned(title))),
    ];
    let data = DataObject { fields };
    assert(fields_view(data.fields@) =~= human_card_fields(category@, title@, content@, source_chapter_id));
    normalize_data(KNOWLEDGE_CARD, Some(data))
}

/// The fields of a foreshadowing saved by hand, by key.
pub open spec fn human_foreshadowing_fields(
    title: Seq<char>,
    content: Seq<char>,
    planted: Option<i64>,
    payoff: Option<i64>,
    payoff_note: Seq<char>,
) -> Seq<(Seq<char>, FieldView)> {
    seq![
        ("content"@, FieldView::Text(content)),
        ("planned_payoff_chapter_id"@, optional_id_field(payoff)),
        ("planned_payoff_note"@, FieldView::Text(payoff_note)),
        ("planted_chapter_id"@, optional_id_field(planted)),
        ("title"@, FieldView::Text(title)),
    ]
}

/// The data of a foreshadowing saved by hand, normalized as a candidate's
/// is (see `normalized_data`).
pub fn human_foreshadowing_data(
    title: &str,
    content: &str,
    planted_chapter_id: Option<i64>,
    planned_payoff_chapter_id: Option<i64>,
    planned_payoff_note: &str,
) -> (r: Result<DataObject, AppError>)
    ensures
        match normalized_data(
            FORESHADOWING@,
            Some(
                human_foreshadowing_fields(
                    title@,
                    content@,
                    planted_chapter_id,
                    planned_payoff_chapter_id,
                    planned_payoff_note@,
                ),
            ),
        ) {
            Ok(n) => r matches Ok(o) && fields_view(o.fields@) == n,
            Err(e) => r matches Err(AppError::Validation(s)) && s@ == e,
        },
{
    let fields = vec![
        (owned("content"), FieldValue::Text(owned(content))),
        (owned("planned_payoff_chapter_id"), id_value(planned_payoff_chapter_id)),
        (owned("planned_payoff_note"), FieldValue::Text(owned(planned_payoff_note))),
        (owned("planted_chapter_id"), id_value(planted_chapter_id)),
        (owned("title"), FieldValue::Text(owned(title))),
    ];
    let data = DataObject { fields };
    assert(fields_view(data.fields@) =~= human_foreshadowing_fields(
        title@,
        content@,
        planted_chapter_id,
        planned_payoff_chapter_id,
        planned_payoff_note@,
    ));
    normalize_data(FORESHADOWING, Some(data))
}

// ---------------------------------------------------------------------------
// Deciding on proposals
// ---------------------------------------------------------------------------
/// Checks that a proposal may be edited: it must be the project's and still
/// pending.
pub fn editable_proposal(proposal_project_id: i64, proposal_status: &str, project_id: i64) -> (r: Result<
    (),
    AppError,
>)
    ensures
        proposal_project_id != project_id ==> (r matches Err(AppError::Validation(m)) && m@
            == "候选不属于当前项目"@),
        proposal_project_id == project_id && proposal_status@ != PENDING@ ==> (r matches Err(
            AppError::Validation(m),
        ) && m@ == "只有待确认候选可以编辑"@),
        proposal_project_id == project_id && proposal_status@ == PENDING@ ==> r is Ok,
{
    if proposal_project_id != project_id {
        return Err(AppError::Validation(owned("候选不属于当前项目")));
    }
    if !str_eq(proposal_status, PENDING) {
        return Err(AppError::Validation(owned("只有待确认候选可以编辑")));
    }
    Ok(())
}

/// Checks that a proposal of a batch may be decided: it must be the
/// project's and still pending.
pub fn decidable_proposal(proposal_id: i64, proposal_project_id: i64, proposal_status: &str, project_id: i64) -> (r:
    Result<(), AppError>)
    ensures
        proposal_project_id == project_id && proposal_status@ == PENDING@ ==> r is Ok,
        !(proposal_project_id == project_id && proposal_status@ == PENDING@) ==> (r matches Err(
            AppError::Validation(m),
        ) && m@ == "候选 #"@ + decimal(proposal_id as int) + " 不属于当前项目或已被处理"@),
{
    if proposal_project_id != project_id || !str_eq(proposal_status, PENDING) {
        let mut m = concat("候选 #", decimal_of(proposal_id).as_str());
        append(&mut m, " 不属于当前项目或已被处理");
        return Err(AppError::Validation(m));
    }
    Ok(())
}

/// `候选 #` and the proposal's id.
pub open spec fn proposal_tag(id: i64) -> Seq<char> {
    "候选 #"@ + decimal(id as int)
}

fn tagged(id: i64, rest: &str) -> (r: AppError)
    ensures
        r matches AppError::Validation(m) && m@ == proposal_tag(id) + rest@,
{
    let mut m = concat("候选 #", decimal_of(id).as_str());
    append(&mut m, rest);
    AppError::Validation(m)
}

/// Checks a proposal before it is applied, as far as the proposal and its
/// source artifact show: no validation error may stand; the source must
/// still be the project's approved artifact and hold the evidence quote;
/// the data must still normalize.
pub fn preflight_checks(
    proposal_id: i64,
    project_id: i64,
    validation_error: Option<&str>,
    source_project_id: i64,
    source_status: &str,
    source_content: &str,
    evidence_quote: &str,
    target_kind: &str,
    data: Option<DataObject>,
) -> (r: Result<(), AppError>)
    ensures
        match validation_error {
            Some(e) => r matches Err(AppError::Validation(m)) && m@ == proposal_tag(proposal_id)
                + " 校验失败："@ + e@,
            None => if source_project_id != project_id || source_status@ != "approved"@ {
                r matches Err(AppError::Validation(m)) && m@ == proposal_tag(proposal_id)
                    + " 的来源产物不再是已批准状态"@
            } else if trim(evidence_quote@).len() == 0 || !contains_seq(source_content@, evidence_quote@) {
                r matches Err(AppError::Validation(m)) && m@ == proposal_tag(proposal_id)
                    + " 的证据已失效"@
            } else {
                match normalized_data(target_kind@, data_view(data)) {
                    Ok(_) => r is Ok,
                    Err(e) => r matches Err(AppError::Validation(m)) && m@ == e,
                }
            },
        },
{
    match validation_error {
        Some(e) => {
            let mut rest = owned(" 校验失败：");
            append(&mut rest, e);
            return Err(tagged(proposal_id, rest.as_str()));
        },
        None => {},
    }
    if source_project_id != project_id || !str_eq(source_status, "approved") {
        return Err(tagged(proposal_id, " 的来源产物不再是已批准状态"));
    }
    if crate::text::char_count(trimmed(evidence_quote).as_str()) == 0 || !str_contains(
        source_content,
        evidence_quote,
    ) {
        return Err(tagged(proposal_id, " 的证据已失效"));
    }
    match normalize_data(target_kind, data) {
        Ok(_) => Ok(()),
        Err(e) => Err(e),
    }
}

/// Checks a proposal's target before it is applied: an update's target must
/// be as it was when the proposal was made; a creation must not find its
/// entry already there.
pub fn preflight_target(
    proposal_id: i64,
    target_id: Option<i64>,
    current_snapshot: Option<&str>,
    stored_snapshot: Option<&str>,
    identity_taken: bool,
) -> (r: Result<(), AppError>)
    ensures
        match target_id {
            Some(_) => if match (current_snapshot, stored_snapshot) {
                (Some(a), Some(b)) => a@ == b@,
                _ => false,
            } {
                r is Ok
            } else {
                r matches Err(AppError::Validation(m)) && m@ == proposal_tag(proposal_id)
                    + " 的目标资料已变化，请重新整理"@
            },
            None => if identity_taken {
                r matches Err(AppError::Validation(m)) && m@ == proposal_tag(proposal_id)
                    + " 对应的资料已经存在，请重新整理"@
            } else {
                r is Ok
            },
        },
{
    match target_id {
        Some(_) => {
            let same = match (current_snapshot, stored_snapshot) {
                (Some(a), Some(b)) => str_eq(a, b),
                _ => false,
            };
            if same {
                Ok(())
            } else {
                Err(tagged(proposal_id, " 的目标资料已变化，请重新整理"))
            }
        },
        None => {
            if identity_taken {
                Err(tagged(proposal_id, " 对应的资料已经存在，请重新整理"))
            } else {
                Ok(())
            }
        },
    }
}

/// A failed preflight marks the proposal stale (and stops the batch without
/// error for the others) when its target changed or its entry already
/// exists.
pub fn stale_preflight(message: &str) -> (r: bool)
    ensures
        r == (contains_seq(message@, "目标资料已变化"@) || contains_seq(message@, "对应的资料已经存在"@)),
{
    str_contains(message, "目标资料已变化") || str_contains(message, "对应的资料已经存在")
}

/// The note recorded when proposals are adopted: how many, and the trimmed
/// note.
pub fn adoption_message(count: usize, note: &str) -> (r: String)
    ensures
        r@ == "人工采纳 "@ + decimal(count as int) + " 条资料变更。"@ + trim(note@),
{
    let mut m = concat("人工采纳 ", crate::text::decimal_of_count(count).as_str());
    append(&mut m, " 条资料变更。");
    append(&mut m, trimmed(note).as_str());
    m
}

// ---------------------------------------------------------------------------
// Extracted candidates
// ---------------------------------------------------------------------------
/// The text of an extraction reply that is read as the list of candidates:
/// trimmed, without a leading "```json" (or else "```") fence and a trailing
/// "```" fence, and trimmed again.
pub open spec fn candidate_text(raw: Seq<char>) -> Seq<char> {
    let t = trim(raw);
    let w = if begins(t, "```json"@) {
        t.skip("```json"@.len() as int)
    } else if begins(t, "```"@) {
        t.skip("```"@.len() as int)
    } else {
        t
    };
    let c = if finishes(w, "```"@) {
        w.take(w.len() - "```"@.len())
    } else {
        w
    };
    trim(c)
}

/// Strips the fences of an extraction reply (see `candidate_text`).
pub fn extracted_candidate_text(raw: &str) -> (r: String)
    ensures
        r@ == candidate_text(raw@),
{
    let rv = chars_of(raw);
    let t = trim_chars(rv.as_slice());
    let json_fence = chars_of("```json");
    let fence = chars_of("```");
    let w = if starts_with(t.as_slice(), json_fence.as_slice()) {
        slice_of(t.as_slice(), json_fence.len(), t.len())
    } else if starts_with(t.as_slice(), fence.as_slice()) {
        slice_of(t.as_slice(), fence.len(), t.len())
    } else {
        slice_of(t.as_slice(), 0, t.len())
    };
    assert(t@.subrange(0, t@.len() as int) == t@);
    let c = if ends_with(w.as_slice(), fence.as_slice()) {
        slice_of(w.as_slice(), 0, w.len() - fence.len())
    } else {
        slice_of(w.as_slice(), 0, w.len())
    };
    assert(w@.subrange(0, w@.len() as int) == w@);
    let r = trim_chars(c.as_slice());
    string_of(r.as_slice())
}

/// The span of an extraction reply that is read as the candidates when the
/// whole text is not: from its first `[` to its last `]`. With no `[` the
/// agent returned no array; with no `]` the array is incomplete.
pub open spec fn candidate_span(t: Seq<char>) -> Result<Seq<char>, Seq<char>> {
    match first_pos(t, '[') {
        None => Err("资料整理 Agent 未返回 JSON 数组"@),
        Some(start) => match last_pos(t, ']') {
            None => Err("资料整理 Agent 返回的 JSON 不完整"@),
            Some(end) => Ok(t.subrange(start, end + 1)),
        },
    }
}

/// The span of the candidates (see `candidate_span`); a text whose last `]`
/// stands before its first `[` with something between has no such span.
pub fn candidate_array_span(candidate: &str) -> (r: Result<String, AppError>)
    requires
        !issue_span_reversed(candidate@),
    ensures
        match candidate_span(candidate@) {
            Ok(s) => r matches Ok(x) && x@ == s,
            Err(m) => r matches Err(AppError::Validation(x)) && x@ == m,
        },
{
    let chars = chars_of(candidate);
    let start = match first_pos_of(chars.as_slice(), '[') {
        Some(s) => s,
        None => return Err(AppError::Validation(owned("资料整理 Agent 未返回 JSON 数组"))),
    };
    let end = match last_pos_of(chars.as_slice(), ']') {
        Some(e) => e,
        None => return Err(AppError::Validation(owned("资料整理 Agent 返回的 JSON 不完整"))),
    };
    let span = slice_of(chars.as_slice(), start, end + 1);
    Ok(string_of(span.as_slice()))
}

/// The message of candidates that do not parse.
pub fn candidate_parse_error(error: &str) -> (r: AppError)
    ensures
        r matches AppError::Validation(m) && m@ == "无法解析资料候选："@ + error@,
{
    AppError::Validation(concat("无法解析资料候选：", error))
}

} // verus!
