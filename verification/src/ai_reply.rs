//! Reading what an OpenAI-compatible service answers: the text of a chat
//! reply, its error, a streamed delta, and the tool calls a model plans.
use vstd::prelude::*;

use crate::ai::{fence_trimmed, strip_think_blocks, think_stripped, trim_code_fence};
use crate::error::AppError;
use crate::json::{
    array_value, as_array, as_text, compact_json, field, get_field, json_compact, json_parse, json_view,
    parse_json, text_value, Json, JsonView,
};
use crate::text::{
    append, blank, chars_of, concat, decimal, decimal_of_count, is_blank, join, join_strings, owned, slice_of,
    string_of, trim, views,
};

verus! {

/// A deep copy of a JSON value.
#[verifier::loop_isolation(false)]
pub fn copy_json(j: &Json) -> (r: Json)
    ensures
        r@ == j@,
    decreases j,
{
    match j {
        Json::Null => Json::Null,
        Json::Bool(b) => Json::Bool(*b),
        Json::Number(n) => Json::Number(n.clone()),
        Json::Str(s) => Json::Str(s.clone()),
        Json::Array(a) => {
            let mut out: Vec<Json> = Vec::new();
            let mut i: usize = 0;
            while i < a.len()
                invariant
                    i <= a@.len(),
                    out@.len() == i,
                    forall|k: int| 0 <= k < i ==> #[trigger] out@[k]@ == a@[k]@,
                decreases a.len() - i,
            {
                proof {
                    assert(decreases_to!(j => a));
                    assert(decreases_to!(a => a@));
                    assert(decreases_to!(a@ => a@[i as int]));
                }
                let x = copy_json(&a[i]);
                out.push(x);
                i = i + 1;
            }
            let r = Json::Array(out);
            proof {
                let rs = match r@ {
                    JsonView::Array(s) => s,
                    _ => Seq::empty(),
                };
                let js = match j@ {
                    JsonView::Array(s) => s,
                    _ => Seq::empty(),
                };
                assert(rs.len() == js.len());
                assert forall|k: int| 0 <= k < rs.len() implies rs[k] == js[k] by {
                    assert(out@[k]@ == a@[k]@);
                    assert(rs[k] == json_view(out@[k]));
                    assert(js[k] == json_view(a@[k]));
                }
                assert(rs =~= js);
            }
            r
        },
        Json::Object(o) => {
            let mut out: Vec<(String, Json)> = Vec::new();
            let mut i: usize = 0;
            while i < o.len()
                invariant
                    i <= o@.len(),
                    out@.len() == i,
                    forall|k: int|
                        0 <= k < i ==> (#[trigger] out@[k]).0@ == o@[k].0@ && out@[k].1@ == o@[k].1@,
                decreases o.len() - i,
            {
                proof {
                    assert(decreases_to!(j => o));
                    assert(decreases_to!(o => o@));
                    assert(decreases_to!(o@ => o@[i as int]));
                    assert(decreases_to!(o@[i as int] => o@[i as int].1));
                }
                let key = o[i].0.clone();
                let x = copy_json(&o[i].1);
                out.push((key, x));
                assert(out@[i as int].0@ == o@[i as int].0@ && out@[i as int].1@ == o@[i as int].1@);
                i = i + 1;
            }
            let r = Json::Object(out);
            proof {
                let rs = match r@ {
                    JsonView::Object(s) => s,
                    _ => Seq::empty(),
                };
                let js = match j@ {
                    JsonView::Object(s) => s,
                    _ => Seq::empty(),
                };
                assert(rs =~= js);
            }
            r
        },
    }
}

// ---------------------------------------------------------------------------
// Message content
// ---------------------------------------------------------------------------
/// The text of one part of an array content: a string, or the `text` (else
/// the `content`) string of an object.
pub open spec fn part_text(p: JsonView) -> Option<Seq<char>> {
    match p {
        JsonView::Str(t) => Some(t),
        JsonView::Object(_) => match text_value(field(p, "text"@)) {
            Some(t) => Some(t),
            None => text_value(field(p, "content"@)),
        },
        _ => None,
    }
}

/// The texts of the parts that have one, in order.
pub open spec fn part_texts(parts: Seq<JsonView>) -> Seq<Seq<char>>
    decreases parts.len(),
{
    if parts.len() == 0 {
        Seq::empty()
    } else {
        let prev = part_texts(parts.drop_last());
        match part_text(parts.last()) {
            Some(t) => prev.push(t),
            None => prev,
        }
    }
}

/// The text of a message's content: a string as it is, an array as the
/// texts of its parts joined by newlines unless that is blank.
pub open spec fn message_content(v: JsonView) -> Option<Seq<char>> {
    match v {
        JsonView::Str(t) => Some(t),
        JsonView::Array(parts) => {
            let c = join(part_texts(parts), "\n"@);
            if blank(c) {
                None
            } else {
                Some(c)
            }
        },
        _ => None,
    }
}

fn part_text_of(p: &Json) -> (r: Option<String>)
    ensures
        match r {
            Some(t) => part_text(p@) == Some(t@),
            None => part_text(p@) is None,
        },
{
    match p {
        Json::Str(t) => Some(t.clone()),
        Json::Object(_) => match as_text(get_field(p, "text")) {
            Some(t) => Some(t.clone()),
            None => match as_text(get_field(p, "content")) {
                Some(t) => Some(t.clone()),
                None => None,
            },
        },
        _ => None,
    }
}

/// The text of a message's content (see `message_content`).
pub fn extract_message_content(v: &Json) -> (r: Option<String>)
    ensures
        match r {
            Some(t) => message_content(v@) == Some(t@),
            None => message_content(v@) is None,
        },
{
    match v {
        Json::Str(t) => Some(t.clone()),
        Json::Array(parts) => {
            let ghost pv = Seq::new(parts@.len(), |k: int| json_view(parts@[k]));
            proof {
                let vs = match v@ {
                    JsonView::Array(s) => s,
                    _ => Seq::empty(),
                };
                assert(vs =~= pv);
            }
            let mut texts: Vec<String> = Vec::new();
            let mut i: usize = 0;
            while i < parts.len()
                invariant
                    i <= parts@.len(),
                    pv == Seq::new(parts@.len(), |k: int| json_view(parts@[k])),
                    views(texts@) == part_texts(pv.take(i as int)),
                decreases parts.len() - i,
            {
                assert(pv.take(i + 1).drop_last() == pv.take(i as int));
                assert(pv.take(i + 1).last() == parts@[i as int]@);
                match part_text_of(&parts[i]) {
                    Some(t) => {
                        let ghost before = views(texts@);
                        let ghost tv = t@;
                        texts.push(t);
                        assert(views(texts@) =~= before.push(tv));
                    },
                    None => {},
                }
                i = i + 1;
            }
            assert(pv.take(parts.len() as int) == pv);
            let collected = join_strings(texts.as_slice(), "\n");
            if is_blank(collected.as_str()) {
                None
            } else {
                Some(collected)
            }
        },
        _ => None,
    }
}

// ---------------------------------------------------------------------------
// Errors
// ---------------------------------------------------------------------------
/// What an `error` value says: a string as it is, an object's `message`
/// string, else the value's compact JSON text.
pub open spec fn error_text(v: JsonView) -> Seq<char> {
    match v {
        JsonView::Str(t) => t,
        JsonView::Object(_) => match text_value(field(v, "message"@)) {
            Some(m) => m,
            None => json_compact(v),
        },
        _ => json_compact(v),
    }
}

/// What an `error` value says (see `error_text`); there is always something.
pub fn extract_error_message(v: &Json) -> (r: Option<String>)
    ensures
        r matches Some(m) && m@ == error_text(v@),
{
    match v {
        Json::Str(t) => Some(t.clone()),
        Json::Object(_) => match as_text(get_field(v, "message")) {
            Some(m) => Some(m.clone()),
            None => Some(compact_json(v)),
        },
        _ => Some(compact_json(v)),
    }
}

// ---------------------------------------------------------------------------
// Chat replies
// ---------------------------------------------------------------------------
/// The first element of the `choices` array.
pub open spec fn first_choice(v: JsonView) -> Option<JsonView> {
    match array_value(field(v, "choices"@)) {
        Some(a) => if a.len() > 0 {
            Some(a[0])
        } else {
            None
        },
        None => None,
    }
}

/// The field `key` of the field `outer` of the first choice.
pub open spec fn choice_field(v: JsonView, outer: Seq<char>, key: Seq<char>) -> Option<JsonView> {
    match first_choice(v) {
        Some(c) => match field(c, outer) {
            Some(m) => field(m, key),
            None => None,
        },
        None => None,
    }
}

/// The visible text of a streamed chunk: the content of the first choice's
/// `delta`.
pub open spec fn stream_delta(v: JsonView) -> Option<Seq<char>> {
    match choice_field(v, "delta"@, "content"@) {
        Some(c) => message_content(c),
        None => None,
    }
}

fn first_choice_of(v: &Json) -> (r: Option<&Json>)
    ensures
        match r {
            Some(c) => first_choice(v@) == Some(c@),
            None => first_choice(v@) is None,
        },
{
    match as_array(get_field(v, "choices")) {
        Some(a) => if a.len() > 0 {
            Some(&a[0])
        } else {
            None
        },
        None => None,
    }
}

fn choice_field_of<'a>(v: &'a Json, outer: &str, key: &str) -> (r: Option<&'a Json>)
    ensures
        match r {
            Some(x) => choice_field(v@, outer@, key@) == Some(x@),
            None => choice_field(v@, outer@, key@) is None,
        },
{
    match first_choice_of(v) {
        Some(c) => match get_field(c, outer) {
            Some(m) => get_field(m, key),
            None => None,
        },
        None => None,
    }
}

/// The visible text of a streamed chunk (see `stream_delta`).
pub fn extract_stream_delta_content(v: &Json) -> (r: Option<String>)
    ensures
        match r {
            Some(t) => stream_delta(v@) == Some(t@),
            None => stream_delta(v@) is None,
        },
{
    match choice_field_of(v, "delta", "content") {
        Some(c) => extract_message_content(c),
        None => None,
    }
}

/// The text of a chat reply read as a JSON value: a reply with an `error`
/// field fails with what it says; else the content of the first choice's
/// message, its thinking removed, unless there is none or it is blank.
/// A text that is not JSON fails with the parser's message.
pub fn chat_completion_content(trimmed: &str) -> (r: Result<String, AppError>)
    ensures
        match json_parse(trimmed@) {
            Err(e) => r matches Err(AppError::Json(m)) && m@ == e,
            Ok(v) => match field(v, "error"@) {
                Some(err) => r matches Err(AppError::Validation(m)) && m@ == "AI 返回错误："@
                    + error_text(err),
                None => match choice_field(v, "message"@, "content"@) {
                    Some(c) => match message_content(c) {
                        Some(t) => if blank(t) {
                            r matches Err(AppError::Validation(m)) && m@ == "AI 没有返回可用内容"@
                        } else {
                            r matches Ok(s) && s@ == trim(think_stripped(t))
                        },
                        None => r matches Err(AppError::Validation(m)) && m@
                            == "AI 没有返回可用内容"@,
                    },
                    None => r matches Err(AppError::Validation(m)) && m@ == "AI 没有返回可用内容"@,
                },
            },
        },
{
    let value = match parse_json(trimmed) {
        Ok(v) => v,
        Err(e) => return Err(AppError::Json(e)),
    };
    match get_field(&value, "error") {
        Some(err) => {
            let message = match extract_error_message(err) {
                Some(m) => m,
                None => owned(""),
            };
            return Err(AppError::Validation(concat("AI 返回错误：", message.as_str())));
        },
        None => {},
    }
    let content = match choice_field_of(&value, "message", "content") {
        Some(c) => extract_message_content(c),
        None => None,
    };
    match content {
        Some(t) => if is_blank(t.as_str()) {
            Err(AppError::Validation(owned("AI 没有返回可用内容")))
        } else {
            Ok(strip_think_blocks(t.as_str()))
        },
        None => Err(AppError::Validation(owned("AI 没有返回可用内容"))),
    }
}

/// Why a model list could not be read, once the reply is neither a list
/// nor an object with a `data` list: a text that is not JSON fails with the
/// parser's message, a reply with an `error` field with what it says, any
/// other reply as an unsupported format.
pub fn models_reply_error(trimmed: &str) -> (r: AppError)
    ensures
        match json_parse(trimmed@) {
            Err(e) => r matches AppError::Json(m) && m@ == e,
            Ok(v) => match field(v, "error"@) {
                Some(err) => r matches AppError::Validation(m) && m@ == "获取模型列表失败："@
                    + error_text(err),
                None => r matches AppError::Validation(m) && m@ == "模型列表响应格式不受支持"@,
            },
        },
{
    let value = match parse_json(trimmed) {
        Ok(v) => v,
        Err(e) => return AppError::Json(e),
    };
    match get_field(&value, "error") {
        Some(err) => {
            let message = match extract_error_message(err) {
                Some(m) => m,
                None => owned(""),
            };
            AppError::Validation(concat("获取模型列表失败：", message.as_str()))
        },
        None => AppError::Validation(owned("模型列表响应格式不受支持")),
    }
}

// ---------------------------------------------------------------------------
// Planned tool calls
// ---------------------------------------------------------------------------
/// A tool call that a model planned.
#[derive(Debug, PartialEq)]
pub struct ToolCall {
    pub call_id: String,
    pub tool_key: String,
    pub arguments: Json,
    pub protocol: String,
}

/// A tool call as text and a JSON value.
pub struct ToolCallView {
    pub call_id: Seq<char>,
    pub tool_key: Seq<char>,
    pub arguments: JsonView,
    pub protocol: Seq<char>,
}

impl View for ToolCall {
    type V = ToolCallView;

    open spec fn view(&self) -> ToolCallView {
        ToolCallView {
            call_id: self.call_id@,
            tool_key: self.tool_key@,
            arguments: self.arguments@,
            protocol: self.protocol@,
        }
    }
}

/// The views of a list of tool calls.
pub open spec fn call_views(s: Seq<ToolCall>) -> Seq<ToolCallView> {
    s.map_values(|c: ToolCall| c@)
}

/// The message of the first choice.
pub open spec fn first_message(v: JsonView) -> Option<JsonView> {
    match first_choice(v) {
        Some(c) => field(c, "message"@),
        None => None,
    }
}

/// One native tool call, the `index`-th: its function must have a name that
/// is not blank, and its `arguments` string (`{}` when absent) must be JSON;
/// its id is the call's `id` string, else `native-` and the index.
#[verifier::opaque]
pub open spec fn native_call(call: JsonView, index: int) -> Result<ToolCallView, Seq<char>> {
    match field(call, "function"@) {
        None => Err("原生工具调用缺少 function"@),
        Some(f) => match text_value(field(f, "name"@)) {
            None => Err("原生工具调用缺少 name"@),
            Some(name) => if blank(name) {
                Err("原生工具调用缺少 name"@)
            } else {
                let raw = match text_value(field(f, "arguments"@)) {
                    Some(a) => a,
                    None => "{}"@,
                };
                match json_parse(raw) {
                    Err(e) => Err("工具 "@ + name + " 参数不是合法 JSON："@ + e),
                    Ok(arguments) => Ok(
                        ToolCallView {
                            call_id: match text_value(field(call, "id"@)) {
                                Some(id) => id,
                                None => "native-"@ + decimal(index),
                            },
                            tool_key: name,
                            arguments,
                            protocol: "native"@,
                        },
                    ),
                }
            },
        },
    }
}

/// The native tool calls in order, or the first one's error.
pub open spec fn native_calls(calls: Seq<JsonView>) -> Result<Seq<ToolCallView>, Seq<char>>
    decreases calls.len(),
{
    if calls.len() == 0 {
        Ok(Seq::empty())
    } else {
        match native_calls(calls.drop_last()) {
            Err(e) => Err(e),
            Ok(prev) => match native_call(calls.last(), calls.len() - 1) {
                Err(e) => Err(e),
                Ok(c) => Ok(prev.push(c)),
            },
        }
    }
}

fn native_call_of(call: &Json, index: usize) -> (r: Result<ToolCall, String>)
    ensures
        match native_call(call@, index as int) {
            Ok(c) => r matches Ok(x) && x@ == c,
            Err(e) => r matches Err(m) && m@ == e,
        },
{
    reveal(native_call);
    let function = match get_field(call, "function") {
        Some(f) => f,
        None => return Err(owned("原生工具调用缺少 function")),
    };
    let name = match as_text(get_field(function, "name")) {
        Some(n) => n,
        None => return Err(owned("原生工具调用缺少 name")),
    };
    if is_blank(name.as_str()) {
        return Err(owned("原生工具调用缺少 name"));
    }
    let raw: &str = match as_text(get_field(function, "arguments")) {
        Some(a) => a.as_str(),
        None => "{}",
    };
    let arguments = match parse_json(raw) {
        Ok(a) => a,
        Err(e) => {
            let mut m = concat("工具 ", name.as_str());
            append(&mut m, " 参数不是合法 JSON：");
            append(&mut m, e.as_str());
            return Err(m);
        },
    };
    let call_id = match as_text(get_field(call, "id")) {
        Some(id) => id.clone(),
        None => concat("native-", decimal_of_count(index).as_str()),
    };
    Ok(ToolCall { call_id, tool_key: name.clone(), arguments, protocol: owned("native") })
}

/// The tool calls of a native tool-calling reply: those of the first
/// choice's message (`tool_calls`, none when absent), in order (see
/// `native_calls`). A text that is not JSON fails with the parser's message;
/// a reply without `choices[0].message`, or with a call that is not valid,
/// fails with why.
pub fn parse_native_tool_calls(raw: &str) -> (r: Result<Vec<ToolCall>, AppError>)
    ensures
        match json_parse(raw@) {
            Err(e) => r matches Err(AppError::Json(m)) && m@ == e,
            Ok(v) => match first_message(v) {
                None => r matches Err(AppError::Validation(m)) && m@
                    == "原生工具响应缺少 choices[0].message"@,
                Some(message) => match native_calls(
                    match array_value(field(message, "tool_calls"@)) {
                        Some(a) => a,
                        None => Seq::empty(),
                    },
                ) {
                    Ok(cs) => r matches Ok(x) && call_views(x@) == cs,
                    Err(e) => r matches Err(AppError::Validation(m)) && m@ == e,
                },
            },
        },
{
    let value = match parse_json(raw) {
        Ok(v) => v,
        Err(e) => return Err(AppError::Json(e)),
    };
    let message = match first_choice_of(&value) {
        Some(c) => match get_field(c, "message") {
            Some(m) => m,
            None => return Err(AppError::Validation(owned("原生工具响应缺少 choices[0].message"))),
        },
        None => return Err(AppError::Validation(owned("原生工具响应缺少 choices[0].message"))),
    };
    let empty: Vec<Json> = Vec::new();
    let calls: &Vec<Json> = match as_array(get_field(message, "tool_calls")) {
        Some(a) => a,
        None => &empty,
    };
    proof {
        if array_value(field(message@, "tool_calls"@)) is None {
            assert(Seq::new(calls@.len(), |k: int| json_view(calls@[k])) =~= Seq::<JsonView>::empty());
        }
    }
    match native_calls_of(calls) {
        Ok(out) => Ok(out),
        Err(e) => Err(AppError::Validation(e)),
    }
}

fn native_calls_of(calls: &Vec<Json>) -> (r: Result<Vec<ToolCall>, String>)
    ensures
        match native_calls(Seq::new(calls@.len(), |k: int| json_view(calls@[k]))) {
            Ok(cs) => r matches Ok(x) && call_views(x@) == cs,
            Err(e) => r matches Err(m) && m@ == e,
        },
{
    let ghost cv = Seq::new(calls@.len(), |k: int| json_view(calls@[k]));
    let mut out: Vec<ToolCall> = Vec::new();
    let mut i: usize = 0;
    assert(cv.take(0) =~= Seq::<JsonView>::empty());
    assert(call_views(out@) =~= Seq::<ToolCallView>::empty());
    while i < calls.len()
        invariant
            i <= calls@.len(),
            cv == Seq::new(calls@.len(), |k: int| json_view(calls@[k])),
            native_calls(cv.take(i as int)) == Ok::<Seq<ToolCallView>, Seq<char>>(call_views(out@)),
        decreases calls.len() - i,
    {
        assert(cv.take(i + 1).drop_last() == cv.take(i as int));
        assert(cv.take(i + 1).last() == calls@[i as int]@);
        match native_call_of(&calls[i], i) {
            Ok(c) => {
                let ghost before = call_views(out@);
                let ghost cw = c@;
                out.push(c);
                assert(call_views(out@) =~= before.push(cw));
            },
            Err(e) => {
                proof {
                    lemma_native_calls_error(cv, i as int, e@);
                }
                return Err(e);
            },
        }
        i = i + 1;
    }
    assert(cv.take(calls.len() as int) == cv);
    Ok(out)
}

proof fn lemma_native_calls_error(cv: Seq<JsonView>, i: int, e: Seq<char>)
    requires
        0 <= i < cv.len(),
        native_calls(cv.take(i)) is Ok,
        native_call(cv[i], i) == Err::<ToolCallView, Seq<char>>(e),
    ensures
        native_calls(cv) == Err::<Seq<ToolCallView>, Seq<char>>(e),
    decreases cv.len(),
{
    if i == cv.len() - 1 {
        assert(cv.drop_last() == cv.take(i));
    } else {
        assert(cv.drop_last().take(i) == cv.take(i));
        assert(cv.drop_last()[i] == cv[i]);
        lemma_native_calls_error(cv.drop_last(), i, e);
    }
}

// ---------------------------------------------------------------------------
// Structured tool plans
// ---------------------------------------------------------------------------
/// The first position of `c` in `s`.
pub open spec fn first_pos(s: Seq<char>, c: char) -> Option<int>
    decreases s.len(),
{
    if s.len() == 0 {
        None
    } else {
        match first_pos(s.drop_last(), c) {
            Some(i) => Some(i),
            None => if s.last() == c {
                Some(s.len() - 1)
            } else {
                None
            },
        }
    }
}

/// The last position of `c` in `s`.
pub open spec fn last_pos(s: Seq<char>, c: char) -> Option<int>
    decreases s.len(),
{
    if s.len() == 0 {
        None
    } else if s.last() == c {
        Some(s.len() - 1)
    } else {
        last_pos(s.drop_last(), c)
    }
}

/// The JSON value of a structured plan: the text itself, else the span from
/// its first `{` to its last `}`.
pub open spec fn structured_value(t: Seq<char>) -> Result<JsonView, Seq<char>> {
    match json_parse(t) {
        Ok(v) => Ok(v),
        Err(_) => match first_pos(t, '{') {
            None => Err("missing JSON object"@),
            Some(start) => match last_pos(t, '}') {
                None => Err("missing JSON object"@),
                Some(end) => json_parse(t.subrange(start, end + 1)),
            },
        },
    }
}

/// The span from the first `{` to the last `}` would have to be taken from
/// a text that is not JSON while the last `}` stands before the first `{`
/// with something between them: a slice that does not exist.
pub open spec fn structured_span_reversed(t: Seq<char>) -> bool {
    &&& json_parse(t) is Err
    &&& first_pos(t, '{') matches Some(start)
    &&& last_pos(t, '}') matches Some(end)
    &&& end + 1 < start
}

/// One structured tool call, the `index`-th: its `tool_key` must be a
/// string that is not blank; its id is the `call_id` string, else
/// `structured-` and the index; its arguments are `arguments`, else `{}`.
#[verifier::opaque]
pub open spec fn structured_call(call: JsonView, index: int) -> Result<ToolCallView, Seq<char>> {
    match text_value(field(call, "tool_key"@)) {
        None => Err("工具计划缺少 tool_key"@),
        Some(key) => if blank(key) {
            Err("工具计划缺少 tool_key"@)
        } else {
            Ok(
                ToolCallView {
                    call_id: match text_value(field(call, "call_id"@)) {
                        Some(id) => id,
                        None => "structured-"@ + decimal(index),
                    },
                    tool_key: key,
                    arguments: match field(call, "arguments"@) {
                        Some(a) => a,
                        None => JsonView::Object(Seq::empty()),
                    },
                    protocol: "structured"@,
                },
            )
        },
    }
}

/// The structured tool calls in order, or the first one's error.
pub open spec fn structured_calls(calls: Seq<JsonView>) -> Result<Seq<ToolCallView>, Seq<char>>
    decreases calls.len(),
{
    if calls.len() == 0 {
        Ok(Seq::empty())
    } else {
        match structured_calls(calls.drop_last()) {
            Err(e) => Err(e),
            Ok(prev) => match structured_call(calls.last(), calls.len() - 1) {
                Err(e) => Err(e),
                Ok(c) => Ok(prev.push(c)),
            },
        }
    }
}

pub(crate) fn first_pos_of(s: &[char], c: char) -> (r: Option<usize>)
    ensures
        match r {
            Some(i) => i < s.len() && first_pos(s@, c) == Some(i as int),
            None => first_pos(s@, c) is None,
        },
{
    let mut i: usize = 0;
    while i < s.len()
        invariant
            i <= s@.len(),
            first_pos(s@.take(i as int), c) is None,
        decreases s.len() - i,
    {
        assert(s@.take(i + 1).drop_last() == s@.take(i as int));
        if s[i] == c {
            proof {
                lemma_first_pos_extends(s@, c, i as int);
            }
            return Some(i);
        }
        i = i + 1;
    }
    assert(s@.take(s.len() as int) == s@);
    None
}

proof fn lemma_first_pos_extends(s: Seq<char>, c: char, i: int)
    requires
        0 <= i < s.len(),
        s[i] == c,
        first_pos(s.take(i), c) is None,
    ensures
        first_pos(s, c) == Some(i),
    decreases s.len(),
{
    if i == s.len() - 1 {
        assert(s.drop_last() == s.take(i));
    } else {
        assert(s.drop_last().take(i) == s.take(i));
        lemma_first_pos_extends(s.drop_last(), c, i);
    }
}

pub(crate) fn last_pos_of(s: &[char], c: char) -> (r: Option<usize>)
    ensures
        match r {
            Some(i) => i < s.len() && last_pos(s@, c) == Some(i as int),
            None => last_pos(s@, c) is None,
        },
{
    let mut i: usize = s.len();
    assert(s@.take(i as int) == s@);
    while i > 0
        invariant
            i <= s@.len(),
            last_pos(s@, c) == last_pos(s@.take(i as int), c),
        decreases i,
    {
        assert(s@.take(i as int).drop_last() == s@.take(i - 1));
        if s[i - 1] == c {
            return Some(i - 1);
        }
        i = i - 1;
    }
    None
}

/// The JSON value of a structured plan (see `structured_value`).
fn structured_value_of(t: &str) -> (r: Result<Json, String>)
    requires
        !structured_span_reversed(t@),
    ensures
        match structured_value(t@) {
            Ok(v) => r matches Ok(j) && j@ == v,
            Err(e) => r matches Err(m) && m@ == e,
        },
{
    match parse_json(t) {
        Ok(v) => return Ok(v),
        Err(_) => {},
    }
    let chars = chars_of(t);
    let start = match first_pos_of(chars.as_slice(), '{') {
        Some(s) => s,
        None => return Err(owned("missing JSON object")),
    };
    let end = match last_pos_of(chars.as_slice(), '}') {
        Some(e) => e,
        None => return Err(owned("missing JSON object")),
    };
    let span = slice_of(chars.as_slice(), start, end + 1);
    let text = string_of(span.as_slice());
    parse_json(text.as_str())
}

fn empty_object() -> (r: Json)
    ensures
        r@ == JsonView::Object(Seq::empty()),
{
    let fields: Vec<(String, Json)> = Vec::new();
    let empty = Json::Object(fields);
    proof {
        let es = match empty@ {
            JsonView::Object(o) => o,
            _ => Seq::empty(),
        };
        assert(es =~= Seq::<(Seq<char>, JsonView)>::empty());
    }
    empty
}

fn structured_call_of(call: &Json, index: usize) -> (r: Result<ToolCall, String>)
    ensures
        match structured_call(call@, index as int) {
            Ok(c) => r matches Ok(x) && x@ == c,
            Err(e) => r matches Err(m) && m@ == e,
        },
{
    reveal(structured_call);
    let key = match as_text(get_field(call, "tool_key")) {
        Some(k) => k,
        None => return Err(owned("工具计划缺少 tool_key")),
    };
    if is_blank(key.as_str()) {
        return Err(owned("工具计划缺少 tool_key"));
    }
    let call_id = match as_text(get_field(call, "call_id")) {
        Some(id) => id.clone(),
        None => concat("structured-", decimal_of_count(index).as_str()),
    };
    let arguments = match get_field(call, "arguments") {
        Some(a) => copy_json(a),
        None => empty_object(),
    };
    Ok(ToolCall { call_id, tool_key: key.clone(), arguments, protocol: owned("structured") })
}

fn structured_calls_of(calls: &Vec<Json>) -> (r: Result<Vec<ToolCall>, String>)
    ensures
        match structured_calls(Seq::new(calls@.len(), |k: int| json_view(calls@[k]))) {
            Ok(cs) => r matches Ok(x) && call_views(x@) == cs,
            Err(e) => r matches Err(m) && m@ == e,
        },
{
    let ghost cv = Seq::new(calls@.len(), |k: int| json_view(calls@[k]));
    let mut out: Vec<ToolCall> = Vec::new();
    let mut i: usize = 0;
    assert(cv.take(0) =~= Seq::<JsonView>::empty());
    assert(call_views(out@) =~= Seq::<ToolCallView>::empty());
    while i < calls.len()
        invariant
            i <= calls@.len(),
            cv == Seq::new(calls@.len(), |k: int| json_view(calls@[k])),
            structured_calls(cv.take(i as int)) == Ok::<Seq<ToolCallView>, Seq<char>>(call_views(out@)),
        decreases calls.len() - i,
    {
        assert(cv.take(i + 1).drop_last() == cv.take(i as int));
        assert(cv.take(i + 1).last() == calls@[i as int]@);
        match structured_call_of(&calls[i], i) {
            Ok(c) => {
                let ghost before = call_views(out@);
                let ghost cw = c@;
                out.push(c);
                assert(call_views(out@) =~= before.push(cw));
            },
            Err(e) => {
                proof {
                    lemma_structured_calls_error(cv, i as int, e@);
                }
                return Err(e);
            },
        }
        i = i + 1;
    }
    assert(cv.take(calls.len() as int) == cv);
    Ok(out)
}

proof fn lemma_structured_calls_error(cv: Seq<JsonView>, i: int, e: Seq<char>)
    requires
        0 <= i < cv.len(),
        structured_calls(cv.take(i)) is Ok,
        structured_call(cv[i], i) == Err::<ToolCallView, Seq<char>>(e),
    ensures
        structured_calls(cv) == Err::<Seq<ToolCallView>, Seq<char>>(e),
    decreases cv.len(),
{
    if i == cv.len() - 1 {
        assert(cv.drop_last() == cv.take(i));
    } else {
        assert(cv.drop_last().take(i) == cv.take(i));
        assert(cv.drop_last()[i] == cv[i]);
        lemma_structured_calls_error(cv.drop_last(), i, e);
    }
}

/// The tool calls of a structured plan: the reply, its code fence removed,
/// read as JSON (else the span from its first `{` to its last `}`), must
/// hold a `calls` array, whose calls are read in order (see
/// `structured_calls`). Unreadable JSON fails with the parser's message, a
/// plan without `calls` or with a call that is not valid with why.
pub fn parse_structured_tool_calls(raw: &str) -> (r: Result<Vec<ToolCall>, AppError>)
    requires
        !structured_span_reversed(fence_trimmed(raw@)),
    ensures
        match structured_value(fence_trimmed(raw@)) {
            Err(e) => r matches Err(AppError::Json(m)) && m@ == e,
            Ok(v) => match array_value(field(v, "calls"@)) {
                None => r matches Err(AppError::Validation(m)) && m@ == "结构化工具计划缺少 calls 数组"@,
                Some(calls) => match structured_calls(calls) {
                    Ok(cs) => r matches Ok(x) && call_views(x@) == cs,
                    Err(e) => r matches Err(AppError::Validation(m)) && m@ == e,
                },
            },
        },
{
    let trimmed = trim_code_fence(raw);
    let value = match structured_value_of(trimmed.as_str()) {
        Ok(v) => v,
        Err(e) => return Err(AppError::Json(e)),
    };
    let calls = match as_array(get_field(&value, "calls")) {
        Some(a) => a,
        None => return Err(AppError::Validation(owned("结构化工具计划缺少 calls 数组"))),
    };
    match structured_calls_of(calls) {
        Ok(out) => Ok(out),
        Err(e) => Err(AppError::Validation(e)),
    }
}

/// The tool calls of a structured plan (see `parse_structured_tool_calls`),
/// or `None` for a reply whose span would have to be taken backwards (see
/// `structured_span_reversed`).
pub fn structured_tool_calls_checked(raw: &str) -> (r: Option<Result<Vec<ToolCall>, AppError>>)
    ensures
        r is None <==> structured_span_reversed(fence_trimmed(raw@)),
        r matches Some(x) ==> (match structured_value(fence_trimmed(raw@)) {
            Err(e) => x matches Err(AppError::Json(m)) && m@ == e,
            Ok(v) => match array_value(field(v, "calls"@)) {
                None => x matches Err(AppError::Validation(m)) && m@ == "结构化工具计划缺少 calls 数组"@,
                Some(calls) => match structured_calls(calls) {
                    Ok(cs) => x matches Ok(y) && call_views(y@) == cs,
                    Err(e) => x matches Err(AppError::Validation(m)) && m@ == e,
                },
            },
        }),
{
    let trimmed = trim_code_fence(raw);
    let parsed = parse_json(trimmed.as_str());
    if parsed.is_err() {
        let chars = chars_of(trimmed.as_str());
        match (first_pos_of(chars.as_slice(), '{'), last_pos_of(chars.as_slice(), '}')) {
            (Some(start), Some(end)) => if end + 1 < start {
                return None;
            },
            _ => {},
        }
    }
    Some(parse_structured_tool_calls(raw))
}

// ---------------------------------------------------------------------------
// Review issues
// ---------------------------------------------------------------------------
/// The span of a review reply from its first `[` to its last `]`, when it
/// has both.
pub open spec fn issue_span(t: Seq<char>) -> Option<Seq<char>> {
    match first_pos(t, '[') {
        Some(start) => match last_pos(t, ']') {
            Some(end) => Some(t.subrange(start, end + 1)),
            None => None,
        },
        None => None,
    }
}

/// The last `]` of the text stands before its first `[` with something
/// between them, so that no span runs from the one to the other.
pub open spec fn issue_span_reversed(t: Seq<char>) -> bool {
    &&& first_pos(t, '[') matches Some(start)
    &&& last_pos(t, ']') matches Some(end)
    &&& end + 1 < start
}

/// The span of a review reply that is read as the list of issues when the
/// whole reply is not one (see `issue_span`).
pub fn issue_array_span(trimmed: &str) -> (r: Option<String>)
    requires
        !issue_span_reversed(trimmed@),
    ensures
        match r {
            Some(s) => issue_span(trimmed@) == Some(s@),
            None => issue_span(trimmed@) is None,
        },
{
    let chars = chars_of(trimmed);
    let start = match first_pos_of(chars.as_slice(), '[') {
        Some(s) => s,
        None => return None,
    };
    let end = match last_pos_of(chars.as_slice(), ']') {
        Some(e) => e,
        None => return None,
    };
    let span = slice_of(chars.as_slice(), start, end + 1);
    Some(string_of(span.as_slice()))
}

} // verus!
