//! Reading a streamed chat reply: server-sent events, line by line, with the
//! visible text gathered as it comes and the end of the stream checked.
use vstd::prelude::*;
use vstd::utf8::{decode_utf8, valid_utf8};

use crate::ai::{strip_think_blocks, think_stripped};
use crate::ai_reply::{error_text, extract_error_message, extract_stream_delta_content, stream_delta};
use crate::error::AppError;
use crate::json::{as_text, field, get_field, json_parse, parse_json, text_value, Json, JsonView};
use crate::text::{
    append, begins, blank, chars_of, concat, find_char, is_blank, owned, slice_of, starts_with,
    string_of, trim, trim_chars,
};

verus! {

/// What `String::from_utf8_lossy` makes of some bytes.
pub uninterp spec fn utf8_lossy(bytes: Seq<u8>) -> Seq<char>;

/// `String::from_utf8_lossy`: the text of the bytes, each invalid sequence
/// replaced by U+FFFD; valid UTF-8 decodes as it is. The result is what
/// `utf8_lossy` names for the bytes.
#[verifier::external_body]
pub fn lossy_text(bytes: &[u8]) -> (r: String)
    ensures
        r@ == utf8_lossy(bytes@),
        valid_utf8(bytes@) ==> r@ == decode_utf8(bytes@),
{
    String::from_utf8_lossy(bytes).to_string()
}

/// What a streamed reply has shown so far.
pub struct StreamView {
    pub buffer: Seq<char>,
    pub raw: Seq<char>,
    pub content: Seq<char>,
    pub saw_event: bool,
    pub saw_end: bool,
}

/// A streamed reply being read: the text not yet split into lines, all the
/// text received, the visible text gathered, whether an event came, and
/// whether the stream said it was done.
pub struct StreamReader {
    buffer: Vec<char>,
    raw: String,
    content: String,
    saw_event: bool,
    saw_end: bool,
}

impl View for StreamReader {
    type V = StreamView;

    closed spec fn view(&self) -> StreamView {
        StreamView {
            buffer: self.buffer@,
            raw: self.raw@,
            content: self.content@,
            saw_event: self.saw_event,
            saw_end: self.saw_end,
        }
    }
}

/// `s` without its trailing carriage returns.
pub open spec fn trim_end_cr(s: Seq<char>) -> Seq<char>
    decreases s.len(),
{
    if s.len() > 0 && s.last() == '\r' {
        trim_end_cr(s.drop_last())
    } else {
        s
    }
}

/// The first position of a newline.
pub open spec fn newline_at(s: Seq<char>) -> Option<int> {
    if exists|i: int| 0 <= i < s.len() && s[i] == '\n' {
        Some(choose|i: int| 0 <= i < s.len() && s[i] == '\n' && forall|j: int| 0 <= j < i ==> s[j] != '\n')
    } else {
        None
    }
}

/// The first choice as a JSON pointer `/choices/0` finds it: element 0 of
/// an array, or the field `0` of an object.
pub open spec fn pointer_choice(v: JsonView) -> Option<JsonView> {
    match field(v, "choices"@) {
        Some(JsonView::Array(a)) => if a.len() > 0 {
            Some(a[0])
        } else {
            None
        },
        Some(JsonView::Object(o)) => field(JsonView::Object(o), "0"@),
        _ => None,
    }
}

/// The finish reason of an event's first choice, when it is a string.
pub open spec fn finish_reason(v: JsonView) -> Option<Seq<char>> {
    match pointer_choice(v) {
        Some(c) => text_value(field(c, "finish_reason"@)),
        None => None,
    }
}

/// What one line of the stream does.
pub enum LineEffect {
    /// Nothing: not an event, or an empty one.
    Ignore,
    /// The stream says it is done.
    Done,
    /// An event: the visible text it adds (if any) and its finish reason
    /// (if any).
    Event(Option<Seq<char>>, Option<Seq<char>>),
    /// The reply fails with this message.
    Fail(Seq<char>),
}

/// The data of an event line, trimmed.
pub open spec fn event_data(line: Seq<char>) -> Option<Seq<char>> {
    if begins(line, "data:"@) {
        Some(trim(line.skip(5)))
    } else {
        None
    }
}

/// What a line does: a line that is not `data:` or carries nothing is
/// ignored; `[DONE]` ends the stream; any other data must be JSON without
/// an `error`, and may add visible text and give a finish reason.
pub open spec fn line_effect(line: Seq<char>) -> LineEffect {
    match event_data(line) {
        None => LineEffect::Ignore,
        Some(data) => if data.len() == 0 {
            LineEffect::Ignore
        } else if data == "[DONE]"@ {
            LineEffect::Done
        } else {
            data_effect(data)
        },
    }
}

/// What the data of an event does: it must be JSON without an `error`, and
/// may add visible text and give a finish reason.
#[verifier::opaque]
pub open spec fn data_effect(data: Seq<char>) -> LineEffect {
    match json_parse(data) {
        Err(e) => LineEffect::Fail("无法解析流式 AI 响应："@ + e),
        Ok(v) => match field(v, "error"@) {
            Some(err) => LineEffect::Fail("AI 返回错误："@ + error_text(err)),
            None => LineEffect::Event(stream_delta(v), finish_reason(v)),
        },
    }
}

fn read_event(data: &str) -> (r: Result<(Option<String>, Option<String>), AppError>)
    ensures
        match data_effect(data@) {
            LineEffect::Fail(m) => r matches Err(AppError::Validation(e)) && e@ == m,
            LineEffect::Event(delta, reason) => r matches Ok((d, w)) && (match d {
                Some(x) => delta == Some(x@),
                None => delta is None,
            }) && (match w {
                Some(x) => reason == Some(x@),
                None => reason is None,
            }),
            _ => false,
        },
{
    reveal(data_effect);
    let value = match parse_json(data) {
        Ok(v) => v,
        Err(e) => return Err(AppError::Validation(concat("无法解析流式 AI 响应：", e.as_str()))),
    };
    match get_field(&value, "error") {
        Some(err) => {
            let message = match extract_error_message(err) {
                Some(m) => m,
                None => owned(""),
            };
            return Err(AppError::Validation(concat("AI 返回错误：", message.as_str())));
        },
        None => {},
    }
    Ok((extract_stream_delta_content(&value), finish_reason_of(&value)))
}

/// What reading one line gives: the visible text gathered so far, when the
/// line added some, and the failure, when the reply fails there (after that
/// text was shown).
pub struct LineOutcome {
    pub update: Option<String>,
    pub failure: Option<AppError>,
}

/// The message of a reply cut off at its length limit.
pub const LENGTH_LIMIT_FAILURE: &'static str = "AI 输出达到长度上限，已自动重试以避免保存半截正文";

/// The reader after a line, and what the line gives (see `LineOutcome`).
pub open spec fn line_read(before: StreamView, effect: LineEffect, after: StreamView, r: LineOutcome) -> bool {
    &&& after.buffer == before.buffer
    &&& after.raw == before.raw
    &&& match effect {
        LineEffect::Ignore => r.update is None && r.failure is None && after.content == before.content
            && after.saw_event == before.saw_event && after.saw_end == before.saw_end,
        LineEffect::Done => r.update is None && r.failure is None && after.content == before.content
            && after.saw_event && after.saw_end,
        LineEffect::Fail(m) => r.update is None && (r.failure matches Some(AppError::Validation(e)) && e@
            == m),
        LineEffect::Event(delta, reason) => {
            &&& after.saw_event
            &&& match delta {
                Some(d) => after.content == before.content + d && (r.update matches Some(c) && c@
                    == after.content),
                None => after.content == before.content && r.update is None,
            }
            &&& match reason {
                Some(why) => if why == "length"@ {
                    r.failure matches Some(AppError::Validation(e)) && e@ == LENGTH_LIMIT_FAILURE@
                } else {
                    r.failure is None && after.saw_end
                },
                None => r.failure is None && after.saw_end == before.saw_end,
            }
        },
    }
}

impl StreamReader {
    /// A reader before anything has come.
    pub fn new() -> (r: Self)
        ensures
            r@ == (StreamView {
                buffer: Seq::empty(),
                raw: Seq::empty(),
                content: Seq::empty(),
                saw_event: false,
                saw_end: false,
            }),
    {
        StreamReader {
            buffer: Vec::new(),
            raw: String::new(),
            content: String::new(),
            saw_event: false,
            saw_end: false,
        }
    }

    /// Takes in a received piece of text.
    pub fn push_text(&mut self, text: &str)
        ensures
            final(self)@ == (StreamView {
                buffer: old(self)@.buffer + text@,
                raw: old(self)@.raw + text@,
                ..old(self)@
            }),
    {
        append(&mut self.raw, text);
        let mut t = chars_of(text);
        self.buffer.append(&mut t);
    }

    /// Reads the next complete line, if one has come: `None` when no
    /// newline is buffered; else what the line gives (see `line_effect` and
    /// `line_read`).
    pub fn next_line(&mut self) -> (r: Option<LineOutcome>)
        ensures
            match newline_at(old(self)@.buffer) {
                None => r is None && final(self)@ == old(self)@,
                Some(p) => r matches Some(o) && line_read(
                    StreamView { buffer: old(self)@.buffer.skip(p + 1), ..old(self)@ },
                    line_effect(trim_end_cr(old(self)@.buffer.take(p))),
                    final(self)@,
                    o,
                ),
            },
    {
        let p = match find_char(self.buffer.as_slice(), '\n') {
            Some(p) => p,
            None => {
                proof {
                    assert(!(exists|i: int| 0 <= i < self.buffer@.len() && self.buffer@[i] == '\n'));
                }
                return None;
            },
        };
        proof {
            lemma_newline_at(self.buffer@, p as int);
        }
        let ghost before = self@;
        let mut end = p;
        while end > 0 && self.buffer[end - 1] == '\r'
            invariant
                end <= p < self.buffer@.len(),
                self@ == before,
                trim_end_cr(self.buffer@.take(p as int)) == trim_end_cr(self.buffer@.take(end as int)),
            decreases end,
        {
            assert(self.buffer@.take(end as int).drop_last() == self.buffer@.take(end - 1));
            end = end - 1;
        }
        let line_chars = slice_of(self.buffer.as_slice(), 0, end);
        assert(line_chars@ == trim_end_cr(self.buffer@.take(p as int))) by {
            assert(self.buffer@.take(end as int) == self.buffer@.subrange(0, end as int));
        }
        let rest = slice_of(self.buffer.as_slice(), p + 1, self.buffer.len());
        self.buffer = rest;
        assert(self.buffer@ == before.buffer.skip(p + 1));
        Some(self.apply_line(line_chars.as_slice()))
    }

    fn apply_line(&mut self, line: &[char]) -> (r: LineOutcome)
        ensures
            line_read(old(self)@, line_effect(line@), final(self)@, r),
    {
        let prefix = chars_of("data:");
        proof {
            reveal_strlit("data:");
        }
        let quiet = LineOutcome { update: None, failure: None };
        if !starts_with(line, prefix.as_slice()) {
            return quiet;
        }
        let after = slice_of(line, 5, line.len());
        let data_chars = trim_chars(after.as_slice());
        assert(data_chars@ == trim(line@.skip(5))) by {
            assert(after@ == line@.skip(5));
        }
        if data_chars.len() == 0 {
            return quiet;
        }
        self.saw_event = true;
        let data = string_of(data_chars.as_slice());
        if crate::text::str_eq(data.as_str(), "[DONE]") {
            self.saw_end = true;
            return quiet;
        }
        let (delta, reason) = match read_event(data.as_str()) {
            Ok(x) => x,
            Err(e) => return LineOutcome { update: None, failure: Some(e) },
        };
        let update = match delta {
            Some(d) => {
                append(&mut self.content, d.as_str());
                Some(self.content.clone())
            },
            None => None,
        };
        let failure = match reason {
            Some(why) => {
                if crate::text::str_eq(why.as_str(), "length") {
                    Some(AppError::Validation(owned(LENGTH_LIMIT_FAILURE)))
                } else {
                    self.saw_end = true;
                    None
                }
            },
            None => None,
        };
        LineOutcome { update, failure }
    }

    /// How the stream ends once no more text comes.
    pub fn finish(&self) -> (r: StreamEnd)
        ensures
            !self@.saw_event ==> (r matches StreamEnd::NoEvents(raw) && raw@ == self@.raw),
            self@.saw_event && !self@.saw_end ==> (r matches StreamEnd::Failed(AppError::Validation(m))
                && m@ == "AI 流式响应未正常结束，已自动重试以避免保存半截正文"@),
            self@.saw_event && self@.saw_end ==> (if blank(trim(think_stripped(self@.content))) {
                r matches StreamEnd::Failed(AppError::Validation(m)) && m@ == "AI 没有返回可用内容"@
            } else {
                r matches StreamEnd::Text(t) && t@ == trim(think_stripped(self@.content))
            }),
    {
        if !self.saw_event {
            return StreamEnd::NoEvents(self.raw.clone());
        }
        if !self.saw_end {
            return StreamEnd::Failed(
                AppError::Validation(owned("AI 流式响应未正常结束，已自动重试以避免保存半截正文")),
            );
        }
        let normalized = strip_think_blocks(self.content.as_str());
        if is_blank(normalized.as_str()) {
            return StreamEnd::Failed(AppError::Validation(owned("AI 没有返回可用内容")));
        }
        StreamEnd::Text(normalized)
    }
}

/// How a stream ended.
pub enum StreamEnd {
    /// No event came: the whole text is to be read as an ordinary reply.
    NoEvents(String),
    /// The reply failed.
    Failed(AppError),
    /// The visible text, its thinking removed.
    Text(String),
}

proof fn lemma_newline_at(s: Seq<char>, p: int)
    requires
        0 <= p < s.len(),
        s[p] == '\n',
        forall|j: int| 0 <= j < p ==> s[j] != '\n',
    ensures
        newline_at(s) == Some(p),
{
    let q = choose|i: int| 0 <= i < s.len() && s[i] == '\n' && forall|j: int| 0 <= j < i ==> s[j] != '\n';
    if q < p {
        assert(s[q] != '\n');
    } else if q > p {
        assert(s[p] != '\n');
    }
}

fn finish_reason_of(v: &Json) -> (r: Option<String>)
    ensures
        match r {
            Some(s) => finish_reason(v@) == Some(s@),
            None => finish_reason(v@) is None,
        },
{
    let choice = match get_field(v, "choices") {
        Some(c) => match c {
            Json::Array(a) => {
                proof {
                    let cs = match c@ {
                        JsonView::Array(s) => s,
                        _ => Seq::empty(),
                    };
                    assert(cs.len() == a@.len());
                }
                if a.len() > 0 {
                    proof {
                        let cs = match c@ {
                            JsonView::Array(s) => s,
                            _ => Seq::empty(),
                        };
                        assert(cs[0] == a@[0]@);
                    }
                    Some(&a[0])
                } else {
                    None
                }
            },
            Json::Object(_) => get_field(c, "0"),
            _ => None,
        },
        None => None,
    };
    match as_text(match choice {
        Some(c) => get_field(c, "finish_reason"),
        None => None,
    }) {
        Some(s) => Some(s.clone()),
        None => None,
    }
}

} // verus!
