//! The rules of talking to an OpenAI-compatible provider: base URLs, the
//! provider-specific request options, cleaning replies, and when to retry.
use vstd::prelude::*;

use crate::agent_tools::AgentToolDefinition;
use crate::error::AppError;
use crate::json::{json_parse, json_view, parse_json, Json, JsonView};
use crate::text::{
    ascii_lower, ascii_lowercase, begins, chars_of, concat, decimal, decimal_of, contains, contains_any_of,
    contains_any_seq, contains_seq, ends_with, find_from, finishes, is_first_at,
    is_whitespace, is_ws, join, lemma_first_at, owned, slice_of, starts_with, str_views, string_of,
    trim, trim_chars,
};

verus! {

/// One message of a chat.
#[derive(Debug, PartialEq, Eq)]
pub struct ChatMessage {
    pub role: String,
    pub content: String,
}

/// The thinking option of a provider that has one.
#[derive(Debug, PartialEq, Eq)]
pub struct ThinkingConfig {
    pub kind: String,
}

/// The response format asked of a provider.
#[derive(Debug, PartialEq, Eq)]
pub struct ResponseFormat {
    pub kind: String,
}

/// Why tools could not be planned: the provider cannot call tools natively,
/// or something else went wrong.
#[derive(Debug)]
pub enum ToolPlanningError {
    Unsupported(String),
    Other(AppError),
}

impl From<AppError> for ToolPlanningError {
    fn from(value: AppError) -> (r: Self) {
        ToolPlanningError::Other(value)
    }
}

impl vstd::std_specs::convert::FromSpecImpl<AppError> for ToolPlanningError {
    open spec fn obeys_from_spec() -> bool {
        true
    }

    open spec fn from_spec(v: AppError) -> Self {
        ToolPlanningError::Other(v)
    }
}

/// The base URL of the MiniMax API.
pub const MINIMAX_BASE_URL: &'static str = "https://api.minimaxi.com/v1";

// ---------------------------------------------------------------------------
// Base URLs
// ---------------------------------------------------------------------------
/// `s` without its trailing slashes.
pub open spec fn strip_trailing_slashes(s: Seq<char>) -> Seq<char>
    decreases s.len(),
{
    if s.len() > 0 && s.last() == '/' {
        strip_trailing_slashes(s.drop_last())
    } else {
        s
    }
}

/// A base URL as requests use it: trimmed, without trailing slashes, and
/// any MiniMax host mapped to the MiniMax API root.
pub open spec fn normalized_base_url(base_url: Seq<char>) -> Seq<char> {
    let t = strip_trailing_slashes(trim(base_url));
    if t.len() == 0 {
        Seq::empty()
    } else if contains_seq(ascii_lower(t), "api.minimax.com"@) || contains_seq(
        ascii_lower(t),
        "api.minimaxi.com"@,
    ) {
        MINIMAX_BASE_URL@
    } else {
        t
    }
}

/// Normalizes a base URL (see `normalized_base_url`).
pub fn normalize_base_url(base_url: &str) -> (r: String)
    ensures
        r@ == normalized_base_url(base_url@),
{
    let v = chars_of(base_url);
    let t = trim_chars(v.as_slice());
    let mut n = t.len();
    assert(t@.take(n as int) == t@);
    while n > 0 && t[n - 1] == '/'
        invariant
            n <= t.len(),
            strip_trailing_slashes(t@) == strip_trailing_slashes(t@.take(n as int)),
        decreases n,
    {
        assert(t@.take(n as int).drop_last() == t@.take(n - 1));
        n = n - 1;
    }
    let stripped = slice_of(t.as_slice(), 0, n);
    assert(stripped@ == strip_trailing_slashes(t@));
    if stripped.len() == 0 {
        return String::new();
    }
    let lower = ascii_lowercase(stripped.as_slice());
    let a = chars_of("api.minimax.com");
    let b = chars_of("api.minimaxi.com");
    if contains(lower.as_slice(), a.as_slice()) || contains(lower.as_slice(), b.as_slice()) {
        return owned(MINIMAX_BASE_URL);
    }
    string_of(stripped.as_slice())
}

fn lower_normalized(base_url: &str) -> (r: Vec<char>)
    ensures
        r@ == ascii_lower(normalized_base_url(base_url@)),
{
    let n = normalize_base_url(base_url);
    let v = chars_of(n.as_str());
    ascii_lowercase(v.as_slice())
}

// ---------------------------------------------------------------------------
// Provider options
// ---------------------------------------------------------------------------
/// Thinking is on: enabled, and its level is not `off` in any ASCII case.
pub open spec fn thinking_on(enabled: bool, level: Seq<char>) -> bool {
    enabled && ascii_lower(level) != "off"@
}

/// Whether thinking is on (see `thinking_on`).
pub fn thinking_active(enabled: bool, level: &str) -> (r: bool)
    ensures
        r == thinking_on(enabled, level@),
{
    if !enabled {
        return false;
    }
    let v = chars_of(level);
    let l = ascii_lowercase(v.as_slice());
    let off = chars_of("off");
    !crate::text::chars_eq(l.as_slice(), off.as_slice())
}

/// The completion limit a provider needs: 16384 tokens for MiniMax.
pub open spec fn max_tokens_for(base_url: Seq<char>) -> Option<u32> {
    if contains_seq(ascii_lower(normalized_base_url(base_url)), "minimaxi"@) {
        Some(16384u32)
    } else {
        None
    }
}

/// The completion limit a provider needs (see `max_tokens_for`).
pub fn provider_max_completion_tokens(base_url: &str) -> (r: Option<u32>)
    ensures
        r == max_tokens_for(base_url@),
{
    let l = lower_normalized(base_url);
    let m = chars_of("minimaxi");
    if contains(l.as_slice(), m.as_slice()) {
        Some(16384)
    } else {
        None
    }
}

/// The thinking option a provider takes: DeepSeek's `enabled`/`disabled`,
/// MiniMax's `adaptive`/`disabled`, none for others.
pub open spec fn thinking_kind_for(base_url: Seq<char>, enabled: bool) -> Option<Seq<char>> {
    let l = ascii_lower(normalized_base_url(base_url));
    if contains_seq(l, "deepseek"@) {
        Some(
            if enabled {
                "enabled"@
            } else {
                "disabled"@
            },
        )
    } else if contains_seq(l, "minimaxi"@) {
        Some(
            if enabled {
                "adaptive"@
            } else {
                "disabled"@
            },
        )
    } else {
        None
    }
}

/// The thinking option a provider takes (see `thinking_kind_for`).
pub fn provider_thinking_config(base_url: &str, enabled: bool) -> (r: Option<ThinkingConfig>)
    ensures
        match thinking_kind_for(base_url@, enabled) {
            Some(k) => r is Some && r->0.kind@ == k,
            None => r is None,
        },
{
    let l = lower_normalized(base_url);
    let d = chars_of("deepseek");
    if contains(l.as_slice(), d.as_slice()) {
        let kind = if enabled {
            owned("enabled")
        } else {
            owned("disabled")
        };
        return Some(ThinkingConfig { kind });
    }
    let m = chars_of("minimaxi");
    if contains(l.as_slice(), m.as_slice()) {
        let kind = if enabled {
            owned("adaptive")
        } else {
            owned("disabled")
        };
        return Some(ThinkingConfig { kind });
    }
    None
}

/// MiniMax with thinking on splits out its reasoning.
pub open spec fn reasoning_split_for(base_url: Seq<char>, enabled: bool) -> Option<bool> {
    if enabled && contains_seq(ascii_lower(normalized_base_url(base_url)), "minimaxi"@) {
        Some(true)
    } else {
        None
    }
}

/// Whether to ask a provider to split out its reasoning (see
/// `reasoning_split_for`).
pub fn provider_reasoning_split(base_url: &str, enabled: bool) -> (r: Option<bool>)
    ensures
        r == reasoning_split_for(base_url@, enabled),
{
    let l = lower_normalized(base_url);
    let m = chars_of("minimaxi");
    if enabled && contains(l.as_slice(), m.as_slice()) {
        Some(true)
    } else {
        None
    }
}

// ---------------------------------------------------------------------------
// Native tool calls
// ---------------------------------------------------------------------------
/// Words of an error body that say tools are not supported.
pub open spec fn tool_capability_markers() -> Seq<Seq<char>> {
    seq![
        "tool_choice"@,
        "tool calls"@,
        "tool_calls"@,
        "function calling"@,
        "function_call"@,
        "unknown field `tools`"@,
        "unsupported parameter: tools"@,
    ]
}

/// A failed request says that the provider cannot call tools natively: a
/// client error of the kinds 400, 404, 405, 415 or 422 whose body (in ASCII
/// lowercase) speaks of tools.
pub open spec fn tools_unsupported(status: u16, body: Seq<char>) -> bool {
    (status == 400 || status == 404 || status == 405 || status == 415 || status == 422)
        && contains_any_seq(ascii_lower(body), tool_capability_markers())
}

/// Whether a failed request says the provider cannot call tools natively
/// (see `tools_unsupported`).
pub fn native_tools_unsupported(status: u16, body: &str) -> (r: bool)
    ensures
        r == tools_unsupported(status, body@),
{
    if !(status == 400 || status == 404 || status == 405 || status == 415 || status == 422) {
        return false;
    }
    let v = chars_of(body);
    let lower = ascii_lowercase(v.as_slice());
    let markers: [&str; 7] = [
        "tool_choice",
        "tool calls",
        "tool_calls",
        "function calling",
        "function_call",
        "unknown field `tools`",
        "unsupported parameter: tools",
    ];
    assert(str_views(markers@) =~= tool_capability_markers());
    contains_any_of(lower.as_slice(), &markers)
}

// ---------------------------------------------------------------------------
// Cleaning replies
// ---------------------------------------------------------------------------
/// `s` with its `<think>` blocks removed one by one: the first `<think>` (in
/// any ASCII case) up to the first `</think>` after it, until no complete
/// block is left.
pub open spec fn think_stripped(s: Seq<char>) -> Seq<char>
    decreases s.len(),
{
    let l = ascii_lower(s);
    if exists|i: int| is_first_at(l, "<think>"@, i) {
        let start = choose|i: int| is_first_at(l, "<think>"@, i);
        let rest = l.skip(start);
        if exists|j: int| is_first_at(rest, "</think>"@, j) {
            let j = choose|j: int| is_first_at(rest, "</think>"@, j);
            let end = start + j + "</think>"@.len();
            proof {
                reveal_strlit("</think>");
            }
            think_stripped(s.take(start) + s.skip(end))
        } else {
            s
        }
    } else {
        s
    }
}

/// A reply without its thinking: `think_stripped`, then trimmed.
pub fn strip_think_blocks(content: &str) -> (r: String)
    ensures
        r@ == trim(think_stripped(content@)),
{
    let mut out = chars_of(content);
    let open = chars_of("<think>");
    let close = chars_of("</think>");
    proof {
        reveal_strlit("</think>");
    }
    loop
        invariant
            think_stripped(out@) == think_stripped(content@),
            open@ == "<think>"@,
            close@ == "</think>"@,
            close@.len() == 8,
        ensures
            think_stripped(content@) == out@,
        decreases out@.len(),
    {
        let lower = ascii_lowercase(out.as_slice());
        assert(lower@.len() == out@.len());
        let start = match find_from(lower.as_slice(), open.as_slice(), 0) {
            Some(start) => start,
            None => {
                assert forall|i: int| !is_first_at(lower@, "<think>"@, i) by {}
                break;
            },
        };
        assert(is_first_at(lower@, "<think>"@, start as int));
        let rest = slice_of(lower.as_slice(), start, lower.len());
        let j = match find_from(rest.as_slice(), close.as_slice(), 0) {
            Some(j) => j,
            None => {
                proof {
                    lemma_first_at(lower@, "<think>"@, start as int);
                    assert(rest@ == lower@.skip(start as int));
                    assert forall|j: int| !is_first_at(lower@.skip(start as int), "</think>"@, j) by {}
                }
                break;
            },
        };
        proof {
            lemma_first_at(lower@, "<think>"@, start as int);
            assert(rest@ == lower@.skip(start as int));
            assert(is_first_at(rest@, "</think>"@, j as int));
            lemma_first_at(rest@, "</think>"@, j as int);
        }
        let end = start + j + close.len();
        let mut next = slice_of(out.as_slice(), 0, start);
        let tail = slice_of(out.as_slice(), end, out.len());
        let ghost before = next@;
        let mut k: usize = 0;
        while k < tail.len()
            invariant
                k <= tail.len(),
                next@ == before + tail@.take(k as int),
            decreases tail.len() - k,
        {
            next.push(tail[k]);
            k = k + 1;
            assert(tail@.take(k as int) == tail@.take(k - 1).push(tail@[k - 1]));
        }
        assert(tail@.take(tail.len() as int) == tail@);
        assert(next@ == out@.take(start as int) + out@.skip(end as int));
        out = next;
    }
    let t = trim_chars(out.as_slice());
    string_of(t.as_slice())
}

/// A reply without a code fence: when the trimmed reply opens with a
/// ```` ```json ```` or ```` ``` ```` fence and, trimmed again, ends with a
/// closing fence, the trimmed text between them; else the trimmed reply.
pub open spec fn fence_trimmed(raw: Seq<char>) -> Seq<char> {
    let t = trim(raw);
    let inner = if begins(t, "```json"@) {
        Some(trim(t.skip(7)))
    } else if begins(t, "```"@) {
        Some(trim(t.skip(3)))
    } else {
        None
    };
    match inner {
        Some(i) => if finishes(i, "```"@) {
            trim(i.take(i.len() - 3))
        } else {
            t
        },
        None => t,
    }
}

/// Removes a code fence around a reply (see `fence_trimmed`).
pub fn trim_code_fence(raw: &str) -> (r: String)
    ensures
        r@ == fence_trimmed(raw@),
{
    let v = chars_of(raw);
    let t = trim_chars(v.as_slice());
    let json = chars_of("```json");
    let fence = chars_of("```");
    proof {
        reveal_strlit("```json");
        reveal_strlit("```");
    }
    let inner = if starts_with(t.as_slice(), json.as_slice()) {
        let rest = slice_of(t.as_slice(), 7, t.len());
        trim_chars(rest.as_slice())
    } else if starts_with(t.as_slice(), fence.as_slice()) {
        let rest = slice_of(t.as_slice(), 3, t.len());
        trim_chars(rest.as_slice())
    } else {
        return string_of(t.as_slice());
    };
    if ends_with(inner.as_slice(), fence.as_slice()) {
        let body = slice_of(inner.as_slice(), 0, inner.len() - 3);
        let b = trim_chars(body.as_slice());
        string_of(b.as_slice())
    } else {
        string_of(t.as_slice())
    }
}

/// Scans `s` for `str::split_whitespace`: the finished words and the word
/// under way.
pub open spec fn scan_words(s: Seq<char>) -> (Seq<Seq<char>>, Seq<char>)
    decreases s.len(),
{
    if s.len() == 0 {
        (Seq::empty(), Seq::empty())
    } else {
        let (done, cur) = scan_words(s.drop_last());
        if is_ws(s.last()) {
            if cur.len() > 0 {
                (done.push(cur), Seq::empty())
            } else {
                (done, Seq::empty())
            }
        } else {
            (done, cur.push(s.last()))
        }
    }
}

/// The words of `s`: its maximal runs of non-whitespace characters.
pub open spec fn words(s: Seq<char>) -> Seq<Seq<char>> {
    let (done, cur) = scan_words(s);
    if cur.len() > 0 {
        done.push(cur)
    } else {
        done
    }
}

/// An error body as one line for a message: its words joined by single
/// spaces, cut at 320 characters with `...` after a cut.
pub open spec fn compact_body(raw: Seq<char>) -> Seq<char> {
    let c = join(words(raw), " "@);
    if c.len() > 320 {
        c.take(320) + "..."@
    } else {
        c
    }
}

fn push_word(out: &mut Vec<char>, first: bool, word: &[char])
    requires
        first ==> old(out)@.len() == 0,
    ensures
        final(out)@ == if first {
            word@
        } else {
            old(out)@ + " "@ + word@
        },
{
    proof {
        reveal_strlit(" ");
    }
    if !first {
        out.push(' ');
    }
    let ghost start = out@;
    let mut i: usize = 0;
    while i < word.len()
        invariant
            i <= word.len(),
            out@ == start + word@.take(i as int),
        decreases word.len() - i,
    {
        out.push(word[i]);
        i = i + 1;
        assert(word@.take(i as int) == word@.take(i - 1).push(word@[i - 1]));
    }
    assert(word@.take(word.len() as int) == word@);
    assert(first ==> start == Seq::<char>::empty());
}

/// Compacts an error body (see `compact_body`).
pub fn compact_error_body(raw: &str) -> (r: String)
    ensures
        r@ == compact_body(raw@),
{
    let v = chars_of(raw);
    let mut out: Vec<char> = Vec::new();
    let mut first = true;
    let mut cur: Vec<char> = Vec::new();
    let mut i: usize = 0;
    while i < v.len()
        invariant
            i <= v.len(),
            v@ == raw@,
            first == (scan_words(v@.take(i as int)).0.len() == 0),
            out@ == join(scan_words(v@.take(i as int)).0, " "@),
            cur@ == scan_words(v@.take(i as int)).1,
        decreases v.len() - i,
    {
        let c = v[i];
        let ghost done = scan_words(v@.take(i as int)).0;
        assert(v@.take(i + 1).drop_last() == v@.take(i as int));
        if is_whitespace(c) {
            if cur.len() > 0 {
                proof {
                    if done.len() == 0 {
                        assert(done.push(cur@).len() == 1);
                    }
                    assert(done.push(cur@).drop_last() == done);
                }
                push_word(&mut out, first, cur.as_slice());
                first = false;
                cur = Vec::new();
            }
        } else {
            cur.push(c);
        }
        i = i + 1;
    }
    assert(v@.take(v.len() as int) == v@);
    if cur.len() > 0 {
        let ghost done = scan_words(v@).0;
        proof {
            assert(done.push(cur@).drop_last() == done);
        }
        push_word(&mut out, first, cur.as_slice());
    }
    if out.len() > 320 {
        let cut = slice_of(out.as_slice(), 0, 320);
        let mut s = string_of(cut.as_slice());
        crate::text::append(&mut s, "...");
        s
    } else {
        string_of(out.as_slice())
    }
}

// ---------------------------------------------------------------------------
// Retrying
// ---------------------------------------------------------------------------
/// How many times a failed request is retried.
pub const MAX_AI_RETRIES: usize = 10;

/// Whether another attempt follows a failed one.
pub fn should_retry(attempt: usize, max_attempts: usize) -> (r: bool)
    ensures
        r == (attempt < max_attempts),
{
    attempt < max_attempts
}

/// Where a run of attempts stands: the attempt under way (from 1) and the
/// error of the last failed one.
#[derive(Debug)]
pub struct RetryState {
    pub attempt: usize,
    pub max_attempts: usize,
    pub last_error: Option<AppError>,
}

/// How one attempt ended.
#[derive(Debug)]
pub enum AttemptOutcome {
    Completed(String),
    Failed(AppError),
}

/// What to do after an attempt.
#[derive(Debug)]
pub enum RetryAction {
    /// Return the completed content.
    Finish(String),
    /// Wait, then make the next attempt.
    WaitAndRetry,
    /// Give up with this error.
    Stop(AppError),
}

/// The first attempt of a request: one try and `MAX_AI_RETRIES` retries.
pub fn first_attempt() -> (r: RetryState)
    ensures
        r.attempt == 1,
        r.max_attempts == MAX_AI_RETRIES + 1,
        r.last_error is None,
{
    RetryState { attempt: 1, max_attempts: MAX_AI_RETRIES + 1, last_error: None }
}

/// Decides after an attempt: a completed attempt finishes; a failed one is
/// retried while attempts remain (the error kept as the last one), else
/// the run stops with that error.
pub fn after_attempt(state: RetryState, outcome: AttemptOutcome) -> (r: (RetryState, RetryAction))
    requires
        1 <= state.attempt <= state.max_attempts,
    ensures
        match outcome {
            AttemptOutcome::Completed(c) => r.1 == RetryAction::Finish(c) && r.0 == state,
            AttemptOutcome::Failed(e) => if state.attempt < state.max_attempts {
                r.1 is WaitAndRetry && r.0.attempt == state.attempt + 1 && r.0.max_attempts
                    == state.max_attempts && r.0.last_error == Some(e)
            } else {
                r.1 == RetryAction::Stop(e) && r.0.attempt == state.attempt && r.0.max_attempts
                    == state.max_attempts && r.0.last_error is None
            },
        },
{
    match outcome {
        AttemptOutcome::Completed(c) => (state, RetryAction::Finish(c)),
        AttemptOutcome::Failed(e) => {
            if should_retry(state.attempt, state.max_attempts) {
                (
                    RetryState {
                        attempt: state.attempt + 1,
                        max_attempts: state.max_attempts,
                        last_error: Some(e),
                    },
                    RetryAction::WaitAndRetry,
                )
            } else {
                (
                    RetryState {
                        attempt: state.attempt,
                        max_attempts: state.max_attempts,
                        last_error: None,
                    },
                    RetryAction::Stop(e),
                )
            }
        },
    }
}

/// The message of a request that failed with an HTTP status.
pub open spec fn http_failure_text(prefix: Seq<char>, status: Seq<char>, body: Seq<char>) -> Seq<char> {
    prefix + "HTTP "@ + status + " "@ + compact_body(body)
}

/// The message of a request that failed with an HTTP status: the prefix,
/// `HTTP`, the status as shown, and the compacted body.
pub fn http_failure_message(prefix: &str, status: &str, body: &str) -> (r: String)
    ensures
        r@ == http_failure_text(prefix@, status@, body@),
{
    let mut r = concat(prefix, "HTTP ");
    crate::text::append(&mut r, status);
    crate::text::append(&mut r, " ");
    crate::text::append(&mut r, compact_error_body(body).as_str());
    r
}

/// The message of a reply that could not be read.
pub fn unreadable_reply_message(error: &str, body: &str) -> (r: String)
    ensures
        r@ == error@ + "；原始响应片段："@ + compact_body(body@),
{
    let mut r = concat(error, "；原始响应片段：");
    crate::text::append(&mut r, compact_error_body(body).as_str());
    r
}

/// The error of a failed tool-planning request: unsupported when the
/// provider says it cannot call tools, else a validation error.
pub fn tool_planning_failure(status_code: u16, status: &str, body: &str) -> (r: ToolPlanningError)
    ensures
        tools_unsupported(status_code, body@) ==> (r matches ToolPlanningError::Unsupported(m) && m@
            == http_failure_text("供应商不支持原生工具调用："@, status@, body@)),
        !tools_unsupported(status_code, body@) ==> (r matches ToolPlanningError::Other(
            AppError::Validation(m),
        ) && m@ == http_failure_text("工具规划请求失败："@, status@, body@)),
{
    if native_tools_unsupported(status_code, body) {
        ToolPlanningError::Unsupported(http_failure_message("供应商不支持原生工具调用：", status, body))
    } else {
        ToolPlanningError::Other(
            AppError::Validation(http_failure_message("工具规划请求失败：", status, body)),
        )
    }
}

/// Checks the settings before tools are planned: a base URL and a model
/// must be set; with no tools there is nothing to plan (`Ok(false)`).
pub fn tool_planning_precheck(base_url: &str, model: &str, tool_count: usize) -> (r: Result<
    bool,
    ToolPlanningError,
>)
    ensures
        normalized_base_url(base_url@).len() == 0 ==> (r matches Err(
            ToolPlanningError::Other(AppError::Validation(m)),
        ) && m@ == "请先设置 API Base URL"@),
        normalized_base_url(base_url@).len() > 0 && trim(model@).len() == 0 ==> (r matches Err(
            ToolPlanningError::Other(AppError::Validation(m)),
        ) && m@ == "请先设置模型名称"@),
        normalized_base_url(base_url@).len() > 0 && trim(model@).len() > 0 ==> r == Ok::<
            bool,
            ToolPlanningError,
        >(tool_count > 0),
{
    let url = normalize_base_url(base_url);
    if chars_of(url.as_str()).len() == 0 {
        return Err(ToolPlanningError::Other(AppError::Validation(owned("请先设置 API Base URL"))));
    }
    if crate::text::is_blank(model) {
        return Err(ToolPlanningError::Other(AppError::Validation(owned("请先设置模型名称"))));
    }
    Ok(tool_count > 0)
}

/// Checks the settings before a chat completion: a base URL and a model
/// must be set. Gives the URL of the completions endpoint.
pub fn chat_precheck(base_url: &str, model: &str) -> (r: Result<String, AppError>)
    ensures
        normalized_base_url(base_url@).len() == 0 ==> (r matches Err(AppError::Validation(m)) && m@
            == "请先设置 API Base URL"@),
        normalized_base_url(base_url@).len() > 0 && trim(model@).len() == 0 ==> (r matches Err(
            AppError::Validation(m),
        ) && m@ == "请先设置模型名称"@),
        normalized_base_url(base_url@).len() > 0 && trim(model@).len() > 0 ==> (r matches Ok(u)
            && u@ == normalized_base_url(base_url@) + "/chat/completions"@),
{
    let url = normalize_base_url(base_url);
    if chars_of(url.as_str()).len() == 0 {
        return Err(AppError::Validation(owned("请先设置 API Base URL")));
    }
    if crate::text::is_blank(model) {
        return Err(AppError::Validation(owned("请先设置模型名称")));
    }
    Ok(concat(url.as_str(), "/chat/completions"))
}

// ---------------------------------------------------------------------------
// Native tool-planning requests
// ---------------------------------------------------------------------------
/// The views of an object's fields.
pub open spec fn fields_view(f: Seq<(String, Json)>) -> Seq<(Seq<char>, JsonView)> {
    f.map_values(|p: (String, Json)| (p.0@, p.1@))
}

proof fn lemma_object_view(o: Vec<(String, Json)>)
    ensures
        Json::Object(o)@ == JsonView::Object(fields_view(o@)),
{
    let v = json_view(Json::Object(o));
    match v {
        JsonView::Object(f) => {
            assert(f =~= fields_view(o@));
        },
        _ => {},
    }
}

pub(crate) proof fn lemma_array_view(a: Vec<Json>)
    ensures
        Json::Array(a)@ == JsonView::Array(a@.map_values(|j: Json| j@)),
{
    let v = json_view(Json::Array(a));
    match v {
        JsonView::Array(e) => {
            assert(e =~= a@.map_values(|j: Json| j@));
        },
        _ => {},
    }
}

/// A tool as a provider is offered it natively: a function named by the
/// tool's key, with its description and its argument schema.
pub open spec fn native_tool_view(key: Seq<char>, description: Seq<char>, schema: JsonView) -> JsonView {
    JsonView::Object(
        seq![
            ("function"@, JsonView::Object(
                seq![
                    ("description"@, JsonView::Str(description)),
                    ("name"@, JsonView::Str(key)),
                    ("parameters"@, schema),
                ],
            )),
            ("type"@, JsonView::Str("function"@)),
        ],
    )
}

/// A chat message as JSON.
pub open spec fn message_view(role: Seq<char>, content: Seq<char>) -> JsonView {
    JsonView::Object(seq![("content"@, JsonView::Str(content)), ("role"@, JsonView::Str(role))])
}

/// The request that plans tool calls natively, its fields in key order: the
/// provider's completion limit, the system and user messages, the model, the
/// provider's reasoning split, temperature 0, the provider's thinking
/// option, `tool_choice` `auto`, and the tools.
pub open spec fn native_request_view(
    base_url: Seq<char>,
    model: Seq<char>,
    thinking: bool,
    system_prompt: Seq<char>,
    user_prompt: Seq<char>,
    tools: Seq<JsonView>,
) -> JsonView {
    let limit = match max_tokens_for(base_url) {
        Some(n) => seq![("max_completion_tokens"@, JsonView::Number(decimal(n as int)))],
        None => Seq::empty(),
    };
    let split = match reasoning_split_for(base_url, thinking) {
        Some(b) => seq![("reasoning_split"@, JsonView::Bool(b))],
        None => Seq::empty(),
    };
    let think = match thinking_kind_for(base_url, thinking) {
        Some(k) => seq![("thinking"@, JsonView::Object(seq![("type"@, JsonView::Str(k))]))],
        None => Seq::empty(),
    };
    JsonView::Object(
        limit + seq![
            ("messages"@, JsonView::Array(
                seq![message_view("system"@, system_prompt), message_view("user"@, user_prompt)],
            )),
            ("model"@, JsonView::Str(model)),
        ] + split + seq![("temperature"@, JsonView::Number("0.0"@))] + think + seq![
            ("tool_choice"@, JsonView::Str("auto"@)),
            ("tools"@, JsonView::Array(tools)),
        ],
    )
}

/// The tools offered natively, each schema as `serde_json` parses it.
pub open spec fn native_tools_view(tools: Seq<AgentToolDefinition>) -> Seq<JsonView> {
    Seq::new(
        tools.len(),
        |k: int|
            native_tool_view(
                tools[k].key@,
                tools[k].description@,
                json_parse(tools[k].parameters_schema@)->Ok_0,
            ),
    )
}

fn native_tool_entry(key: &str, description: &str, schema: Json) -> (r: Json)
    ensures
        r@ == native_tool_view(key@, description@, schema@),
{
    let ghost sv = schema@;
    let mut inner: Vec<(String, Json)> = Vec::new();
    inner.push((owned("description"), Json::Str(owned(description))));
    inner.push((owned("name"), Json::Str(owned(key))));
    inner.push((owned("parameters"), schema));
    proof {
        lemma_object_view(inner);
        assert(fields_view(inner@) =~= seq![
            ("description"@, JsonView::Str(description@)),
            ("name"@, JsonView::Str(key@)),
            ("parameters"@, sv),
        ]);
    }
    let f = Json::Object(inner);
    let mut outer: Vec<(String, Json)> = Vec::new();
    outer.push((owned("function"), f));
    outer.push((owned("type"), Json::Str(owned("function"))));
    proof {
        lemma_object_view(outer);
        assert(fields_view(outer@) =~= seq![
            ("function"@, f@),
            ("type"@, JsonView::Str("function"@)),
        ]);
    }
    Json::Object(outer)
}

fn message_entry(role: &str, content: &str) -> (r: Json)
    ensures
        r@ == message_view(role@, content@),
{
    let mut m: Vec<(String, Json)> = Vec::new();
    m.push((owned("content"), Json::Str(owned(content))));
    m.push((owned("role"), Json::Str(owned(role))));
    proof {
        lemma_object_view(m);
        assert(fields_view(m@) =~= seq![
            ("content"@, JsonView::Str(content@)),
            ("role"@, JsonView::Str(role@)),
        ]);
    }
    Json::Object(m)
}

/// The tools offered natively. Fails with the parser's message at the first
/// tool whose schema is not JSON text (none of the registered ones).
fn native_tool_entries(tools: &[AgentToolDefinition]) -> (r: Result<Vec<Json>, String>)
    ensures
        (r is Ok) == (forall|k: int|
            0 <= k < tools@.len() ==> json_parse(#[trigger] tools@[k].parameters_schema@) is Ok),
        r matches Ok(v) ==> v@.map_values(|j: Json| j@) == native_tools_view(tools@),
        r matches Err(m) ==> exists|k: int|
            0 <= k < tools@.len() && json_parse(#[trigger] tools@[k].parameters_schema@) == Err::<
                JsonView,
                Seq<char>,
            >(m@) && forall|q: int| 0 <= q < k ==> json_parse(tools@[q].parameters_schema@) is Ok,
{
    let mut out: Vec<Json> = Vec::new();
    let mut i: usize = 0;
    while i < tools.len()
        invariant
            i <= tools.len(),
            forall|q: int| 0 <= q < i ==> json_parse(#[trigger] tools@[q].parameters_schema@) is Ok,
            out@.map_values(|j: Json| j@) == native_tools_view(tools@).take(i as int),
        decreases tools.len() - i,
    {
        let schema = match parse_json(tools[i].parameters_schema.as_str()) {
            Ok(v) => v,
            Err(e) => return Err(e),
        };
        assert(json_parse(tools@[i as int].parameters_schema@) == Ok::<JsonView, Seq<char>>(schema@));
        let entry = native_tool_entry(tools[i].key.as_str(), tools[i].description.as_str(), schema);
        assert(entry@ == native_tools_view(tools@)[i as int]);
        let ghost before = out@;
        out.push(entry);
        i = i + 1;
        assert(out@.map_values(|j: Json| j@) =~= before.map_values(|j: Json| j@).push(entry@));
        assert(out@.map_values(|j: Json| j@) =~= native_tools_view(tools@).take(i as int));
    }
    assert(native_tools_view(tools@).take(tools.len() as int) =~= native_tools_view(tools@));
    Ok(out)
}

/// The request that plans tool calls natively (see `native_request_view`).
/// Fails with the parser's message at the first tool whose schema is not
/// JSON text.
pub fn native_tool_request(
    base_url: &str,
    model: &str,
    thinking_enabled: bool,
    thinking_level: &str,
    system_prompt: &str,
    user_prompt: &str,
    tools: &[AgentToolDefinition],
) -> (r: Result<Json, String>)
    ensures
        (r is Ok) == (forall|k: int|
            0 <= k < tools@.len() ==> json_parse(#[trigger] tools@[k].parameters_schema@) is Ok),
        r matches Ok(j) ==> j@ == native_request_view(
            base_url@,
            model@,
            thinking_on(thinking_enabled, thinking_level@),
            system_prompt@,
            user_prompt@,
            native_tools_view(tools@),
        ),
        r matches Err(m) ==> exists|k: int|
            0 <= k < tools@.len() && json_parse(#[trigger] tools@[k].parameters_schema@) == Err::<
                JsonView,
                Seq<char>,
            >(m@) && forall|q: int| 0 <= q < k ==> json_parse(tools@[q].parameters_schema@) is Ok,
{
    let entries = match native_tool_entries(tools) {
        Ok(e) => e,
        Err(m) => return Err(m),
    };
    let thinking = thinking_active(thinking_enabled, thinking_level);
    let ghost tv = entries@.map_values(|j: Json| j@);
    proof {
        lemma_array_view(entries);
    }
    let tools_json = Json::Array(entries);
    let mut msgs: Vec<Json> = Vec::new();
    msgs.push(message_entry("system", system_prompt));
    msgs.push(message_entry("user", user_prompt));
    proof {
        lemma_array_view(msgs);
        assert(msgs@.map_values(|j: Json| j@) =~= seq![
            message_view("system"@, system_prompt@),
            message_view("user"@, user_prompt@),
        ]);
    }
    let messages = Json::Array(msgs);
    let mut fields: Vec<(String, Json)> = Vec::new();
    let ghost think_on = thinking_on(thinking_enabled, thinking_level@);
    match provider_max_completion_tokens(base_url) {
        Some(n) => {
            fields.push((owned("max_completion_tokens"), Json::Number(decimal_of(n as i64))));
        },
        None => {},
    }
    let ghost limit = fields_view(fields@);
    assert(limit =~= match max_tokens_for(base_url@) {
        Some(n) => seq![("max_completion_tokens"@, JsonView::Number(decimal(n as int)))],
        None => Seq::<(Seq<char>, JsonView)>::empty(),
    });
    let ghost mv = messages@;
    fields.push((owned("messages"), messages));
    fields.push((owned("model"), Json::Str(owned(model))));
    let ghost middle = fields_view(fields@);
    assert(middle =~= limit + seq![("messages"@, mv), ("model"@, JsonView::Str(model@))]);
    match provider_reasoning_split(base_url, thinking) {
        Some(b) => {
            fields.push((owned("reasoning_split"), Json::Bool(b)));
        },
        None => {},
    }
    let ghost split = match reasoning_split_for(base_url@, think_on) {
        Some(b) => seq![("reasoning_split"@, JsonView::Bool(b))],
        None => Seq::<(Seq<char>, JsonView)>::empty(),
    };
    assert(fields_view(fields@) =~= middle + split);
    fields.push((owned("temperature"), Json::Number(owned("0.0"))));
    let ghost upto = fields_view(fields@);
    assert(upto =~= middle + split + seq![("temperature"@, JsonView::Number("0.0"@))]);
    match provider_thinking_config(base_url, thinking) {
        Some(c) => {
            let ghost k = c.kind@;
            let mut t: Vec<(String, Json)> = Vec::new();
            t.push((owned("type"), Json::Str(c.kind)));
            proof {
                lemma_object_view(t);
                assert(fields_view(t@) =~= seq![("type"@, JsonView::Str(k))]);
            }
            fields.push((owned("thinking"), Json::Object(t)));
        },
        None => {},
    }
    let ghost think = match thinking_kind_for(base_url@, think_on) {
        Some(k) => seq![("thinking"@, JsonView::Object(seq![("type"@, JsonView::Str(k))]))],
        None => Seq::<(Seq<char>, JsonView)>::empty(),
    };
    assert(fields_view(fields@) =~= upto + think);
    let ghost before_tail = fields_view(fields@);
    let ghost tj = tools_json@;
    fields.push((owned("tool_choice"), Json::Str(owned("auto"))));
    fields.push((owned("tools"), tools_json));
    assert(fields_view(fields@) =~= before_tail + seq![
        ("tool_choice"@, JsonView::Str("auto"@)),
        ("tools"@, tj),
    ]);
    proof {
        lemma_object_view(fields);
        assert(mv == JsonView::Array(
            seq![message_view("system"@, system_prompt@), message_view("user"@, user_prompt@)],
        ));
        assert(tj == JsonView::Array(native_tools_view(tools@)));
    }
    let r = Json::Object(fields);
    assert(r@ == native_request_view(
        base_url@,
        model@,
        thinking_on(thinking_enabled, thinking_level@),
        system_prompt@,
        user_prompt@,
        native_tools_view(tools@),
    ));
    Ok(r)
}

} // verus!
