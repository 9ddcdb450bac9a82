//! Background index jobs: which failures are worth another try.
use vstd::prelude::*;

use crate::error::AppError;
use crate::text::{
    ascii_lower, ascii_lowercase, chars_of, concat, contains, contains_any_of, contains_any_seq,
    contains_seq, decimal, decimal_of, str_views,
};

verus! {

/// Words of a failure message that mark a passing failure.
pub open spec fn transient_markers() -> Seq<Seq<char>> {
    seq![
        "timeout"@,
        "超时"@,
        "没有建立"@,
        "没有返回"@,
        "没有返回可用内容"@,
        "无法解析"@,
        "json error"@,
        "ai 返回错误"@,
        "流式响应未正常结束"@,
        "输出达到长度上限"@,
        "http 408"@,
        "http 429"@,
    ]
}

/// A failure message (in ASCII lowercase) names a server error: `http `
/// followed by some status from 500 to 599.
pub open spec fn names_server_error(lower: Seq<char>) -> bool {
    exists|status: int| 500 <= status <= 599 && contains_seq(lower, "http "@ + decimal(status))
}

/// A failed job is retried: network and JSON failures always; validation
/// failures whose message (in ASCII lowercase) marks a passing failure or a
/// server error; database and file failures never.
pub open spec fn retryable(e: AppError) -> bool {
    match e {
        AppError::Network(_) => true,
        AppError::Validation(m) => contains_any_seq(ascii_lower(m@), transient_markers())
            || names_server_error(ascii_lower(m@)),
        AppError::Json(_) => true,
        AppError::Database(_) => false,
        AppError::Io(_) => false,
    }
}

fn server_error_named(lower: &[char]) -> (r: bool)
    ensures
        r == names_server_error(lower@),
{
    let mut status: i64 = 500;
    while status <= 599
        invariant
            500 <= status <= 600,
            forall|s: int| 500 <= s < status ==> !contains_seq(lower@, "http "@ + decimal(s)),
        decreases 600 - status,
    {
        let needle = concat("http ", decimal_of(status).as_str());
        let nv = chars_of(needle.as_str());
        if contains(lower, nv.as_slice()) {
            assert(contains_seq(lower@, "http "@ + decimal(status as int)));
            return true;
        }
        status = status + 1;
    }
    false
}

/// Whether a failed job is retried (see `retryable`).
pub fn is_retryable(error: &AppError) -> (r: bool)
    ensures
        r == retryable(*error),
{
    match error {
        AppError::Network(_) => true,
        AppError::Validation(message) => {
            let v = chars_of(message.as_str());
            let lower = ascii_lowercase(v.as_slice());
            let markers: [&str; 12] = [
                "timeout",
                "超时",
                "没有建立",
                "没有返回",
                "没有返回可用内容",
                "无法解析",
                "json error",
                "ai 返回错误",
                "流式响应未正常结束",
                "输出达到长度上限",
                "http 408",
                "http 429",
            ];
            assert(str_views(markers@) =~= transient_markers());
            contains_any_of(lower.as_slice(), &markers) || server_error_named(lower.as_slice())
        },
        AppError::Json(_) => true,
        AppError::Database(_) => false,
        AppError::Io(_) => false,
    }
}

// ---------------------------------------------------------------------------
// Failed jobs
// ---------------------------------------------------------------------------
/// The job that indexes a chapter's story facts.
pub const STORY_CHAPTER_JOB: &'static str = "story_chapter";

/// The job that indexes a chapter for search.
pub const SEARCH_CHAPTER_JOB: &'static str = "search_chapter";

/// The job that indexes a project's story bible for search.
pub const SEARCH_PROJECT_JOB: &'static str = "search_project";

/// How often a failed job is retried.
pub const MAX_JOB_RETRIES: i64 = 3;

/// How often a job is attempted at most: once, then its retries.
pub const MAX_JOB_ATTEMPTS: i64 = 1 + MAX_JOB_RETRIES;

/// How long a job waits before its next attempt, after the given attempt
/// failed: a minute after the first, five after the second, half an hour
/// after any later one.
pub open spec fn retry_delay(attempt: i64) -> i64 {
    if attempt == 1 {
        60
    } else if attempt == 2 {
        300
    } else {
        1800
    }
}

/// What becomes of a job whose attempt failed.
#[derive(Debug, PartialEq, Eq)]
pub enum JobFailure {
    /// Pending again, after a delay in seconds.
    Retry(i64),
    /// Failed for good.
    Fail,
}

/// What becomes of a job whose attempt (counted from 1) failed with the
/// error: retried after `retry_delay` while attempts remain and the error
/// passes (see `retryable`), else failed.
pub open spec fn failure_outcome(attempt_count: i64, error: AppError) -> JobFailure {
    if attempt_count < MAX_JOB_ATTEMPTS && retryable(error) {
        JobFailure::Retry(retry_delay(attempt_count))
    } else {
        JobFailure::Fail
    }
}

/// What becomes of a job whose attempt failed (see `failure_outcome`).
pub fn job_failure_outcome(attempt_count: i64, error: &AppError) -> (r: JobFailure)
    ensures
        r == failure_outcome(attempt_count, *error),
{
    if attempt_count < MAX_JOB_ATTEMPTS && is_retryable(error) {
        let delay: i64 = if attempt_count == 1 {
            60
        } else if attempt_count == 2 {
            300
        } else {
            1800
        };
        JobFailure::Retry(delay)
    } else {
        JobFailure::Fail
    }
}

/// The status a failed job is left in.
pub fn failure_status(outcome: &JobFailure) -> (r: &'static str)
    ensures
        r@ == match outcome {
            JobFailure::Retry(_) => "pending"@,
            JobFailure::Fail => "failed"@,
        },
{
    match outcome {
        JobFailure::Retry(_) => "pending",
        JobFailure::Fail => "failed",
    }
}

/// A job is attempted at most `MAX_JOB_ATTEMPTS` times: a passing failure
/// of an earlier attempt is retried, and once an attempt numbered
/// `MAX_JOB_ATTEMPTS` or more fails, the job fails for good, whatever the
/// error; a failure that does not pass is never retried.
pub proof fn jobs_retry_only_while_attempts_remain(attempt_count: i64, error: AppError)
    ensures
        attempt_count >= MAX_JOB_ATTEMPTS ==> failure_outcome(attempt_count, error) == JobFailure::Fail,
        !retryable(error) ==> failure_outcome(attempt_count, error) == JobFailure::Fail,
        1 <= attempt_count < MAX_JOB_ATTEMPTS && retryable(error) ==> failure_outcome(attempt_count, error)
            is Retry,
{
}

} // verus!
