use book_studio::error::AppError;
use book_studio::index_jobs::{failure_status, is_retryable, job_failure_outcome, JobFailure, MAX_JOB_ATTEMPTS};

#[test]
fn retry_classifier_only_accepts_transient_errors() {
    assert!(is_retryable(&AppError::Network("builder error".to_string())));
    assert!(is_retryable(&AppError::Validation("HTTP 429".to_string())));
    assert!(is_retryable(&AppError::Validation("HTTP 501".to_string())));
    assert!(is_retryable(&AppError::Validation("AI 没有返回可用内容".to_string())));
    assert!(is_retryable(&AppError::Validation("无法解析流式 AI 响应".to_string())));
    assert!(is_retryable(&AppError::Json("expected value at line 1 column 1".to_string())));
    assert!(!is_retryable(&AppError::Validation("请先设置 API Key".to_string())));
    assert!(!is_retryable(&AppError::Validation("资料索引条目过多".to_string())));
}

#[test]
fn database_errors_are_not_retried() {
    assert!(!is_retryable(&AppError::Database("database is locked".to_string())));
    assert!(!is_retryable(&AppError::Validation("HTTP 404".to_string())));
    assert!(is_retryable(&AppError::Validation("request Timeout".to_string())));
}

#[test]
fn failed_attempts_retry_three_times_then_fail() {
    let temporary = AppError::Validation("AI 请求失败：HTTP 503".to_string());
    assert_eq!(job_failure_outcome(1, &temporary), JobFailure::Retry(60));
    assert_eq!(job_failure_outcome(2, &temporary), JobFailure::Retry(300));
    assert_eq!(job_failure_outcome(3, &temporary), JobFailure::Retry(1800));
    assert_eq!(job_failure_outcome(4, &temporary), JobFailure::Fail);
    assert_eq!(failure_status(&job_failure_outcome(1, &temporary)), "pending");
    assert_eq!(failure_status(&JobFailure::Fail), "failed");
    let configuration = AppError::Validation("请先设置 API Key".to_string());
    assert_eq!(job_failure_outcome(1, &configuration), JobFailure::Fail);
    assert_eq!(MAX_JOB_ATTEMPTS, 4);
}
