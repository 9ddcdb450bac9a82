use book_studio::ai::{chat_precheck, native_tool_request};
use book_studio::json::compact_json;
use book_studio::ai::{
    after_attempt, compact_error_body, first_attempt, http_failure_message, native_tools_unsupported,
    normalize_base_url, provider_max_completion_tokens, provider_reasoning_split,
    provider_thinking_config, should_retry, strip_think_blocks, thinking_active,
    tool_planning_failure, tool_planning_precheck, trim_code_fence, AttemptOutcome, RetryAction,
    ToolPlanningError,
};
use book_studio::error::AppError;

#[test]
fn normalizes_minimax_base_url_variants() {
    assert_eq!(
        normalize_base_url("https://api.minimax.com/v1"),
        "https://api.minimaxi.com/v1"
    );
    assert_eq!(
        normalize_base_url("https://api.minimaxi.com"),
        "https://api.minimaxi.com/v1"
    );
}

#[test]
fn native_tool_fallback_only_accepts_capability_errors() {
    assert!(native_tools_unsupported(
        400,
        r#"{"error":{"message":"unsupported parameter: tools"}}"#
    ));
    assert!(!native_tools_unsupported(
        401,
        r#"{"error":{"message":"unsupported parameter: tools"}}"#
    ));
    assert!(!native_tools_unsupported(
        429,
        r#"{"error":{"message":"tool_calls rate limit"}}"#
    ));
    assert!(!native_tools_unsupported(
        500,
        r#"{"error":{"message":"unknown field `tools`"}}"#
    ));
}

#[test]
fn base_url_is_trimmed_of_spaces_and_trailing_slashes() {
    assert_eq!(normalize_base_url("  https://example.test/v1// "), "https://example.test/v1");
    assert_eq!(normalize_base_url("   "), "");
    assert_eq!(normalize_base_url("HTTPS://API.MINIMAX.COM/"), "https://api.minimaxi.com/v1");
}

#[test]
fn provider_options_follow_the_provider() {
    assert_eq!(provider_max_completion_tokens("https://api.minimaxi.com/v1"), Some(16_384));
    assert_eq!(provider_max_completion_tokens("https://example.test/v1"), None);
    assert_eq!(
        provider_thinking_config("https://api.minimaxi.com/v1", true).unwrap().kind,
        "adaptive"
    );
    assert_eq!(
        provider_thinking_config("https://api.minimaxi.com/v1", false).unwrap().kind,
        "disabled"
    );
    assert_eq!(
        provider_thinking_config("https://api.deepseek.com", true).unwrap().kind,
        "enabled"
    );
    assert!(provider_thinking_config("https://example.test/v1", true).is_none());
    assert_eq!(provider_reasoning_split("https://api.minimaxi.com/v1", true), Some(true));
    assert_eq!(provider_reasoning_split("https://api.minimaxi.com/v1", false), None);
    assert_eq!(provider_reasoning_split("https://api.deepseek.com", true), None);
    assert!(thinking_active(true, "medium"));
    assert!(!thinking_active(true, "OFF"));
    assert!(!thinking_active(false, "medium"));
}

#[test]
fn think_blocks_are_removed_from_replies() {
    assert_eq!(strip_think_blocks("<think>推理</think>正文"), "正文");
    assert_eq!(strip_think_blocks("<THINK>a</Think> 甲 <think>b</think>乙 "), "甲 乙");
    assert_eq!(strip_think_blocks("<think>未闭合 正文"), "<think>未闭合 正文");
}

#[test]
fn code_fences_are_removed_from_replies() {
    assert_eq!(trim_code_fence("```json\n[1]\n```"), "[1]");
    assert_eq!(trim_code_fence("```\n{}\n```"), "{}");
    assert_eq!(trim_code_fence("  plain  "), "plain");
    assert_eq!(trim_code_fence("```json\nunclosed"), "```json\nunclosed");
}

#[test]
fn error_bodies_are_compacted() {
    assert_eq!(compact_error_body("  a \n\t b  c "), "a b c");
    let long = "x".repeat(400);
    let compact = compact_error_body(&long);
    assert_eq!(compact.chars().count(), 323);
    assert!(compact.ends_with("..."));
    assert_eq!(
        http_failure_message("AI 请求失败：", "404 Not Found", " no\nroute "),
        "AI 请求失败：HTTP 404 Not Found no route"
    );
}

#[test]
fn requests_are_retried_ten_times_then_stop() {
    assert!(should_retry(1, 11));
    assert!(!should_retry(11, 11));
    let mut state = first_attempt();
    let mut retries = 0;
    loop {
        let (next, action) = after_attempt(
            state,
            AttemptOutcome::Failed(AppError::Validation("HTTP 500".to_string())),
        );
        state = next;
        match action {
            RetryAction::WaitAndRetry => retries += 1,
            RetryAction::Stop(error) => {
                assert_eq!(error, AppError::Validation("HTTP 500".to_string()));
                break;
            }
            RetryAction::Finish(_) => panic!("a failure cannot finish"),
        }
    }
    assert_eq!(retries, 10);
    let (_, action) = after_attempt(first_attempt(), AttemptOutcome::Completed("好".to_string()));
    assert!(matches!(action, RetryAction::Finish(content) if content == "好"));
}

#[test]
fn tool_planning_failures_are_classified() {
    match tool_planning_failure(400, "400 Bad Request", "unknown field `tools`") {
        ToolPlanningError::Unsupported(message) => {
            assert_eq!(message, "供应商不支持原生工具调用：HTTP 400 Bad Request unknown field `tools`")
        }
        other => panic!("unexpected {other:?}"),
    }
    match tool_planning_failure(500, "500 Internal Server Error", "boom") {
        ToolPlanningError::Other(AppError::Validation(message)) => {
            assert_eq!(message, "工具规划请求失败：HTTP 500 Internal Server Error boom")
        }
        other => panic!("unexpected {other:?}"),
    }
    assert!(matches!(tool_planning_precheck("", "m", 1), Err(ToolPlanningError::Other(AppError::Validation(m))) if m == "请先设置 API Base URL"));
    assert!(matches!(tool_planning_precheck("https://x.test", " ", 1), Err(ToolPlanningError::Other(AppError::Validation(m))) if m == "请先设置模型名称"));
    assert!(matches!(tool_planning_precheck("https://x.test", "m", 0), Ok(false)));
    assert!(matches!(tool_planning_precheck("https://x.test", "m", 2), Ok(true)));
}

#[test]
fn chat_precheck_needs_url_and_model() {
    assert_eq!(
        chat_precheck("  ", "m"),
        Err(AppError::Validation("请先设置 API Base URL".to_string()))
    );
    assert_eq!(
        chat_precheck("https://api.example.com/v1/", " "),
        Err(AppError::Validation("请先设置模型名称".to_string()))
    );
    assert_eq!(
        chat_precheck("https://api.example.com/v1/", "m").unwrap(),
        "https://api.example.com/v1/chat/completions"
    );
}

#[test]
fn native_tool_request_offers_tools_as_functions() {
    let tools = book_studio::agent_tools::definitions();
    let request =
        native_tool_request("https://api.example.com/v1", "m", false, "off", "S", "U", &tools).unwrap();
    let text = compact_json(&request);
    let value: serde_json::Value = serde_json::from_str(&text).unwrap();
    assert_eq!(value["model"], "m");
    assert_eq!(value["tool_choice"], "auto");
    assert_eq!(value["temperature"], 0.0);
    assert_eq!(value["messages"][0]["role"], "system");
    assert_eq!(value["messages"][1]["content"], "U");
    assert_eq!(value["tools"].as_array().unwrap().len(), tools.len());
    assert_eq!(value["tools"][0]["type"], "function");
    assert_eq!(value["tools"][0]["function"]["name"], tools[0].key.as_str());
    assert!(value["tools"][0]["function"]["parameters"].is_object());
    assert!(value.get("max_completion_tokens").is_none());
    assert!(value.get("thinking").is_none());
}

#[test]
fn native_tool_request_adds_minimax_options() {
    let tools = book_studio::agent_tools::definitions();
    let request =
        native_tool_request("https://api.minimaxi.com/v1", "m", true, "high", "S", "U", &tools).unwrap();
    let value: serde_json::Value = serde_json::from_str(&compact_json(&request)).unwrap();
    assert_eq!(value["max_completion_tokens"], 16384);
    assert_eq!(value["thinking"]["type"], "adaptive");
    assert_eq!(value["reasoning_split"], true);
}
