use book_studio::ai::trim_code_fence;
use book_studio::ai_reply::{
    chat_completion_content, extract_error_message, extract_message_content,
    extract_stream_delta_content, issue_array_span, models_reply_error, parse_native_tool_calls,
    parse_structured_tool_calls, structured_tool_calls_checked,
};
use book_studio::error::AppError;
use book_studio::json::{get_field, parse_json, Json};

fn parse_chat_completion(raw: &str) -> Result<String, AppError> {
    chat_completion_content(&trim_code_fence(raw))
}

#[test]
fn parses_chat_completion_with_string_content() {
    let raw = r#"{"choices":[{"message":{"role":"assistant","content":"你好"}}]}"#;
    assert_eq!(parse_chat_completion(raw).unwrap(), "你好");
}

#[test]
fn strips_think_blocks_from_chat_completion() {
    let raw = r#"{"choices":[{"message":{"role":"assistant","content":"<think>hidden</think>\n正文"}}]}"#;
    assert_eq!(parse_chat_completion(raw).unwrap(), "正文");
}

#[test]
fn parses_chat_completion_with_array_content() {
    let raw = r#"{
        "choices": [{
            "message": {
                "role": "assistant",
                "content": [{"type":"text","text":"第一段"},{"type":"text","text":"第二段"}]
            }
        }]
    }"#;
    assert_eq!(parse_chat_completion(raw).unwrap(), "第一段\n第二段");
}

#[test]
fn extracts_visible_text_from_streaming_delta() {
    let value = parse_json(
        r#"{"choices":[{"delta":{"reasoning_content":"只应作为思考过程","content":"可见正文"}}]}"#,
    )
    .unwrap();
    assert_eq!(extract_stream_delta_content(&value).as_deref(), Some("可见正文"));
}

#[test]
fn parses_native_and_structured_tool_calls() {
    let native = parse_native_tool_calls(
        r#"{"choices":[{"message":{"tool_calls":[{"id":"call-1","function":{"name":"history_context","arguments":"{\"query\":\"旧线索\"}"}}]}}]}"#,
    )
    .unwrap();
    assert_eq!(native[0].tool_key, "history_context");
    assert_eq!(get_field(&native[0].arguments, "query"), Some(&Json::Str("旧线索".to_string())));

    let structured = parse_structured_tool_calls(
        r#"```json
        {"calls":[{"call_id":"s-1","tool_key":"chapter_memory","arguments":{}}]}
        ```"#,
    )
    .unwrap();
    assert_eq!(structured[0].protocol, "structured");
    assert_eq!(structured[0].tool_key, "chapter_memory");
}

#[test]
fn chat_reply_errors_are_reported() {
    let error = parse_chat_completion(r#"{"error":{"message":"quota exceeded"}}"#).unwrap_err();
    assert_eq!(error, AppError::Validation("AI 返回错误：quota exceeded".to_string()));
    let error = parse_chat_completion(r#"{"error":"boom"}"#).unwrap_err();
    assert_eq!(error, AppError::Validation("AI 返回错误：boom".to_string()));
    let error = parse_chat_completion(r#"{"error":{"code":7}}"#).unwrap_err();
    assert_eq!(error, AppError::Validation("AI 返回错误：{\"code\":7}".to_string()));
    let error = parse_chat_completion(r#"{"choices":[{"message":{"content":"   "}}]}"#).unwrap_err();
    assert_eq!(error, AppError::Validation("AI 没有返回可用内容".to_string()));
    let error = parse_chat_completion(r#"{"choices":[]}"#).unwrap_err();
    assert_eq!(error, AppError::Validation("AI 没有返回可用内容".to_string()));
    assert!(matches!(parse_chat_completion("not json"), Err(AppError::Json(_))));
}

#[test]
fn message_content_joins_parts_and_skips_others() {
    let value = parse_json(r#"["a", {"content":"b"}, 3, {"other":"x"}]"#).unwrap();
    assert_eq!(extract_message_content(&value).as_deref(), Some("a\nb"));
    let value = parse_json(r#"[1, 2]"#).unwrap();
    assert_eq!(extract_message_content(&value), None);
    let value = parse_json("5").unwrap();
    assert_eq!(extract_error_message(&value).as_deref(), Some("5"));
}

#[test]
fn model_list_errors() {
    assert_eq!(
        models_reply_error(r#"{"error":{"message":"bad key"}}"#),
        AppError::Validation("获取模型列表失败：bad key".to_string())
    );
    assert_eq!(
        models_reply_error(r#"{"models":[]}"#),
        AppError::Validation("模型列表响应格式不受支持".to_string())
    );
    assert!(matches!(models_reply_error("<html>"), AppError::Json(_)));
}

#[test]
fn native_calls_need_a_function_name_and_json_arguments() {
    let calls = parse_native_tool_calls(
        r#"{"choices":[{"message":{"tool_calls":[{"function":{"name":"a"}}]}}]}"#,
    )
    .unwrap();
    assert_eq!(calls[0].call_id, "native-0");
    assert_eq!(calls[0].arguments, Json::Object(Vec::new()));
    let error = parse_native_tool_calls(
        r#"{"choices":[{"message":{"tool_calls":[{"function":{"name":"  "}}]}}]}"#,
    )
    .unwrap_err();
    assert_eq!(error, AppError::Validation("原生工具调用缺少 name".to_string()));
    let error = parse_native_tool_calls(
        r#"{"choices":[{"message":{"tool_calls":[{"function":{"name":"t","arguments":"{oops"}}]}}]}"#,
    )
    .unwrap_err();
    assert!(error.message().starts_with("工具 t 参数不是合法 JSON："));
    let error = parse_native_tool_calls(r#"{"choices":[]}"#).unwrap_err();
    assert_eq!(error, AppError::Validation("原生工具响应缺少 choices[0].message".to_string()));
    let none = parse_native_tool_calls(r#"{"choices":[{"message":{"content":"x"}}]}"#).unwrap();
    assert!(none.is_empty());
}

#[test]
fn structured_plan_is_found_inside_prose() {
    let calls = parse_structured_tool_calls(
        r#"计划如下：{"calls":[{"tool_key":"history_context","arguments":{"query":"黑石"}}]} 完毕"#,
    )
    .unwrap();
    assert_eq!(calls[0].call_id, "structured-0");
    let error = parse_structured_tool_calls("没有计划").unwrap_err();
    assert_eq!(error, AppError::Json("missing JSON object".to_string()));
    let error = parse_structured_tool_calls(r#"{"plan":[]}"#).unwrap_err();
    assert_eq!(error, AppError::Validation("结构化工具计划缺少 calls 数组".to_string()));
    assert!(structured_tool_calls_checked("} and {").is_none());
    assert!(structured_tool_calls_checked(r#"{"calls":[]}"#).unwrap().unwrap().is_empty());
}

#[test]
fn issue_span_runs_from_first_to_last_bracket() {
    assert_eq!(issue_array_span("说明 [1, 2] 结束").as_deref(), Some("[1, 2]"));
    assert_eq!(issue_array_span("无"), None);
}
