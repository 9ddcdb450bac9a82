use book_studio::error::AppError;
use book_studio::stream_reply::{lossy_text, StreamEnd, StreamReader};

fn read_all(reader: &mut StreamReader, updates: &mut Vec<String>) -> Option<AppError> {
    while let Some(outcome) = reader.next_line() {
        if let Some(text) = outcome.update {
            updates.push(text);
        }
        if let Some(error) = outcome.failure {
            return Some(error);
        }
    }
    None
}

#[test]
fn streamed_deltas_are_gathered_until_done() {
    let mut reader = StreamReader::new();
    let mut updates = Vec::new();
    reader.push_text("data: {\"choices\":[{\"delta\":{\"content\":\"你\"}}]}\r\n\ndata: {\"choices\":[{\"delta\":{\"con");
    assert!(read_all(&mut reader, &mut updates).is_none());
    reader.push_text("tent\":\"好\"}}]}\n: keep-alive\ndata: [DONE]\n");
    assert!(read_all(&mut reader, &mut updates).is_none());
    assert_eq!(updates, vec!["你".to_string(), "你好".to_string()]);
    match reader.finish() {
        StreamEnd::Text(text) => assert_eq!(text, "你好"),
        _ => panic!("expected text"),
    }
}

#[test]
fn stream_without_an_end_or_with_errors_fails() {
    let mut reader = StreamReader::new();
    let mut updates = Vec::new();
    reader.push_text("data: {\"choices\":[{\"delta\":{\"content\":\"半\"}}]}\n");
    assert!(read_all(&mut reader, &mut updates).is_none());
    match reader.finish() {
        StreamEnd::Failed(error) => assert!(error.message().starts_with("AI 流式响应未正常结束")),
        _ => panic!("expected failure"),
    }

    let mut reader = StreamReader::new();
    reader.push_text("data: {\"choices\":[{\"delta\":{\"content\":\"长\"},\"finish_reason\":\"length\"}]}\n");
    let error = read_all(&mut reader, &mut updates).unwrap();
    assert_eq!(error, AppError::Validation("AI 输出达到长度上限，已自动重试以避免保存半截正文".to_string()));

    let mut reader = StreamReader::new();
    reader.push_text("data: {\"error\":{\"message\":\"overloaded\"}}\n");
    let error = read_all(&mut reader, &mut updates).unwrap();
    assert_eq!(error, AppError::Validation("AI 返回错误：overloaded".to_string()));

    let mut reader = StreamReader::new();
    reader.push_text("data: not json\n");
    assert!(read_all(&mut reader, &mut updates).unwrap().message().starts_with("无法解析流式 AI 响应："));
}

#[test]
fn a_reply_without_events_is_read_whole() {
    let mut reader = StreamReader::new();
    let mut updates = Vec::new();
    reader.push_text("{\"choices\":[{\"message\":{\"content\":\"整段\"}}]}");
    assert!(read_all(&mut reader, &mut updates).is_none());
    match reader.finish() {
        StreamEnd::NoEvents(raw) => assert!(raw.contains("整段")),
        _ => panic!("expected the raw reply"),
    }
}

#[test]
fn finish_reason_stop_ends_a_reply_and_thinking_is_removed() {
    let mut reader = StreamReader::new();
    let mut updates = Vec::new();
    reader.push_text("data: {\"choices\":[{\"delta\":{\"content\":\"<think>x</think>正文\"},\"finish_reason\":\"stop\"}]}\n");
    assert!(read_all(&mut reader, &mut updates).is_none());
    match reader.finish() {
        StreamEnd::Text(text) => assert_eq!(text, "正文"),
        _ => panic!("expected text"),
    }
    assert_eq!(lossy_text("好".as_bytes()), "好");
    assert_eq!(lossy_text(&[0x66, 0xff]), "f\u{fffd}");
}
