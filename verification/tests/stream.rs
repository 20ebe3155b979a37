use agent_chat::api::{build_request, read_stream_line, take_line, Message, StreamEvent};
use agent_chat::config::AppConfig;

fn config(stream: bool) -> AppConfig {
    AppConfig {
        ip: "127.0.0.1".into(),
        port: 8031,
        model: "Qwen2.5-0.5B-Instruct".into(),
        system: None,
        timeout: 300,
        stream,
    }
}

fn text_of(event: StreamEvent) -> Option<String> {
    match event {
        StreamEvent::Text(t) => Some(t),
        _ => None,
    }
}

#[test]
fn requests_carry_model_history_and_streaming() {
    let history = vec![
        Message {
            role: "system".into(),
            content: "S".into(),
        },
        Message {
            role: "user".into(),
            content: "hi".into(),
        },
    ];
    let request = build_request(&config(true), &history);
    assert_eq!(request.model, "Qwen2.5-0.5B-Instruct");
    assert!(request.stream);
    assert_eq!(request.messages.len(), 2);
    assert_eq!(request.messages[0].role, "system");
    assert_eq!(request.messages[1].content, "hi");
    assert!(!build_request(&config(false), &history).stream);
    assert!(build_request(&config(false), &Vec::new()).messages.is_empty());
}

#[test]
fn stream_lines() {
    let chunk = r#"data: {"choices":[{"delta":{"content":"你好"}}]}"#;
    assert_eq!(text_of(read_stream_line(chunk)), Some("你好".to_string()));
    let tight = r#"data:{"choices":[{"delta":{"content":"x"}}]}"#;
    assert_eq!(text_of(read_stream_line(tight)), Some("x".to_string()));
    assert!(matches!(read_stream_line("data: [DONE]"), StreamEvent::Done));
    assert!(matches!(read_stream_line("data: [DONE]\r"), StreamEvent::Done));
    assert!(matches!(read_stream_line(""), StreamEvent::Ignore));
    assert!(matches!(read_stream_line(": keep-alive"), StreamEvent::Ignore));
    assert!(matches!(read_stream_line("event: message"), StreamEvent::Ignore));
    let role_only = r#"data: {"choices":[{"delta":{"role":"assistant"}}]}"#;
    assert!(matches!(read_stream_line(role_only), StreamEvent::Ignore));
    assert!(matches!(read_stream_line(r#"data: {"choices":[]}"#), StreamEvent::Ignore));
    assert!(matches!(read_stream_line("data: not json"), StreamEvent::Ignore));
}

#[test]
fn lines_are_taken_up_to_their_line_feed() {
    let mut buffer = b"data: a\n\ndata: b".to_vec();
    assert_eq!(take_line(&mut buffer), Some(b"data: a".to_vec()));
    assert_eq!(take_line(&mut buffer), Some(Vec::new()));
    assert_eq!(take_line(&mut buffer), None);
    assert_eq!(buffer, b"data: b".to_vec());
    buffer.extend_from_slice(b"\n");
    assert_eq!(take_line(&mut buffer), Some(b"data: b".to_vec()));
    assert!(buffer.is_empty());
}
