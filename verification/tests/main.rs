use agent_chat::api::{drop_oldest_turn, is_context_size_error, Message};

#[test]
fn main_recognizes_context_size_error() {
    let body = r#"{"error":{"code":"exceed_context_size_error"}}"#;
    assert!(is_context_size_error(body));
}

#[test]
fn main_drops_oldest_user_assistant_turn() {
    let mut messages = vec![
        Message {
            role: "user".into(),
            content: "one".into(),
        },
        Message {
            role: "assistant".into(),
            content: "ONE".into(),
        },
        Message {
            role: "user".into(),
            content: "two".into(),
        },
    ];

    assert!(drop_oldest_turn(&mut messages));
    assert_eq!(messages.len(), 1);
    assert_eq!(messages[0].content, "two");
}
