use agent_chat::api::{
    compact_body, drop_oldest_turn, is_context_size_error, read_answer,
    assess_status,
    ChatResponse, Choice, Message, StatusStep,
};

fn message(role: &str, content: &str) -> Message {
    Message {
        role: role.into(),
        content: content.into(),
    }
}

#[test]
fn api_recognizes_context_size_error() {
    let body = r#"{"error":{"code":"exceed_context_size_error"}}"#;
    assert!(is_context_size_error(body));
}

#[test]
fn api_drops_oldest_user_assistant_turn() {
    let mut messages = vec![
        Message {
            role: "user".into(),
            content: "one".into(),
        },
        Message {
            role: "assistant".into(),
            content: "ONE".into(),
        },
        Message {
            role: "user".into(),
            content: "two".into(),
        },
    ];

    assert!(drop_oldest_turn(&mut messages));
    assert_eq!(messages.len(), 1);
    assert_eq!(messages[0].content, "two");
}

#[test]
fn context_size_error_needs_that_exact_code() {
    assert!(!is_context_size_error(r#"{"error":{"code":"rate_limited"}}"#));
    assert!(!is_context_size_error(r#"{"error":{"code":42}}"#));
    assert!(!is_context_size_error(r#"{"error":"exceed_context_size_error"}"#));
    assert!(!is_context_size_error(r#"{"code":"exceed_context_size_error"}"#));
    assert!(!is_context_size_error(r#"[{"error":{"code":"exceed_context_size_error"}}]"#));
    assert!(!is_context_size_error("exceed_context_size_error"));
    assert!(!is_context_size_error(""));
    assert!(!is_context_size_error(r#"{"error":{"code":"exceed_context_size_error"}"#));
}

#[test]
fn context_size_error_with_more_fields() {
    let body = r#"{"error":{"message":"too long","type":"x","code":"exceed_context_size_error","n_ctx":4096},"id":1}"#;
    assert!(is_context_size_error(body));
}

#[test]
fn short_conversations_are_not_cut() {
    let mut messages = vec![message("assistant", "ONE"), message("user", "two")];
    assert!(!drop_oldest_turn(&mut messages));
    assert_eq!(messages.len(), 2);
    let mut empty: Vec<Message> = Vec::new();
    assert!(!drop_oldest_turn(&mut empty));
    assert!(empty.is_empty());
}

#[test]
fn dropping_keeps_later_messages_in_order() {
    let mut messages = vec![
        message("user", "a"),
        message("assistant", "A"),
        message("user", "b"),
        message("assistant", "B"),
        message("user", "c"),
    ];
    assert!(drop_oldest_turn(&mut messages));
    let contents: Vec<&str> = messages.iter().map(|m| m.content.as_str()).collect();
    assert_eq!(contents, vec!["b", "B", "c"]);
}

#[test]
fn compact_body_collapses_white_space() {
    assert_eq!(compact_body("  a \n b\t\tc  "), "a b c");
    assert_eq!(compact_body(""), "");
    assert_eq!(compact_body(" \n\t "), "");
    assert_eq!(compact_body("one"), "one");
    assert_eq!(compact_body("x\u{3000}y\u{a0}z"), "x y z");
}

#[test]
fn compact_body_cuts_long_bodies() {
    let long = "x".repeat(600);
    let expected = format!("{}...", "x".repeat(500));
    assert_eq!(compact_body(&long), expected);
    let exact = "y".repeat(500);
    assert_eq!(compact_body(&exact), exact);
    let wide = "黑".repeat(501);
    assert_eq!(compact_body(&wide), format!("{}...", "黑".repeat(500)));
    assert_eq!(compact_body(&wide).chars().count(), 503);
}

#[test]
fn compacting_a_compact_body_changes_nothing() {
    let once = compact_body("  {\n  \"error\":  \"bad\"\n}  ");
    assert_eq!(once, "{ \"error\": \"bad\" }");
    assert_eq!(compact_body(&once), once);
}

#[test]
fn accepted_status_reads_the_body() {
    let mut messages = vec![message("user", "a")];
    let step = assess_status(&mut messages, 200, "200 OK", "{}");
    assert!(matches!(step, StatusStep::ReadBody));
    assert_eq!(messages.len(), 1);
}

#[test]
fn context_error_drops_a_turn_and_retries() {
    let mut messages = vec![
        message("user", "a"),
        message("assistant", "A"),
        message("user", "b"),
    ];
    let body = r#"{"error":{"code":"exceed_context_size_error"}}"#;
    let step = assess_status(&mut messages, 400, "400 Bad Request", body);
    assert!(matches!(step, StatusStep::Retry));
    assert_eq!(messages.len(), 1);
    assert_eq!(messages[0].content, "b");
}

#[test]
fn context_error_without_a_turn_to_drop_fails() {
    let mut messages = vec![message("user", "b")];
    let body = r#"{"error":{"code":"exceed_context_size_error"}}"#;
    match assess_status(&mut messages, 400, "400 Bad Request", body) {
        StatusStep::Fail(e) => assert_eq!(
            e,
            r#"HTTP 400 Bad Request: {"error":{"code":"exceed_context_size_error"}}"#
        ),
        other => panic!("unexpected {:?}", other),
    }
    assert_eq!(messages.len(), 1);
}

#[test]
fn other_errors_fail_with_the_compacted_body() {
    let mut messages = vec![
        message("user", "a"),
        message("assistant", "A"),
        message("user", "b"),
    ];
    match assess_status(&mut messages, 500, "500 Internal Server Error", "  oops \n  here ") {
        StatusStep::Fail(e) => assert_eq!(e, "HTTP 500 Internal Server Error: oops here"),
        other => panic!("unexpected {:?}", other),
    }
    assert_eq!(messages.len(), 3);
}

#[test]
fn answer_is_the_first_choice() {
    let response = ChatResponse {
        choices: vec![
            Choice {
                message: message("assistant", "first"),
            },
            Choice {
                message: message("assistant", "second"),
            },
        ],
    };
    assert_eq!(read_answer("{}", Ok(response)), Ok("first".to_string()));
}

#[test]
fn answer_without_choices_is_an_error() {
    let response = ChatResponse { choices: vec![] };
    assert_eq!(
        read_answer("{\"choices\":[]}", Ok(response)),
        Err("服务端响应中没有 choices[0].message.content".to_string())
    );
}

#[test]
fn unreadable_answer_is_an_error() {
    let r = read_answer("not  json", Err("expected value at line 1 column 1".to_string()));
    assert_eq!(
        r,
        Err("无法解析服务端 JSON: expected value at line 1 column 1; 响应: not json".to_string())
    );
}

#[test]
fn a_system_prompt_survives_dropping_a_turn() {
    let mut messages = vec![
        message("system", "S"),
        message("user", "one"),
        message("assistant", "ONE"),
        message("user", "two"),
    ];
    assert!(drop_oldest_turn(&mut messages));
    assert_eq!(messages.len(), 2);
    assert_eq!(messages[0].role, "system");
    assert_eq!(messages[0].content, "S");
    assert_eq!(messages[1].role, "user");
    assert_eq!(messages[1].content, "two");
}

#[test]
fn a_system_prompt_and_one_message_leave_nothing_to_drop() {
    let mut messages = vec![message("system", "S"), message("user", "a"), message("user", "b")];
    assert!(!drop_oldest_turn(&mut messages));
    assert_eq!(messages.len(), 3);
}

#[test]
fn repeated_context_errors_end_in_failure() {
    let mut messages = vec![
        message("system", "S"),
        message("user", "a"),
        message("assistant", "A"),
        message("user", "b"),
        message("assistant", "B"),
        message("user", "c"),
    ];
    let body = r#"{"error":{"code":"exceed_context_size_error"}}"#;
    let mut retries = 0;
    loop {
        match assess_status(&mut messages, 400, "400 Bad Request", body) {
            StatusStep::Retry => retries += 1,
            StatusStep::Fail(_) => break,
            StatusStep::ReadBody => panic!("not accepted"),
        }
    }
    assert_eq!(retries, 2);
    let contents: Vec<&str> = messages.iter().map(|m| m.content.as_str()).collect();
    assert_eq!(contents, vec!["S", "c"]);
}

#[test]
fn compacting_a_cut_body_changes_nothing() {
    let body = format!("{} tail", "x ".repeat(400));
    let once = compact_body(&body);
    assert_eq!(once.chars().count(), 503);
    assert_eq!(compact_body(&once), once);
    let glued = "z".repeat(700);
    let once = compact_body(&glued);
    assert_eq!(compact_body(&once), once);
}
