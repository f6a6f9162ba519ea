use sofos::api::{Json, Message, MessageContentBlock};
use sofos::conversation::ConversationHistory;

fn json(text: &str) -> Json {
    Json::parse(text).expect("valid JSON")
}

#[test]
fn conversation_test_message_limit_trimming() {
    let mut history = ConversationHistory::new();

    for i in 0..510 {
        history.add_user_message(format!("Message {}", i));
    }

    assert_eq!(history.messages().len(), 500);

    if let sofos::api::MessageContent::Text { content } = &history.messages()[0].content {
        assert_eq!(content, "Message 10");
    }
}

#[test]
fn conversation_test_append_text_to_last_user_blocks_extends_tool_results_turn() {
    let mut history = ConversationHistory::new();
    history.add_user_message("query".to_string());
    history.add_assistant_with_blocks(vec![MessageContentBlock::ToolUse {
        id: "call_xyz".to_string(),
        name: "read_file".to_string(),
        input: json(r#"{"path": "a.rs"}"#),
        cache_control: None,
    }]);
    history.add_tool_results(vec![MessageContentBlock::ToolResult {
        tool_use_id: "call_xyz".to_string(),
        content: "file contents".to_string(),
        cache_control: None,
    }]);

    let appended = history.append_text_to_last_user_blocks("hello".to_string());
    assert!(appended, "append should succeed on a user-blocks tail");

    let last = history.messages().last().unwrap();
    assert_eq!(last.role, "user");
    if let sofos::api::MessageContent::Blocks { content } = &last.content {
        assert_eq!(content.len(), 2, "expected ToolResult + Text");
        assert!(matches!(
            &content[0],
            MessageContentBlock::ToolResult { .. }
        ));
        match &content[1] {
            MessageContentBlock::Text { text, .. } => assert_eq!(text, "hello"),
            _ => panic!("expected Text block at index 1"),
        }
    } else {
        panic!("expected Blocks content");
    }
}

#[test]
fn conversation_test_append_text_to_last_user_blocks_noop_when_last_is_text_only() {
    let mut history = ConversationHistory::new();
    history.add_user_message("just text".to_string());

    let appended = history.append_text_to_last_user_blocks("suffix".to_string());
    assert!(
        !appended,
        "append should refuse to extend a Text-variant user message"
    );
}

#[test]
fn conversation_test_append_text_to_last_user_blocks_noop_on_empty_history() {
    let mut history = ConversationHistory::new();
    let appended = history.append_text_to_last_user_blocks("text".to_string());
    assert!(!appended, "append should refuse on empty history");
}

#[test]
fn conversation_test_drop_orphaned_tool_results_preserves_mixed_text_block() {
    let mut history = ConversationHistory::new();
    let messages = vec![Message::user_with_blocks(vec![
        MessageContentBlock::ToolResult {
            tool_use_id: "call_orphan".to_string(),
            content: "doesn't matter".to_string(),
            cache_control: None,
        },
        MessageContentBlock::Text {
            text: "please reconsider".to_string(),
            cache_control: None,
        },
    ])];
    history.restore_messages(messages);
    history.drop_leading_orphaned_tool_results();

    assert_eq!(
        history.messages().len(),
        1,
        "message should survive — it still has the Text block"
    );
    if let sofos::api::MessageContent::Blocks { content } = &history.messages()[0].content {
        assert_eq!(content.len(), 1, "only the Text block should remain");
        assert!(
            matches!(&content[0], MessageContentBlock::Text { text, .. } if text == "please reconsider")
        );
    } else {
        panic!("expected Blocks content");
    }
}

#[test]
fn conversation_test_drop_orphaned_tool_results_removes_pure_tool_result_turn() {
    let mut history = ConversationHistory::new();
    let messages = vec![Message::user_with_tool_results(vec![
        MessageContentBlock::ToolResult {
            tool_use_id: "call_x".to_string(),
            content: "orphaned".to_string(),
            cache_control: None,
        },
    ])];
    history.restore_messages(messages);
    history.drop_leading_orphaned_tool_results();
    assert_eq!(history.messages().len(), 0);
}

#[test]
fn conversation_test_drop_orphaned_tool_results_leaves_assistant_head_alone() {
    let mut history = ConversationHistory::new();
    let messages = vec![
        Message::assistant_with_blocks(vec![MessageContentBlock::ToolUse {
            id: "call_live".to_string(),
            name: "read_file".to_string(),
            input: json(r#"{"path": "b.rs"}"#),
            cache_control: None,
        }]),
        Message::user_with_tool_results(vec![MessageContentBlock::ToolResult {
            tool_use_id: "call_live".to_string(),
            content: "paired".to_string(),
            cache_control: None,
        }]),
    ];
    history.restore_messages(messages);
    history.drop_leading_orphaned_tool_results();
    assert_eq!(history.messages().len(), 2);
}

#[test]
fn conversation_test_trim_drops_orphaned_leading_tool_results() {
    let mut history = ConversationHistory::new();
    history.config.max_messages = 3;

    let messages = vec![
        Message::user("initial query".to_string()),
        Message::assistant_with_blocks(vec![MessageContentBlock::ToolUse {
            id: "call_abc".to_string(),
            name: "read_file".to_string(),
            input: json(r#"{"path": "a.rs"}"#),
            cache_control: None,
        }]),
        Message::user_with_tool_results(vec![MessageContentBlock::ToolResult {
            tool_use_id: "call_abc".to_string(),
            content: "file contents".to_string(),
            cache_control: None,
        }]),
        Message::assistant_with_blocks(vec![MessageContentBlock::Text {
            text: "done".to_string(),
            cache_control: None,
        }]),
        Message::user("next".to_string()),
    ];

    history.restore_messages(messages);

    let first = &history.messages()[0];
    let first_has_tool_result = matches!(
        &first.content,
        sofos::api::MessageContent::Blocks { content }
            if content.iter().any(|b| matches!(
                b,
                sofos::api::MessageContentBlock::ToolResult { .. }
            ))
    );
    assert!(
        !first_has_tool_result,
        "front of history still references a trimmed tool call"
    );
}

#[test]
fn conversation_test_message_limit_with_blocks() {
    let mut history = ConversationHistory::new();

    for i in 0..260 {
        history.add_user_message(format!("User {}", i));
        history.add_assistant_with_blocks(vec![MessageContentBlock::Text {
            text: format!("Assistant {}", i),
            cache_control: None,
        }]);
    }

    assert_eq!(history.messages().len(), 500);
}

#[test]
fn conversation_test_no_trimming_below_limit() {
    let mut history = ConversationHistory::new();

    for i in 0..20 {
        history.add_user_message(format!("Message {}", i));
    }

    assert_eq!(history.messages().len(), 20);
}

#[test]
fn conversation_test_token_limit_trimming() {
    let mut history = ConversationHistory::new();
    history.config.max_context_tokens = 5000;

    let large_content = "x".repeat(1000);

    for i in 0..20 {
        history.add_user_message(format!("{} {}", i, large_content));
    }

    assert!(history.messages().len() < 20);
    assert!(history.messages().len() >= 10);

    if let sofos::api::MessageContent::Text { content } = &history.messages()[0].content {
        assert!(!content.starts_with("0 "));
    }
}

#[test]
fn conversation_test_token_estimation() {
    let tokens = ConversationHistory::estimate_tokens("12345678901234567890123456789012345");
    assert_eq!(tokens, 10);

    let tokens = ConversationHistory::estimate_tokens("");
    assert_eq!(tokens, 0);
}

#[test]
fn conversation_test_needs_compaction() {
    let mut history = ConversationHistory::new();
    history.config.max_context_tokens = 100_000;
    history.config.auto_compact_token_limit = (100_000.0 * 0.80) as usize;

    history.add_user_message("hello".to_string());
    assert!(!history.needs_compaction());

    let large_content = "x".repeat(10_000);
    for _ in 0..30 {
        history.messages.push(Message::user(large_content.clone()));
    }
    assert!(history.needs_compaction());
}

#[test]
fn conversation_test_compaction_split_point() {
    let mut history = ConversationHistory::new();
    history.config.compaction_preserve_recent = 4;

    for i in 0..10 {
        history.messages.push(Message::user(format!("msg {}", i)));
    }

    let split = history.compaction_split_point();
    assert_eq!(split, 6); // 10 - 4 = 6
}

#[test]
fn conversation_test_compaction_split_too_few_messages() {
    let mut history = ConversationHistory::new();
    history.config.compaction_preserve_recent = 20;

    for i in 0..10 {
        history.messages.push(Message::user(format!("msg {}", i)));
    }

    let split = history.compaction_split_point();
    assert_eq!(split, 0); // not enough to compact
}

#[test]
fn conversation_test_truncate_tool_results() {
    let mut history = ConversationHistory::new();
    history.config.tool_result_truncate_threshold = 100;

    let large_content = "x".repeat(500);
    history.messages.push(Message::user_with_tool_results(vec![
        MessageContentBlock::ToolResult {
            tool_use_id: "id1".to_string(),
            content: large_content,
            cache_control: None,
        },
    ]));

    history.truncate_tool_results(1);

    if let sofos::api::MessageContent::Blocks { content } = &history.messages()[0].content {
        if let MessageContentBlock::ToolResult { content, .. } = &content[0] {
            assert!(content.contains("truncated"));
            assert!(content.len() < 500); // keep 500/3=166 each side + marker < 500
        } else {
            panic!("Expected ToolResult");
        }
    } else {
        panic!("Expected Blocks");
    }
}

#[test]
fn conversation_test_replace_with_summary() {
    let mut history = ConversationHistory::new();

    for i in 0..10 {
        history.messages.push(Message::user(format!("msg {}", i)));
    }

    history.replace_with_summary("This is the summary".to_string(), 7);

    assert_eq!(history.messages().len(), 4);

    if let sofos::api::MessageContent::Text { content } = &history.messages()[0].content {
        assert!(content.contains("Conversation Summary"));
        assert!(content.contains("This is the summary"));
    }
}

#[test]
fn conversation_test_serialize_messages_for_summary() {
    let messages = vec![
        Message::user("Hello, help me with code".to_string()),
        Message::assistant_with_blocks(vec![MessageContentBlock::Text {
            text: "Sure, let me look at the files.".to_string(),
            cache_control: None,
        }]),
    ];

    let serialized = ConversationHistory::serialize_messages_for_summary(&messages);
    assert!(serialized.contains("User: Hello, help me with code"));
    assert!(serialized.contains("Assistant: Sure, let me look at the files."));
}

#[test]
fn conversation_test_build_drop_summary_extracts_tools_and_files() {
    let messages = vec![
        Message::user("fix the bug in auth".to_string()),
        Message::assistant_with_blocks(vec![MessageContentBlock::ToolUse {
            id: "1".to_string(),
            name: "read_file".to_string(),
            input: json(r#"{"path": "/src/auth.rs"}"#),
            cache_control: None,
        }]),
        Message::assistant_with_blocks(vec![MessageContentBlock::ToolUse {
            id: "2".to_string(),
            name: "edit_file".to_string(),
            input: json(r#"{"path": "/src/auth.rs", "old_string": "a", "new_string": "b"}"#),
            cache_control: None,
        }]),
        Message::user("now fix the tests".to_string()),
        Message::assistant_with_blocks(vec![MessageContentBlock::ToolUse {
            id: "3".to_string(),
            name: "read_file".to_string(),
            input: json(r#"{"path": "/src/tests.rs"}"#),
            cache_control: None,
        }]),
    ];

    let summary = ConversationHistory::build_drop_summary(&messages);
    assert!(summary.contains("read_file"));
    assert!(summary.contains("edit_file"));
    assert!(summary.contains("/src/auth.rs"));
    assert!(summary.contains("/src/tests.rs"));
    assert!(summary.contains("fix the bug"));
    assert!(summary.contains("fix the tests"));
}

#[test]
fn conversation_test_build_drop_summary_empty_messages() {
    let summary = ConversationHistory::build_drop_summary(&[]);
    assert!(summary.is_empty());
}

#[test]
fn conversation_test_build_drop_summary_limits_topics_and_files() {
    let mut messages = Vec::new();
    for i in 0..10 {
        messages.push(Message::user(format!("request {}", i)));
    }
    for i in 0..25 {
        messages.push(Message::assistant_with_blocks(vec![
            MessageContentBlock::ToolUse {
                id: format!("id{}", i),
                name: "read_file".to_string(),
                input: json(&format!("{{\"path\": \"/file{}.rs\"}}", i)),
                cache_control: None,
            },
        ]));
    }

    let summary = ConversationHistory::build_drop_summary(&messages);
    let topic_line = summary
        .lines()
        .find(|l| l.starts_with("User requests:"))
        .unwrap();
    let topic_count = topic_line.matches("request ").count();
    assert_eq!(topic_count, 5);
    let file_count = summary.matches("/file").count();
    assert_eq!(file_count, 20);
}

#[test]
fn conversation_test_build_drop_summary_skips_assistant_text() {
    let messages = vec![
        Message::user("user question".to_string()),
        Message::assistant_with_blocks(vec![MessageContentBlock::Text {
            text: "assistant answer".to_string(),
            cache_control: None,
        }]),
    ];

    let summary = ConversationHistory::build_drop_summary(&messages);
    assert!(summary.contains("user question"));
    assert!(!summary.contains("assistant answer"));
}

#[test]
fn conversation_test_fallback_trim_inserts_summary() {
    let mut history = ConversationHistory::new();
    history.config.max_context_tokens = 3000;

    for i in 0..30 {
        let content = format!("request {} {}", i, "x".repeat(500));
        history.messages.push(Message::user(content));
    }

    history.fallback_trim();

    assert!(history.messages().len() < 30);
    if let sofos::api::MessageContent::Text { content } = &history.messages()[0].content {
        assert!(content.starts_with("[Context trimmed"));
    } else {
        panic!("Expected text summary message at position 0");
    }
}

#[test]
fn conversation_test_fallback_trim_no_summary_for_small_drop() {
    let mut history = ConversationHistory::new();
    for i in 0..502 {
        history.messages.push(Message::user(format!("msg {}", i)));
    }

    history.fallback_trim();

    if let sofos::api::MessageContent::Text { content } = &history.messages()[0].content {
        assert!(!content.starts_with("[Context trimmed"));
    }
}

#[test]
fn conversation_test_fallback_trim_few_messages_no_panic() {
    let mut history = ConversationHistory::new();
    for i in 0..5 {
        history.messages.push(Message::user(format!("msg {}", i)));
    }
    history.fallback_trim();
    assert_eq!(history.messages().len(), 5);
}
