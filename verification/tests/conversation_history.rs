use sofos::api::{Json, Message, MessageContentBlock};
use sofos::conversation::ConversationHistory;

fn json(text: &str) -> Json {
    Json::parse(text).expect("valid JSON")
}

fn blocks_msg_with(role: &str, n: usize) -> Message {
    let blocks: Vec<MessageContentBlock> = (0..n)
        .map(|i| MessageContentBlock::Text {
            text: format!("{}-{}", role, i),
            cache_control: None,
        })
        .collect();
    if role == "user" {
        Message::user_with_blocks(blocks)
    } else {
        Message::assistant_with_blocks(blocks)
    }
}

#[test]
fn mod_test_message_limit_trimming() {
    let mut history = ConversationHistory::new();

    for i in 0..510 {
        history.add_user_message(format!("Message {}", i));
    }

    assert_eq!(history.messages().len(), 500);

    if let sofos::api::MessageContent::Text { content } = &history.messages()[0].content {
        assert_eq!(content, "Message 10");
    }
}

#[test]
fn mod_test_append_text_to_last_user_blocks_extends_tool_results_turn() {
    let mut history = ConversationHistory::new();
    history.add_user_message("query".to_string());
    history.add_assistant_with_blocks(vec![MessageContentBlock::ToolUse {
        id: "call_xyz".to_string(),
        name: "read_file".to_string(),
        input: json(r#"{"path": "a.rs"}"#),
        cache_control: None,
    }]);
    history.add_tool_results(vec![MessageContentBlock::ToolResult {
        tool_use_id: "call_xyz".to_string(),
        content: "file contents".to_string(),
        cache_control: None,
    }]);

    let appended = history.append_text_to_last_user_blocks("hello".to_string());
    assert!(appended, "append should succeed on a user-blocks tail");

    let last = history.messages().last().unwrap();
    assert_eq!(last.role, "user");
    if let sofos::api::MessageContent::Blocks { content } = &last.content {
        assert_eq!(content.len(), 2, "expected ToolResult + Text");
        assert!(matches!(
            &content[0],
            MessageContentBlock::ToolResult { .. }
        ));
        match &content[1] {
            MessageContentBlock::Text { text, .. } => assert_eq!(text, "hello"),
            _ => panic!("expected Text block at index 1"),
        }
    } else {
        panic!("expected Blocks content");
    }
}

#[test]
fn mod_test_append_text_to_last_user_blocks_noop_when_last_is_text_only() {
    let mut history = ConversationHistory::new();
    history.add_user_message("just text".to_string());

    let appended = history.append_text_to_last_user_blocks("suffix".to_string());
    assert!(
        !appended,
        "append should refuse to extend a Text-variant user message"
    );
}

#[test]
fn mod_test_append_text_to_last_user_blocks_noop_on_empty_history() {
    let mut history = ConversationHistory::new();
    let appended = history.append_text_to_last_user_blocks("text".to_string());
    assert!(!appended, "append should refuse on empty history");
}

#[test]
fn mod_test_drop_orphaned_tool_results_preserves_mixed_text_block() {
    let mut history = ConversationHistory::new();
    let messages = vec![Message::user_with_blocks(vec![
        MessageContentBlock::ToolResult {
            tool_use_id: "call_orphan".to_string(),
            content: "doesn't matter".to_string(),
            cache_control: None,
        },
        MessageContentBlock::Text {
            text: "please reconsider".to_string(),
            cache_control: None,
        },
    ])];
    history.restore_messages(messages);
    history.drop_leading_orphaned_tool_results();

    assert_eq!(
        history.messages().len(),
        1,
        "message should survive — it still has the Text block"
    );
    if let sofos::api::MessageContent::Blocks { content } = &history.messages()[0].content {
        assert_eq!(content.len(), 1, "only the Text block should remain");
        assert!(
            matches!(&content[0], MessageContentBlock::Text { text, .. } if text == "please reconsider")
        );
    } else {
        panic!("expected Blocks content");
    }
}

#[test]
fn mod_test_drop_orphaned_tool_results_removes_pure_tool_result_turn() {
    let mut history = ConversationHistory::new();
    let messages = vec![Message::user_with_tool_results(vec![
        MessageContentBlock::ToolResult {
            tool_use_id: "call_x".to_string(),
            content: "orphaned".to_string(),
            cache_control: None,
        },
    ])];
    history.restore_messages(messages);
    history.drop_leading_orphaned_tool_results();
    assert_eq!(history.messages().len(), 0);
}

#[test]
fn mod_test_drop_orphaned_tool_results_leaves_assistant_head_alone() {
    let mut history = ConversationHistory::new();
    let messages = vec![
        Message::assistant_with_blocks(vec![MessageContentBlock::ToolUse {
            id: "call_live".to_string(),
            name: "read_file".to_string(),
            input: json(r#"{"path": "b.rs"}"#),
            cache_control: None,
        }]),
        Message::user_with_tool_results(vec![MessageContentBlock::ToolResult {
            tool_use_id: "call_live".to_string(),
            content: "paired".to_string(),
            cache_control: None,
        }]),
    ];
    history.restore_messages(messages);
    history.drop_leading_orphaned_tool_results();
    assert_eq!(history.messages().len(), 2);
}

#[test]
fn mod_test_trim_drops_orphaned_leading_tool_results() {
    let mut history = ConversationHistory::new();
    history.config.max_messages = 3;

    let messages = vec![
        Message::user("initial query".to_string()),
        Message::assistant_with_blocks(vec![MessageContentBlock::ToolUse {
            id: "call_abc".to_string(),
            name: "read_file".to_string(),
            input: json(r#"{"path": "a.rs"}"#),
            cache_control: None,
        }]),
        Message::user_with_tool_results(vec![MessageContentBlock::ToolResult {
            tool_use_id: "call_abc".to_string(),
            content: "file contents".to_string(),
            cache_control: None,
        }]),
        Message::assistant_with_blocks(vec![MessageContentBlock::Text {
            text: "done".to_string(),
            cache_control: None,
        }]),
        Message::user("next".to_string()),
    ];

    history.restore_messages(messages);

    let first = &history.messages()[0];
    let first_has_tool_result = matches!(
        &first.content,
        sofos::api::MessageContent::Blocks { content }
            if content.iter().any(|b| matches!(
                b,
                sofos::api::MessageContentBlock::ToolResult { .. }
            ))
    );
    assert!(
        !first_has_tool_result,
        "front of history still references a trimmed tool call"
    );
}

#[test]
fn mod_test_message_limit_with_blocks() {
    let mut history = ConversationHistory::new();

    for i in 0..260 {
        history.add_user_message(format!("User {}", i));
        history.add_assistant_with_blocks(vec![MessageContentBlock::Text {
            text: format!("Assistant {}", i),
            cache_control: None,
        }]);
    }

    assert_eq!(history.messages().len(), 500);
}

#[test]
fn mod_test_no_trimming_below_limit() {
    let mut history = ConversationHistory::new();

    for i in 0..20 {
        history.add_user_message(format!("Message {}", i));
    }

    assert_eq!(history.messages().len(), 20);
}

#[test]
fn mod_test_token_limit_trimming() {
    let mut history = ConversationHistory::new();
    history.config.max_context_tokens = 5000;

    let large_content = "x".repeat(1000);

    for i in 0..20 {
        history.add_user_message(format!("{} {}", i, large_content));
    }

    assert!(history.messages().len() < 20);
    assert!(history.messages().len() >= 10);

    if let sofos::api::MessageContent::Text { content } = &history.messages()[0].content {
        assert!(!content.starts_with("0 "));
    }
}

#[test]
fn mod_test_token_estimation() {
    let tokens = ConversationHistory::estimate_tokens("12345678901234567890123456789012345");
    assert_eq!(tokens, 10);

    let tokens = ConversationHistory::estimate_tokens("");
    assert_eq!(tokens, 0);
}

#[test]
fn mod_test_needs_compaction() {
    let mut history = ConversationHistory::new();
    history.config.auto_compact_token_limit = 80_000;

    history.add_user_message("hello".to_string());
    assert!(!history.needs_compaction());

    let large_content = "x".repeat(10_000);
    for _ in 0..30 {
        history.messages.push(Message::user(large_content.clone()));
    }
    assert!(history.needs_compaction());
}

#[test]
fn mod_test_compaction_split_point() {
    let mut history = ConversationHistory::new();
    history.config.compaction_preserve_recent = 4;

    for i in 0..10 {
        history.messages.push(Message::user(format!("msg {}", i)));
    }

    let split = history.compaction_split_point();
    assert_eq!(split, 6); // 10 - 4 = 6
}

#[test]
fn mod_test_compaction_split_too_few_messages() {
    let mut history = ConversationHistory::new();
    history.config.compaction_preserve_recent = 20;

    for i in 0..10 {
        history.messages.push(Message::user(format!("msg {}", i)));
    }

    let split = history.compaction_split_point();
    assert_eq!(split, 0); // not enough to compact
}

#[test]
fn mod_test_truncate_tool_results() {
    let mut history = ConversationHistory::new();
    history.config.tool_result_truncate_threshold = 100;

    let large_content = "x".repeat(500);
    history.messages.push(Message::user_with_tool_results(vec![
        MessageContentBlock::ToolResult {
            tool_use_id: "id1".to_string(),
            content: large_content,
            cache_control: None,
        },
    ]));

    history.truncate_tool_results(1);

    if let sofos::api::MessageContent::Blocks { content } = &history.messages()[0].content {
        if let MessageContentBlock::ToolResult { content, .. } = &content[0] {
            assert!(content.contains("truncated"));
            assert!(content.len() < 500); // keep 500/3=166 each side + marker < 500
        } else {
            panic!("Expected ToolResult");
        }
    } else {
        panic!("Expected Blocks");
    }
}

#[test]
fn mod_test_replace_with_summary() {
    let mut history = ConversationHistory::new();

    for i in 0..10 {
        history.messages.push(Message::user(format!("msg {}", i)));
    }

    history.replace_with_summary("This is the summary".to_string(), 7);

    assert_eq!(history.messages().len(), 4);

    if let sofos::api::MessageContent::Text { content } = &history.messages()[0].content {
        assert!(content.contains("Conversation Summary"));
        assert!(content.contains("This is the summary"));
    }
}

#[test]
fn mod_test_serialize_messages_for_summary() {
    let messages = vec![
        Message::user("Hello, help me with code".to_string()),
        Message::assistant_with_blocks(vec![MessageContentBlock::Text {
            text: "Sure, let me look at the files.".to_string(),
            cache_control: None,
        }]),
    ];

    let serialized = ConversationHistory::serialize_messages_for_summary(&messages);
    assert!(serialized.contains("User: Hello, help me with code"));
    assert!(serialized.contains("Assistant: Sure, let me look at the files."));
}

#[test]
fn mod_test_build_drop_summary_extracts_tools_and_files() {
    let messages = vec![
        Message::user("fix the bug in auth".to_string()),
        Message::assistant_with_blocks(vec![MessageContentBlock::ToolUse {
            id: "1".to_string(),
            name: "read_file".to_string(),
            input: json(r#"{"path": "/src/auth.rs"}"#),
            cache_control: None,
        }]),
        Message::assistant_with_blocks(vec![MessageContentBlock::ToolUse {
            id: "2".to_string(),
            name: "edit_file".to_string(),
            input: json(r#"{"path": "/src/auth.rs", "old_string": "a", "new_string": "b"}"#),
            cache_control: None,
        }]),
        Message::user("now fix the tests".to_string()),
        Message::assistant_with_blocks(vec![MessageContentBlock::ToolUse {
            id: "3".to_string(),
            name: "read_file".to_string(),
            input: json(r#"{"path": "/src/tests.rs"}"#),
            cache_control: None,
        }]),
    ];

    let summary = ConversationHistory::build_drop_summary(&messages);
    assert!(summary.contains("read_file"));
    assert!(summary.contains("edit_file"));
    assert!(summary.contains("/src/auth.rs"));
    assert!(summary.contains("/src/tests.rs"));
    assert!(summary.contains("fix the bug"));
    assert!(summary.contains("fix the tests"));
}

#[test]
fn mod_test_build_drop_summary_empty_messages() {
    let summary = ConversationHistory::build_drop_summary(&[]);
    assert!(summary.is_empty());
}

#[test]
fn mod_test_build_drop_summary_limits_topics_and_files() {
    let mut messages = Vec::new();
    for i in 0..10 {
        messages.push(Message::user(format!("request {}", i)));
    }
    for i in 0..25 {
        messages.push(Message::assistant_with_blocks(vec![
            MessageContentBlock::ToolUse {
                id: format!("id{}", i),
                name: "read_file".to_string(),
                input: json(&format!("{{\"path\": \"/file{}.rs\"}}", i)),
                cache_control: None,
            },
        ]));
    }

    let summary = ConversationHistory::build_drop_summary(&messages);
    let topic_line = summary
        .lines()
        .find(|l| l.starts_with("User requests:"))
        .unwrap();
    let topic_count = topic_line.matches("request ").count();
    assert_eq!(topic_count, 5);
    let file_count = summary.matches("/file").count();
    assert_eq!(file_count, 20);
}

#[test]
fn mod_test_build_drop_summary_skips_assistant_text() {
    let messages = vec![
        Message::user("user question".to_string()),
        Message::assistant_with_blocks(vec![MessageContentBlock::Text {
            text: "assistant answer".to_string(),
            cache_control: None,
        }]),
    ];

    let summary = ConversationHistory::build_drop_summary(&messages);
    assert!(summary.contains("user question"));
    assert!(!summary.contains("assistant answer"));
}

#[test]
fn mod_test_fallback_trim_inserts_summary() {
    let mut history = ConversationHistory::new();
    history.config.max_context_tokens = 3000;

    for i in 0..30 {
        let content = format!("request {} {}", i, "x".repeat(500));
        history.messages.push(Message::user(content));
    }

    history.fallback_trim();

    assert!(history.messages().len() < 30);
    if let sofos::api::MessageContent::Text { content } = &history.messages()[0].content {
        assert!(content.starts_with("[Context trimmed"));
    } else {
        panic!("Expected text summary message at position 0");
    }
}

#[test]
fn mod_test_fallback_trim_no_summary_for_small_drop() {
    let mut history = ConversationHistory::new();
    for i in 0..502 {
        history.messages.push(Message::user(format!("msg {}", i)));
    }

    history.fallback_trim();

    if let sofos::api::MessageContent::Text { content } = &history.messages()[0].content {
        assert!(!content.starts_with("[Context trimmed"));
    }
}

#[test]
fn mod_test_fallback_trim_few_messages_no_panic() {
    let mut history = ConversationHistory::new();
    for i in 0..5 {
        history.messages.push(Message::user(format!("msg {}", i)));
    }
    history.fallback_trim();
    assert_eq!(history.messages().len(), 5);
}

#[test]
fn cache_anchor_stays_unset_when_history_under_10_blocks() {
    let mut history = ConversationHistory::new();
    history.add_user_message("hi".to_string());
    history.add_assistant_with_blocks(vec![
        MessageContentBlock::Text {
            text: "ok".to_string(),
            cache_control: None,
        },
        MessageContentBlock::ToolUse {
            id: "1".to_string(),
            name: "read_file".to_string(),
            input: json(r#"{}"#),
            cache_control: None,
        },
        MessageContentBlock::ToolUse {
            id: "2".to_string(),
            name: "read_file".to_string(),
            input: json(r#"{}"#),
            cache_control: None,
        },
    ]);
    history.add_tool_results(vec![
        MessageContentBlock::ToolResult {
            tool_use_id: "1".to_string(),
            content: "ok".to_string(),
            cache_control: None,
        },
        MessageContentBlock::ToolResult {
            tool_use_id: "2".to_string(),
            content: "ok".to_string(),
            cache_control: None,
        },
    ]);
    assert!(
        history.cache_anchor_message_idx().is_none(),
        "anchor should stay unset under 10 blocks of history"
    );
}

#[test]
fn cache_anchor_set_when_threshold_crossed_and_lands_on_blocks_message() {
    let mut history = ConversationHistory::new();
    history.add_user_with_blocks(vec![MessageContentBlock::Text {
        text: "user-0".to_string(),
        cache_control: None,
    }]);
    for _ in 0..6 {
        history.add_assistant_with_blocks(vec![
            MessageContentBlock::Text {
                text: "asst".to_string(),
                cache_control: None,
            },
            MessageContentBlock::Text {
                text: "more".to_string(),
                cache_control: None,
            },
        ]);
        history.add_user_with_blocks(vec![MessageContentBlock::Text {
            text: "u".to_string(),
            cache_control: None,
        }]);
    }
    let idx = history
        .cache_anchor_message_idx()
        .expect("anchor should be set once history exceeds 10 blocks");
    assert!(
        idx < history.messages().len() - 1,
        "anchor must not be the rolling (last) message"
    );
    assert!(matches!(
        history.messages()[idx].content,
        sofos::api::MessageContent::Blocks { .. }
    ));
}

#[test]
fn cache_anchor_preserved_while_distance_within_18_blocks() {
    let mut history = ConversationHistory::new();
    for _ in 0..12 {
        history.messages.push(blocks_msg_with("user", 1));
    }
    history.maintain_cache_anchor();
    let first_anchor = history
        .cache_anchor_message_idx()
        .expect("anchor should be set");

    for _ in 0..5 {
        history.messages.push(blocks_msg_with("assistant", 1));
        history.maintain_cache_anchor();
    }
    assert_eq!(
        history.cache_anchor_message_idx(),
        Some(first_anchor),
        "anchor must stay put while distance to rolling stays within 18 blocks"
    );
}

#[test]
fn cache_anchor_persists_through_a_wide_iteration() {
    let mut history = ConversationHistory::new();
    for _ in 0..12 {
        history.messages.push(blocks_msg_with("user", 1));
    }
    history.maintain_cache_anchor();
    let first_anchor = history.cache_anchor_message_idx().unwrap();

    history.messages.push(blocks_msg_with("assistant", 25));
    history.maintain_cache_anchor();

    assert_eq!(
        history.cache_anchor_message_idx(),
        Some(first_anchor),
        "anchor must stay put across a wide iteration"
    );
}

#[test]
fn cache_anchor_advances_after_intermediate_growth() {
    let mut history = ConversationHistory::new();
    for _ in 0..12 {
        history.messages.push(blocks_msg_with("user", 1));
    }
    history.maintain_cache_anchor();
    let first_anchor = history.cache_anchor_message_idx().unwrap();

    for _ in 0..20 {
        history.messages.push(blocks_msg_with("user", 1));
        history.maintain_cache_anchor();
    }

    let new_anchor = history.cache_anchor_message_idx().unwrap();
    assert_ne!(
        new_anchor, first_anchor,
        "anchor must advance once cumulative intermediate distance exceeds 18 blocks"
    );
    assert!(
        new_anchor < history.messages().len() - 1,
        "advanced anchor must not equal the rolling"
    );
}

#[test]
fn cache_anchor_skips_text_variant_messages_when_picking() {
    let mut history = ConversationHistory::new();
    history
        .messages
        .push(Message::user("plain-text".to_string()));
    for _ in 0..12 {
        history.messages.push(blocks_msg_with("user", 1));
    }
    history.maintain_cache_anchor();
    let idx = history.cache_anchor_message_idx().unwrap();
    assert!(matches!(
        history.messages()[idx].content,
        sofos::api::MessageContent::Blocks { .. }
    ));
    assert_ne!(idx, 0, "must skip the Text-variant message at index 0");
}

#[test]
fn cache_anchor_invalidated_on_clear() {
    let mut history = ConversationHistory::new();
    for _ in 0..12 {
        history.messages.push(blocks_msg_with("user", 1));
    }
    history.maintain_cache_anchor();
    assert!(history.cache_anchor_message_idx().is_some());
    history.clear();
    assert!(history.cache_anchor_message_idx().is_none());
}

#[test]
fn cache_anchor_invalidated_when_trim_drops_front_messages() {
    let mut history = ConversationHistory::new();
    history.config.max_messages = 5;
    for _ in 0..15 {
        history.messages.push(blocks_msg_with("user", 1));
    }
    history.maintain_cache_anchor();
    assert!(history.cache_anchor_message_idx().is_some());

    history.add_user_message("trigger trim".to_string());

    assert!(
        history.cache_anchor_message_idx().is_none(),
        "trim that shrinks history below 10 blocks must leave anchor None, \
         which only happens if invalidation ran before maintain"
    );
}

#[test]
fn cache_anchor_invalidated_by_replace_with_summary() {
    let mut history = ConversationHistory::new();
    for _ in 0..12 {
        history.messages.push(blocks_msg_with("user", 1));
    }
    history.maintain_cache_anchor();
    assert!(history.cache_anchor_message_idx().is_some());

    history.replace_with_summary("done".to_string(), 8);

    assert!(
        history.cache_anchor_message_idx().is_none(),
        "anchor must be invalidated; small remaining history stays unset"
    );
}

#[test]
fn cache_anchor_invalidated_by_truncate_tool_results() {
    let mut history = ConversationHistory::new();
    for _ in 0..12 {
        history.messages.push(blocks_msg_with("user", 1));
    }
    history.maintain_cache_anchor();
    assert!(history.cache_anchor_message_idx().is_some());

    history.truncate_tool_results(10);

    assert!(
        history.cache_anchor_message_idx().is_none(),
        "in-place content mutation must invalidate the anchor"
    );
}

#[test]
fn cache_anchor_invalidated_when_orphan_strip_mutates_front() {
    let mut history = ConversationHistory::new();
    history.config.max_messages = 1000;
    history.config.max_context_tokens = 10_000_000;

    history.messages.push(Message::user_with_blocks(vec![
        MessageContentBlock::ToolResult {
            tool_use_id: "orphan".to_string(),
            content: "result".to_string(),
            cache_control: None,
        },
        MessageContentBlock::Text {
            text: "steer".to_string(),
            cache_control: None,
        },
    ]));
    for _ in 0..15 {
        history.messages.push(blocks_msg_with("user", 1));
    }

    history.maintain_cache_anchor();
    assert!(
        history.cache_anchor_message_idx().is_some(),
        "anchor should be set with 17+ blocks of history"
    );
    let len_before_call = history.messages.len();

    history.add_user_message("trigger".to_string());

    assert_eq!(history.messages.len(), len_before_call + 1);
    match &history.messages[0].content {
        sofos::api::MessageContent::Blocks { content } => {
            assert_eq!(content.len(), 1, "only the Text block should survive");
            assert!(matches!(&content[0], MessageContentBlock::Text { .. }));
        }
        _ => panic!("msg[0] should remain Blocks variant after strip"),
    }
    let final_anchor = history.cache_anchor_message_idx();
    history.cache_anchor_message_idx = None;
    history.maintain_cache_anchor();
    assert_eq!(
        history.cache_anchor_message_idx(),
        final_anchor,
        "anchor must be the one maintain produces on the post-strip state, \
         not a stale carry-over"
    );
}

#[test]
fn cache_anchor_invalidated_by_restore_messages() {
    let mut history = ConversationHistory::new();
    for _ in 0..12 {
        history.messages.push(blocks_msg_with("user", 1));
    }
    history.maintain_cache_anchor();
    let prior_anchor = history.cache_anchor_message_idx();
    assert!(prior_anchor.is_some());

    let new_messages: Vec<Message> = (0..12).map(|_| blocks_msg_with("user", 1)).collect();
    history.restore_messages(new_messages);

    let small: Vec<Message> = (0..3).map(|_| blocks_msg_with("user", 1)).collect();
    history.restore_messages(small);
    assert!(
        history.cache_anchor_message_idx().is_none(),
        "small restored history must leave anchor None"
    );
}

#[test]
fn cache_anchor_preserved_when_appending_to_last_user_blocks() {
    let mut history = ConversationHistory::new();
    for _ in 0..12 {
        history.messages.push(blocks_msg_with("user", 1));
    }
    history.maintain_cache_anchor();
    let anchor_before = history
        .cache_anchor_message_idx()
        .expect("12 single-block messages cross the threshold");

    let appended = history.append_text_to_last_user_blocks("steer".to_string());
    assert!(appended, "tail is user-blocks, append should succeed");

    assert_eq!(
        history.cache_anchor_message_idx(),
        Some(anchor_before),
        "rolling-tail mutation must leave the anchor in place"
    );
}

#[test]
fn cache_anchor_preserved_when_remove_last_message_pops_rolling() {
    let mut history = ConversationHistory::new();
    for _ in 0..14 {
        history.messages.push(blocks_msg_with("user", 1));
    }
    history.maintain_cache_anchor();
    let anchor_before = history
        .cache_anchor_message_idx()
        .expect("14 single-block messages cross the threshold");
    assert!(
        anchor_before < history.messages.len() - 2,
        "test relies on anchor being < rolling - 1 so popping the \
         rolling doesn't push the anchor through the maintain bound"
    );

    history.remove_last_message();

    assert_eq!(
        history.cache_anchor_message_idx(),
        Some(anchor_before),
        "popping the rolling alone leaves the anchored prefix unchanged"
    );
}

#[test]
fn the_prompt_names_the_features() {
    for has_morph in [false, true] {
        for has_code_search in [false, true] {
            let h = ConversationHistory::with_features(has_morph, has_code_search, None);
            assert!(h.messages().is_empty());
            assert_eq!(h.system_prompt().len(), 1);
            let text = h.system_prompt()[0].text.clone();
            assert_eq!(text.contains("8. Search code using ripgrep"), has_code_search);
            assert_eq!(text.contains("morph_edit_file"), has_morph);
            let own = Some("Be brief.".to_string());
            let told = ConversationHistory::with_features(has_morph, has_code_search, own);
            assert_eq!(told.system_prompt()[0].text, format!("{text}\n\nBe brief."));
        }
    }
}

#[test]
fn the_estimate_ignores_the_order() {
    let mut forth = ConversationHistory::new();
    let mut back = ConversationHistory::new();
    let texts = ["one", "a second text", "and a third, longer one"];
    for text in texts {
        forth.add_user_message(text.to_string());
    }
    for text in texts.iter().rev() {
        back.add_user_message(text.to_string());
    }
    assert_eq!(forth.estimate_total_tokens(), back.estimate_total_tokens());
}

#[test]
fn the_marker_keeps_its_distance() {
    let mut history = ConversationHistory::new();
    for _ in 0..12 {
        for role in ["user", "assistant"] {
            let message = blocks_msg_with(role, 3);
            let sofos::api::MessageContent::Blocks { content } = message.content else {
                panic!("expected blocks");
            };
            if role == "user" {
                history.add_user_with_blocks(content);
            } else {
                history.add_assistant_with_blocks(content);
            }
            if let Some(at) = history.cache_anchor_message_idx() {
                let last = history.messages().len() - 1;
                assert!(history.block_distance(at, last) >= 10);
            }
        }
    }
    assert!(history.cache_anchor_message_idx().is_some());
}
