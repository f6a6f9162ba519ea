use sofos::api::{
    ContentBlock, CreateMessageResponse, Json, MessageContent, MessageContentBlock, Usage,
};
use sofos::conversation::ConversationHistory;
use sofos::model_info::{CLAUDE_SONNET, Provider, ReasoningEffort};
use sofos::response_handler::ResponseHandler;
use sofos::session::model::SessionTokenCounters;

fn json(text: &str) -> Json {
    Json::parse(text).expect("valid JSON")
}

fn build_handler() -> ResponseHandler {
    ResponseHandler::new(
        Provider::Anthropic,
        ConversationHistory::new(),
        CLAUDE_SONNET.to_string(),
        8_192,
        ReasoningEffort::Off,
        Vec::new(),
        "test-session".to_string(),
    )
}

fn assistant_blocks(handler: &ResponseHandler) -> &Vec<MessageContentBlock> {
    let last = handler
        .conversation
        .messages()
        .last()
        .expect("conversation has at least one message");
    assert_eq!(
        last.role, "assistant",
        "expected the last turn to be assistant"
    );
    match &last.content {
        MessageContent::Blocks { content } => content,
        MessageContent::Text { .. } => panic!("expected blocks"),
    }
}

fn block_kinds(blocks: &[MessageContentBlock]) -> Vec<&'static str> {
    blocks
        .iter()
        .map(|b| match b {
            MessageContentBlock::Text { .. } => "text",
            MessageContentBlock::Image { .. } => "image",
            MessageContentBlock::Thinking { .. } => "thinking",
            MessageContentBlock::Summary { .. } => "summary",
            MessageContentBlock::Compaction { .. } => "compaction",
            MessageContentBlock::Reasoning { .. } => "reasoning",
            MessageContentBlock::ToolUse { .. } => "tool_use",
            MessageContentBlock::ServerToolUse { .. } => "server_tool_use",
            MessageContentBlock::ToolResult { .. } => "tool_result",
            MessageContentBlock::WebSearchToolResult { .. } => "web_search_tool_result",
        })
        .collect()
}

fn call_handler(handler: &mut ResponseHandler, blocks: Vec<ContentBlock>, stop: Option<&str>) {
    let response = CreateMessageResponse {
        model: CLAUDE_SONNET.to_string(),
        content: blocks,
        stop_reason: stop.map(str::to_string),
        usage: Usage {
            input_tokens: 0,
            output_tokens: 0,
            cache_read_input_tokens: None,
            cache_creation_input_tokens: None,
        },
    };
    let mut counters = SessionTokenCounters::default();
    let mut display = Vec::new();
    handler.handle_response(&response, &mut counters, &mut display);
}

#[test]
fn truncated_with_text_and_tool_use_drops_only_the_tool_use() {
    let mut handler = build_handler();
    let blocks = vec![
        ContentBlock::Text {
            text: "Looking at the file...".to_string(),
        },
        ContentBlock::ToolUse {
            id: "tool_001".to_string(),
            name: "read_file".to_string(),
            input: json(r#"{ "path": "src/main.rs" }"#),
        },
    ];

    call_handler(&mut handler, blocks, Some("max_tokens"));

    let kinds = block_kinds(assistant_blocks(&handler));
    assert_eq!(kinds, vec!["text"], "tool_use must not survive truncation");
}

#[test]
fn truncated_with_only_tool_use_inserts_placeholder_text() {
    let mut handler = build_handler();
    let blocks = vec![ContentBlock::ToolUse {
        id: "tool_002".to_string(),
        name: "read_file".to_string(),
        input: json(r#"{ "path": "src/lib.rs" }"#),
    }];

    call_handler(&mut handler, blocks, Some("max_tokens"));

    let assistant = assistant_blocks(&handler);
    assert_eq!(block_kinds(assistant), vec!["text"]);
    match &assistant[0] {
        MessageContentBlock::Text { text, .. } => {
            assert!(
                text.contains("cut off"),
                "placeholder should mention truncation, got: {text}"
            );
        }
        other => panic!("expected text placeholder, got {other:?}"),
    }
}

#[test]
fn truncated_drops_server_tool_use_and_web_search_result_together() {
    let mut handler = build_handler();
    let blocks = vec![
        ContentBlock::Text {
            text: "Here is what I found:".to_string(),
        },
        ContentBlock::ServerToolUse {
            id: "srv_001".to_string(),
            name: "web_search".to_string(),
            input: json(r#"{ "query": "rust async" }"#),
        },
        ContentBlock::WebSearchToolResult {
            tool_use_id: "srv_001".to_string(),
            content: Vec::new(),
        },
    ];

    call_handler(&mut handler, blocks, Some("max_tokens"));

    let kinds = block_kinds(assistant_blocks(&handler));
    assert_eq!(
        kinds,
        vec!["text"],
        "server_tool_use and its web_search_tool_result must be dropped together"
    );
}

#[test]
fn non_truncated_text_only_response_is_passed_through() {
    let mut handler = build_handler();
    let blocks = vec![ContentBlock::Text {
        text: "All done.".to_string(),
    }];

    call_handler(&mut handler, blocks, Some("end_turn"));

    let assistant = assistant_blocks(&handler);
    assert_eq!(block_kinds(assistant), vec!["text"]);
    match &assistant[0] {
        MessageContentBlock::Text { text, .. } => {
            assert_eq!(text, "All done.");
        }
        other => panic!("expected the original text block, got {other:?}"),
    }
}

#[test]
fn truncated_keeps_thinking_and_reasoning_blocks() {
    let mut handler = build_handler();
    let blocks = vec![
        ContentBlock::Thinking {
            thinking: "Need to read the file first.".to_string(),
            signature: "sig".to_string(),
        },
        ContentBlock::Text {
            text: "Let me look.".to_string(),
        },
        ContentBlock::ToolUse {
            id: "tool_003".to_string(),
            name: "read_file".to_string(),
            input: json(r#"{ "path": "x" }"#),
        },
    ];

    call_handler(&mut handler, blocks, Some("max_tokens"));

    let kinds = block_kinds(assistant_blocks(&handler));
    assert_eq!(kinds, vec!["thinking", "text"]);
}
