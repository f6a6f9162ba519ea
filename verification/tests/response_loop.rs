use sofos::api::{
    ContentBlock, CreateMessageResponse, Json, MessageContent, MessageContentBlock, Usage,
};
use sofos::conversation::ConversationHistory;
use sofos::model_info::{Provider, ReasoningEffort, CLAUDE_SONNET, GPT_FLAGSHIP};
use sofos::response_handler::{
    drain_steer_messages, process_content_blocks, Ending, LoopAction, LoopPhase, ResponseHandler,
    STEER_PREFIX,
};
use sofos::session::model::{DisplayMessage, SessionTokenCounters};
use sofos::tool_batch::{ToolBatch, ToolCall, ToolOutcome, ToolOutput, SKIPPED};

fn json(text: &str) -> Json {
    Json::parse(text).expect("valid JSON")
}

fn handler(client: Provider) -> ResponseHandler {
    let model = match client {
        Provider::Anthropic => CLAUDE_SONNET,
        Provider::OpenAI => GPT_FLAGSHIP,
    };
    let mut conversation = ConversationHistory::new();
    conversation.add_user_message("do it".to_string());
    ResponseHandler::new(
        client,
        conversation,
        model.to_string(),
        8_192,
        ReasoningEffort::Off,
        Vec::new(),
        "s".to_string(),
    )
}

fn response(content: Vec<ContentBlock>, stop: Option<&str>) -> CreateMessageResponse {
    CreateMessageResponse {
        model: "m".to_string(),
        content,
        stop_reason: stop.map(str::to_string),
        usage: Usage {
            input_tokens: 10,
            output_tokens: 1,
            cache_read_input_tokens: None,
            cache_creation_input_tokens: None,
        },
    }
}

fn text(t: &str) -> ContentBlock {
    ContentBlock::Text { text: t.to_string() }
}

fn call(id: &str) -> ContentBlock {
    ContentBlock::ToolUse {
        id: id.to_string(),
        name: "delete_file".to_string(),
        input: json("{}"),
    }
}

fn output(t: &str) -> ToolOutcome {
    ToolOutcome::Output(ToolOutput {
        text: t.to_string(),
        display: "shown".to_string(),
        images: Vec::new(),
    })
}

fn last_results(h: &ResponseHandler) -> Vec<(String, String)> {
    let last = h.conversation().messages().last().expect("a message");
    match &last.content {
        MessageContent::Blocks { content } => content
            .iter()
            .filter_map(|b| match b {
                MessageContentBlock::ToolResult {
                    tool_use_id,
                    content,
                    ..
                } => Some((tool_use_id.clone(), content.clone())),
                _ => None,
            })
            .collect(),
        MessageContent::Text { .. } => Vec::new(),
    }
}

#[test]
fn calls_are_answered_in_one_turn() {
    let mut h = handler(Provider::Anthropic);
    let mut counters = SessionTokenCounters::default();
    let mut shown: Vec<DisplayMessage> = Vec::new();
    let mut steer: Vec<String> = vec!["also this".to_string(), "and that".to_string()];

    let first = response(vec![text("working"), call("a"), call("b")], Some("tool_use"));
    assert_eq!(h.handle_response(&first, &mut counters, &mut shown), LoopAction::RunTool);
    assert_eq!(counters.total_input_tokens, 0);
    assert_eq!(h.phase, LoopPhase::RunningTools);
    assert_eq!(h.batch.current().unwrap().id, "a");

    assert_eq!(
        h.execute_tools(output("one"), &mut shown, &mut steer),
        LoopAction::RunTool
    );
    assert_eq!(steer.len(), 2);
    assert_eq!(
        h.execute_tools(ToolOutcome::Failed("two".to_string()), &mut shown, &mut steer),
        LoopAction::SendRequest
    );
    assert!(steer.is_empty());
    assert_eq!(
        last_results(&h),
        vec![
            ("a".to_string(), "one".to_string()),
            ("b".to_string(), "two".to_string())
        ]
    );
    let last = h.conversation().messages().last().unwrap();
    match &last.content {
        MessageContent::Blocks { content } => match content.last().unwrap() {
            MessageContentBlock::Text { text, .. } => {
                assert_eq!(*text, format!("{STEER_PREFIX}also this\n\nand that"));
            }
            other => panic!("expected the user's words, got {other:?}"),
        },
        other => panic!("expected blocks, got {other:?}"),
    }

    let done = response(vec![text("done")], Some("end_turn"));
    assert_eq!(
        h.handle_response(&done, &mut counters, &mut shown),
        LoopAction::Finish(Ending::Complete)
    );
    assert_eq!(counters.total_input_tokens, 10);
    assert_eq!(shown.len(), 4);
    assert_eq!(
        h.handle_response(&done, &mut counters, &mut shown),
        LoopAction::Ignored
    );
}

#[test]
fn a_declined_deletion_stops_the_batch() {
    let mut h = handler(Provider::Anthropic);
    let mut counters = SessionTokenCounters::default();
    let mut shown: Vec<DisplayMessage> = Vec::new();
    let mut steer: Vec<String> = Vec::new();
    let first = response(vec![call("a"), call("b"), call("c")], None);
    h.handle_response(&first, &mut counters, &mut shown);
    let action = h.execute_tools(
        output("File deletion cancelled by user: x"),
        &mut shown,
        &mut steer,
    );
    assert_eq!(action, LoopAction::Finish(Ending::Cancelled));
    let results = last_results(&h);
    assert_eq!(results.len(), 3);
    assert_eq!(results[1], ("b".to_string(), SKIPPED.to_string()));
    assert_eq!(results[2], ("c".to_string(), SKIPPED.to_string()));
}

#[test]
fn empty_and_silent_responses_end_the_loop() {
    let mut counters = SessionTokenCounters::default();
    let mut shown: Vec<DisplayMessage> = Vec::new();
    let empty = response(Vec::new(), None);

    let mut h = handler(Provider::Anthropic);
    assert_eq!(
        h.handle_response(&empty, &mut counters, &mut shown),
        LoopAction::Finish(Ending::EmptyResponse)
    );

    let mut h = handler(Provider::Anthropic);
    let mut steer: Vec<String> = Vec::new();
    h.handle_response(&response(vec![call("a")], None), &mut counters, &mut shown);
    h.execute_tools(output("x"), &mut shown, &mut steer);
    assert_eq!(
        h.handle_response(&empty, &mut counters, &mut shown),
        LoopAction::Finish(Ending::SilentAfterTools)
    );
}

#[test]
fn reasoning_alone_is_followed_up_once() {
    let thought = || ContentBlock::Reasoning {
        id: "r".to_string(),
        summary: Vec::new(),
        encrypted_content: None,
    };
    let mut counters = SessionTokenCounters::default();
    let mut shown: Vec<DisplayMessage> = Vec::new();

    let mut h = handler(Provider::OpenAI);
    assert_eq!(
        h.handle_response(&response(vec![thought()], None), &mut counters, &mut shown),
        LoopAction::SendRequest
    );
    assert_eq!(
        h.handle_response(&response(Vec::new(), None), &mut counters, &mut shown),
        LoopAction::Finish(Ending::OnlyReasoning)
    );

    let mut h = handler(Provider::Anthropic);
    assert_eq!(
        h.handle_response(&response(vec![thought()], None), &mut counters, &mut shown),
        LoopAction::Finish(Ending::Complete)
    );
}

#[test]
fn too_many_rounds_end_with_a_summary() {
    let mut h = handler(Provider::Anthropic);
    h.config.max_tool_iterations = 1;
    let mut counters = SessionTokenCounters::default();
    let mut shown: Vec<DisplayMessage> = Vec::new();
    let mut steer: Vec<String> = Vec::new();
    h.handle_response(&response(vec![call("a")], None), &mut counters, &mut shown);
    h.execute_tools(output("x"), &mut shown, &mut steer);
    assert_eq!(
        h.handle_response(&response(vec![call("b")], None), &mut counters, &mut shown),
        LoopAction::SendSummaryRequest
    );
    assert!(h.build_summary_request().tools.is_none());
    let summary = response(vec![text("so far"), call("c")], None);
    assert_eq!(
        h.handle_response(&summary, &mut counters, &mut shown),
        LoopAction::Finish(Ending::Summarized)
    );
    let last = h.conversation().messages().last().unwrap();
    match &last.content {
        MessageContent::Blocks { content } => assert_eq!(content.len(), 1),
        other => panic!("expected blocks, got {other:?}"),
    }
}

#[test]
fn responses_are_taken_apart() {
    let content = vec![
        text("  "),
        text("said"),
        call("a"),
        ContentBlock::WebSearchToolResult {
            tool_use_id: "s".to_string(),
            content: vec![json("{}"), json("{}")],
        },
    ];
    let (texts, calls, reasoning) = process_content_blocks(&content);
    assert_eq!(texts, vec!["said", "\n[Web search returned 2 results]"]);
    assert_eq!(calls.len(), 1);
    assert!(!reasoning);
}

#[test]
fn steering_is_handed_over_whole() {
    let mut queue: Vec<String> = Vec::new();
    assert!(drain_steer_messages(&mut queue).is_none());
    queue.push("a".to_string());
    queue.push("b".to_string());
    assert_eq!(drain_steer_messages(&mut queue).as_deref(), Some("a\n\nb"));
    assert!(queue.is_empty());
}

#[test]
fn shell_commands_are_read_from_their_calls() {
    let bash = ToolCall {
        id: "1".to_string(),
        name: "execute_bash".to_string(),
        input: json("{\"command\": \"ls\"}"),
    };
    assert_eq!(bash.command().as_deref(), Some("ls"));
    let other = ToolCall {
        id: "2".to_string(),
        name: "read_file".to_string(),
        input: json("{\"command\": \"ls\"}"),
    };
    assert!(other.command().is_none());
    let batch = ToolBatch::new(Vec::new());
    assert!(batch.is_done() && batch.current().is_none());
}
