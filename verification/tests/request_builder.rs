use sofos::api::{CacheControl, Json, Message, MessageContent, MessageContentBlock, Tool};
use sofos::conversation::ConversationHistory;
use sofos::model_info::{CLAUDE_HAIKU, CLAUDE_OPUS, CLAUDE_SONNET, Provider, ReasoningEffort};
use sofos::request_builder::{
    mark_rolling_cache_breakpoint, CompactionTrigger, ContextEdit, RequestBuilder,
};

fn one_regular_tool() -> Vec<Tool> {
    vec![Tool::Regular {
        name: "read_file".to_string(),
        description: "read a file".to_string(),
        input_schema: Json::parse("{\"type\": \"object\"}").expect("valid JSON"),
        cache_control: None,
    }]
}

fn one_text_block_user(text: &str) -> Message {
    Message::user_with_blocks(vec![MessageContentBlock::Text {
        text: text.to_string(),
        cache_control: None,
    }])
}

fn block_cache_control(msg: &Message) -> Option<&CacheControl> {
    match &msg.content {
        MessageContent::Blocks { content } => match content.last() {
            Some(MessageContentBlock::Text { cache_control, .. }) => cache_control.as_ref(),
            _ => None,
        },
        _ => None,
    }
}

#[test]
fn build_sets_prompt_cache_key_to_session_id() {
    let conv = ConversationHistory::new();
    let request = RequestBuilder::new(
        Provider::OpenAI,
        "gpt-5.5",
        8192,
        &conv,
        one_regular_tool(),
        ReasoningEffort::Off,
        "session-abc",
    )
    .build();

    assert_eq!(request.prompt_cache_key.as_deref(), Some("session-abc"));
}

#[test]
fn build_marks_rolling_cache_breakpoint_on_anthropic_only() {
    let mut conv = ConversationHistory::new();
    conv.add_user_with_blocks(vec![MessageContentBlock::Text {
        text: "hello".to_string(),
        cache_control: None,
    }]);

    let anth = RequestBuilder::new(
        Provider::Anthropic,
        CLAUDE_SONNET,
        8192,
        &conv,
        one_regular_tool(),
        ReasoningEffort::Off,
        "s1",
    )
    .build();

    let last_block = match &anth.messages.last().unwrap().content {
        MessageContent::Blocks { content } => content.last().unwrap(),
        _ => panic!("expected Blocks content"),
    };
    let cc = match last_block {
        MessageContentBlock::Text { cache_control, .. } => cache_control.as_ref(),
        _ => panic!("expected Text block"),
    };
    assert!(cc.is_some(), "Anthropic should stamp rolling breakpoint");

    let oai = RequestBuilder::new(
        Provider::OpenAI,
        "gpt-5.5",
        8192,
        &conv,
        one_regular_tool(),
        ReasoningEffort::Off,
        "s1",
    )
    .build();

    let last_block = match &oai.messages.last().unwrap().content {
        MessageContent::Blocks { content } => content.last().unwrap(),
        _ => panic!("expected Blocks content"),
    };
    let cc = match last_block {
        MessageContentBlock::Text { cache_control, .. } => cache_control.as_ref(),
        _ => panic!("expected Text block"),
    };
    assert!(cc.is_none(), "OpenAI must not stamp Anthropic markers");
}

#[test]
fn rolling_breakpoint_is_noop_on_plain_text_user_message() {
    let mut messages = vec![Message::user("just text".to_string())];
    mark_rolling_cache_breakpoint(&mut messages, None);
    assert!(matches!(
        &messages[0].content,
        MessageContent::Text { .. }
    ));
}

#[test]
fn rolling_breakpoint_is_noop_on_empty_messages() {
    let mut messages: Vec<Message> = Vec::new();
    mark_rolling_cache_breakpoint(&mut messages, None);
    assert!(messages.is_empty());
}

#[test]
fn rolling_breakpoint_targets_only_the_final_block() {
    let mut messages = vec![Message::user_with_blocks(vec![
        MessageContentBlock::Text {
            text: "first".to_string(),
            cache_control: None,
        },
        MessageContentBlock::Text {
            text: "second".to_string(),
            cache_control: None,
        },
    ])];
    mark_rolling_cache_breakpoint(&mut messages, None);

    let blocks = match &messages[0].content {
        MessageContent::Blocks { content } => content,
        _ => panic!("expected Blocks"),
    };
    assert!(matches!(
        &blocks[0],
        MessageContentBlock::Text {
            cache_control: None,
            ..
        }
    ));
    assert!(matches!(
        &blocks[1],
        MessageContentBlock::Text {
            cache_control: Some(_),
            ..
        }
    ));
}

#[test]
fn anchor_breakpoint_stamps_when_index_provided() {
    let mut messages = vec![
        one_text_block_user("a"),
        one_text_block_user("b"),
        one_text_block_user("c"),
    ];
    mark_rolling_cache_breakpoint(&mut messages, Some(0));

    assert!(
        block_cache_control(&messages[0]).is_some(),
        "anchor stamped"
    );
    assert!(
        block_cache_control(&messages[1]).is_none(),
        "middle untouched"
    );
    assert!(
        block_cache_control(&messages[2]).is_some(),
        "rolling stamped"
    );
}

#[test]
fn anchor_breakpoint_skipped_when_index_is_rolling() {
    let mut messages = vec![one_text_block_user("a"), one_text_block_user("b")];
    mark_rolling_cache_breakpoint(&mut messages, Some(1));

    assert!(block_cache_control(&messages[0]).is_none());
    assert!(
        block_cache_control(&messages[1]).is_some(),
        "rolling still stamped"
    );
}

#[test]
fn anchor_breakpoint_skipped_when_index_out_of_bounds() {
    let mut messages = vec![one_text_block_user("a"), one_text_block_user("b")];
    mark_rolling_cache_breakpoint(&mut messages, Some(99));
    assert!(block_cache_control(&messages[1]).is_some());
}

#[test]
fn anthropic_build_stamps_both_anchor_and_rolling_when_conversation_has_anchor() {
    let mut conv = ConversationHistory::new();
    for i in 0..16 {
        conv.add_user_with_blocks(vec![MessageContentBlock::Text {
            text: format!("msg-{}", i),
            cache_control: None,
        }]);
    }
    let anchor_idx = conv
        .cache_anchor_message_idx()
        .expect("anchor must be set with 16 blocks of history");

    let req = RequestBuilder::new(
        Provider::Anthropic,
        CLAUDE_SONNET,
        8192,
        &conv,
        one_regular_tool(),
        ReasoningEffort::Off,
        "s1",
    )
    .build();

    let last_cc = block_cache_control(req.messages.last().unwrap());
    assert!(last_cc.is_some(), "rolling breakpoint missing");

    let anchor_cc = block_cache_control(&req.messages[anchor_idx]);
    assert!(
        anchor_cc.is_some(),
        "anchor breakpoint missing at idx {}",
        anchor_idx
    );

    for (i, msg) in req.messages.iter().enumerate() {
        if i == anchor_idx || i == req.messages.len() - 1 {
            continue;
        }
        assert!(
            block_cache_control(msg).is_none(),
            "unexpected cache_control at idx {} (only rolling + anchor should be stamped)",
            i
        );
    }
}

#[test]
fn anthropic_1m_models_get_server_compaction_config() {
    let conv = ConversationHistory::new();
    let req = RequestBuilder::new(
        Provider::Anthropic,
        CLAUDE_OPUS,
        8192,
        &conv,
        one_regular_tool(),
        ReasoningEffort::Off,
        "s1",
    )
    .build();
    let cm = req
        .context_management
        .expect("Opus 4.7 should carry context_management");
    let trigger_value = match &cm.edits[0] {
        ContextEdit::Compact20260112 {
            trigger: Some(CompactionTrigger::InputTokens { value }),
            ..
        } => *value,
        other => panic!("expected an input-token trigger, got {other:?}"),
    };
    assert!(
        trigger_value >= 50_000,
        "Anthropic rejects triggers below 50K"
    );
}

#[test]
fn legacy_anthropic_thinking_budget_scales_with_effort() {
    let conv = ConversationHistory::new();
    let budget_for = |effort| {
        let req = RequestBuilder::new(
            Provider::Anthropic,
            CLAUDE_HAIKU,
            65_536,
            &conv,
            one_regular_tool(),
            effort,
            "s1",
        )
        .build();
        let thinking = req.thinking.expect("legacy Anthropic enables thinking");
        thinking
            .budget_tokens
            .expect("legacy thinking carries budget_tokens")
    };

    let low = budget_for(ReasoningEffort::Low);
    let medium = budget_for(ReasoningEffort::Medium);
    let high = budget_for(ReasoningEffort::High);

    assert!(low < medium, "Medium ({medium}) must exceed Low ({low})");
    assert!(medium < high, "High ({high}) must exceed Medium ({medium})");
}

#[test]
fn unsupported_models_skip_server_compaction() {
    let conv = ConversationHistory::new();
    let haiku_req = RequestBuilder::new(
        Provider::Anthropic,
        CLAUDE_HAIKU,
        8192,
        &conv,
        one_regular_tool(),
        ReasoningEffort::Off,
        "s1",
    )
    .build();
    assert!(
        haiku_req.context_management.is_none(),
        "Haiku 4.5 isn't on Anthropic's compaction-supported list"
    );

    let openai_req = RequestBuilder::new(
        Provider::OpenAI,
        "gpt-5.5",
        8192,
        &conv,
        one_regular_tool(),
        ReasoningEffort::Off,
        "s1",
    )
    .build();
    assert!(
        openai_req.context_management.is_none(),
        "OpenAI never receives Anthropic's context_management"
    );
}
