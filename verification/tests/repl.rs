use sofos::api::{
    ContentBlock, CreateMessageResponse, Message, MessageContent, MessageContentBlock, Usage,
};
use sofos::commands::Command;
use sofos::config::{ApprovalPolicy, PermissionPreset, SandboxMode};
use sofos::conversation::ConversationHistory;
use sofos::model_info::{
    Provider, ReasoningEffort, ReasoningMode, CLAUDE_HAIKU, CLAUDE_OPUS, CLAUDE_SONNET, GPT_FLAGSHIP,
};
use sofos::repl::compaction::{CompactionEnd, CompactionStep, SummaryReply};
use sofos::repl::turn::{
    PastedImage, RequestError, TurnAction, TurnEvent, TurnPhase, OLDER_IMAGE_NOTE, OWN_IMAGE_NOTE,
};
use sofos::repl::{
    format_mcp_readonly_summary, permission_preset_notice, ModelSwitch, PresetSwitch, Repl,
    ReplConfig, ToolSetup,
};
use sofos::session::model::SessionMetadata;
use sofos::tui::event::UiEvent;
use sofos::tui::worker::CommandPlan;

fn setup() -> ToolSetup {
    ToolSetup {
        has_morph: false,
        has_code_search: false,
        mcp_init_lines: "ready\n".to_string(),
        excluded_from_readonly: vec!["a".to_string()],
        included_in_readonly: vec!["b".to_string()],
        color: false,
        available_tools: Vec::new(),
    }
}

fn start(model: &str, effort: ReasoningEffort, mode: SandboxMode) -> Result<Repl, String> {
    let client = sofos::model_info::provider_for(model);
    let config = ReplConfig::new(
        model.to_string(),
        65_536,
        effort,
        mode,
        ApprovalPolicy::Ask,
    );
    Repl::new(client, config, setup(), None, "session_1".to_string())
}

fn repl() -> Repl {
    start(CLAUDE_SONNET, ReasoningEffort::Off, SandboxMode::Sandboxed).expect("a session")
}

fn last_text(r: &Repl) -> String {
    let last = r.session_state.conversation.messages().last().expect("a message");
    match &last.content {
        MessageContent::Text { content } => content.clone(),
        MessageContent::Blocks { content } => match content.last().expect("a block") {
            MessageContentBlock::Text { text, .. } => text.clone(),
            other => panic!("expected text, got {other:?}"),
        },
    }
}

fn message(input: &str, images: Vec<PastedImage>) -> TurnEvent {
    TurnEvent::Message { input: input.to_string(), images }
}

fn image() -> PastedImage {
    PastedImage { media_type: "image/png".to_string(), base64_data: "AA".to_string() }
}

fn usage() -> Usage {
    Usage {
        input_tokens: 100,
        output_tokens: 20,
        cache_read_input_tokens: None,
        cache_creation_input_tokens: None,
    }
}

#[test]
fn a_session_starts_with_its_permissions() {
    let mut r = repl();
    assert_eq!(r.session_state.conversation.messages().len(), 1);
    assert_eq!(r.model_label(), CLAUDE_SONNET);
    r.set_startup_banner("hi".to_string());
    assert_eq!(r.take_startup_banner(), "hi");
    assert_eq!(r.take_startup_banner(), "");
    assert_eq!(r.take_mcp_init_lines(), "ready\n");
}

#[test]
fn impossible_efforts_stop_a_session() {
    let refused = start(CLAUDE_HAIKU, ReasoningEffort::Max, SandboxMode::Sandboxed);
    assert!(refused.is_err());
    let config = ReplConfig::new(
        CLAUDE_SONNET.to_string(),
        100,
        ReasoningEffort::Low,
        SandboxMode::Sandboxed,
        ApprovalPolicy::Ask,
    );
    let small = Repl::new(Provider::Anthropic, config, setup(), None, "s".to_string());
    match small {
        Err(why) => assert!(why.starts_with("max_tokens (100) must exceed")),
        Ok(_) => panic!("started with too few tokens"),
    }
}

#[test]
fn a_turn_runs_to_its_end() {
    let mut r = repl();
    let (phase, action) = r.process_message(TurnPhase::Idle, message("hello", vec![]));
    assert_eq!(action, TurnAction::SendRequest);
    assert_eq!(last_text(&r), "hello");
    let (phase, action) = r.process_message(phase, TurnEvent::Response(usage()));
    assert_eq!(action, TurnAction::Respond);
    assert_eq!(r.get_session_summary().counters.total_input_tokens, 100);
    let mut conversation = ConversationHistory::new();
    conversation.add_user_message("all of it".to_string());
    let (phase, action) = r.process_message(phase, TurnEvent::LoopEnded(conversation));
    assert_eq!(action, TurnAction::Finish);
    assert_eq!(phase, TurnPhase::Done);
    assert_eq!(last_text(&r), "all of it");
    let (_, action) = r.process_message(phase, TurnEvent::Compacted);
    assert_eq!(action, TurnAction::Ignored);
}

#[test]
fn a_failed_image_is_taken_out_and_tried_once_more() {
    let error = || RequestError {
        api_message: Some("HTTP 400: invalid_request_error".to_string()),
        shown: "API error".to_string(),
    };
    let mut r = repl();
    let (phase, _) = r.process_message(TurnPhase::Idle, message("look", vec![image()]));
    let (phase, action) = r.process_message(phase, TurnEvent::RequestFailed(error()));
    assert_eq!(action, TurnAction::RetryRequest);
    assert_eq!(last_text(&r), OWN_IMAGE_NOTE);
    for m in r.session_state.conversation.messages() {
        if let MessageContent::Blocks { content } = &m.content {
            assert!(!content.iter().any(|b| matches!(b, MessageContentBlock::Image { .. })));
        }
    }
    let (phase, action) = r.process_message(phase, TurnEvent::RequestFailed(error()));
    assert_eq!(action, TurnAction::Fail);
    assert_eq!(phase, TurnPhase::Done);
    assert!(last_text(&r).contains("the retry also failed: API error"));
}

#[test]
fn an_older_image_is_taken_out_too() {
    let mut r = repl();
    r.process_message(TurnPhase::Idle, message("", vec![image()]));
    let (phase, _) = r.process_message(TurnPhase::Idle, message("again", vec![]));
    let error = RequestError {
        api_message: Some("400 Unable to download".to_string()),
        shown: "x".to_string(),
    };
    let (_, action) = r.process_message(phase, TurnEvent::RequestFailed(error));
    assert_eq!(action, TurnAction::RetryRequest);
    assert_eq!(last_text(&r), OLDER_IMAGE_NOTE);
}

#[test]
fn other_failures_are_noted() {
    let mut r = repl();
    let (phase, _) = r.process_message(TurnPhase::Idle, message("hello", vec![]));
    let error = RequestError { api_message: None, shown: "no network".to_string() };
    let (_, action) = r.process_message(phase, TurnEvent::RequestFailed(error));
    assert_eq!(action, TurnAction::Fail);
    assert_eq!(
        last_text(&r),
        "[SYSTEM ERROR: no network. The request did not produce a response.]"
    );

    let mut r = repl();
    let failed = TurnEvent::LoopFailed {
        conversation: ConversationHistory::new(),
        error: "oops".to_string(),
    };
    let (_, action) = r.process_message(TurnPhase::Responding, failed);
    assert_eq!(action, TurnAction::Fail);
    assert_eq!(
        last_text(&r),
        "[System error during processing: oops. Previous actions are preserved above.]"
    );
}

#[test]
fn models_can_be_switched_within_a_provider() {
    let mut r = repl();
    assert!(matches!(r.handle_model_set(CLAUDE_OPUS), ModelSwitch::Switched(n) if n == CLAUDE_OPUS));
    assert_eq!(r.model_config.model, CLAUDE_OPUS);
    assert!(matches!(r.handle_model_set(CLAUDE_OPUS), ModelSwitch::AlreadyActive(_)));
    assert!(matches!(r.handle_model_set(GPT_FLAGSHIP), ModelSwitch::Refused(_)));
    assert!(matches!(r.handle_model_set("nothing"), ModelSwitch::Refused(_)));
    assert_eq!(r.model_config.model, CLAUDE_OPUS);
    for entry in r.build_model_picker_entries() {
        assert_eq!(entry.is_current, entry.name == CLAUDE_OPUS);
        assert_eq!(entry.is_available, entry.name != GPT_FLAGSHIP);
    }
}

#[test]
fn efforts_can_be_switched() {
    let mut r = repl();
    assert!(r.handle_effort_set(ReasoningEffort::High).is_ok());
    assert_eq!(r.current_reasoning_effort(), ReasoningEffort::High);
    assert!(r.handle_effort_set(ReasoningEffort::Max).is_err());
    assert_eq!(r.current_reasoning_effort(), ReasoningEffort::High);
    assert_eq!(r.status_snapshot().reasoning, "effort: high");
    let current: Vec<bool> =
        r.build_effort_picker_entries().iter().map(|e| e.is_current).collect();
    assert_eq!(current.iter().filter(|c| **c).count(), 1);
}

#[test]
fn reasoning_modes_can_be_switched() {
    let mut plain = repl();
    assert_eq!(plain.current_reasoning_mode(), ReasoningMode::Standard);
    let refused = plain.handle_mode_set(ReasoningMode::Pro);
    assert_eq!(refused.unwrap_err(), format!("Model `{CLAUDE_SONNET}` has no pro mode."));
    let entries = plain.build_mode_picker_entries();
    assert!(entries[0].is_current && entries[0].is_available);
    assert!(!entries[1].is_current && !entries[1].is_available);

    let mut r = start(GPT_FLAGSHIP, ReasoningEffort::Off, SandboxMode::Sandboxed).unwrap();
    assert_eq!(r.handle_mode_set(ReasoningMode::Pro).unwrap(), "Reasoning mode: pro");
    let entries = r.build_mode_picker_entries();
    assert!(!entries[0].is_current && entries[1].is_current && entries[1].is_available);
}

#[test]
fn presets_can_be_switched() {
    let mut r = repl();
    match r.apply_permission_preset(PermissionPreset::ReadOnly, true) {
        PresetSwitch::Applied { notice, mode_changed } => {
            assert_eq!(notice, permission_preset_notice(PermissionPreset::ReadOnly));
            assert!(mode_changed);
        }
        other => panic!("expected a switch, got {other:?}"),
    }
    assert_eq!(r.mode, SandboxMode::ReadOnly);
    assert!(matches!(
        r.apply_permission_preset(PermissionPreset::ReadOnly, true),
        PresetSwitch::AlreadySet(_)
    ));
    assert!(matches!(
        r.apply_permission_preset(PermissionPreset::SandboxedAsk, false),
        PresetSwitch::Unavailable(_)
    ));
    let entries = r.build_permissions_picker_entries(true);
    assert_eq!(entries.iter().filter(|e| e.is_current).count(), 1);
    let lines = r.handle_permissions_picker_fallback(false);
    assert!(lines.iter().any(|l| l.contains("unavailable on this platform")));
    assert!(r.handle_model_picker_fallback().iter().any(|l| l.contains(CLAUDE_SONNET)));
    assert!(r.handle_effort_picker_fallback().iter().any(|l| l.contains("high")));
}

#[test]
fn a_stored_session_goes_on() {
    let mut r = repl();
    r.handle_effort_set(ReasoningEffort::High).unwrap();
    r.process_message(TurnPhase::Idle, message("remember me", vec![]));
    let stored = r
        .save_current_session(Some(3), 9)
        .expect("there is something to store")
        .expect("a valid id");
    assert_eq!((stored.created_at, stored.updated_at), (3, 9));

    let mut other = start(CLAUDE_OPUS, ReasoningEffort::Off, SandboxMode::ReadOnly).unwrap();
    let report = other.load_session(&stored, true).expect("the same provider");
    assert_eq!(other.model_config.model, CLAUDE_SONNET);
    assert_eq!(other.mode, SandboxMode::Sandboxed);
    assert_eq!(last_text(&other), "remember me");
    assert!(report.mode_changed);
    assert!(report.model_note.is_some());
    assert!(report.relaxed_note.is_some());
    assert_eq!(report.loaded, "Loaded session: session_1 (2 messages)");

    let mut foreign = start(GPT_FLAGSHIP, ReasoningEffort::Off, SandboxMode::Sandboxed).unwrap();
    assert!(foreign.load_session(&stored, true).is_err());

    other.handle_clear_command("session_2".to_string());
    assert_eq!(other.session_state.session_id, "session_2");
}

#[test]
fn an_empty_session_is_not_stored() {
    let mut r = repl();
    r.session_state.conversation.clear();
    assert!(r.save_current_session(None, 1).is_none());
}

fn long_repl() -> Repl {
    let mut r = repl();
    for i in 0..60 {
        r.session_state.conversation.add_user_message(format!("message {i}"));
    }
    r
}

#[test]
fn compaction_is_done_when_asked_for() {
    let mut r = long_repl();
    assert!(matches!(r.compact_conversation(false), CompactionStep::NotNeeded));
    let (split, before) = match r.compact_conversation(true) {
        CompactionStep::Summarize { split_point, tokens_before } => (split_point, tokens_before),
        other => panic!("expected a summary, got {other:?}"),
    };
    assert!(r.build_summary_request(split).tools.is_none());
    let reply = CreateMessageResponse {
        model: "m".to_string(),
        content: vec![ContentBlock::Text { text: "s".repeat(60) }],
        stop_reason: None,
        usage: usage(),
    };
    let kept = r.session_state.conversation.messages().len() - split;
    match r.finish_compaction(SummaryReply::Response(reply), split, before) {
        CompactionEnd::Summarized { tokens_before, tokens_after, .. } => {
            assert_eq!(tokens_before, before);
            assert_eq!(tokens_after, r.session_state.conversation.estimate_total_tokens());
        }
        other => panic!("expected a summary, got {other:?}"),
    }
    assert!(r.session_state.conversation.messages().len() >= kept);
    assert_eq!(last_text(&r), "message 59");
}

#[test]
fn compaction_falls_back_to_a_trim() {
    let mut r = long_repl();
    let (split, before) = match r.compact_conversation(true) {
        CompactionStep::Summarize { split_point, tokens_before } => (split_point, tokens_before),
        other => panic!("expected a summary, got {other:?}"),
    };
    let end = r.finish_compaction(SummaryReply::Failed("down".to_string()), split, before);
    assert!(matches!(end, CompactionEnd::FellBack(why) if why.contains("down")));
    let end = r.finish_compaction(SummaryReply::Interrupted, split, before);
    assert!(matches!(end, CompactionEnd::FellBack(_)));
    let mut short = repl();
    assert!(matches!(short.compact_conversation(true), CompactionStep::TooShort));
}

#[test]
fn commands_open_their_lists() {
    let r = repl();
    let saved = || {
        vec![SessionMetadata {
            id: "a".to_string(),
            preview: "p".to_string(),
            created_at: 1,
            updated_at: 1,
            message_count: 1,
        }]
    };
    assert!(matches!(
        r.run_command(&Command::Resume, saved(), true),
        CommandPlan::Show(UiEvent::ShowResumePicker(_))
    ));
    assert!(matches!(
        r.run_command(&Command::Resume, Vec::new(), true),
        CommandPlan::Print(_)
    ));
    assert!(matches!(
        r.run_command(&Command::ModelPicker, Vec::new(), true),
        CommandPlan::Show(UiEvent::ShowModelPicker(_))
    ));
    assert!(matches!(
        r.run_command(&Command::Clear, Vec::new(), true),
        CommandPlan::Execute
    ));
}

#[test]
fn tool_servers_are_listed() {
    assert_eq!(format_mcp_readonly_summary(&vec![], &vec![], false), "");
    let both = format_mcp_readonly_summary(&vec!["x".to_string()], &vec!["y".to_string()], false);
    assert!(both.contains("hides MCP servers: x") && both.contains("allows MCP servers: y"));
    let colored = format_mcp_readonly_summary(&vec!["x".to_string()], &vec!["y".to_string()], true);
    assert!(colored.starts_with("  \u{1b}[93m•\u{1b}[0m Read-only mode hides MCP servers: x\n"));
    assert!(colored.ends_with("  \u{1b}[92m•\u{1b}[0m Read-only mode allows MCP servers: y\n"));
}

#[test]
fn requests_carry_the_session() {
    let mut r = repl();
    r.process_message(TurnPhase::Idle, message("hello", vec![]));
    let request = r.build_initial_request();
    assert_eq!(request.model, CLAUDE_SONNET);
    assert_eq!(request.messages.len(), 2);
    assert!(!r.prompt_symbol().is_empty());
    assert!(r.uses_adaptive_thinking());
    assert_eq!(r.response_handler().conversation().messages().len(), 2);
}

#[test]
fn images_are_stripped_from_messages() {
    let messages = vec![
        Message::user("text".to_string()),
        Message::user_with_blocks(vec![MessageContentBlock::Image {
            source: sofos::api::ImageSource::Url { url: "u".to_string() },
            cache_control: None,
        }]),
    ];
    assert!(sofos::repl::turn::conversation_has_images(&messages));
    let kept = sofos::repl::turn::messages_without_images(&messages);
    assert_eq!(kept.len(), 1);
    assert!(!sofos::repl::turn::conversation_has_images(&kept));
    assert!(sofos::repl::turn::says_image_failed("400 verify the URL"));
    assert!(!sofos::repl::turn::says_image_failed("500 verify the URL"));
}
