use sofos::api::{Message, MessageContentBlock, SystemPrompt, Usage};
use sofos::conversation::ConversationHistory;
use sofos::model_info::{CLAUDE_HAIKU, CLAUDE_OPUS, CLAUDE_SONNET};
use sofos::session::history::{
    pick_free, session_id, HistoryManager, MAX_PREVIEW_LENGTH,
};
use sofos::session::model::{SessionMetadata, SessionTokenCounters};
use sofos::session::state::SessionState;
use std::collections::HashSet;

fn usage_with_inputs(input_tokens: u32, output_tokens: u32) -> Usage {
    Usage {
        input_tokens,
        output_tokens,
        cache_read_input_tokens: None,
        cache_creation_input_tokens: None,
    }
}

fn preview_extraction() {
    let messages = vec![Message::user("This is a test message".to_string())];
    let preview = HistoryManager::extract_preview(&messages);
    assert_eq!(preview, "This is a test message");

    let long_message = "a".repeat(150);
    let messages = vec![Message::user(long_message)];
    let preview = HistoryManager::extract_preview(&messages);
    assert_eq!(preview.len(), MAX_PREVIEW_LENGTH + 3);
    assert!(preview.ends_with("..."));

    let cyrillic_message = "създай текстов файл test-3.txt".to_string();
    let messages = vec![Message::user(cyrillic_message)];
    let preview = HistoryManager::extract_preview(&messages);
    assert!(preview.chars().count() <= MAX_PREVIEW_LENGTH + 3);
    if preview.ends_with("...") {
        assert!(preview.chars().count() <= MAX_PREVIEW_LENGTH + 3);
    }
}

#[test]
fn history_test_preview_extraction() {
    preview_extraction();
}

#[test]
fn mod_test_preview_extraction() {
    preview_extraction();
}

#[test]
fn generated_session_ids_are_unique_under_rapid_calls() {
    let mut seen = HashSet::new();
    for _ in 0..256 {
        let id = HistoryManager::generate_session_id();
        assert!(id.starts_with("session_"));
        assert!(seen.insert(id), "duplicate session id within rapid burst");
    }
}

#[test]
fn save_and_load_reject_traversing_session_ids() {
    let manager = HistoryManager::new("/tmp".to_string());
    for bad in ["..", ".", "../escape", "a/b", "a\\b", ""] {
        assert!(manager.session_path(bad).is_err(), "must reject '{}'", bad);
        assert!(HistoryManager::validate_session_id(bad).is_err());
    }
}

#[test]
fn add_usage_saturates_at_u32_ceiling() {
    let mut state = SessionState::new("test".to_string(), ConversationHistory::new());
    state.counters.total_input_tokens = u32::MAX - 5;
    state.counters.total_output_tokens = u32::MAX - 5;

    state.add_usage(&usage_with_inputs(10, 10), CLAUDE_SONNET, CLAUDE_SONNET);

    assert_eq!(state.counters.total_input_tokens, u32::MAX);
    assert_eq!(state.counters.total_output_tokens, u32::MAX);
}

#[test]
fn add_usage_normal_path_unchanged() {
    let mut state = SessionState::new("test".to_string(), ConversationHistory::new());
    state.add_usage(&usage_with_inputs(1_000, 200), CLAUDE_SONNET, CLAUDE_SONNET);
    state.add_usage(&usage_with_inputs(2_500, 600), CLAUDE_SONNET, CLAUDE_SONNET);

    assert_eq!(state.counters.total_input_tokens, 3_500);
    assert_eq!(state.counters.total_output_tokens, 800);
    assert_eq!(state.counters.peak_single_turn_input_tokens, 2_500);
}

#[test]
fn responses_are_priced_at_the_model_that_served_them() {
    let mut state = SessionState::new("test".to_string(), ConversationHistory::new());
    let used = usage_with_inputs(1_000, 100);
    assert_eq!(state.add_usage(&used, CLAUDE_OPUS, CLAUDE_OPUS), CLAUDE_OPUS);
    assert_eq!(state.add_usage(&used, CLAUDE_HAIKU, CLAUDE_OPUS), CLAUDE_HAIKU);
    assert_eq!(state.add_usage(&used, "some-unlisted-model", CLAUDE_HAIKU), CLAUDE_HAIKU);
}

#[test]
fn cache_counters_are_added_up() {
    let mut counters = SessionTokenCounters::default();
    let used = Usage {
        input_tokens: 7,
        output_tokens: 5,
        cache_read_input_tokens: Some(3),
        cache_creation_input_tokens: Some(2),
    };
    counters.accumulate_usage(&used);
    counters.accumulate_usage(&used);
    assert_eq!(counters.total_cache_read_tokens, 6);
    assert_eq!(counters.total_cache_creation_tokens, 4);
    assert_eq!(counters.peak_single_turn_input_tokens, 7);
}

#[test]
fn clearing_a_session_starts_it_anew() {
    let mut state = SessionState::new("old".to_string(), ConversationHistory::new());
    state.conversation.add_user_message("hello".to_string());
    state.add_usage(&usage_with_inputs(1, 1), CLAUDE_SONNET, CLAUDE_SONNET);
    state.clear("new".to_string());
    assert_eq!(state.session_id, "new");
    assert!(state.conversation.messages().is_empty());
    assert_eq!(state.counters.total_input_tokens, 0);
}

#[test]
fn previews_show_the_first_words_of_the_user() {
    let messages = vec![
        Message::user("  \n".to_string()),
        Message::user("  first\nsecond  ".to_string()),
    ];
    assert_eq!(HistoryManager::extract_preview(&messages), "first\nsecond");
    assert_eq!(HistoryManager::extract_preview(&[]), "Empty session");
    let blocks = vec![Message::user_with_blocks(vec![MessageContentBlock::Text {
        text: "in a block".to_string(),
        cache_control: None,
    }])];
    assert_eq!(HistoryManager::extract_preview(&blocks), "in a block");
}

#[test]
fn session_ids_are_made_of_their_parts() {
    assert_eq!(session_id(1_700_000_000_123, 0xab), "session_1700000000123_000000ab");
    assert!(HistoryManager::validate_session_id(&session_id(0, u32::MAX)).is_ok());
}

#[test]
fn free_names_are_picked_first() {
    let names = vec!["a".to_string(), "b".to_string(), "c".to_string()];
    assert_eq!(pick_free(&names, &vec![]), "a");
    assert_eq!(pick_free(&names, &vec!["a".to_string(), "c".to_string()]), "b");
    assert_eq!(pick_free(&names, &names), "c");
}

#[test]
fn fresh_ids_are_not_taken() {
    let taken = vec![HistoryManager::generate_session_id()];
    let id = HistoryManager::generate_unique_session_id(&taken);
    assert!(!taken.contains(&id));
}

#[test]
fn session_paths_stay_under_the_workspace() {
    let manager = HistoryManager::new("/work".to_string());
    assert_eq!(manager.sessions_dir(), "/work/.sofos/sessions");
    assert_eq!(manager.index_path(), "/work/.sofos/sessions/index.json");
    assert_eq!(
        manager.session_path("session_1").unwrap(),
        "/work/.sofos/sessions/session_1.json"
    );
    match manager.session_path("../x") {
        Err(e) => assert!(e.message().contains("../x")),
        Ok(p) => panic!("accepted {p}"),
    }
}

fn meta(id: &str, updated_at: u64) -> SessionMetadata {
    SessionMetadata {
        id: id.to_string(),
        preview: "p".to_string(),
        created_at: 1,
        updated_at,
        message_count: 1,
    }
}

fn ids(v: &Vec<SessionMetadata>) -> Vec<&str> {
    v.iter().map(|m| m.id.as_str()).collect()
}

#[test]
fn the_index_lists_the_newest_session_first() {
    let index = vec![meta("a", 10), meta("b", 30), meta("c", 20)];
    assert_eq!(ids(&HistoryManager::sort_by_recency(&index)), vec!["b", "c", "a"]);
    assert_eq!(ids(&HistoryManager::remove_from_index(&index, "b")), vec!["a", "c"]);
    let session = HistoryManager::build_session(
        "a",
        &[Message::user("again".to_string())],
        &vec![],
        &vec![SystemPrompt::new_cached_with_ttl("sys".to_string(), None)],
        SessionTokenCounters::default(),
        CLAUDE_OPUS,
        true,
        Some("read-only".to_string()),
        Some(5),
        40,
    )
    .expect("a valid id");
    assert_eq!(session.created_at, 5);
    assert_eq!(session.updated_at, 40);
    assert_eq!(session.model.as_deref(), Some(CLAUDE_OPUS));
    assert_eq!(session.readonly, Some(true));
    assert_eq!(session.permission_preset.as_deref(), Some("read-only"));
    let index = HistoryManager::update_index(index, &session);
    assert_eq!(ids(&index), vec!["a", "b", "c"]);
    assert_eq!(index[0].preview, "again");
    assert_eq!(index[0].message_count, 1);
}

#[test]
fn instructions_are_joined() {
    let both = HistoryManager::load_custom_instructions(
        Some("project".to_string()),
        Some("personal".to_string()),
    );
    let both = both.expect("two files give instructions");
    assert!(both.contains("project") && both.contains("personal"));
    assert!(HistoryManager::load_custom_instructions(None, None).is_none());
}
