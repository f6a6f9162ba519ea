use sofos::config::{ApprovalPolicy, SandboxMode};
use sofos::model_info::ReasoningEffort;
use sofos::tui::app::{App, EffortPicker, ModelPicker, INPUT_HISTORY_CAP, SPINNER_FRAMES};
use sofos::tui::event::{EffortPickerEntry, ModelPickerEntry, StatusSnapshot};

fn app() -> App {
    App::new("test-model".into())
}

#[test]
fn busy_lifecycle() {
    let mut a = app();
    assert!(!a.busy);
    a.start_busy("processing".to_string(), 0);
    assert!(a.busy);
    assert_eq!(a.busy_label, "processing");
    assert!(a.busy_since.is_some());
    a.finish_busy();
    assert!(!a.busy);
    assert!(a.busy_label.is_empty());
    assert!(a.busy_since.is_none());
}

#[test]
fn spinner_advances_cyclically() {
    let mut a = app();
    let start = a.spinner_tick;
    for _ in 0..SPINNER_FRAMES {
        a.advance_spinner();
    }
    assert_eq!(a.spinner_tick, start);
}

#[test]
fn clear_input_empties_textarea() {
    let mut a = app();
    a.set_input("hello\nworld".to_string());
    assert!(!a.input_text().is_empty());
    a.clear_input();
    assert_eq!(a.input_text(), "");
}

#[test]
fn is_safe_mode_reads_from_status_snapshot() {
    let mut a = app();
    assert!(!a.is_safe_mode(), "defaults to non-safe when status unset");
    a.status = Some(StatusSnapshot {
        model: "m".into(),
        mode: SandboxMode::ReadOnly,
        approval: ApprovalPolicy::Ask,
        reasoning: String::new(),
        input_tokens: 0,
        output_tokens: 0,
        cache_read_tokens: 0,
        cache_creation_tokens: 0,
    });
    assert!(a.is_safe_mode());
    a.status.as_mut().unwrap().mode = SandboxMode::Sandboxed;
    assert!(!a.is_safe_mode());
}

#[test]
fn history_push_and_navigate() {
    let mut a = app();
    a.remember_submitted("one");
    a.remember_submitted("two");
    a.remember_submitted("three");
    assert_eq!(a.history_cursor, None);

    a.history_prev();
    assert_eq!(a.input_text(), "three");
    a.history_prev();
    assert_eq!(a.input_text(), "two");
    a.history_prev();
    assert_eq!(a.input_text(), "one");
    a.history_prev();
    assert_eq!(a.input_text(), "one");

    a.history_next();
    assert_eq!(a.input_text(), "two");
    a.history_next();
    assert_eq!(a.input_text(), "three");
    a.history_next();
    assert_eq!(a.input_text(), "");
    assert_eq!(a.history_cursor, None);
}

#[test]
fn history_deduplicates_consecutive_duplicates() {
    let mut a = app();
    a.remember_submitted("foo");
    a.remember_submitted("foo");
    a.remember_submitted("foo");
    assert_eq!(a.input_history.len(), 1);
}

#[test]
fn history_ignores_empty_strings() {
    let mut a = app();
    a.remember_submitted("");
    assert!(a.input_history.is_empty());
}

#[test]
fn history_caps_at_limit() {
    let mut a = app();
    for i in 0..(INPUT_HISTORY_CAP + 20) {
        a.remember_submitted(&format!("msg {i}"));
    }
    assert_eq!(a.input_history.len(), INPUT_HISTORY_CAP);
    assert_eq!(a.input_history.front().map(String::as_str), Some("msg 20"));
}

#[test]
fn model_picker_lands_cursor_on_current_model() {
    let entries = vec![
        ModelPickerEntry {
            name: sofos::model_info::CLAUDE_OPUS,
            description: "flagship",
            is_current: false,
            is_available: true,
        },
        ModelPickerEntry {
            name: sofos::model_info::CLAUDE_SONNET,
            description: "default",
            is_current: true,
            is_available: true,
        },
        ModelPickerEntry {
            name: sofos::model_info::GPT_FLAGSHIP,
            description: "openai",
            is_current: false,
            is_available: true,
        },
    ];
    let p = ModelPicker::new(entries);
    assert_eq!(p.cursor, 1);
    assert_eq!(
        p.selected().unwrap().name,
        sofos::model_info::CLAUDE_SONNET
    );
}

#[test]
fn model_picker_move_down_skips_disabled_rows() {
    let entries = vec![
        ModelPickerEntry {
            name: "a",
            description: "",
            is_current: true,
            is_available: true,
        },
        ModelPickerEntry {
            name: "b",
            description: "",
            is_current: false,
            is_available: false,
        },
        ModelPickerEntry {
            name: "c",
            description: "",
            is_current: false,
            is_available: true,
        },
    ];
    let mut p = ModelPicker::new(entries);
    assert_eq!(p.cursor, 0);
    p.move_down();
    assert_eq!(p.cursor, 2, "down should skip the disabled row at 1");
}

#[test]
fn model_picker_move_up_skips_disabled_rows() {
    let entries = vec![
        ModelPickerEntry {
            name: "a",
            description: "",
            is_current: false,
            is_available: true,
        },
        ModelPickerEntry {
            name: "b",
            description: "",
            is_current: false,
            is_available: false,
        },
        ModelPickerEntry {
            name: "c",
            description: "",
            is_current: true,
            is_available: true,
        },
    ];
    let mut p = ModelPicker::new(entries);
    assert_eq!(p.cursor, 2);
    p.move_up();
    assert_eq!(p.cursor, 0, "up should skip the disabled row at 1");
}

#[test]
fn model_picker_navigation_stops_at_list_edges() {
    let entries = vec![ModelPickerEntry {
        name: "only",
        description: "",
        is_current: true,
        is_available: true,
    }];
    let mut p = ModelPicker::new(entries);
    p.move_down();
    assert_eq!(p.cursor, 0);
    p.move_up();
    assert_eq!(p.cursor, 0);
}

#[test]
fn effort_picker_lands_cursor_on_current_level() {
    let entries = vec![
        EffortPickerEntry {
            effort: ReasoningEffort::Off,
            is_current: false,
        },
        EffortPickerEntry {
            effort: ReasoningEffort::Low,
            is_current: false,
        },
        EffortPickerEntry {
            effort: ReasoningEffort::Medium,
            is_current: true,
        },
        EffortPickerEntry {
            effort: ReasoningEffort::High,
            is_current: false,
        },
    ];
    let p = EffortPicker::new(entries);
    assert_eq!(p.cursor, 2);
    assert_eq!(p.selected().unwrap().effort, ReasoningEffort::Medium);
}

#[test]
fn effort_picker_navigation_clamps_at_edges() {
    let entries = vec![
        EffortPickerEntry {
            effort: ReasoningEffort::Off,
            is_current: true,
        },
        EffortPickerEntry {
            effort: ReasoningEffort::Low,
            is_current: false,
        },
    ];
    let mut p = EffortPicker::new(entries);
    assert_eq!(p.cursor, 0);
    p.move_up();
    assert_eq!(p.cursor, 0);
    p.move_down();
    assert_eq!(p.cursor, 1);
    p.move_down();
    assert_eq!(p.cursor, 1);
}

#[test]
fn model_picker_with_all_rows_disabled_keeps_cursor_at_zero() {
    let entries = vec![
        ModelPickerEntry {
            name: "x",
            description: "",
            is_current: false,
            is_available: false,
        },
        ModelPickerEntry {
            name: "y",
            description: "",
            is_current: false,
            is_available: false,
        },
    ];
    let mut p = ModelPicker::new(entries);
    assert_eq!(p.cursor, 0);
    p.move_down();
    assert_eq!(p.cursor, 0, "no enabled row to step to");
}

#[test]
fn status_snapshot_roundtrip() {
    let mut a = app();
    assert!(a.status.is_none());
    a.status = Some(StatusSnapshot {
        model: sofos::model_info::CLAUDE_OPUS.into(),
        mode: SandboxMode::ReadOnly,
        approval: ApprovalPolicy::Ask,
        reasoning: "thinking: 10000 tok".into(),
        input_tokens: 123,
        output_tokens: 456,
        cache_read_tokens: 0,
        cache_creation_tokens: 0,
    });
    let s = a.status.as_ref().unwrap();
    assert_eq!(s.mode.label(), "safe");
    assert_eq!(s.model, sofos::model_info::CLAUDE_OPUS);
    assert_eq!(s.input_tokens, 123);
}
