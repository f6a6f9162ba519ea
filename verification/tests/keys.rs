use sofos::clipboard::Clip;
use sofos::commands::Command;
use sofos::config::{ApprovalPolicy, PermissionPreset, SandboxMode};
use sofos::model_info::{ReasoningEffort, ReasoningMode};
use sofos::repl::turn::PastedImage;
use sofos::session::model::{SessionMetadata, SessionTokenCounters};
use sofos::tui::app::{App, ConfirmationPrompt, PermissionsPicker};
use sofos::tui::event::{
    ConfirmationType, EffortPickerEntry, ExitSummary, Job, KeyCode, KeyPress, ModePickerEntry,
    ModelPickerEntry, OutputKind, PermissionsPickerEntry, StatusSnapshot, UiEvent,
};
use sofos::tui::event_loop::{initial_cursor, Offered, OutputBatch, MAX_OUTPUT_BATCH};
use sofos::tui::input::{Glyph, PasteOutcome, SubmitOutcome, UiAction};
use sofos::tui::keymap::{digit_shortcut, letter_shortcut};
use sofos::tui::worker::{ShutdownSender, WorkerStep};
use std::collections::VecDeque;

fn app() -> App {
    App::new("test-model".into())
}

fn key(code: KeyCode) -> KeyPress {
    KeyPress { code, shift: false, alt: false, ctrl: false, down: true }
}

fn ctrl(c: char) -> KeyPress {
    KeyPress { ctrl: true, ..key(KeyCode::Char(c)) }
}

fn alt(code: KeyCode) -> KeyPress {
    KeyPress { alt: true, ..key(code) }
}

fn question(choices: &[&str], cursor: usize, default_index: usize) -> ConfirmationPrompt {
    ConfirmationPrompt {
        prompt: "sure?".to_string(),
        choices: choices.iter().map(|c| c.to_string()).collect(),
        cursor,
        default_index,
        kind: ConfirmationType::Destructive,
    }
}

fn on(a: &mut App, event: UiEvent) -> UiAction {
    let mut steer: Vec<String> = Vec::new();
    a.on_event(event, &mut steer, false, 7)
}

fn meta(id: &str) -> SessionMetadata {
    SessionMetadata {
        id: id.to_string(),
        preview: "p".to_string(),
        created_at: 1,
        updated_at: 1,
        message_count: 1,
    }
}

#[test]
fn shortcuts_name_choices() {
    assert_eq!(digit_shortcut('1', 2), Some(0));
    assert_eq!(digit_shortcut('2', 2), Some(1));
    assert_eq!(digit_shortcut('3', 2), None);
    assert_eq!(digit_shortcut('0', 2), None);
    let choices: Vec<String> = vec!["Yes".into(), "No".into(), "yes, always".into()];
    assert_eq!(letter_shortcut('y', &choices, 0), Some(2));
    assert_eq!(letter_shortcut('Y', &choices, 2), Some(0));
    assert_eq!(letter_shortcut('n', &choices, 0), Some(1));
    assert_eq!(letter_shortcut('x', &choices, 0), None);
    assert_eq!(letter_shortcut('1', &choices, 0), None);
}

#[test]
fn questions_are_answered_with_keys() {
    let mut a = app();
    a.confirmation = Some(question(&["Delete", "Keep"], 1, 1));
    assert_eq!(a.handle_confirmation_key(key(KeyCode::Up)), None);
    assert_eq!(a.confirmation.as_ref().unwrap().cursor, 0);
    assert_eq!(a.handle_confirmation_key(key(KeyCode::Enter)), Some(0));
    assert!(a.confirmation.is_none());

    a.confirmation = Some(question(&["Delete", "Keep"], 0, 1));
    assert_eq!(a.handle_confirmation_key(key(KeyCode::Esc)), Some(1));
    a.confirmation = Some(question(&["Delete", "Keep"], 0, 1));
    assert_eq!(a.handle_confirmation_key(ctrl('c')), Some(1));
    a.confirmation = Some(question(&["Delete", "Keep"], 0, 1));
    assert_eq!(a.handle_confirmation_key(key(KeyCode::Char('2'))), Some(1));
    a.confirmation = Some(question(&["Delete", "Keep"], 0, 1));
    assert_eq!(a.handle_confirmation_key(key(KeyCode::Char('k'))), None);
    assert_eq!(a.confirmation.as_ref().unwrap().cursor, 1);
}

#[test]
fn questions_open_on_a_choice() {
    assert_eq!(initial_cursor(ConfirmationType::Permission, 2, 3), 0);
    assert_eq!(initial_cursor(ConfirmationType::Destructive, 1, 3), 1);
    assert_eq!(initial_cursor(ConfirmationType::Info, 9, 3), 2);
    assert_eq!(initial_cursor(ConfirmationType::Info, 9, 0), 0);

    let mut a = app();
    on(
        &mut a,
        UiEvent::ConfirmRequest {
            prompt: "ok?".to_string(),
            choices: vec!["a".to_string(), "b".to_string()],
            default_index: 1,
            kind: ConfirmationType::Permission,
        },
    );
    assert_eq!(a.confirmation.as_ref().unwrap().cursor, 0);
    assert!(matches!(on(&mut a, UiEvent::Paste("y\n".to_string())), UiAction::Nothing));
    assert!(a.confirmation.is_some());
    assert!(matches!(
        on(&mut a, UiEvent::Key(key(KeyCode::Enter))),
        UiAction::Answer(0)
    ));
}

#[test]
fn an_end_answers_the_open_question() {
    let mut a = app();
    a.confirmation = Some(question(&["Delete", "Keep"], 0, 1));
    let action = on(&mut a, UiEvent::WorkerShutdown(ExitSummary::unexpected()));
    assert!(matches!(action, UiAction::Quit(Some(1))));
    assert!(a.should_quit && a.confirmation.is_none());
    assert!(a.exit_summary.as_ref().unwrap().panicked);
}

#[test]
fn lists_are_worked_with_keys() {
    let mut a = app();
    on(&mut a, UiEvent::ShowResumePicker(vec![meta("a"), meta("b")]));
    on(&mut a, UiEvent::Key(key(KeyCode::Down)));
    on(&mut a, UiEvent::Key(key(KeyCode::Down)));
    match on(&mut a, UiEvent::Key(key(KeyCode::Enter))) {
        UiAction::Send(Job::ResumeSelected(Some(id))) => assert_eq!(id, "b"),
        other => panic!("expected a session, got {other:?}"),
    }
    assert!(a.picker.is_none());

    let entry = |name, is_current, is_available| ModelPickerEntry {
        name,
        description: "",
        is_current,
        is_available,
    };
    on(
        &mut a,
        UiEvent::ShowModelPicker(vec![
            entry("x", true, true),
            entry("y", false, false),
            entry("z", false, true),
        ]),
    );
    on(&mut a, UiEvent::Key(key(KeyCode::Char('j'))));
    assert!(matches!(
        on(&mut a, UiEvent::Key(key(KeyCode::Enter))),
        UiAction::Send(Job::ModelSelected(Some("z")))
    ));

    on(
        &mut a,
        UiEvent::ShowEffortPicker(vec![
            EffortPickerEntry { effort: ReasoningEffort::Off, is_current: false },
            EffortPickerEntry { effort: ReasoningEffort::Low, is_current: true },
        ]),
    );
    on(&mut a, UiEvent::Key(key(KeyCode::Char('k'))));
    assert!(matches!(
        on(&mut a, UiEvent::Key(key(KeyCode::Enter))),
        UiAction::Send(Job::EffortSelected(Some(ReasoningEffort::Off)))
    ));

    let mode = |mode, is_current, is_available| ModePickerEntry { mode, is_current, is_available };
    on(
        &mut a,
        UiEvent::ShowModePicker(vec![
            mode(ReasoningMode::Standard, true, true),
            mode(ReasoningMode::Pro, false, true),
        ]),
    );
    assert!(matches!(on(&mut a, UiEvent::Paste("x".to_string())), UiAction::Nothing));
    on(&mut a, UiEvent::Key(key(KeyCode::Down)));
    assert!(matches!(
        on(&mut a, UiEvent::Key(key(KeyCode::Enter))),
        UiAction::Send(Job::ModeSelected(Some(ReasoningMode::Pro)))
    ));
    assert_eq!(Job::ModeSelected(Some(ReasoningMode::Pro)).label(), Some("switching mode"));

    let preset = |preset, is_current, is_available| PermissionsPickerEntry {
        preset,
        is_current,
        is_available,
    };
    on(
        &mut a,
        UiEvent::ShowPermissionsPicker(vec![
            preset(PermissionPreset::ReadOnly, true, true),
            preset(PermissionPreset::SandboxedAsk, false, false),
        ]),
    );
    on(&mut a, UiEvent::Key(key(KeyCode::Down)));
    assert!(matches!(
        on(&mut a, UiEvent::Key(key(KeyCode::Esc))),
        UiAction::Send(Job::PermissionsSelected(None))
    ));
    let mut p = PermissionsPicker::new(vec![
        preset(PermissionPreset::ReadOnly, false, true),
        preset(PermissionPreset::SandboxedAsk, false, false),
        preset(PermissionPreset::Unsandboxed, true, true),
    ]);
    assert_eq!(p.cursor, 2);
    p.move_up();
    assert_eq!(p.selected().unwrap().preset, PermissionPreset::ReadOnly);
}

#[test]
fn an_interrupt_comes_before_an_end() {
    let mut a = app();
    a.start_busy("processing".to_string(), 0);
    assert!(matches!(a.handle_idle_key(ctrl('c'), false), UiAction::Interrupt));
    assert!(matches!(a.handle_idle_key(ctrl('c'), true), UiAction::Shutdown));
    assert!(matches!(a.handle_idle_key(key(KeyCode::Esc), false), UiAction::Interrupt));
    a.finish_busy();
    assert!(matches!(a.handle_idle_key(ctrl('c'), false), UiAction::Shutdown));
    assert!(matches!(a.handle_idle_key(ctrl('d'), false), UiAction::Shutdown));
    a.set_input("text".to_string());
    assert!(matches!(a.handle_idle_key(ctrl('d'), false), UiAction::Edit));
}

#[test]
fn keys_edit_the_input() {
    let mut a = app();
    assert!(matches!(a.handle_idle_key(ctrl('v'), false), UiAction::PasteClipboard));
    assert!(matches!(a.handle_idle_key(ctrl('u'), false), UiAction::DeleteLineHead));
    assert!(matches!(a.handle_idle_key(ctrl('w'), false), UiAction::DeleteWord));
    assert!(matches!(a.handle_idle_key(ctrl('k'), false), UiAction::DeleteLineEnd));
    assert!(matches!(a.handle_idle_key(key(KeyCode::Char('x')), false), UiAction::Edit));
    assert!(matches!(a.handle_idle_key(key(KeyCode::Enter), false), UiAction::Submit));
    let shifted = KeyPress { shift: true, ..key(KeyCode::Enter) };
    assert!(matches!(a.handle_idle_key(shifted, false), UiAction::Edit));
    let released = KeyPress { down: false, ..key(KeyCode::Enter) };
    assert!(matches!(a.handle_idle_key(released, false), UiAction::Nothing));
    a.remember_submitted("before");
    assert!(matches!(a.handle_idle_key(alt(KeyCode::Up), false), UiAction::Reload));
    assert_eq!(a.input_text(), "before");
    assert!(matches!(a.handle_idle_key(alt(KeyCode::Down), false), UiAction::Reload));
    assert_eq!(a.input_text(), "");
}

#[test]
fn commands_are_completed() {
    let mut a = app();
    a.input_edited("/cl".to_string());
    assert!(a.slash_popup.is_visible());
    assert!(matches!(a.handle_idle_key(key(KeyCode::Tab), false), UiAction::Reload));
    assert_eq!(a.input_text(), "/clear");

    let mut a = app();
    a.input_edited("/cl".to_string());
    assert!(matches!(a.handle_idle_key(key(KeyCode::Enter), false), UiAction::Submit));
    assert_eq!(a.input_text(), "/clear");

    let mut a = app();
    a.input_edited("/c".to_string());
    assert!(matches!(a.handle_idle_key(key(KeyCode::Esc), false), UiAction::Nothing));
    assert!(!a.slash_popup.is_visible());
    assert_eq!(a.input_text(), "/c");
}

#[test]
fn inputs_become_jobs() {
    let mut steer: Vec<String> = Vec::new();
    let mut a = app();
    assert!(matches!(a.submit_input(&mut steer).outcome, SubmitOutcome::Nothing));

    a.set_input("hello".to_string());
    let s = a.submit_input(&mut steer);
    assert_eq!(s.glyph, Glyph::Normal);
    match s.outcome {
        SubmitOutcome::Send(Job::Message { text, images }) => {
            assert_eq!(text, "hello");
            assert!(images.is_empty());
        }
        other => panic!("expected a message, got {other:?}"),
    }
    assert_eq!(a.input_text(), "");
    assert_eq!(a.input_history.back().map(String::as_str), Some("hello"));

    a.set_input("/clear".to_string());
    assert!(matches!(
        a.submit_input(&mut steer).outcome,
        SubmitOutcome::Send(Job::Command(Command::Clear))
    ));
    a.set_input("/nothing".to_string());
    assert!(matches!(a.submit_input(&mut steer).outcome, SubmitOutcome::Unknown(t) if t == "/nothing"));
}

#[test]
fn a_running_turn_can_be_steered() {
    let mut steer: Vec<String> = Vec::new();
    let mut a = app();
    a.start_busy("processing".to_string(), 0);
    a.set_input("also".to_string());
    let s = a.submit_input(&mut steer);
    assert_eq!(s.glyph, Glyph::Steer);
    assert!(matches!(s.outcome, SubmitOutcome::Steered));
    assert_eq!(steer, vec!["also"]);
    a.set_input("/clear".to_string());
    assert!(matches!(a.submit_input(&mut steer).outcome, SubmitOutcome::Queued));
    assert_eq!(a.queue.len(), 1);

    match a.on_event(UiEvent::WorkerIdle, &mut steer, false, 0) {
        UiAction::Send(Job::Message { text, .. }) => assert_eq!(text, "also"),
        other => panic!("expected what was said, got {other:?}"),
    }
    assert!(steer.is_empty());
    assert!(matches!(
        a.on_event(UiEvent::WorkerIdle, &mut steer, false, 0),
        UiAction::Send(Job::Command(Command::Clear))
    ));
    assert!(matches!(
        a.on_event(UiEvent::WorkerIdle, &mut steer, false, 0),
        UiAction::Nothing
    ));
}

#[test]
fn pasted_images_go_with_the_message() {
    let mut a = app();
    let image = PastedImage { media_type: "image/png".into(), base64_data: "AA".into() };
    let mark = match a.handle_clipboard_paste(Clip::Image(image)) {
        PasteOutcome::Insert(mark) => mark,
        other => panic!("expected a mark, got {other:?}"),
    };
    a.input_edited(format!("{mark}look"));
    let mut steer: Vec<String> = Vec::new();
    let s = a.submit_input(&mut steer);
    assert_eq!((s.text.as_str(), s.images), ("look", 1));
    match s.outcome {
        SubmitOutcome::Send(Job::Message { images, .. }) => assert_eq!(images[0].base64_data, "AA"),
        other => panic!("expected a message, got {other:?}"),
    }
    assert!(a.pasted_images.is_empty());
}

#[test]
fn events_change_what_is_shown() {
    let mut a = app();
    on(&mut a, UiEvent::WorkerBusy("processing".to_string()));
    assert!(a.busy());
    assert_eq!(a.busy_since, Some(7));
    let first = a.spinner_frame();
    on(&mut a, UiEvent::Tick);
    assert_ne!(a.spinner_frame(), first);
    on(
        &mut a,
        UiEvent::Status(StatusSnapshot {
            model: "m".to_string(),
            mode: SandboxMode::ReadOnly,
            approval: ApprovalPolicy::Ask,
            reasoning: String::new(),
            input_tokens: 0,
            output_tokens: 0,
            cache_read_tokens: 0,
            cache_creation_tokens: 0,
        }),
    );
    assert!(a.is_safe_mode());
    let shown = on(
        &mut a,
        UiEvent::Output { kind: OutputKind::Stdout, text: "line".to_string() },
    );
    assert!(matches!(shown, UiAction::Show(t) if t == "line"));
    assert!(matches!(on(&mut a, UiEvent::Paste("p".to_string())), UiAction::Insert(t) if t == "p"));
    assert!(matches!(on(&mut a, UiEvent::Resize), UiAction::Nothing));
    a.request_shutdown(false);
    assert!(a.should_quit);
}

#[test]
fn output_is_taken_in_batches() {
    let line = |t: &str| UiEvent::Output { kind: OutputKind::Stdout, text: t.to_string() };
    let mut batch = OutputBatch::new("0".to_string());
    assert!(matches!(batch.offer(line("1")), Offered::Taken));
    assert!(matches!(batch.offer(UiEvent::Tick), Offered::Forward(_)));
    assert_eq!(batch.lines, vec!["0", "1"]);
    while batch.has_room() {
        batch.offer(line("x"));
    }
    assert_eq!(batch.lines.len(), MAX_OUTPUT_BATCH);

    let mut pending: VecDeque<UiEvent> = VecDeque::new();
    pending.push_back(line("a"));
    pending.push_back(UiEvent::Tick);
    pending.push_back(line("b"));
    assert_eq!(OutputBatch::last_lines(pending), vec!["a", "b"]);
}

#[test]
fn jobs_are_reported_and_stored() {
    let message = Job::Message { text: "m".to_string(), images: Vec::new() };
    assert_eq!(message.label(), Some("processing"));
    assert!(matches!(
        message.before()[..],
        [WorkerStep::TellBusy("processing"), WorkerStep::ClearInterrupt]
    ));
    assert!(matches!(
        message.after(false)[..],
        [
            WorkerStep::Save,
            WorkerStep::BlankLine,
            WorkerStep::Flush,
            WorkerStep::TellStatus,
            WorkerStep::TellIdle
        ]
    ));
    let compact = Job::Command(Command::Compact);
    assert_eq!(compact.label(), Some("compacting"));
    assert!(!compact.ends_worker(false) && compact.ends_worker(true));
    assert!(matches!(
        compact.after(true)[..],
        [WorkerStep::Save, WorkerStep::Flush, WorkerStep::TellEnd]
    ));
    let nothing = Job::ModelSelected(None);
    assert!(nothing.before().is_empty());
    assert!(matches!(
        nothing.after(false)[..],
        [WorkerStep::Flush, WorkerStep::TellIdle]
    ));
    assert!(Job::Shutdown.ends_worker(false));
}

#[test]
fn the_end_is_told_once() {
    let mut sender = ShutdownSender::new();
    sender.set_summary(ExitSummary {
        model: "m".to_string(),
        counters: SessionTokenCounters::default(),
        panicked: false,
    });
    match sender.send_now() {
        Some(UiEvent::WorkerShutdown(s)) => assert!(!s.panicked),
        other => panic!("expected the end, got {other:?}"),
    }
    assert!(sender.send_now().is_none());
    let mut sender = ShutdownSender::new();
    match sender.send_now() {
        Some(UiEvent::WorkerShutdown(s)) => assert!(s.panicked),
        other => panic!("expected the end, got {other:?}"),
    }
}

#[test]
fn a_run_of_jobs_is_reported() {
    let jobs = [
        (Job::ModelSelected(None), false),
        (Job::Command(Command::Compact), false),
        (Job::Command(Command::Exit), true),
        (Job::ModelSelected(None), false),
    ];
    let mut steps: Vec<WorkerStep> = Vec::new();
    for (job, exits) in &jobs {
        steps.extend(job.before());
        steps.extend(job.after(*exits));
        if job.ends_worker(*exits) {
            break;
        }
    }
    let idles = steps.iter().filter(|s| matches!(s, WorkerStep::TellIdle)).count();
    let ends = steps.iter().filter(|s| matches!(s, WorkerStep::TellEnd)).count();
    assert_eq!((idles, ends), (2, 1));
    assert!(matches!(steps.last(), Some(WorkerStep::TellEnd)));
}
