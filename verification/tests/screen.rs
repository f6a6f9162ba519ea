use sofos::tui::app::{App, ConfirmationPrompt, Picker};
use sofos::tui::drawing::{draw, emit_styled_spans, StyledRun, TermOp};
use sofos::tui::event::{ConfirmationType, OutputKind};
use sofos::tui::inline_terminal::{
    diff_buffers, Buffer, Cell, DrawCommand, Position, Size, Terminal, RESET,
};
use sofos::tui::inline_tui::{Flush, InlineTui, HISTORY_LOG_CAPACITY};
use sofos::tui::output::{parse_extended_color, render_raw_log, SgrColor, SgrState};
use sofos::tui::scrollback::{
    buffer_row_as_line, can_scroll, emit_history_line, scroll_region_text,
    scroll_strings_above_viewport, scroll_text_above_viewport,
};
use sofos::session::model::SessionMetadata;
use sofos::tui::sgr::{Attribute, Modifiers, SgrModifierChange};
use sofos::tui::ui::{
    confirmation_title, format_elapsed, input_box_height, input_title, Area, StyledSpan, Tone,
    INPUT_BORDER_ROWS, MAX_INPUT_CONTENT_ROWS,
};

fn area(x: u16, y: u16, width: u16, height: u16) -> Area {
    Area { x, y, width, height }
}

fn plain(line: &[StyledSpan]) -> String {
    line.iter().map(|s| s.text.as_str()).collect()
}

fn cell(symbol: &str, fg: &str) -> Cell {
    Cell { symbol: symbol.to_string(), fg: fg.to_string(), ..Cell::blank() }
}

fn printed(ops: &[TermOp]) -> String {
    ops.iter()
        .filter_map(|o| match o {
            TermOp::Print(t) => Some(t.as_str()),
            _ => None,
        })
        .collect()
}

#[test]
fn the_input_box_grows_to_a_limit() {
    assert_eq!(input_box_height(0), 1 + INPUT_BORDER_ROWS);
    assert_eq!(input_box_height(1), 1 + INPUT_BORDER_ROWS);
    assert_eq!(input_box_height(3), 3 + INPUT_BORDER_ROWS);
    assert_eq!(input_box_height(10_000), MAX_INPUT_CONTENT_ROWS + INPUT_BORDER_ROWS);
}

#[test]
fn the_interface_asks_for_the_rows_it_needs() {
    let mut a = App::new("m".to_string());
    let idle = a.desired_viewport_height(1);
    assert_eq!(idle, 5);
    a.confirmation = Some(ConfirmationPrompt {
        prompt: "sure?".to_string(),
        choices: (0..9).map(|i| format!("choice {i}")).collect(),
        cursor: 0,
        default_index: 0,
        kind: ConfirmationType::Info,
    });
    assert!(a.desired_viewport_height(1) > idle);
}

#[test]
fn elapsed_times_are_short() {
    assert_eq!(format_elapsed(0), "0s");
    assert_eq!(format_elapsed(59), "59s");
    assert_eq!(format_elapsed(61), "1m 1s");
    assert_eq!(format_elapsed(3_600), "60m 0s");
}

#[test]
fn hints_follow_the_state() {
    let mut a = App::new("m".to_string());
    assert_eq!(plain(&a.hint_spans(0)), " ⏎ send  ·  shift+⏎ newline  ·  /exit quit");
    assert!(plain(&a.status_spans()).starts_with(" model: m"));
    a.start_busy("processing".to_string(), 10);
    assert!(plain(&a.hint_spans(75)).contains("processing… 1m 5s  ·  esc to interrupt"));
    assert_eq!(input_title(false).tone == input_title(true).tone, false);
}

#[test]
fn questions_are_laid_out() {
    let c = ConfirmationPrompt {
        prompt: "sure?".to_string(),
        choices: vec!["yes".to_string(), "no".to_string()],
        cursor: 1,
        default_index: 1,
        kind: ConfirmationType::Destructive,
    };
    let place = c.popup_area(area(0, 0, 80, 24));
    assert!(place.width <= 80 && place.height <= 24);
    assert_eq!(place.height, 8);
    let lines = c.popup_lines(place.height);
    let all: Vec<String> = lines.iter().map(|l| plain(l)).collect();
    assert!(all[0].contains("sure?"));
    assert!(all.iter().any(|l| l.contains("no")));
    assert!(all.last().unwrap().contains("esc cancel"));
    assert_eq!(confirmation_title(c.kind).0, " Confirm destructive action ");
    assert_eq!(confirmation_title(ConfirmationType::Permission).1, Tone::Yellow);
    let small = c.popup_area(area(3, 2, 10, 3));
    assert!(small.x >= 3 && small.y >= 2);
    assert!(small.x + small.width <= 13 && small.y + small.height <= 5);
}

#[test]
fn hidden_choices_leave_a_cue() {
    let c = ConfirmationPrompt {
        prompt: "which?".to_string(),
        choices: (0..9).map(|i| format!("choice {i}")).collect(),
        cursor: 4,
        default_index: 0,
        kind: ConfirmationType::Info,
    };
    let all: Vec<String> = c.popup_lines(6).iter().map(|l| plain(l)).collect();
    assert!(all.iter().any(|l| l.contains("choice 4")));
    assert!(all.iter().any(|l| l.contains('▴')));
    assert!(all.iter().any(|l| l.contains('▾')));
}

#[test]
fn sessions_are_listed() {
    let p = Picker {
        sessions: vec![SessionMetadata {
            id: "a".to_string(),
            preview: "hello".to_string(),
            created_at: 1,
            updated_at: 1,
            message_count: 4,
        }],
        cursor: 0,
    };
    let lines = p.popup_lines();
    assert!(plain(&lines[0]).contains("hello"));
    assert!(Picker::popup_area(area(0, 0, 80, 24)).width <= 80);
}

#[test]
fn attribute_changes_reach_their_target() {
    let none = Modifiers::none();
    let bold = Modifiers { bold: true, ..none };
    let dim = Modifiers { dim: true, ..none };
    assert!(SgrModifierChange { from: bold, to: bold }.queue().is_empty());
    assert_eq!(SgrModifierChange { from: none, to: bold }.queue(), vec![Attribute::Bold]);
    assert_eq!(
        SgrModifierChange { from: bold, to: none }.queue(),
        vec![Attribute::NormalIntensity]
    );
    let swapped = SgrModifierChange { from: bold, to: dim }.queue();
    assert_eq!(swapped.first(), Some(&Attribute::NormalIntensity));
    assert!(swapped.contains(&Attribute::Dim));
    assert_eq!(Modifiers::from_bits(0b1_0100_0101).bold, true);
    assert_eq!(Modifiers::from_bits(0b1_0100_0101).reversed, true);
    assert_eq!(Modifiers::from_bits(0b1_0100_0101).crossed_out, true);
    assert_eq!(Modifiers::from_bits(2), dim);
}

#[test]
fn cells_are_drawn_with_their_colors() {
    let commands = vec![
        DrawCommand::Cell { x: 0, y: 0, cell: cell("a", "Red") },
        DrawCommand::Cell { x: 1, y: 0, cell: cell("b", "Red") },
        DrawCommand::ClearTrailingCells { x: 2, y: 0, bg: RESET.to_string() },
    ];
    let ops = draw(&commands);
    assert_eq!(printed(&ops), "ab");
    let moves = ops.iter().filter(|o| matches!(o, TermOp::MoveTo(..))).count();
    assert_eq!(moves, 1);
    let colors = ops.iter().filter(|o| matches!(o, TermOp::SetColors { .. })).count();
    assert_eq!(colors, 1);
    assert!(matches!(ops.last(), Some(TermOp::ResetAttributes)));
}

#[test]
fn what_is_shown_is_not_drawn_again() {
    let mut b = Buffer::empty(area(0, 0, 4, 1));
    b.content[0] = cell("x", "Blue");
    let mut a = Buffer::empty(area(0, 0, 4, 1));
    assert!(diff_buffers(&a, &b)
        .iter()
        .any(|c| matches!(c, DrawCommand::Cell { x: 0, y: 0, cell } if cell.symbol == "x")));
    a.content[0] = cell("x", "Blue");
    assert!(!diff_buffers(&a, &b).iter().any(|c| matches!(c, DrawCommand::Cell { .. })));
}

#[test]
fn runs_are_written_as_they_look() {
    let runs = vec![
        StyledRun { text: "a".into(), fg: "Red".into(), bg: RESET.into(), modifier: 1 },
        StyledRun { text: "b".into(), fg: RESET.into(), bg: RESET.into(), modifier: 0 },
    ];
    let mut out: Vec<TermOp> = Vec::new();
    emit_styled_spans(&runs, &mut out);
    assert_eq!(printed(&out), "ab");
    assert!(out.iter().any(|o| matches!(o, TermOp::SetAttribute(Attribute::Bold))));
    assert!(out.iter().any(|o| matches!(o, TermOp::SetAttribute(Attribute::NormalIntensity))));
}

#[test]
fn rows_become_runs_without_their_blank_end() {
    let row = vec![cell("a", "Red"), cell("b", "Red"), cell("c", RESET), Cell::blank()];
    let line = buffer_row_as_line(&row);
    let texts: Vec<&str> = line.iter().map(|r| r.text.as_str()).collect();
    assert_eq!(texts, vec!["ab", "c"]);
}

#[test]
fn long_lines_clear_the_rows_they_reach() {
    let line = vec![StyledRun {
        text: "abcdefghij".into(),
        fg: RESET.into(),
        bg: RESET.into(),
        modifier: 0,
    }];
    let mut out: Vec<TermOp> = Vec::new();
    emit_history_line(&line, 4, &mut out);
    assert!(matches!(out[0], TermOp::MoveToColumn(0)));
    let downs = out.iter().filter(|o| matches!(o, TermOp::MoveDown(1))).count();
    assert_eq!(downs, 2);
    assert_eq!(printed(&out), "abcdefghij");
    assert_eq!(scroll_region_text(1, 20), "\u{1b}[1;20r");
}

fn terminal(screen: Size, row: u16, height: u16) -> Terminal {
    let mut t = Terminal::new(screen, Some(Position { x: 0, y: row }));
    t.set_viewport_area(area(0, row, screen.width, height));
    t
}

#[test]
fn output_goes_above_the_interface() {
    let screen = Size { width: 20, height: 10 };
    let mut t = terminal(screen, 2, 4);
    let lines = vec!["\u{1b}[31mred\u{1b}[0m plain".to_string(), "second".to_string()];
    let ops = scroll_strings_above_viewport(&mut t, screen, &lines);
    assert!(printed(&ops).contains("red"));
    assert!(printed(&ops).contains("second"));
    assert!(ops.iter().any(|o| matches!(o, TermOp::SetColors { fg, .. } if fg == "Red")));
    assert_eq!(t.area().y, 4);
    assert!(t.area().y + t.area().height <= screen.height);
    assert_eq!(t.visible_history_rows(), 2);

    let mut t = terminal(screen, 2, 4);
    let rows: Vec<Vec<Cell>> = (0..30).map(|_| vec![cell("x", RESET)]).collect();
    scroll_text_above_viewport(&mut t, screen, &rows);
    assert_eq!(t.area().y + t.area().height, screen.height);
}

#[test]
fn wrapped_output_takes_its_rows() {
    let screen = Size { width: 5, height: 20 };
    let mut t = terminal(screen, 0, 3);
    let ops = scroll_strings_above_viewport(&mut t, screen, &vec!["aaaa bbbb cccc".to_string()]);
    assert_eq!(t.area().y, 3);
    assert_eq!(printed(&ops).replace(' ', ""), "aaaabbbbcccc");
}

#[test]
fn output_is_shown_once_and_kept() {
    let screen = Size { width: 20, height: 10 };
    let mut tui = InlineTui::new(Terminal::new(screen, None));
    tui.queue_history_lines(vec!["a".to_string(), "b".to_string()]);
    assert!(!tui.start_frame(screen));
    match tui.take_flush() {
        Flush::Lines(lines) => assert_eq!(lines, vec!["a", "b"]),
        other => panic!("expected lines, got {other:?}"),
    }
    assert!(matches!(tui.take_flush(), Flush::Nothing));
    assert!(tui.start_frame(Size { width: 30, height: 10 }));
    assert!(matches!(tui.take_flush(), Flush::Replay));
    assert_eq!(tui.history_log, vec!["a", "b"]);
    tui.replayed();
    assert!(matches!(tui.take_flush(), Flush::Nothing));
    let many: Vec<String> = (0..HISTORY_LOG_CAPACITY + 5).map(|i| i.to_string()).collect();
    tui.queue_history_lines(many);
    assert_eq!(tui.history_log.len(), HISTORY_LOG_CAPACITY);
    assert_eq!(tui.history_log[0], "5");
}

#[test]
fn the_interface_stays_on_the_screen() {
    let screen = Size { width: 20, height: 10 };
    let mut tui = InlineTui::new(Terminal::new(screen, Some(Position { x: 0, y: 8 })));
    let plan = tui.fit_viewport_height(screen, 5);
    assert_eq!(plan.scroll, Some((8, 3)));
    assert_eq!(tui.terminal.area(), area(0, 5, 20, 5));
    let plan = tui.fit_viewport_height(screen, 5);
    assert_eq!(plan.scroll, None);
    assert_eq!(plan.clear, None);
    tui.fit_viewport_height(screen, 99);
    assert_eq!(tui.terminal.area(), area(0, 0, 20, 10));
}

#[test]
fn buffers_follow_the_viewport() {
    let screen = Size { width: 4, height: 4 };
    let mut t = terminal(screen, 0, 1);
    t.current.content[0] = cell("x", RESET);
    assert_eq!(t.flush().len(), 2);
    t.swap_buffers();
    t.current.content[0] = cell("x", RESET);
    assert!(!t.flush().iter().any(|c| matches!(c, DrawCommand::Cell { .. })));
    t.invalidate_viewport();
    assert!(t.flush().iter().any(|c| matches!(c, DrawCommand::Cell { .. })));
    t.hide_cursor();
    assert!(t.hidden_cursor);
    t.show_cursor();
    t.set_cursor_position(Position { x: 1, y: 2 });
    assert_eq!(t.cursor_position(), Position { x: 1, y: 2 });
    assert_eq!(t.clear(), Some(Position { x: 0, y: 0 }));
    t.resize(Size { width: 9, height: 9 });
    assert_eq!(t.screen_size(), Size { width: 9, height: 9 });
    t.record_history_rows(3);
    t.clear_visible_screen();
    assert_eq!(t.visible_history_rows(), 0);
}

#[test]
fn a_style_goes_on_over_lines() {
    let mut s = SgrState::default();
    let first = s.read_line(b"\x1b[1mbold\x1b[3\r\n".to_vec());
    assert_eq!(first, "\u{1b}[1mbold");
    let second = s.read_line(b"still\n".to_vec());
    assert_eq!(second, "\u{1b}[1mstill");
    let broken = s.restyle_line("\u{1b}[0mend".to_string());
    assert_eq!(broken, "\u{1b}[1m\u{1b}[0mend");
    assert_eq!(s.to_ansi_prefix(), "");
    assert_eq!(s.read_line(vec![b'a', 0xff, b'b']), "a\u{fffd}b");
    s.apply_sgr_params("1;31");
    s.reset();
    assert_eq!(s, SgrState::default());
}

#[test]
fn colors_are_read_from_their_numbers() {
    assert_eq!(parse_extended_color(&vec![38, 5, 7], 0), Some((SgrColor::Indexed(7), 3)));
    assert_eq!(
        parse_extended_color(&vec![38, 2, 1, 2, 3], 0),
        Some((SgrColor::Rgb(1, 2, 3), 5))
    );
    assert_eq!(parse_extended_color(&vec![38, 2, 1, 2], 0), None);
}

#[test]
fn the_log_tells_bytes_apart() {
    let a = render_raw_log(OutputKind::Stdout, &b"a\x1b\\".to_vec());
    assert!(a.contains("a\\x1B\\x5C"), "{a}");
    let b = render_raw_log(OutputKind::Stderr, &b"a\x1b\\".to_vec());
    assert_ne!(a, b);
}

#[test]
fn what_stays_on_is_said_again() {
    let none = Modifiers::none();
    let both = Modifiers { bold: true, dim: true, ..none };
    let bold = Modifiers { bold: true, ..none };
    assert_eq!(
        SgrModifierChange { from: both, to: bold }.queue(),
        vec![Attribute::NormalIntensity, Attribute::Bold]
    );
    let blinks = Modifiers { slow_blink: true, rapid_blink: true, ..none };
    let slow = Modifiers { slow_blink: true, ..none };
    let rapid = Modifiers { rapid_blink: true, ..none };
    assert_eq!(
        SgrModifierChange { from: blinks, to: slow }.queue(),
        vec![Attribute::NoBlink, Attribute::SlowBlink]
    );
    assert_eq!(
        SgrModifierChange { from: blinks, to: rapid }.queue(),
        vec![Attribute::NoBlink, Attribute::RapidBlink]
    );
    let hidden = Modifiers { hidden: true, ..none };
    assert_eq!(SgrModifierChange { from: none, to: hidden }.queue(), vec![Attribute::Hidden]);
    assert_eq!(SgrModifierChange { from: hidden, to: none }.queue(), vec![Attribute::NoHidden]);
}

#[test]
fn cells_are_held_against_their_column_on_the_screen() {
    let drawn = |x: u16| -> Vec<u16> {
        let before = Buffer::empty(area(x, 2, 3, 1));
        let mut next = Buffer::empty(area(x, 2, 3, 1));
        for (i, symbol) in ["a", "b", "c"].iter().enumerate() {
            next.content[i] = cell(symbol, RESET);
        }
        diff_buffers(&before, &next)
            .iter()
            .filter_map(|c| match c {
                DrawCommand::Cell { x, .. } => Some(*x),
                _ => None,
            })
            .collect()
    };
    assert_eq!(drawn(0), vec![0, 1, 2]);
    assert_eq!(drawn(1), vec![1, 2]);
    assert!(drawn(5).is_empty());
}

#[test]
fn rows_that_come_out_too_wide_are_cut() {
    let screen = Size { width: 4, height: 20 };
    let mut t = terminal(screen, 4, 3);
    let lines = vec!["a\u{200b}bc\u{4f60}d".to_string(), "next".to_string()];
    let ops = scroll_strings_above_viewport(&mut t, screen, &lines);
    let shown = printed(&ops);
    assert!(shown.contains("bc\u{4f60}"));
    assert!(shown.contains("next"));
}

#[test]
fn very_wide_screens_wrap_at_their_width() {
    let screen = Size { width: 30_000, height: 20 };
    let mut t = terminal(screen, 4, 3);
    let long = "x".repeat(20_000);
    let lines = vec![long.clone()];
    assert!(can_scroll(&lines, screen.width));
    let ops = scroll_strings_above_viewport(&mut t, screen, &lines);
    assert_eq!(printed(&ops), long);
    assert_eq!(t.area().y, 5);

    let longer = vec!["x".repeat(40_000)];
    assert!(!can_scroll(&longer, screen.width));
    assert!(can_scroll(&longer, 16_384));
    let narrow = Size { width: 16_384, height: 20 };
    let mut t = terminal(narrow, 4, 3);
    let ops = scroll_strings_above_viewport(&mut t, narrow, &longer);
    assert_eq!(printed(&ops), longer[0]);
    assert_eq!(t.area().y, 7);
}
