use sofos::commands::command_catalog;
use sofos::tui::slash_popup::{filter_commands, SlashPopup, MAX_VISIBLE_ROWS};

#[test]
fn hidden_when_input_is_empty_or_plain_text() {
    let mut popup = SlashPopup::new();
    popup.sync("");
    assert!(!popup.is_visible());
    popup.sync("hello world");
    assert!(!popup.is_visible());
}

#[test]
fn bare_slash_shows_full_catalog() {
    let mut popup = SlashPopup::new();
    popup.sync("/");
    assert!(popup.is_visible());
    assert_eq!(popup.matches().len(), command_catalog().len());
}

#[test]
fn prefix_filters_to_matching_commands() {
    let mut popup = SlashPopup::new();
    popup.sync("/cl");
    assert!(popup.is_visible());
    assert!(popup.matches().iter().any(|e| e.name == "/clear"));
    assert!(popup.matches().iter().all(|e| e.name.starts_with("/cl")));
}

#[test]
fn slash_with_trailing_space_keeps_popup_open() {
    let mut popup = SlashPopup::new();
    popup.sync("/e");
    assert!(popup.is_visible());
    let names: Vec<&str> = popup.matches().iter().map(|e| e.name).collect();
    assert!(names.contains(&"/effort"));
}

#[test]
fn hides_when_no_match() {
    let mut popup = SlashPopup::new();
    popup.sync("/zzzz");
    assert!(!popup.is_visible());
}

#[test]
fn matching_is_case_insensitive() {
    let mut popup = SlashPopup::new();
    popup.sync("/CL");
    assert!(popup.matches().iter().any(|e| e.name == "/clear"));
}

#[test]
fn move_down_wraps_around() {
    let mut popup = SlashPopup::new();
    popup.sync("/");
    let total = popup.matches().len();
    for _ in 0..total {
        popup.move_down();
    }
    assert_eq!(popup.cursor(), 0);
}

#[test]
fn move_up_from_top_wraps_to_bottom() {
    let mut popup = SlashPopup::new();
    popup.sync("/");
    popup.move_up();
    assert_eq!(popup.cursor(), popup.matches().len() - 1);
}

#[test]
fn scroll_top_follows_cursor_past_visible_window() {
    let mut popup = SlashPopup::new();
    popup.sync("/");
    for _ in 0..MAX_VISIBLE_ROWS {
        popup.move_down();
    }
    assert!(popup.scroll_top() > 0);
    assert!(popup.cursor() >= popup.scroll_top());
    assert!(popup.cursor() < popup.scroll_top() + MAX_VISIBLE_ROWS);
}

#[test]
fn sync_clamps_cursor_when_filter_shrinks_list() {
    let mut popup = SlashPopup::new();
    popup.sync("/");
    for _ in 0..(command_catalog().len() - 1) {
        popup.move_down();
    }
    assert_eq!(popup.cursor(), command_catalog().len() - 1);
    popup.sync("/exit");
    assert!(popup.is_visible());
    assert!(popup.cursor() < popup.matches().len());
}

#[test]
fn second_line_is_ignored_when_first_line_is_not_a_command() {
    let mut popup = SlashPopup::new();
    popup.sync("hello\n/clear");
    assert!(!popup.is_visible());
}

#[test]
fn newline_anywhere_suppresses_the_popup() {
    let mut popup = SlashPopup::new();
    popup.sync("/clear\nsome more text");
    assert!(!popup.is_visible());
}

#[test]
fn slash_with_no_catalog_match_leaves_popup_invisible() {
    let mut popup = SlashPopup::new();
    popup.sync("/zz-unknown");
    assert!(!popup.is_visible());
    assert!(popup.matches().is_empty());
}

#[test]
fn dismiss_keeps_popup_hidden_until_input_changes() {
    let mut popup = SlashPopup::new();
    popup.sync("/c");
    assert!(popup.is_visible());

    popup.dismiss("/c");
    popup.sync("/c");
    assert!(!popup.is_visible());

    popup.sync("/cl");
    assert!(!popup.is_visible());

    popup.sync("/");
    assert!(!popup.is_visible());

    popup.sync("/r");
    assert!(popup.is_visible());
}

#[test]
fn filter_ignores_the_case_of_the_prefix() {
    let names: Vec<&str> = filter_commands("/CL").iter().map(|e| e.name).collect();
    assert_eq!(names, vec!["/clear"]);
    assert!(filter_commands("/nothing-like-it").is_empty());
    assert_eq!(filter_commands("").len(), command_catalog().len());
}

#[test]
fn moves_come_round() {
    let mut popup = SlashPopup::new();
    popup.sync("/");
    popup.move_down();
    let start = popup.cursor();
    for _ in 0..popup.matches().len() {
        popup.move_down();
    }
    assert_eq!(popup.cursor(), start);
    for _ in 0..popup.matches().len() {
        popup.move_up();
    }
    assert_eq!(popup.cursor(), start);
    popup.sync("hello");
    assert!(!popup.is_visible());
    assert!(popup.matches().is_empty());
}
