use sofos::tui::ui::confirmation_layout;

#[test]
fn confirmation_layout_shows_all_choices_when_interior_is_generous() {
    let layout = confirmation_layout(
        /* interior */ 12, /* choices */ 4, /* cursor */ 2,
    );
    assert!(layout.include_full_chrome);
    assert_eq!(layout.window_start, 0);
    assert_eq!(layout.window_end, 4);
}

#[test]
fn confirmation_layout_scrolls_on_short_terminal() {
    for cursor in 0..4 {
        let layout = confirmation_layout(4, 4, cursor);
        assert!(!layout.include_full_chrome, "cursor={cursor}");
        let window_size = layout.window_end - layout.window_start;
        assert!(window_size >= 1, "cursor={cursor}: empty window {layout:?}");
        assert!(
            cursor >= layout.window_start && cursor < layout.window_end,
            "cursor={cursor} fell outside window {layout:?}",
        );
    }
}

#[test]
fn confirmation_layout_keeps_cursor_inside_window() {
    for cursor in [0u16, 1, 2, 5] {
        let layout = confirmation_layout(1, 6, cursor);
        assert_eq!(layout.window_end - layout.window_start, 1);
        let clamped = cursor.min(5);
        assert!(clamped >= layout.window_start && clamped < layout.window_end);
    }
}

#[test]
fn confirmation_layout_handles_zero_choices() {
    let layout = confirmation_layout(10, 0, 0);
    assert_eq!(layout.window_start, 0);
    assert_eq!(layout.window_end, 0);
}

#[test]
fn confirmation_layout_full_chrome_boundary_is_four_plus_choices() {
    assert!(confirmation_layout(8, 4, 0).include_full_chrome);
    assert!(!confirmation_layout(7, 4, 0).include_full_chrome);
    assert!(confirmation_layout(6, 2, 0).include_full_chrome);
    assert!(!confirmation_layout(5, 2, 0).include_full_chrome);
}

#[test]
fn confirmation_layout_full_chrome_shows_every_choice() {
    let layout = confirmation_layout(8, 4, 3);
    assert!(layout.include_full_chrome);
    assert_eq!(layout.window_start, 0);
    assert_eq!(layout.window_end, 4);
}
