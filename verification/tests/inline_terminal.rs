use sofos::tui::inline_terminal::{diff_buffers, display_width, Buffer, DrawCommand};
use sofos::tui::ui::Area;

fn area(width: u16, height: u16) -> Area {
    Area { x: 0, y: 0, width, height }
}

fn set_string(buffer: &mut Buffer, x: u16, y: u16, text: &str) {
    let width = buffer.area.width;
    for (i, c) in text.chars().enumerate() {
        let at = (y * width + x) as usize + i;
        buffer.content[at].symbol = c.to_string();
    }
}

#[test]
fn display_width_ascii_is_column_count() {
    assert_eq!(display_width("hello"), 5);
    assert_eq!(display_width(""), 0);
}

#[test]
fn display_width_counts_wide_glyphs_correctly() {
    assert_eq!(display_width("中"), 2);
    assert_eq!(display_width("中文"), 4);
}

#[test]
fn display_width_strips_osc_hyperlinks() {
    let s = "\x1b]8;;https://example.com\x07link\x1b]8;;\x07";
    assert_eq!(display_width(s), "link".len());
}

#[test]
fn diff_buffers_emits_put_for_changed_cell() {
    let area = area(3, 1);
    let previous = Buffer::empty(area);
    let mut next = Buffer::empty(area);
    set_string(&mut next, 0, 0, "abc");
    let commands = diff_buffers(&previous, &next);
    let puts = commands
        .iter()
        .filter(|c| matches!(c, DrawCommand::Cell { .. }))
        .count();
    assert_eq!(puts, 3, "one Put per changed cell; got {commands:?}");
}

#[test]
fn diff_buffers_skips_unchanged_rows() {
    let area = area(4, 2);
    let mut previous = Buffer::empty(area);
    let mut next = Buffer::empty(area);
    set_string(&mut previous, 0, 0, "same");
    set_string(&mut next, 0, 0, "same");
    set_string(&mut next, 0, 1, "diff");
    let commands = diff_buffers(&previous, &next);
    let put_ys: Vec<u16> = commands
        .iter()
        .filter_map(|c| match c {
            DrawCommand::Cell { y, .. } => Some(*y),
            _ => None,
        })
        .collect();
    assert!(
        put_ys.iter().all(|&y| y == 1),
        "row 0 was unchanged; all Puts should be row 1: {put_ys:?}"
    );
}

#[test]
fn diff_buffers_uses_clear_to_end_for_blank_tail() {
    let area = area(20, 1);
    let previous = Buffer::empty(area);
    let mut next = Buffer::empty(area);
    set_string(&mut next, 0, 0, "hi");
    let commands = diff_buffers(&previous, &next);
    assert!(
        commands
            .iter()
            .any(|c| matches!(c, DrawCommand::ClearTrailingCells { .. })),
        "expected a ClearToEnd for the blank tail; got {commands:?}",
    );
}
