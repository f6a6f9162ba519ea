use sofos::tui::output::{strip_trailing_incomplete_csi, SgrColor, SgrState};

#[test]
fn empty_state_emits_nothing() {
    let s = SgrState::default();
    assert_eq!(s.to_ansi_prefix(), "");
}

#[test]
fn bold_is_tracked_and_reset_clears_it() {
    let mut s = SgrState::default();
    s.apply("\x1b[1mhello");
    assert!(s.attrs.bold);
    assert_eq!(s.to_ansi_prefix(), "\x1b[1m");
    s.apply(" world\x1b[0m");
    assert!(!s.attrs.bold);
    assert_eq!(s.to_ansi_prefix(), "");
}

#[test]
fn combined_bold_italic_fg_round_trip() {
    let mut s = SgrState::default();
    s.apply("\x1b[1;3;31mfoo");
    assert!(s.attrs.bold);
    assert!(s.attrs.italic);
    assert_eq!(s.fg, SgrColor::Basic(31));
    assert_eq!(s.to_ansi_prefix(), "\x1b[1;3m\x1b[31m");
}

#[test]
fn reset_via_empty_m_clears_state() {
    let mut s = SgrState::default();
    s.apply("\x1b[1mfoo\x1b[mbar");
    assert_eq!(s.to_ansi_prefix(), "");
}

#[test]
fn ignores_non_sgr_csi_sequences() {
    let mut s = SgrState::default();
    s.apply("\x1b[2J\x1b[1;5H\x1b[1mstill bold");
    assert!(s.attrs.bold);
    assert_eq!(s.to_ansi_prefix(), "\x1b[1m");
}

#[test]
fn skips_dec_private_mode_sequences() {
    let mut s = SgrState::default();
    s.apply("\x1b[1m\x1b[?25lstill bold\x1b[?25h");
    assert!(s.attrs.bold);
    assert_eq!(s.to_ansi_prefix(), "\x1b[1m");
}

#[test]
fn skips_cursor_movement_sequences() {
    let mut s = SgrState::default();
    s.apply("\x1b[31m\x1b[1;5Hred\x1b[0mreset");
    assert_eq!(s.fg, SgrColor::Default);
    assert!(!s.attrs.bold);
    assert_eq!(s.to_ansi_prefix(), "");
}

#[test]
fn handles_256_color_fg() {
    let mut s = SgrState::default();
    s.apply("\x1b[38;5;202mtext");
    assert_eq!(s.fg, SgrColor::Indexed(202));
    assert_eq!(s.to_ansi_prefix(), "\x1b[38;5;202m");
}

#[test]
fn handles_truecolor_fg() {
    let mut s = SgrState::default();
    s.apply("\x1b[38;2;255;128;0mhello");
    assert_eq!(s.fg, SgrColor::Rgb(255, 128, 0));
    assert_eq!(s.to_ansi_prefix(), "\x1b[38;2;255;128;0m");
}

#[test]
fn handles_truecolor_bg() {
    let mut s = SgrState::default();
    s.apply("\x1b[48;2;10;20;30mhello");
    assert_eq!(s.bg, SgrColor::Rgb(10, 20, 30));
    assert_eq!(s.to_ansi_prefix(), "\x1b[48;2;10;20;30m");
}

#[test]
fn independent_attrs_are_not_lost() {
    let mut s = SgrState::default();
    s.apply("\x1b[1m"); // bold on
    for code in 31..=37 {
        s.apply(&format!("\x1b[{}m", code));
    }
    for code in 90..=97 {
        s.apply(&format!("\x1b[{}m", code));
    }
    assert!(s.attrs.bold);
    assert_eq!(s.fg, SgrColor::Basic(97));
}

#[test]
fn partial_off_leaves_other_attrs_alone() {
    let mut s = SgrState::default();
    s.apply("\x1b[1;3munderline"); // bold + italic
    s.apply("\x1b[23mno italic"); // italic off
    assert!(s.attrs.bold);
    assert!(!s.attrs.italic);
}

#[test]
fn bold_dim_share_22_off() {
    let mut s = SgrState::default();
    s.apply("\x1b[1;2mboth");
    s.apply("\x1b[22mneither");
    assert!(!s.attrs.bold);
    assert!(!s.attrs.dim);
}

#[test]
fn default_fg_restores_via_39() {
    let mut s = SgrState::default();
    s.apply("\x1b[31mred");
    s.apply("\x1b[39mdefault");
    assert_eq!(s.fg, SgrColor::Default);
    assert_eq!(s.to_ansi_prefix(), "");
}

#[test]
fn malformed_extended_color_is_ignored() {
    let mut s = SgrState::default();
    s.apply("\x1b[31m\x1b[38;5m");
    assert_eq!(s.fg, SgrColor::Basic(31));
}

#[test]
fn strip_trailing_incomplete_csi_drops_unterminated_tail() {
    let mut text = "text\x1b[38;2;".to_string();
    strip_trailing_incomplete_csi(&mut text);
    assert_eq!(text, "text");
}

#[test]
fn strip_trailing_incomplete_csi_preserves_terminated_tail() {
    let mut text = "text\x1b[31mred".to_string();
    let original = text.clone();
    strip_trailing_incomplete_csi(&mut text);
    assert_eq!(text, original);
}

#[test]
fn strip_trailing_incomplete_csi_keeps_earlier_sequences() {
    let mut text = "\x1b[31mred\x1b[38;2;".to_string();
    strip_trailing_incomplete_csi(&mut text);
    assert_eq!(text, "\x1b[31mred");
}

#[test]
fn strip_trailing_incomplete_csi_is_noop_on_plain_text() {
    let mut text = "plain text with no escapes".to_string();
    strip_trailing_incomplete_csi(&mut text);
    assert_eq!(text, "plain text with no escapes");
}

#[test]
fn strip_trailing_incomplete_csi_tolerates_bare_esc() {
    let mut text = "text\x1ball".to_string();
    let original = text.clone();
    strip_trailing_incomplete_csi(&mut text);
    assert_eq!(text, original);
}

#[test]
fn unfinished_sequences_are_all_taken_off() {
    let mut text = "a\u{1b}[3\u{1b}[4".to_string();
    strip_trailing_incomplete_csi(&mut text);
    assert_eq!(text, "a");
    strip_trailing_incomplete_csi(&mut text);
    assert_eq!(text, "a");
    let mut mixed = "a\u{1b}[1mb\u{1b}[3\u{1b}[4;\u{1b}[".to_string();
    strip_trailing_incomplete_csi(&mut mixed);
    assert_eq!(mixed, "a\u{1b}[1mb");
}
