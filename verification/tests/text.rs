use sofos::api::Json;
use sofos::conversation::ConversationHistory;
use sofos::session::selector::{
    format_age, format_row, format_timestamp, parse_number, select_session, Selection,
};
use sofos::session::model::SessionMetadata;
use sofos::text::{
    byte_len, contains, decimal, hex, join, lines, same_ignoring_case, split,
    tail_at_char_boundary, trim, truncate_at_char_boundary,
};

#[test]
fn split_and_join_undo_each_other() {
    for s in ["", "a", "a,b", ",a,", "é,ü"] {
        assert_eq!(join(&split(s, ','), ","), s);
    }
    let parts = vec!["x".to_string(), "".to_string(), "y".to_string()];
    assert_eq!(split(&join(&parts, ","), ','), parts);
}

#[test]
fn lines_end_at_breaks() {
    assert_eq!(lines("a\r\nb\n\nc"), vec!["a", "b", "", "c"]);
    assert_eq!(lines("a\n"), vec!["a"]);
    assert!(lines("").is_empty());
}

#[test]
fn cuts_fall_between_characters() {
    assert_eq!(truncate_at_char_boundary("aéb", 2), "a");
    assert_eq!(truncate_at_char_boundary("aéb", 3), "aé");
    assert_eq!(tail_at_char_boundary("aéb", 2), "éb");
    assert_eq!(tail_at_char_boundary("aéb", 1), "b");
    assert_eq!(tail_at_char_boundary("aéb", 3), "éb");
    assert_eq!(byte_len("aé€𝄞"), 10);
}

#[test]
fn numbers_are_written_out() {
    assert_eq!(decimal(0), "0");
    assert_eq!(decimal(1_234_567_890), "1234567890");
    assert_eq!(hex(0xbeef, 8), "0000beef");
}

#[test]
fn white_space_and_case_are_ignored_where_asked() {
    assert_eq!(trim(" \u{a0}x y\n"), "x y");
    assert!(same_ignoring_case("AbC", "aBc"));
    assert!(contains("haystack", "st"));
    assert!(!contains("haystack", "ts"));
}

#[test]
fn json_is_kept_compact() {
    let j = Json::parse("{ \"path\" : \"a.rs\", \"n\": [1, 2] }").expect("valid JSON");
    assert_eq!(j.as_str(), "{\"n\":[1,2],\"path\":\"a.rs\"}");
    assert_eq!(j.string_member("path").as_deref(), Some("a.rs"));
    assert!(j.string_member("n").is_none());
    assert!(Json::parse("{").is_none());
}

#[test]
fn tokens_are_estimated_from_bytes() {
    assert_eq!(ConversationHistory::estimate_tokens(""), 0);
    assert_eq!(ConversationHistory::estimate_tokens("seven b"), 2);
    assert_eq!(ConversationHistory::estimate_tokens("eight by"), 3);
}

#[test]
fn ages_are_told_in_words() {
    assert_eq!(format_age(30, "D".to_string()), "just now");
    assert_eq!(format_age(599, "D".to_string()), "9 mins ago");
    assert_eq!(format_age(60, "D".to_string()), "1 min ago");
    assert_eq!(format_age(3_600, "D".to_string()), "1 hour ago");
    assert_eq!(format_age(86_400, "D".to_string()), "1 day ago");
    assert_eq!(format_age(7 * 86_400, "D".to_string()), "D");
}

#[test]
fn old_times_are_dated() {
    assert_eq!(format_timestamp(0, 1_700_000_000), "1970-01-01");
    assert_eq!(format_timestamp(951_782_400, 1_700_000_000), "2000-02-29");
    assert_eq!(format_timestamp(1_699_992_800, 1_700_000_000), "2 hours ago");
}

fn meta(id: &str) -> SessionMetadata {
    SessionMetadata {
        id: id.to_string(),
        preview: "p".to_string(),
        created_at: 1,
        updated_at: 1,
        message_count: 3,
    }
}

#[test]
fn sessions_are_chosen_by_number() {
    let sessions = vec![meta("a"), meta("b")];
    assert!(matches!(select_session(&sessions, " 2 \n"), Selection::Chosen(id) if id == "b"));
    assert!(matches!(select_session(&sessions, "3"), Selection::Invalid));
    assert!(matches!(select_session(&sessions, "0"), Selection::Invalid));
    assert!(matches!(select_session(&sessions, "x"), Selection::Invalid));
    assert!(matches!(select_session(&sessions, ""), Selection::Cancelled));
    assert_eq!(parse_number("42"), Some(42));
    assert_eq!(parse_number("-1"), None);
    assert_eq!(parse_number("99999999999999999999999"), None);
    assert!(matches!(select_session(&sessions, "quit"), Selection::Cancelled));
    assert_eq!(
        format_row(0, &meta("a"), "1 hour ago"),
        "  [1] p (1 hour ago • 3 messages)"
    );
}
