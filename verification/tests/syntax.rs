use sofos::syntax::{segments, Segment, SyntaxHighlighter};
use std::collections::HashSet;
use syntect::parsing::SyntaxSet;

#[test]
fn test_highlighter_creation() {
    let highlighter = SyntaxHighlighter::new();
    assert!(!SyntaxSet::load_defaults_newlines().syntaxes().is_empty());
    assert!(!highlighter.highlight_code("fn main() {}", "rust").is_empty());
}

#[test]
fn test_plain_text() {
    let highlighter = SyntaxHighlighter::new();
    let text = "Hello, world!";
    let result = highlighter.highlight_text(text);
    assert!(result.contains("Hello, world!"));
}

#[test]
fn test_code_block_detection() {
    let highlighter = SyntaxHighlighter::new();
    let text = "Here is some code:\n```rust\nfn main() {}\n```";
    let result = highlighter.highlight_text(text);
    assert!(result.contains("Here is some code:"));
    assert!(result.contains("main"));
}

#[test]
fn default_syntaxes_are_told_apart_by_name() {
    let set = SyntaxSet::load_defaults_newlines();
    let mut seen = HashSet::new();
    for s in set.syntaxes() {
        assert!(seen.insert(s.name.clone()), "two syntaxes named {}", s.name);
    }
}

#[test]
fn code_is_colored() {
    let highlighter = SyntaxHighlighter::new();
    let by_token = highlighter.highlight_code("fn main() {}\n", "rust");
    let by_extension = highlighter.highlight_code("fn main() {}\n", "rs");
    let unknown = highlighter.highlight_code("fn main() {}\n", "no-such-language");
    assert!(by_token.contains("\u{1b}[38;2;"));
    assert_eq!(by_token, by_extension);
    assert_ne!(by_token, unknown);
    assert!(unknown.contains("fn main() {}"));
}

#[test]
fn text_without_fences_comes_out_as_it_was() {
    let highlighter = SyntaxHighlighter::new();
    assert_eq!(highlighter.highlight_text("one\n two\n\n"), "one\n two");
}

#[test]
fn blocks_and_text_are_told_apart() {
    let parts = segments("a\n```rust\nb\n```\nc\n```py\nd");
    let kinds: Vec<&str> = parts
        .iter()
        .map(|s| match s {
            Segment::Line(_) => "line",
            Segment::Code { .. } => "code",
        })
        .collect();
    assert_eq!(kinds, vec!["line", "code", "line", "code"]);
}

#[test]
fn frames_can_be_dimmed() {
    let dimmed = SyntaxHighlighter::dimmed().highlight_code("x\n", "");
    assert!(dimmed.starts_with("\u{1b}[2m┌─────\u{1b}[0m\n\u{1b}[2m│\u{1b}[0m  "));
    assert!(dimmed.ends_with("\n\u{1b}[2m└─────\u{1b}[0m"));
    let plain = SyntaxHighlighter::new().highlight_code("x\n", "");
    assert!(plain.starts_with("┌─────\n│  "));
    assert!(plain.contains("\u{1b}[38;2;"));
}
