//! Operations on texts.
use flovo::text::{
    contains, decimal_text, join, less_text, replace, slice_text, split, starts_with,
    strip_prefix, text_eq, to_chars, trim, trim_end, Trimmed,
};

#[test]
fn texts_are_split_and_joined() {
    assert_eq!(split("a.b.c", '.'), vec!["a", "b", "c"]);
    assert_eq!(split("", '.'), vec![""]);
    assert_eq!(split(".x.", '.'), vec!["", "x", ""]);
    assert_eq!(join(&split("动作.稳定", '.'), "。"), "动作。稳定");
    assert_eq!(join(&Vec::new(), ","), "");
}

#[test]
fn texts_are_searched_and_replaced() {
    assert!(contains("workflow", "flow"));
    assert!(contains("flow", ""));
    assert!(!contains("flow", "flows"));
    assert!(starts_with("start.text", "start."));
    assert!(!starts_with("star", "start"));
    assert_eq!(strip_prefix("context.user", "context."), Some("user".to_string()));
    assert_eq!(strip_prefix("user", "context."), None);
    assert_eq!(replace("aaa", "aa", "b"), "ba");
    assert_eq!(replace("x{p}y{p}", "{p}", "{p}{p}"), "x{p}{p}y{p}{p}");
}

#[test]
fn texts_are_trimmed() {
    assert_eq!(trim("  a b \t\n", Trimmed::White), "a b");
    assert_eq!(trim("\u{3000}x\u{2003}", Trimmed::White), "x");
    assert_eq!(trim("\u{200b}x", Trimmed::White), "\u{200b}x");
    assert_eq!(trim("//a/b/", Trimmed::Slash), "a/b");
    assert_eq!(trim_end("line\r\n", Trimmed::LineEnd), "line");
    assert_eq!(trim("   ", Trimmed::White), "");
}

#[test]
fn white_space_is_that_of_the_standard_library() {
    for code in 0u32..0x11000 {
        if let Some(c) = char::from_u32(code) {
            let text = c.to_string();
            assert_eq!(trim(&text, Trimmed::White), text.trim(), "{:x}", code);
        }
    }
}

#[test]
fn texts_are_ordered_by_code_points() {
    let samples = ["", "a", "aa", "ab", "b", "Z", "\u{ffff}", "\u{10000}", "é"];
    for a in samples {
        for b in samples {
            assert_eq!(less_text(a, b), a < b, "{} {}", a, b);
            assert_eq!(text_eq(a, b), a == b);
        }
    }
}

#[test]
fn numbers_are_written_in_decimal() {
    for n in [0u64, 7, 9, 10, 99, 100, 1024, u64::MAX] {
        assert_eq!(decimal_text(n), n.to_string());
    }
}

#[test]
fn characters_make_texts() {
    let chars = to_chars("héllo");
    assert_eq!(chars.len(), 5);
    assert_eq!(slice_text(&chars, 1, 3), "él");
}
