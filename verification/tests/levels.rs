use piquel_log::text::{contains_text, is_blank, starts_with_text, text_eq};
use piquel_log::LogLevel;

#[test]
fn levels_are_ordered_by_severity() {
    assert!(LogLevel::Error < LogLevel::Warn);
    assert!(LogLevel::Warn < LogLevel::Info);
    assert!(LogLevel::Info < LogLevel::Debug);
    assert!(LogLevel::Debug < LogLevel::Trace);
    assert_eq!(LogLevel::Error.severity(), 0);
    assert_eq!(LogLevel::Trace.severity(), 4);
}

#[test]
fn threshold_keeps_the_more_severe() {
    assert!(LogLevel::Error.is_within(LogLevel::Warn));
    assert!(LogLevel::Warn.is_within(LogLevel::Warn));
    assert!(!LogLevel::Info.is_within(LogLevel::Warn));
}

#[test]
fn level_names_and_colors() {
    let names: Vec<&str> = [
        LogLevel::Error,
        LogLevel::Warn,
        LogLevel::Info,
        LogLevel::Debug,
        LogLevel::Trace,
    ]
    .iter()
    .map(LogLevel::as_str)
    .collect();
    assert_eq!(names, vec!["ERROR", "WARN", "INFO", "DEBUG", "TRACE"]);
    assert_eq!(LogLevel::Error.ansi_color(), "31");
    assert_eq!(LogLevel::Trace.ansi_color(), "36");
}

#[test]
fn text_helpers_agree_with_std() {
    for (hay, needle) in [("hello", "ll"), ("hello", ""), ("", ""), ("", "a"), ("abc", "abcd"), ("héllo", "él"), ("aab", "ab")] {
        assert_eq!(contains_text(hay, needle), hay.contains(needle), "{hay} {needle}");
        assert_eq!(starts_with_text(hay, needle), hay.starts_with(needle), "{hay} {needle}");
        assert_eq!(text_eq(hay, needle), hay == needle);
    }
    for s in ["", "   ", "\t\n", "\u{3000}\u{2028}", " x ", "\u{200B}"] {
        assert_eq!(is_blank(s), s.trim().is_empty(), "{s:?}");
    }
}

