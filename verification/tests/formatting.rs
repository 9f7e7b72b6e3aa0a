use piquel_log::clock::{file_timestamp, line_timestamp, timestamp_text};
use piquel_log::format::render_line;
use piquel_log::{Timestamp, format_event, format_level, CapturedEvent, EventVisitor, FormatterConfig, LogLevel};

fn capture(level: LogLevel, target: &str, message: &str, fields: &[(&str, &str)]) -> CapturedEvent {
    let mut visitor = EventVisitor::new();
    for (name, value) in fields {
        visitor.push_field(name, value.to_string());
    }
    visitor.push_debug_field("message", message.to_string());
    visitor.finish(Timestamp::unix_epoch(), level, target.to_string())
}

#[test]
fn renders_plain_and_structured_fields() {
    let config = FormatterConfig { ansi: false, target: true, timestamp: true };
    let event = capture(
        LogLevel::Info,
        "piquel_log::format::tests",
        "hello world",
        &[("answer", "42"), ("success", "true")],
    );
    let line = format_event(&event, config).line;
    assert_eq!(
        line,
        "1970-01-01 00:00:00 [INFO] piquel_log::format::tests: hello world answer=42 success=true"
    );
}

#[test]
fn renders_formatted_messages_without_ansi() {
    let config = FormatterConfig { ansi: false, target: true, timestamp: true };
    let subject = "world";
    let event = capture(
        LogLevel::Warn,
        "piquel_log::format::tests",
        &format!("hello {subject}"),
        &[],
    );
    let line = format_event(&event, config).line;
    assert!(line.contains("[WARN] piquel_log::format::tests: hello world"));
}

#[test]
fn supports_disabling_target_and_timestamp() {
    let config = FormatterConfig { ansi: false, target: false, timestamp: false };
    let event = capture(
        LogLevel::Debug,
        "piquel_log::format::tests",
        "no decorations",
        &[("user", "alice")],
    );
    let line = format_event(&event, config).line;
    assert_eq!(line, "[DEBUG] no decorations user=alice");
}

#[test]
fn supports_ansi_level_rendering() {
    let config = FormatterConfig { ansi: true, target: false, timestamp: false };
    let event = capture(LogLevel::Error, "piquel_log::format::tests", "ansi", &[]);
    let line = format_event(&event, config).line;
    assert_eq!(line, "[\u{1b}[31mERROR\u{1b}[0m] ansi");
}

#[test]
fn level_labels_with_and_without_colors() {
    assert_eq!(format_level(LogLevel::Error, false), "[ERROR]");
    assert_eq!(format_level(LogLevel::Warn, true), "[\u{1b}[33mWARN\u{1b}[0m]");
    assert_eq!(format_level(LogLevel::Info, true), "[\u{1b}[32mINFO\u{1b}[0m]");
    assert_eq!(format_level(LogLevel::Debug, true), "[\u{1b}[34mDEBUG\u{1b}[0m]");
    assert_eq!(format_level(LogLevel::Trace, true), "[\u{1b}[36mTRACE\u{1b}[0m]");
    assert_eq!(format_level(LogLevel::Trace, false), "[TRACE]");
}

#[test]
fn empty_message_and_no_fields_render_only_the_decorations() {
    let config = FormatterConfig { ansi: false, target: true, timestamp: false };
    let line = render_line(config, "ignored", LogLevel::Info, "app", "", &Vec::new());
    assert_eq!(line, "[INFO] app:");
}

#[test]
fn message_field_replaces_and_debug_message_only_fills() {
    let mut visitor = EventVisitor::new();
    visitor.push_debug_field("message", "first".to_string());
    visitor.push_debug_field("message", "second".to_string());
    assert_eq!(visitor.message, "first");
    assert_eq!(visitor.fields.len(), 1);
    assert_eq!(visitor.fields[0].name, "message");
    assert_eq!(visitor.fields[0].value, "second");

    visitor.push_field("message", "third".to_string());
    assert_eq!(visitor.message, "third");
    assert_eq!(visitor.fields.len(), 1);
}

#[test]
fn timestamps_are_rendered_by_the_time_crate() {
    let epoch = Timestamp::unix_epoch();
    let later = Timestamp::new(-44, 3, 15, 23, 59, 7, 5).expect("valid time");
    assert_eq!(line_timestamp(&later), "-0044-03-15 23:59:07");
    assert_eq!(file_timestamp(&later), "-0044-03-15_23-59-07");
    assert_eq!(line_timestamp(&epoch), "1970-01-01 00:00:00");
    assert_eq!(file_timestamp(&epoch), "1970-01-01_00-00-00");
    assert_eq!(timestamp_text(&epoch, "[year]"), Some("1970".to_string()));
    assert_eq!(timestamp_text(&epoch, "[unknown-component]"), None);
}

#[test]
fn config_without_ansi_keeps_the_rest() {
    let config = FormatterConfig { ansi: true, target: false, timestamp: true };
    assert_eq!(
        config.without_ansi(),
        FormatterConfig { ansi: false, target: false, timestamp: true }
    );
}

#[test]
fn timestamps_are_checked_when_built() {
    assert!(Timestamp::new(2024, 2, 29, 0, 0, 0, 0).is_some());
    assert!(Timestamp::new(2023, 2, 29, 0, 0, 0, 0).is_none());
    assert!(Timestamp::new(1900, 2, 29, 0, 0, 0, 0).is_none());
    assert!(Timestamp::new(2000, 2, 29, 0, 0, 0, 0).is_some());
    assert!(Timestamp::new(2026, 4, 31, 0, 0, 0, 0).is_none());
    assert!(Timestamp::new(2026, 13, 1, 0, 0, 0, 0).is_none());
    assert!(Timestamp::new(10000, 1, 1, 0, 0, 0, 0).is_none());
    assert!(Timestamp::new(2026, 1, 1, 24, 0, 0, 0).is_none());
    assert!(Timestamp::new(2026, 1, 1, 0, 0, 0, 1_000_000_000).is_none());
    let t = Timestamp::new(2026, 5, 25, 9, 40, 15, 7).expect("valid time");
    assert_eq!((t.year(), t.month(), t.day()), (2026, 5, 25));
    assert_eq!((t.hour(), t.minute(), t.second(), t.nanosecond()), (9, 40, 15, 7));
}
