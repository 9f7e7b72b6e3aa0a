use piquel_log::{Timestamp, 
    format_event, CapturedEvent, CapturedField, EntryLog, EventVisitor, FormatterConfig, LogEntry, LogField,
    LogFilter, LogLevel, SinkEvent,
};

fn event(level: LogLevel, target: &str, message: &str, fields: &[(&str, &str)]) -> CapturedEvent {
    let mut visitor = EventVisitor::new();
    for (name, value) in fields {
        visitor.push_field(name, value.to_string());
    }
    visitor.push_debug_field("message", message.to_string());
    visitor.finish(Timestamp::unix_epoch(), level, target.to_string())
}

fn record(log: &mut EntryLog, level: LogLevel, target: &str, message: &str, fields: &[(&str, &str)]) {
    let base = FormatterConfig { ansi: true, target: true, timestamp: true };
    let captured = event(level, target, message, fields);
    let rendered = format_event(&captured, base.without_ansi());
    let sink_event = SinkEvent::new(&captured, &rendered.line);
    log.push(LogEntry::from_sink_event(&sink_event));
}

#[test]
fn store_backend_captures_structured_entries() {
    let mut store = EntryLog::new();
    record(
        &mut store,
        LogLevel::Info,
        "app::store",
        "hello store",
        &[("user", "alice"), ("answer", "42")],
    );

    let entries = store.entries();
    assert_eq!(entries.len(), 1);

    let entry = &entries[0];
    assert_eq!(entry.level(), LogLevel::Info);
    assert_eq!(entry.target(), "app::store");
    assert_eq!(entry.message(), "hello store");
    assert!(
        entry
            .fields()
            .iter()
            .any(|field| field.name() == "user" && field.value() == "alice")
    );
    assert!(
        entry
            .fields()
            .iter()
            .any(|field| field.name() == "answer" && field.value() == "42")
    );
    assert!(entry.rendered().contains("hello store"));
    assert!(entry.rendered().contains("answer=42"));
    assert!(!entry.rendered().contains("\x1b["));
}

#[test]
fn store_query_filters_by_level_threshold() {
    let mut store = EntryLog::new();
    record(&mut store, LogLevel::Error, "t", "error", &[]);
    record(&mut store, LogLevel::Warn, "t", "warn", &[]);
    record(&mut store, LogLevel::Info, "t", "info", &[]);
    record(&mut store, LogLevel::Debug, "t", "debug", &[]);

    let entries = store.query(&LogFilter::new().with_max_level(LogLevel::Warn));
    let levels = entries.iter().map(LogEntry::level).collect::<Vec<_>>();

    assert_eq!(levels, vec![LogLevel::Error, LogLevel::Warn]);
}

#[test]
fn store_query_filters_by_target_and_prefix() {
    let mut store = EntryLog::new();
    record(&mut store, LogLevel::Info, "app::db", "database", &[]);
    record(&mut store, LogLevel::Info, "app::http", "http", &[]);
    record(&mut store, LogLevel::Info, "other", "other", &[]);

    let exact = store.query(&LogFilter::new().with_target("app::db"));
    assert_eq!(exact.len(), 1);
    assert_eq!(exact[0].target(), "app::db");

    let prefixed = store.query(&LogFilter::new().with_target_prefix("app::"));
    let targets = prefixed.iter().map(LogEntry::target).collect::<Vec<_>>();
    assert_eq!(targets, vec!["app::db", "app::http"]);
}

#[test]
fn store_query_filters_by_text() {
    let mut store = EntryLog::new();
    record(
        &mut store,
        LogLevel::Info,
        "app::text",
        "needle message",
        &[("account_id", "alice"), ("status", "ok")],
    );

    for text in ["needle", "account_id", "alice", "status=ok"] {
        let entries = store.query(&LogFilter::new().containing_text(text));
        assert_eq!(entries.len(), 1, "expected one match for {text}");
    }
    let entries = store.query(&LogFilter::new().containing_text("haystack"));
    assert!(entries.is_empty());
}

#[test]
fn store_query_limit_returns_recent_matches_in_chronological_order() {
    let mut store = EntryLog::new();
    record(&mut store, LogLevel::Info, "t", "match one", &[]);
    record(&mut store, LogLevel::Info, "t", "match two", &[]);
    record(&mut store, LogLevel::Info, "t", "match three", &[]);

    let entries = store.query(&LogFilter::new().containing_text("match").with_limit(2));
    let messages = entries.iter().map(LogEntry::message).collect::<Vec<_>>();

    assert_eq!(messages, vec!["match two", "match three"]);
}

#[test]
fn empty_filter_returns_every_entry_in_order() {
    let mut store = EntryLog::new();
    record(&mut store, LogLevel::Trace, "a", "first", &[]);
    record(&mut store, LogLevel::Error, "b", "second", &[]);
    let all = store.query(&LogFilter::new());
    assert_eq!(all, store.entries());
    assert_eq!(all.len(), 2);
    let messages = all.iter().map(LogEntry::message).collect::<Vec<_>>();
    assert_eq!(messages, vec!["first", "second"]);
}

#[test]
fn limits_of_zero_and_above_the_match_count() {
    let mut store = EntryLog::new();
    record(&mut store, LogLevel::Info, "t", "one", &[]);
    record(&mut store, LogLevel::Info, "t", "two", &[]);
    assert!(store.query(&LogFilter::new().with_limit(0)).is_empty());
    assert_eq!(store.query(&LogFilter::new().with_limit(5)).len(), 2);
    assert_eq!(LogFilter::new().with_limit(3).limit(), Some(3));
}

#[test]
fn conditions_combine() {
    let mut store = EntryLog::new();
    record(&mut store, LogLevel::Error, "app::db", "lost connection", &[]);
    record(&mut store, LogLevel::Info, "app::db", "lost connection", &[]);
    record(&mut store, LogLevel::Error, "web", "lost connection", &[]);
    let filter = LogFilter::new()
        .with_max_level(LogLevel::Warn)
        .with_target_prefix("app")
        .containing_text("connection");
    let found = store.query(&filter);
    assert_eq!(found.len(), 1);
    assert_eq!(found[0].level(), LogLevel::Error);
    assert_eq!(found[0].target(), "app::db");
    assert!(filter.matches(&found[0]));
    assert!(!filter.matches(&store.entries()[1]));
}

#[test]
fn appended_entries_come_last() {
    let mut store = EntryLog::new();
    record(&mut store, LogLevel::Info, "t", "before", &[]);
    let before = store.query(&LogFilter::new().containing_text("e"));
    record(&mut store, LogLevel::Info, "t", "later", &[]);
    let after = store.query(&LogFilter::new().containing_text("e"));
    assert_eq!(after.len(), before.len() + 1);
    assert_eq!(after[0], before[0]);
    assert_eq!(after[1].message(), "later");
}

#[test]
fn fields_keep_name_and_value() {
    let captured = CapturedField { name: "user".to_string(), value: "alice".to_string() };
    let field = LogField::from_captured(&captured);
    assert_eq!(field.name(), "user");
    assert_eq!(field.value(), "alice");
    assert_eq!(field.copied(), field);
}
