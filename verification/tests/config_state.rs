use piquel_log::config::{console_sink_update, sink_formatter_config};
use piquel_log::FormatterConfig;
use piquel_log::{BackendKind, FileConfig, LogLevel, LoggerState, SinkUpdate};

#[test]
fn defaults_match_public_contract() {
    let state: LoggerState<()> = LoggerState::new();

    assert_eq!(state.max_level(), LogLevel::Info);
    assert!(state.ansi());
    assert!(state.target());
    assert!(state.timestamp());
    assert_eq!(state.backend_specs().len(), 1);
    assert!(matches!(state.backend_specs()[0].kind, BackendKind::Console));
    assert!(!state.log_bridge());
}

#[test]
fn max_level_is_stored() {
    let mut state: LoggerState<()> = LoggerState::new();
    state.set_max_level(LogLevel::Debug);
    assert_eq!(state.max_level(), LogLevel::Debug);
}

#[test]
fn console_sink_can_be_disabled() {
    let mut state: LoggerState<()> = LoggerState::new();
    state.set_console_enabled(false);
    assert!(state.backend_specs().is_empty());
}

#[test]
fn console_sink_can_be_reenabled() {
    let mut state: LoggerState<()> = LoggerState::new();
    state.set_console_enabled(false);
    state.set_console_enabled(true);

    assert_eq!(state.backend_specs().len(), 1);
    assert!(matches!(state.backend_specs()[0].kind, BackendKind::Console));
}

#[test]
fn console_toggles_report_the_console_id() {
    let mut state: LoggerState<()> = LoggerState::new();
    assert_eq!(state.set_console_enabled(true), Some(0));
    assert_eq!(state.backend_specs().len(), 1);
    assert_eq!(state.set_console_enabled(false), Some(0));
    assert_eq!(state.set_console_enabled(false), None);
    assert_eq!(state.set_console_enabled(true), Some(1));
    assert_eq!(state.next_backend_id(), 2);
    assert_eq!(state.backend_specs()[0].id, 1);
}

#[test]
fn reenabled_console_goes_before_staged_backends() {
    let mut state: LoggerState<u8> = LoggerState::new();
    state.set_console_enabled(false);
    let file_id = state.stage_file_backend(FileConfig::new("logs"));
    let store_id = state.stage_store_backend(7);
    assert_eq!((file_id, store_id), (1, 2));
    assert_eq!(state.set_console_enabled(true), Some(3));

    let ids: Vec<usize> = state.backend_specs().iter().map(|spec| spec.id).collect();
    assert_eq!(ids, vec![3, 1, 2]);
    assert!(matches!(state.backend_specs()[0].kind, BackendKind::Console));
    assert!(matches!(state.backend_specs()[1].kind, BackendKind::File(_)));
    assert!(matches!(state.backend_specs()[2].kind, BackendKind::Store(7)));

    state.set_console_enabled(false);
    let ids: Vec<usize> = state.backend_specs().iter().map(|spec| spec.id).collect();
    assert_eq!(ids, vec![1, 2]);
}

#[test]
fn settings_are_stored() {
    let mut state: LoggerState<()> = LoggerState::new();
    state.set_ansi(false);
    state.set_target(false);
    state.set_timestamp(false);
    state.set_log_bridge(true);
    assert!(!state.ansi());
    assert!(!state.target());
    assert!(!state.timestamp());
    assert!(state.log_bridge());

    let config = state.formatter_config();
    assert!(!config.ansi && !config.target && !config.timestamp);
    assert_eq!(state.backend_specs().len(), 1);
}

#[test]
fn unrealized_backends_are_those_without_sinks() {
    let mut state: LoggerState<()> = LoggerState::new();
    state.stage_file_backend(FileConfig::new("a"));
    state.stage_file_backend(FileConfig::new("b"));

    assert_eq!(state.unrealized_backends(&[]), vec![0, 1, 2]);
    assert_eq!(state.unrealized_backends(&[0, 2]), vec![1]);
    assert_eq!(state.unrealized_backends(&[2, 1, 0]), Vec::<usize>::new());
}

#[test]
fn console_sink_updates_follow_the_toggle() {
    assert_eq!(console_sink_update(true, Some(3), false), SinkUpdate::Register(3));
    assert_eq!(console_sink_update(true, Some(3), true), SinkUpdate::Keep);
    assert_eq!(console_sink_update(false, Some(3), true), SinkUpdate::Unregister(3));
    assert_eq!(console_sink_update(false, None, false), SinkUpdate::Keep);
    assert_eq!(console_sink_update(true, None, false), SinkUpdate::Keep);
}

#[test]
fn colors_go_to_the_console_only() {
    let base = FormatterConfig { ansi: true, target: true, timestamp: false };
    assert_eq!(sink_formatter_config(true, base), base);
    assert_eq!(
        sink_formatter_config(false, base),
        FormatterConfig { ansi: false, target: true, timestamp: false }
    );
}

#[test]
fn console_presence_is_reported() {
    let mut state: LoggerState<()> = LoggerState::new();
    assert!(state.has_console());
    state.set_console_enabled(false);
    assert!(!state.has_console());
    state.stage_file_backend(FileConfig::new("logs"));
    assert!(!state.has_console());
    state.set_console_enabled(true);
    assert!(state.has_console());
}
