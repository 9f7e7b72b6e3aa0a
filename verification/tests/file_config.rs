use piquel_log::file::session_file_name;
use piquel_log::{latest_path, session_path, validate_file_config, BuildError, FileConfig, InitError};
use piquel_log::Timestamp;

fn sample_timestamp() -> Timestamp {
    Timestamp::new(2026, 5, 25, 9, 40, 15, 0).expect("valid time")
}

#[test]
fn latest_file_uses_configured_name() {
    let config = FileConfig::new("logs").with_latest_file_name("current.log");
    assert_eq!(latest_path(&config), "logs/current.log");
}

#[test]
fn session_file_uses_timestamp_and_prefix() {
    let config = FileConfig::new("logs").with_session_file_prefix("app");
    assert_eq!(
        session_path(&config, &sample_timestamp()),
        "logs/app-2026-05-25_09-40-15.log"
    );
}

#[test]
fn rejects_empty_file_names() {
    let config = FileConfig::new("logs").with_latest_file_name("   ");
    match validate_file_config(&config) {
        Err(BuildError::InvalidFileConfig(message)) => {
            assert_eq!(message, "latest file name cannot be empty");
        }
        other => panic!("unexpected validation result: {other:?}"),
    }
}

#[test]
fn rejects_blank_session_prefixes() {
    let config = FileConfig::new("logs").with_session_file_prefix("\t\u{3000} ");
    match validate_file_config(&config) {
        Err(BuildError::InvalidFileConfig(message)) => {
            assert_eq!(message, "session file prefix cannot be empty");
        }
        other => panic!("unexpected validation result: {other:?}"),
    }
}

#[test]
fn accepts_default_and_named_configurations() {
    assert!(validate_file_config(&FileConfig::new("logs")).is_ok());
    let config = FileConfig::new("logs")
        .with_latest_file_name(" now.log ")
        .with_session_file_prefix("x");
    assert!(validate_file_config(&config).is_ok());
}

#[test]
fn defaults_and_getters() {
    let config = FileConfig::new("logs");
    assert_eq!(config.directory(), "logs");
    assert_eq!(config.latest_file_name(), "latest.log");
    assert_eq!(config.session_file_prefix(), None);
    assert_eq!(latest_path(&config), "logs/latest.log");
    let config = config.with_session_file_prefix("run");
    assert_eq!(config.session_file_prefix(), Some("run"));
}

#[test]
fn session_names_without_prefix() {
    let config = FileConfig::new("logs");
    assert_eq!(session_file_name(&config, "2026-05-25_09-40-15"), "2026-05-25_09-40-15.log");
    assert_eq!(
        session_path(&config, &sample_timestamp()),
        "logs/2026-05-25_09-40-15.log"
    );
}

#[test]
fn io_errors_convert_into_build_and_init_errors() {
    let io = std::io::Error::new(std::io::ErrorKind::PermissionDenied, "denied");
    let build = BuildError::from(io);
    assert!(matches!(build, BuildError::Io(_)));
    let init = InitError::from(build);
    assert!(matches!(init, InitError::Build(BuildError::Io(_))));
    assert!(matches!(InitError::AlreadyInitialized, InitError::AlreadyInitialized));
    assert!(matches!(
        InitError::LogBridgeAlreadyInitialized,
        InitError::LogBridgeAlreadyInitialized
    ));
}

#[test]
fn prefixed_session_files_carry_the_start_time() {
    let config = FileConfig::new("logs").with_session_file_prefix("app");
    let start = Timestamp::new(2026, 5, 25, 14, 22, 10, 0).expect("valid time");
    assert_eq!(session_path(&config, &start), "logs/app-2026-05-25_14-22-10.log");
}
