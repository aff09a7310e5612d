use std::path::PathBuf;
use utils_multiproc::log_config::{level_from_lowercase, AppLogConfig, Level};

#[test]
fn test_level() {
    // Test for upper and lower case
    let inputs = vec![
        ("error", Level::Error),
        ("ERROR", Level::Error),
        ("warn", Level::Warn),
        ("WARN", Level::Warn),
        ("info", Level::Info),
        ("INFO", Level::Info),
        ("debug", Level::Debug),
        ("DEBUG", Level::Debug),
        ("trace", Level::Trace),
        ("TRACE", Level::Trace),
        ("INVALID_USE_INPUT", Level::Info),
    ];

    for (level_str, level) in inputs {
        let config = AppLogConfig::new(String::from(level_str), None);
        assert_eq!(config.level, level);
    }
}

#[test]
fn test_path() {
    let filename = "foo.log";
    let path = PathBuf::from(filename);
    let config = AppLogConfig::new(String::from("error"), Some(path));
    assert_eq!(config.path.unwrap(), PathBuf::from(filename))
}

#[test]
fn mixed_case_verbosity_is_folded() {
    let config = AppLogConfig::new(String::from("DeBuG"), None);
    assert_eq!(config.level, Level::Debug);
    assert!(config.path.is_none());
}

#[test]
fn lowercase_names_only_match_exactly() {
    assert_eq!(level_from_lowercase("trace"), Level::Trace);
    assert_eq!(level_from_lowercase("TRACE"), Level::Info);
    assert_eq!(level_from_lowercase(""), Level::Info);
    assert_eq!(level_from_lowercase("warning"), Level::Info);
}

#[test]
fn filter_is_lowercase_level_name() {
    assert_eq!(AppLogConfig::new(String::from("WARN"), None).filter(), "warn");
    assert_eq!(AppLogConfig::new(String::from("x"), None).filter(), "info");
    assert_eq!(Level::Error.name(), "error");
    assert_eq!(Level::Trace.name(), "trace");
}
