use padproxy::logging::{enabled, format_line, max_level_from, LogLevel};

#[test]
fn parses_and_orders_levels() {
    assert_eq!(LogLevel::parse("INFO"), Some(LogLevel::Info));
    assert_eq!(LogLevel::parse("warning"), Some(LogLevel::Warn));
    assert_eq!(LogLevel::parse("nonsense"), None);
    assert!(LogLevel::Error < LogLevel::Info);
    assert!(LogLevel::Info < LogLevel::Trace);
}

#[test]
fn formats_structured_line() {
    let line = format_line(1234, LogLevel::Warn, "remap", "source grabbed");
    assert_eq!(line, "[1234] WARN remap: source grabbed");
}

#[test]
fn reads_the_level_setting() {
    assert_eq!(max_level_from(None), Some(LogLevel::Info));
    assert_eq!(max_level_from(Some(" OFF ")), None);
    assert_eq!(max_level_from(Some("")), None);
    assert_eq!(max_level_from(Some("  ")), None);
    assert_eq!(max_level_from(Some("trace")), Some(LogLevel::Trace));
    assert_eq!(max_level_from(Some("loud")), Some(LogLevel::Info));
    assert!(enabled(LogLevel::Warn, Some(LogLevel::Info)));
    assert!(!enabled(LogLevel::Debug, Some(LogLevel::Info)));
    assert!(!enabled(LogLevel::Error, None));
}
