use fusiontunx::logger::{log_line, LogLevel};

#[test]
fn level_names_are_case_insensitive() {
    assert_eq!(LogLevel::from_str("debug"), LogLevel::Debug);
    assert_eq!(LogLevel::from_str("DEBUG"), LogLevel::Debug);
    assert_eq!(LogLevel::from_str("Info"), LogLevel::Info);
    assert_eq!(LogLevel::from_str("warn"), LogLevel::Warn);
    assert_eq!(LogLevel::from_str("WARNING"), LogLevel::Warn);
    assert_eq!(LogLevel::from_str("eRRoR"), LogLevel::Error);
}

#[test]
fn unknown_level_means_info() {
    assert_eq!(LogLevel::from_str(""), LogLevel::Info);
    assert_eq!(LogLevel::from_str("verbose"), LogLevel::Info);
    assert_eq!(LogLevel::from_str(" debug"), LogLevel::Info);
}

#[test]
fn level_labels() {
    assert_eq!(LogLevel::Debug.as_str(), "DEBUG");
    assert_eq!(LogLevel::Info.as_str(), "INFO");
    assert_eq!(LogLevel::Warn.as_str(), "WARN");
    assert_eq!(LogLevel::Error.as_str(), "ERROR");
}

#[test]
fn label_reads_back() {
    for l in [LogLevel::Debug, LogLevel::Info, LogLevel::Warn, LogLevel::Error] {
        assert_eq!(LogLevel::from_str(l.as_str()), l);
    }
}

#[test]
fn severity_filter() {
    assert!(LogLevel::Error.passes(LogLevel::Warn));
    assert!(LogLevel::Warn.passes(LogLevel::Warn));
    assert!(!LogLevel::Debug.passes(LogLevel::Info));
    assert!(LogLevel::Debug.passes(LogLevel::Debug));
    assert_eq!(LogLevel::Debug.rank(), 0);
    assert_eq!(LogLevel::Error.rank(), 3);
}

#[test]
fn log_line_layout() {
    assert_eq!(log_line("2024/01/02 03:04:05", LogLevel::Warn, "disk full"), "2024/01/02 03:04:05 [WARN] disk full");
}

#[test]
fn lowercased_label_reads_back() {
    for l in [LogLevel::Debug, LogLevel::Info, LogLevel::Warn, LogLevel::Error] {
        assert_eq!(LogLevel::from_str(&l.as_str().to_lowercase()), l);
    }
}
