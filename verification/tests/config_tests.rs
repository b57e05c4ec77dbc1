use gic_core::cli::CliOptions;
use gic_core::config::AppConfig;
use gic_core::error::{GicError, IoFailure};

#[test]
fn test_default_app_config() {
    let config = AppConfig::default();
    assert_eq!(config.app_name, "GIC");
    assert_eq!(config.logging.level, "info");
    assert_eq!(config.logging.log_dir, "logs");
    assert_eq!(config.logging.log_file, "gic.log");
    assert_eq!(config.ui.tick_rate_ms, 250);
    assert_eq!(config.ui.frame_rate_fps, 60);
}

#[test]
fn test_config_error_formatting() {
    let err = GicError::Config("file not found".into());
    assert_eq!(err.to_message(), "Configuration error: file not found");
}

#[test]
fn test_logging_error_formatting() {
    let err = GicError::Logging("permission denied".into());
    assert_eq!(err.to_message(), "Logging initialization error: permission denied");
}

#[test]
fn test_terminal_error_formatting() {
    let err = GicError::Terminal("failed raw mode".into());
    assert_eq!(err.to_message(), "Terminal I/O error: failed raw mode");
}

#[test]
fn test_io_error_conversion() {
    let io_err = std::io::Error::new(std::io::ErrorKind::NotFound, "file missing");
    let gic_err: GicError = io_err.into();
    assert!(matches!(gic_err, GicError::Io(_)));
}

#[test]
fn test_fs_error_formatting() {
    let path = "missing.txt".to_string();
    let fnf = GicError::FileNotFound(path.clone());
    assert_eq!(fnf.to_message(), "File not found: missing.txt");

    let perm = GicError::PermissionDenied(path.clone());
    assert_eq!(perm.to_message(), "Permission denied: missing.txt");

    let invalid_utf8 =
        GicError::InvalidUtf8 { path: path.clone(), position: Some(10), message: "invalid byte sequence".into() };
    assert_eq!(invalid_utf8.to_message(), "Invalid UTF-8 in file 'missing.txt': invalid byte sequence");

    let too_large = GicError::FileTooLarge { path: path.clone(), size: 2000, max_size: 1000 };
    assert_eq!(too_large.to_message(), "File too large (2000 bytes exceeds max 1000 bytes): missing.txt");

    let no_path = GicError::NoPathSpecified;
    assert_eq!(no_path.to_message(), "No file path specified for operation");
}

#[test]
fn test_from_io_error_mapping() {
    let path = "dummy.txt".to_string();
    let io_not_found = std::io::Error::new(std::io::ErrorKind::NotFound, "not found");
    let err1 = GicError::from_io_error(path.clone(), io_not_found);
    assert!(matches!(err1, GicError::FileNotFound(_)));

    let io_perm = std::io::Error::new(std::io::ErrorKind::PermissionDenied, "denied");
    let err2 = GicError::from_io_error(path.clone(), io_perm);
    assert!(matches!(err2, GicError::PermissionDenied(_)));
}

#[test]
fn other_io_failures_keep_the_error() {
    let io_other = std::io::Error::new(std::io::ErrorKind::Other, "boom");
    let err = GicError::from_io_error("f.txt".to_string(), io_other);
    assert!(matches!(err, GicError::FsIo { .. }));
    assert_eq!(err.to_message(), "File system I/O error on 'f.txt': boom");
    let io = std::io::Error::new(std::io::ErrorKind::Other, "x");
    let err = GicError::from_io_failure("g".to_string(), IoFailure::NotFound, io);
    assert!(matches!(err, GicError::FileNotFound(ref p) if p == "g"));
    let io = std::io::Error::new(std::io::ErrorKind::Other, "disk");
    assert_eq!(GicError::Io(io).to_message(), "IO Error: disk");
}

#[test]
fn test_parse_default_args() {
    let args = vec!["gic"];
    let opts = CliOptions::parse_from(args);
    assert_eq!(opts.config_path, None);
    assert!(!opts.about);
    assert!(!opts.version);
}

#[test]
fn test_parse_config_flag_long() {
    let args = vec!["gic", "--config", "/etc/gic/config.toml"];
    let opts = CliOptions::parse_from(args);
    assert_eq!(opts.config_path, Some("/etc/gic/config.toml".to_string()));
}

#[test]
fn test_parse_config_flag_short() {
    let args = vec!["gic", "-c", "custom.toml"];
    let opts = CliOptions::parse_from(args);
    assert_eq!(opts.config_path, Some("custom.toml".to_string()));
}

#[test]
fn test_parse_about_flag() {
    let args = vec!["gic", "--about"];
    let opts = CliOptions::parse_from(args);
    assert!(opts.about);
}

#[test]
fn test_parse_version_flag() {
    let args = vec!["gic", "--version"];
    let opts = CliOptions::parse_from(args);
    assert!(opts.version);
}

#[test]
fn test_main_cli_options_integration() {
    let opts = CliOptions::parse_from(vec!["gic", "--config", "test.toml"]);
    assert_eq!(opts.config_path, Some("test.toml".to_string()));
}

#[test]
fn cli_trailing_config_flag_and_unknown_args() {
    let opts = CliOptions::parse_from(vec!["gic", "junk", "version", "-a", "-c"]);
    assert_eq!(opts.config_path, None);
    assert!(opts.about);
    assert!(opts.version);
    let opts = CliOptions::parse_from(vec!["gic", "-c", "a.toml", "--config", "b.toml"]);
    assert_eq!(opts.config_path, Some("b.toml".to_string()));
    let opts = CliOptions::parse_from(vec!["--about"]);
    assert!(!opts.about);
    assert_eq!(CliOptions::default(), CliOptions::parse_from(Vec::new()));
}
