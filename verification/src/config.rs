//! Application configuration values and their defaults.

use vstd::prelude::*;

verus! {

/// Main application configuration.
#[derive(Debug, Clone, PartialEq, Eq)]
pub struct AppConfig {
    pub app_name: String,
    pub logging: LogConfig,
    pub ui: UIConfig,
}

impl Default for AppConfig {
    fn default() -> (r: Self)
        ensures
            r.app_name@ == "GIC"@,
            r.logging.level@ == "info"@,
            r.logging.log_dir@ == "logs"@,
            r.logging.log_file@ == "gic.log"@,
            r.ui == (UIConfig { tick_rate_ms: 250, frame_rate_fps: 60 }),
    {
        AppConfig {
            app_name: "GIC".to_owned(),
            logging: LogConfig::default(),
            ui: UIConfig::default(),
        }
    }
}

/// Settings of structured logging.
#[derive(Debug, Clone, PartialEq, Eq)]
pub struct LogConfig {
    pub level: String,
    pub log_dir: String,
    pub log_file: String,
}

impl Default for LogConfig {
    fn default() -> (r: Self)
        ensures
            r.level@ == "info"@,
            r.log_dir@ == "logs"@,
            r.log_file@ == "gic.log"@,
    {
        LogConfig {
            level: "info".to_owned(),
            log_dir: "logs".to_owned(),
            log_file: "gic.log".to_owned(),
        }
    }
}

/// Settings of the terminal UI.
#[derive(Debug, Clone, Copy, PartialEq, Eq, Structural)]
pub struct UIConfig {
    pub tick_rate_ms: u64,
    pub frame_rate_fps: u64,
}

impl Default for UIConfig {
    fn default() -> (r: Self)
        ensures
            r == (UIConfig { tick_rate_ms: 250, frame_rate_fps: 60 }),
    {
        UIConfig { tick_rate_ms: 250, frame_rate_fps: 60 }
    }
}

} // verus!
