//! Initialization settings: logging and crash-loop mitigation.
use vstd::prelude::*;

verus! {

/// The maximum log level.
#[derive(Debug, Clone, Copy, PartialEq, Eq, Hash)]
pub enum LogLevel {
    Off,
    Error,
    Warn,
    Info,
    Debug,
    Trace,
}

/// The default log tag.
pub const DEFAULT_LOG_TAG: &'static str = "MobileSentinel";

/// Configuration for initialization.
#[derive(Debug, Clone)]
pub struct InitConfig {
    /// Initialize the Android logger (logcat). Default: true.
    pub logger: bool,
    /// Install the SIGABRT handler that prevents crash-loop throttling.
    /// Default: true.
    pub crash_loop_mitigation: bool,
    /// Log tag for logcat. Default: "MobileSentinel".
    pub log_tag: String,
    /// Maximum log level. Default: Debug.
    pub log_level: LogLevel,
}

impl Default for InitConfig {
    fn default() -> (r: Self)
        ensures
            r.logger,
            r.crash_loop_mitigation,
            r.log_tag@ == DEFAULT_LOG_TAG@,
            r.log_level == LogLevel::Debug,
    {
        InitConfig {
            logger: true,
            crash_loop_mitigation: true,
            log_tag: DEFAULT_LOG_TAG.to_owned(),
            log_level: LogLevel::Debug,
        }
    }
}

} // verus!
