//! Structured error types for mobile-sentinel operations.
use vstd::prelude::*;

verus! {

/// Platform identifier.
#[derive(Debug, Clone, Copy, PartialEq, Eq, Hash)]
pub enum Platform {
    Android,
    Unsupported,
}

/// Error codes for runtime errors.
#[derive(Debug, Clone, PartialEq, Eq, Hash)]
pub enum ErrorCode {
    /// A required resource is currently in use by another operation.
    ResourceBusy,
    /// An argument provided to the operation was invalid.
    InvalidArgument,
    /// The operation timed out before completing.
    Timeout,
    /// An internal error occurred within the subsystem.
    Internal,
    /// An I/O error occurred (file not found, network failure, etc.).
    IoError,
    /// The operation is not supported on this platform.
    Unsupported,
}

/// Top-level error type for all mobile-sentinel operations.
#[derive(Debug, Clone, PartialEq)]
pub enum SentinelError {
    /// The operation is not supported on this platform / has no backing
    /// implementation in the installed firing sink or capability module.
    PlatformUnsupported { platform: Platform, feature: String, fallback_suggestion: Option<String> },
    /// A runtime operation failed.
    RuntimeError { code: ErrorCode, message: String },
}

/// The display name of a platform.
pub open spec fn platform_name(p: Platform) -> Seq<char> {
    match p {
        Platform::Android => "Android"@,
        Platform::Unsupported => "Unsupported"@,
    }
}

/// The display name of an error code.
pub open spec fn error_code_name(c: ErrorCode) -> Seq<char> {
    match c {
        ErrorCode::ResourceBusy => "ResourceBusy"@,
        ErrorCode::InvalidArgument => "InvalidArgument"@,
        ErrorCode::Timeout => "Timeout"@,
        ErrorCode::Internal => "Internal"@,
        ErrorCode::IoError => "IoError"@,
        ErrorCode::Unsupported => "Unsupported"@,
    }
}

/// The rendered message of an error.
pub open spec fn error_text(e: SentinelError) -> Seq<char> {
    match e {
        SentinelError::PlatformUnsupported { platform, feature, .. } => "platform unsupported: "@
            + feature@ + " is not available on "@ + platform_name(platform),
        SentinelError::RuntimeError { code, message } => "runtime error ["@ + error_code_name(code)
            + "]: "@ + message@,
    }
}

/// The "this capability isn't available here" error for the entry point
/// `feature`, on this (host) build.
pub open spec fn unavailable_error(feature: Seq<char>, e: SentinelError) -> bool {
    e matches SentinelError::PlatformUnsupported { platform, feature: f, fallback_suggestion }
        && platform == Platform::Unsupported && f@ == feature && fallback_suggestion is None
}

impl Platform {
    /// The platform's display name.
    pub fn name(&self) -> (s: &'static str)
        ensures
            s@ == platform_name(*self),
    {
        match self {
            Platform::Android => "Android",
            Platform::Unsupported => "Unsupported",
        }
    }
}

impl ErrorCode {
    /// The code's display name.
    pub fn name(&self) -> (s: &'static str)
        ensures
            s@ == error_code_name(*self),
    {
        match self {
            ErrorCode::ResourceBusy => "ResourceBusy",
            ErrorCode::InvalidArgument => "InvalidArgument",
            ErrorCode::Timeout => "Timeout",
            ErrorCode::Internal => "Internal",
            ErrorCode::IoError => "IoError",
            ErrorCode::Unsupported => "Unsupported",
        }
    }
}

impl SentinelError {
    /// Construct the standard "this capability isn't available here" error
    /// used by every capability module on its host fallback path.
    ///
    /// `feature` should be the gated entry point, e.g. `"haptics::vibrate"`.
    /// This library is the host build, so the platform is `Unsupported`.
    pub fn unavailable(feature: &str) -> (e: Self)
        ensures
            unavailable_error(feature@, e),
    {
        SentinelError::PlatformUnsupported {
            platform: Platform::Unsupported,
            feature: feature.to_owned(),
            fallback_suggestion: None,
        }
    }

    /// The human-readable message of this error.
    pub fn to_text(&self) -> (s: String)
        ensures
            s@ == error_text(*self),
    {
        match self {
            SentinelError::PlatformUnsupported { platform, feature, .. } => {
                let mut s = String::from_str("platform unsupported: ");
                s.append(feature.as_str());
                s.append(" is not available on ");
                s.append(platform.name());
                s
            },
            SentinelError::RuntimeError { code, message } => {
                let mut s = String::from_str("runtime error [");
                s.append(code.name());
                s.append("]: ");
                s.append(message.as_str());
                s
            },
        }
    }
}

} // verus!
