use mobile_sentinel::error::{ErrorCode, Platform, SentinelError};

#[test]
fn runtime_error_renders_code_and_message() {
    let e = SentinelError::RuntimeError {
        code: ErrorCode::Internal,
        message: "boom".into(),
    };
    assert_eq!(e.to_text(), "runtime error [Internal]: boom");
}

#[test]
fn platform_unsupported_renders_feature() {
    let e = SentinelError::PlatformUnsupported {
        platform: Platform::Unsupported,
        feature: "speech::speak".into(),
        fallback_suggestion: None,
    };
    assert!(e.to_text().contains("speech::speak"));
}

#[test]
fn unavailable_error_names_the_entry_point() {
    let e = SentinelError::unavailable("haptics::vibrate");
    assert_eq!(
        e,
        SentinelError::PlatformUnsupported {
            platform: Platform::Unsupported,
            feature: "haptics::vibrate".into(),
            fallback_suggestion: None,
        }
    );
    assert_eq!(
        e.to_text(),
        "platform unsupported: haptics::vibrate is not available on Unsupported"
    );
}
