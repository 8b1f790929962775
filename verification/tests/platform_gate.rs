use collab::platform::{
    ensure_supported_platform, is_supported_macos_major, parse_macos_major_version, Detected,
    PlatformError,
};

#[test]
fn parses_full_product_version() {
    assert_eq!(parse_macos_major_version("15.7.7\n"), Some(15));
    assert_eq!(parse_macos_major_version("26.0"), Some(26));
    assert_eq!(parse_macos_major_version("14.6.1"), Some(14));
}

#[test]
fn rejects_unparseable_version() {
    assert_eq!(parse_macos_major_version(""), None);
    assert_eq!(parse_macos_major_version("beta"), None);
}

#[test]
fn gates_on_minimum_major_version() {
    assert!(!is_supported_macos_major(13));
    assert!(!is_supported_macos_major(14));
    assert!(is_supported_macos_major(15));
    assert!(is_supported_macos_major(26));
}

#[test]
fn error_message_names_minimum_platform() {
    let message = PlatformError::UnsupportedMacosVersion("14.6.1".into()).message();
    assert!(message.contains("macOS 15"));
    assert!(message.contains("14.6.1"));

    let message = PlatformError::UnsupportedOs.message();
    assert!(message.contains("macOS 15"));
}

#[test]
fn detects_current_platform_as_supported() {
    assert_eq!(
        ensure_supported_platform(Detected::Printed("15.7.7\n".into())),
        Ok(())
    );
}

#[test]
fn version_numbers_follow_the_decimal_notation() {
    assert_eq!(parse_macos_major_version("  +15.1"), Some(15));
    assert_eq!(parse_macos_major_version("18446744073709551615"), Some(u64::MAX));
    assert_eq!(parse_macos_major_version("18446744073709551616"), None);
    assert_eq!(parse_macos_major_version("+"), None);
    assert_eq!(parse_macos_major_version("-1.0"), None);
    assert_eq!(parse_macos_major_version(".5"), None);
}

#[test]
fn refused_platforms_say_why() {
    assert_eq!(
        ensure_supported_platform(Detected::OtherSystem),
        Err(PlatformError::UnsupportedOs)
    );
    assert_eq!(
        ensure_supported_platform(Detected::Printed("14.6.1\n".into())),
        Err(PlatformError::UnsupportedMacosVersion("14.6.1".into()))
    );
    assert_eq!(
        ensure_supported_platform(Detected::Printed("be\"ta\n".into())),
        Err(PlatformError::VersionDetectionFailed(
            "unparseable version \"be\\\"ta\\n\"".into()
        ))
    );
    assert_eq!(
        ensure_supported_platform(Detected::Exited("exit status: 1".into()))
            .unwrap_err()
            .message(),
        "collab requires macOS 15 or later; failed to detect macOS version: sw_vers exited with exit status: 1"
    );
    assert_eq!(
        ensure_supported_platform(Detected::Unknown("not found".into())),
        Err(PlatformError::VersionDetectionFailed("not found".into()))
    );
}
