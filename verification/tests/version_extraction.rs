use antigravity_ua::{is_valid_version, parse_version};

#[test]
fn test_parse_version_from_updater_response() {
    let text = "Auto updater is running. Stable Version: 1.15.8-5724687216017408";
    assert_eq!(parse_version(text), Some("1.15.8".to_string()));
}

#[test]
fn test_parse_version_simple() {
    assert_eq!(parse_version("1.15.8"), Some("1.15.8".to_string()));
    assert_eq!(parse_version("Version: 2.0.0"), Some("2.0.0".to_string()));
    assert_eq!(parse_version("v1.2.3"), Some("1.2.3".to_string()));
}

#[test]
fn test_parse_version_invalid() {
    assert_eq!(parse_version("no version here"), None);
    assert_eq!(parse_version(""), None);
    assert_eq!(parse_version("1.2"), None); // Only X.Y, not X.Y.Z
}

#[test]
fn test_parse_version_with_suffix() {
    // Only X.Y.Z is matched, the suffix is naturally excluded
    let text = "antigravity/1.15.8 windows/amd64";
    assert_eq!(parse_version(text), Some("1.15.8".to_string()));
}

#[test]
fn test_parse_version_first_match_only() {
    assert_eq!(
        parse_version("old 1.2.3, new 4.5.6"),
        Some("1.2.3".to_string())
    );
}

#[test]
fn test_parse_version_multi_digit_components() {
    assert_eq!(parse_version("12.345.6789"), Some("12.345.6789".to_string()));
    // A digit directly before the triple belongs to its first number
    assert_eq!(parse_version("91.2.3"), Some("91.2.3".to_string()));
}

#[test]
fn test_parse_version_stops_at_fourth_component() {
    assert_eq!(parse_version("1.2.3.4"), Some("1.2.3".to_string()));
}

#[test]
fn test_parse_version_rejects_broken_triples() {
    assert_eq!(parse_version("1..2.3"), None);
    assert_eq!(parse_version("1.2."), None);
    assert_eq!(parse_version(".1.2"), None);
    assert_eq!(parse_version("a.b.c"), None);
}

#[test]
fn test_parse_version_idempotent() {
    let text = "Stable Version: 1.15.8-5724687216017408";
    let first = parse_version(text);
    let second = parse_version(text);
    assert_eq!(first, second);
    assert_eq!(parse_version(""), parse_version(""));
    assert_eq!(parse_version("v1.2.3"), parse_version("v1.2.3"));
}

#[test]
fn test_parse_version_non_ascii_text() {
    assert_eq!(
        parse_version("héllo wörld — v1.2.3 released"),
        Some("1.2.3".to_string())
    );
    assert_eq!(parse_version("héllo wörld"), None);
}

#[test]
fn test_is_valid_version() {
    assert!(is_valid_version("1.15.8"));
    assert!(is_valid_version("0.0.0"));
    assert!(is_valid_version("12.345.6789"));
    assert!(!is_valid_version(""));
    assert!(!is_valid_version("1.2"));
    assert!(!is_valid_version("v1.2.3"));
    assert!(!is_valid_version("1.15.8-5724687216017408"));
    assert!(!is_valid_version("1.2.3.4"));
}
