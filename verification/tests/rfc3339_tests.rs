use breakfast::rfc3339::{is_valid_rfc3339, normalize_to_rfc3339, normalize_would_cut_char};

#[test]
fn valid_rfc3339_utc_z() {
    assert!(is_valid_rfc3339("2025-01-15T12:30:00Z"));
}

#[test]
fn valid_rfc3339_utc_lowercase_z() {
    assert!(is_valid_rfc3339("2025-01-15T12:30:00z"));
}

#[test]
fn valid_rfc3339_with_offset() {
    assert!(is_valid_rfc3339("2025-01-15T12:30:00+00:00"));
}

#[test]
fn valid_rfc3339_negative_offset() {
    assert!(is_valid_rfc3339("2025-01-15T12:30:00-05:00"));
}

#[test]
fn valid_rfc3339_with_fractional_seconds() {
    assert!(is_valid_rfc3339("2025-01-15T12:30:00.123456Z"));
}

#[test]
fn valid_rfc3339_with_fractional_and_offset() {
    assert!(is_valid_rfc3339("2025-01-15T12:30:00.123456+02:00"));
}

#[test]
fn valid_rfc3339_nine_digit_fractional() {
    assert!(is_valid_rfc3339("2025-01-15T12:30:00.123456789Z"));
}

#[test]
fn valid_rfc3339_with_trailing_whitespace() {
    assert!(is_valid_rfc3339("2025-01-15T12:30:00Z "));
}

#[test]
fn invalid_space_separator() {
    assert!(!is_valid_rfc3339("2025-01-15 12:30:00Z"));
}

#[test]
fn invalid_offset_missing_minutes() {
    assert!(!is_valid_rfc3339("2025-01-15T12:30:00+00"));
}

#[test]
fn invalid_compact_offset() {
    assert!(!is_valid_rfc3339("2025-01-15T12:30:00+0000"));
}

#[test]
fn invalid_no_offset() {
    assert!(!is_valid_rfc3339("2025-01-15T12:30:00"));
}

#[test]
fn invalid_too_short() {
    assert!(!is_valid_rfc3339("2025-01-15"));
}

#[test]
fn invalid_empty() {
    assert!(!is_valid_rfc3339(""));
}

#[test]
fn invalid_offset_with_seconds() {
    assert!(!is_valid_rfc3339("2025-01-15T12:30:00+00:00:00"));
}

#[test]
fn invalid_fraction_without_digits() {
    assert!(!is_valid_rfc3339("2025-01-15T12:30:00.Z"));
}

#[test]
fn normalize_space_separator() {
    assert_eq!(
        normalize_to_rfc3339("2025-01-15 12:30:00+00:00"),
        Some("2025-01-15T12:30:00+00:00".to_string())
    );
}

#[test]
fn normalize_space_and_short_offset() {
    assert_eq!(
        normalize_to_rfc3339("2025-01-15 12:30:00+00"),
        Some("2025-01-15T12:30:00+00:00".to_string())
    );
}

#[test]
fn normalize_space_separator_z() {
    assert_eq!(
        normalize_to_rfc3339("2025-01-15 12:30:00Z"),
        Some("2025-01-15T12:30:00Z".to_string())
    );
}

#[test]
fn normalize_compact_offset() {
    assert_eq!(
        normalize_to_rfc3339("2025-01-15T12:30:00+0530"),
        Some("2025-01-15T12:30:00+05:30".to_string())
    );
}

#[test]
fn normalize_space_and_fractional_and_short_offset() {
    assert_eq!(
        normalize_to_rfc3339("2025-01-15 12:30:00.123456+00"),
        Some("2025-01-15T12:30:00.123456+00:00".to_string())
    );
}

#[test]
fn normalize_offset_with_seconds() {
    assert_eq!(
        normalize_to_rfc3339("2025-01-15T12:30:00+05:30:00"),
        Some("2025-01-15T12:30:00+05:30".to_string())
    );
}

#[test]
fn normalize_no_offset_assumes_utc() {
    assert_eq!(
        normalize_to_rfc3339("2025-01-15 12:30:00"),
        Some("2025-01-15T12:30:00Z".to_string())
    );
}

#[test]
fn normalize_trailing_whitespace() {
    assert_eq!(
        normalize_to_rfc3339("2025-01-15 12:30:00.123+00:00 "),
        Some("2025-01-15T12:30:00.123+00:00".to_string())
    );
}

#[test]
fn normalize_already_valid_is_canonical() {
    assert_eq!(
        normalize_to_rfc3339("2025-01-15T12:30:00Z"),
        Some("2025-01-15T12:30:00Z".to_string())
    );
}

#[test]
fn normalize_already_valid_with_offset() {
    assert_eq!(
        normalize_to_rfc3339("2025-01-15T12:30:00.999+02:00"),
        Some("2025-01-15T12:30:00.999+02:00".to_string())
    );
}

#[test]
fn normalize_negative_short_offset() {
    assert_eq!(
        normalize_to_rfc3339("2025-01-15 12:30:00-05"),
        Some("2025-01-15T12:30:00-05:00".to_string())
    );
}

#[test]
fn normalize_garbage_returns_none() {
    assert_eq!(normalize_to_rfc3339("not-a-timestamp"), None);
}

#[test]
fn normalize_too_short_returns_none() {
    assert_eq!(normalize_to_rfc3339("2025"), None);
}

#[test]
fn normalize_empty_returns_none() {
    assert_eq!(normalize_to_rfc3339(""), None);
}

#[test]
fn normalized_value_passes_validation() {
    let problematic = [
        "2025-01-15 12:30:00+00:00",
        "2025-01-15 12:30:00+00",
        "2025-01-15 12:30:00.123456+00",
        "2025-01-15T12:30:00+0000",
        "2025-01-15 12:30:00",
        "2025-01-15 12:30:00.123456+00:00 ",
        "2025-01-15T12:30:00+05:30:00",
    ];
    for input in &problematic {
        let normalized = normalize_to_rfc3339(input)
            .unwrap_or_else(|| panic!("failed to normalize: {}", input));
        assert!(
            is_valid_rfc3339(&normalized),
            "normalized value '{}' (from '{}') should be valid RFC 3339",
            normalized,
            input
        );
    }
}

#[test]
fn normalize_lowercase_separator_and_z() {
    assert_eq!(
        normalize_to_rfc3339("2025-01-15t12:30:00z"),
        Some("2025-01-15T12:30:00Z".to_string())
    );
}

#[test]
fn normalize_refuses_non_numeric_offsets() {
    assert_eq!(normalize_to_rfc3339("2025-01-15 12:30:00+ab:cd"), None);
    assert_eq!(normalize_to_rfc3339("2025-01-15 12:30:00+01:3x"), None);
    assert_eq!(normalize_to_rfc3339("2025-01-15 12:30:00+ab:cd:ef"), None);
    assert_eq!(
        normalize_to_rfc3339("2025-01-15 12:30:00+01:30:45"),
        Some("2025-01-15T12:30:00+01:30".to_string())
    );
}

#[test]
fn normalize_keeps_wall_clock_reading() {
    let n = normalize_to_rfc3339(" 2025-01-15 23:59:58.125-0530 ").unwrap();
    assert_eq!(n, "2025-01-15T23:59:58.125-05:30");
    assert!(is_valid_rfc3339(&n));
}

#[test]
fn normalize_refuses_bad_offsets() {
    assert_eq!(normalize_to_rfc3339("2025-01-15 12:30:00+0"), None);
    assert_eq!(normalize_to_rfc3339("2025-01-15 12:30:00 UTC"), None);
    assert_eq!(normalize_to_rfc3339("2025-01-15 12:30:00+0a"), None);
}

#[test]
fn cut_characters_are_detected() {
    assert!(normalize_would_cut_char("2025-01-1\u{e9}12:30:00Z"));
    assert!(normalize_would_cut_char("2025-01-15 12:30:0\u{e9}Z"));
    assert!(!normalize_would_cut_char("2025-01-15 12:30:00Z"));
    assert!(!normalize_would_cut_char("short"));
}

#[test]
fn normalize_gives_up_on_cut_characters() {
    assert_eq!(normalize_to_rfc3339("2025-01-1\u{e9}12:30:00Z"), None);
    assert_eq!(normalize_to_rfc3339("2025-01-15 12:30:0\u{e9}Z"), None);
}
