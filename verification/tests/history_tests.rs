use breakfast::history::{
    compute_checksum, plan_history_fixes, plan_history_row_fix, EmbeddedMigration, HistoryRow,
};
use breakfast::rfc3339::is_valid_rfc3339;
use breakfast::text::is_u64_text;
use std::hash::{Hash, Hasher};

#[test]
fn checksum_is_deterministic() {
    let a = compute_checksum("initial_schema", 1, "CREATE TABLE foo;");
    let b = compute_checksum("initial_schema", 1, "CREATE TABLE foo;");
    assert_eq!(a, b);
}

#[test]
fn checksum_differs_for_different_sql() {
    let a = compute_checksum("initial_schema", 1, "CREATE TABLE foo;");
    let b = compute_checksum("initial_schema", 1, "CREATE TABLE bar;");
    assert_ne!(a, b);
}

#[test]
fn checksum_differs_for_different_version() {
    let a = compute_checksum("initial_schema", 1, "CREATE TABLE foo;");
    let b = compute_checksum("initial_schema", 2, "CREATE TABLE foo;");
    assert_ne!(a, b);
}

#[test]
fn checksum_differs_for_different_name() {
    let a = compute_checksum("initial_schema", 1, "CREATE TABLE foo;");
    let b = compute_checksum("add_index", 1, "CREATE TABLE foo;");
    assert_ne!(a, b);
}

#[test]
fn checksum_matches_the_migration_runner() {
    let mut h = siphasher::sip::SipHasher13::new();
    "initial_schema".hash(&mut h);
    1i32.hash(&mut h);
    "CREATE TABLE foo;".hash(&mut h);
    assert_eq!(compute_checksum("initial_schema", 1, "CREATE TABLE foo;"), h.finish());
}

#[test]
fn u64_text_is_read_as_str_parse_reads_it() {
    for s in ["0", "18446744073709551615", "+7", "007", "18446744073709551616", "", "+", "-1", "unused", " 1", "1 "] {
        assert_eq!(is_u64_text(s), s.parse::<u64>().is_ok(), "{s}");
    }
}

fn row(version: i32, name: &str, applied_on: &str, checksum: &str) -> HistoryRow {
    HistoryRow {
        version,
        name: name.to_string(),
        applied_on: applied_on.to_string(),
        checksum: checksum.to_string(),
    }
}

fn embedded() -> Vec<EmbeddedMigration> {
    vec![
        EmbeddedMigration { version: 1, name: "initial_schema".to_string(), sql: Some("CREATE TABLE foo;".to_string()) },
        EmbeddedMigration { version: 2, name: "add_index".to_string(), sql: None },
    ]
}

const NOW: &str = "2025-06-01T00:00:00.5Z";

#[test]
fn valid_row_needs_no_fix() {
    let r = row(1, "initial_schema", "2025-01-15T12:30:00Z", "12345");
    assert!(plan_history_row_fix(&r, &embedded(), NOW).is_none());
}

#[test]
fn bad_timestamp_is_normalized() {
    let r = row(1, "initial_schema", "2025-01-15 12:30:00+00", "12345");
    let fix = plan_history_row_fix(&r, &embedded(), NOW).unwrap();
    assert_eq!(fix.version, 1);
    assert_eq!(fix.applied_on, "2025-01-15T12:30:00+00:00");
    assert_eq!(fix.checksum, "12345");
}

#[test]
fn unsalvageable_timestamp_becomes_now() {
    let r = row(1, "initial_schema", "yesterday", "12345");
    let fix = plan_history_row_fix(&r, &embedded(), NOW).unwrap();
    assert_eq!(fix.applied_on, NOW);
}

#[test]
fn bad_checksum_is_recomputed_from_embedded_migration() {
    let r = row(1, "whatever", "2025-01-15T12:30:00Z", "unused");
    let fix = plan_history_row_fix(&r, &embedded(), NOW).unwrap();
    assert_eq!(fix.applied_on, "2025-01-15T12:30:00Z");
    assert_eq!(fix.checksum, compute_checksum("initial_schema", 1, "CREATE TABLE foo;").to_string());
    let r2 = row(2, "whatever", "2025-01-15T12:30:00Z", "unused");
    let fix2 = plan_history_row_fix(&r2, &embedded(), NOW).unwrap();
    assert_eq!(fix2.checksum, compute_checksum("add_index", 2, "").to_string());
}

#[test]
fn bad_checksum_without_embedded_migration_uses_own_name() {
    let r = row(9, "removed", "2025-01-15T12:30:00Z", "unused");
    let fix = plan_history_row_fix(&r, &embedded(), NOW).unwrap();
    assert_eq!(fix.checksum, compute_checksum("removed", 9, "").to_string());
}

#[test]
fn repaired_rows_are_accepted() {
    let rows = vec![
        row(1, "initial_schema", "2025-01-15T12:30:00Z", "1"),
        row(2, "add_index", "2025-01-15 12:30:00", "unused"),
        row(3, "gone", "garbage", "42"),
    ];
    let fixes = plan_history_fixes(&rows, &embedded(), NOW);
    assert_eq!(fixes.len(), 2);
    assert_eq!(fixes[0].version, 2);
    assert_eq!(fixes[1].version, 3);
    for f in &fixes {
        assert!(is_valid_rfc3339(&f.applied_on));
        assert!(f.checksum.parse::<u64>().is_ok());
    }
}

#[test]
fn non_numeric_offset_is_replaced_by_now() {
    let r = row(1, "initial_schema", "2025-01-15 12:30:00+ab:cd", "123");
    let fix = plan_history_row_fix(&r, &embedded(), NOW).unwrap();
    assert_eq!(fix.applied_on, NOW);
    assert!(is_valid_rfc3339(&fix.applied_on));
}

#[test]
fn timestamp_with_straddling_character_is_replaced_by_now() {
    let r = row(1, "initial_schema", "2025-01-1\u{e9}12:30:00Z", "123");
    let fix = plan_history_row_fix(&r, &embedded(), NOW).unwrap();
    assert_eq!(fix.applied_on, NOW);
}
