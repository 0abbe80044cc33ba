use breakfast::from_row::{map_err, FromRowError};

#[test]
fn column_not_found_error_displays_column_name() {
    let err = FromRowError::ColumnNotFound("email".to_string());
    assert_eq!(err.to_string(), "Column not found: email");
}

#[test]
fn conversion_error_displays_message() {
    let err = FromRowError::Conversion("user_id: invalid type".to_string());
    assert_eq!(err.to_string(), "Conversion error: user_id: invalid type");
}

#[test]
fn from_row_error_debug_format() {
    let err = FromRowError::ColumnNotFound("team_id".to_string());
    let debug = format!("{:?}", err);
    assert!(debug.contains("ColumnNotFound"), "debug format should contain variant name");
    assert!(debug.contains("team_id"), "debug format should contain column name");
}

#[test]
fn map_err_classifies_sourceless_error_as_column_not_found() {
    let result = map_err("my_column", false, "timeout waiting for server");
    match result {
        FromRowError::ColumnNotFound(col) => {
            assert_eq!(col, "my_column");
        }
        other => panic!("expected ColumnNotFound, got {:?}", other),
    }
}

#[test]
fn map_err_column_not_found_variant_is_constructable() {
    let err = FromRowError::ColumnNotFound("missing_col".to_string());
    assert_eq!(err.to_string(), "Column not found: missing_col");
}

#[test]
fn map_err_conversion_variant_includes_column_and_detail() {
    let err = FromRowError::Conversion("price: expected numeric, got text".to_string());
    let display = err.to_string();
    assert!(display.contains("price"));
    assert!(display.contains("numeric"));
}

#[test]
fn column_not_found_and_conversion_are_distinct_variants() {
    let err1 = FromRowError::ColumnNotFound("col".to_string());
    let err2 = FromRowError::Conversion("col".to_string());
    assert_ne!(err1.to_string(), err2.to_string());
}

#[test]
fn map_err_with_a_cause_is_a_conversion() {
    match map_err("price", true, "error deserializing column 2") {
        FromRowError::Conversion(msg) => assert_eq!(msg, "price: error deserializing column 2"),
        other => panic!("expected Conversion, got {:?}", other),
    }
}
