use breakfast::errors::{DbErrorInfo, DbFailure, Error, JsonPayloadKind};
use breakfast::from_row::FromRowError;

fn status(e: &Error) -> u16 {
    e.error_response().status
}

fn body(e: &Error) -> String {
    e.error_response().body.error
}

#[test]
fn validation_error_returns_422() {
    let err = Error::Validation("bad input".into());
    assert_eq!(status(&err), 422);
}

#[test]
fn not_found_error_returns_404() {
    let err = Error::NotFound("missing".into());
    assert_eq!(status(&err), 404);
}

#[test]
fn argon2_error_returns_500() {
    let err = Error::Argon2("hash failure".into());
    assert_eq!(status(&err), 500);
}

#[test]
fn utoipa_error_returns_422() {
    let err = Error::Utoipa("schema error".into());
    assert_eq!(status(&err), 422);
}

#[test]
fn io_error_returns_500() {
    let err = Error::Io(std::io::Error::other("disk").to_string());
    assert_eq!(status(&err), 500);
}

#[test]
fn config_error_returns_500() {
    let err = Error::Config("configuration property \"key\" not found".into());
    assert_eq!(status(&err), 500);
}

#[test]
fn conversion_error_returns_500() {
    let json_err = serde_json::from_str::<serde_json::Value>("{").unwrap_err();
    let err = Error::Conversion(json_err.to_string());
    assert_eq!(status(&err), 500);
}

#[test]
fn actix_path_error_returns_400() {
    let err = Error::ActixPath("bad path".into());
    assert_eq!(status(&err), 400);
}

#[test]
fn jwt_error_returns_500() {
    let err = Error::Jwt("invalid token".to_string());
    assert_eq!(status(&err), 500);
}

#[test]
fn pool_error_returns_500() {
    let err = Error::Pool("timeout".into());
    assert_eq!(status(&err), 500);
}

#[test]
fn db_mapper_column_not_found_returns_500() {
    let err = Error::DbMapper(FromRowError::ColumnNotFound("test".into()));
    assert_eq!(status(&err), 500);
}

#[test]
fn eyre_error_returns_500() {
    let err = Error::Eyre("something went wrong".into());
    assert_eq!(status(&err), 500);
}

#[test]
fn forbidden_error_returns_403() {
    let err = Error::Forbidden("not allowed".into());
    assert_eq!(status(&err), 403);
}

#[test]
fn unauthorized_error_returns_401() {
    let err = Error::Unauthorized("bad credentials".into());
    assert_eq!(status(&err), 401);
}

#[test]
fn conflict_error_returns_409() {
    let err = Error::Conflict("resource conflict".into());
    assert_eq!(status(&err), 409);
}

#[test]
fn error_responses_do_not_leak_internal_details() {
    let err = Error::Argon2("secret hash details".into());
    assert_eq!(status(&err), 500);
    assert_eq!(body(&err), "Internal server error");
}

#[test]
fn db_mapper_conversion_error_returns_500() {
    let err = Error::DbMapper(FromRowError::Conversion("test conversion".into()));
    assert_eq!(status(&err), 500);
}

#[test]
fn error_response_body_is_json_object_with_error_key() {
    let err = Error::NotFound("resource missing".into());
    assert_eq!(status(&err), 404);
    assert_eq!(body(&err), "resource missing");
    let err = Error::Argon2("secret details".into());
    assert_eq!(body(&err), "Internal server error");
}

#[test]
fn actix_json_deserialize_data_error_returns_422() {
    let err = Error::ActixJson(JsonPayloadKind::DeserializeData, "invalid type: integer `42`".into());
    assert_eq!(status(&err), 422);
    assert_eq!(body(&err), "Invalid request body");
}

#[test]
fn actix_json_parse_error_returns_400() {
    let err = Error::ActixJson(JsonPayloadKind::Other, "Json deserialize error: key must be a string".into());
    assert_eq!(status(&err), 400);
    assert!(body(&err).contains("key must be a string"));
}

#[test]
fn actix_json_content_type_returns_415() {
    let err = Error::ActixJson(JsonPayloadKind::ContentType, "Content type error".into());
    assert_eq!(status(&err), 415);
    assert_eq!(body(&err), "Content type error");
}

#[test]
fn db_mapper_conversion_error_body_is_sanitized() {
    let err = Error::DbMapper(FromRowError::Conversion("secret detail".into()));
    assert_eq!(body(&err), "Internal server error");
}

fn db(code: &str, table: Option<&str>, constraint: Option<&str>) -> Error {
    Error::Db(DbFailure {
        server_error: Some(DbErrorInfo {
            code: code.to_string(),
            table: table.map(str::to_string),
            constraint: constraint.map(str::to_string),
        }),
        text: "db error".to_string(),
    })
}

#[test]
fn unique_violation_is_a_conflict() {
    let err = db("23505", Some("users"), Some("users_email_key"));
    assert_eq!(status(&err), 409);
    assert_eq!(body(&err), "A record with that value already exists");
}

#[test]
fn foreign_key_violation_names_the_missing_entity() {
    assert_eq!(body(&db("23503", Some("orders"), Some("orders_item_id_fkey"))), "Referenced item does not exist (orders)");
    assert_eq!(body(&db("23503", Some("memberof"), Some("memberof_team_id_fkey"))), "Referenced team does not exist (memberof)");
    assert_eq!(body(&db("23503", None, Some("memberof_user_id_fkey"))), "Referenced user does not exist (record)");
    assert_eq!(body(&db("23001", Some("memberof"), Some("memberof_role_id_fkey"))), "Referenced role does not exist (memberof)");
    assert_eq!(body(&db("23503", Some("orders"), Some("orders_order_fkey"))), "Referenced order does not exist (orders)");
    assert_eq!(body(&db("23503", Some("orders"), Some("teamorders_fkey"))), "Referenced team does not exist (orders)");
    assert_eq!(body(&db("23503", Some("x"), Some("something"))), "Operation conflicts with an existing relationship");
    assert_eq!(body(&db("23503", Some("x"), None)), "Operation conflicts with an existing relationship");
    assert_eq!(status(&db("23503", Some("x"), None)), 409);
}

#[test]
fn other_database_errors_are_internal() {
    assert_eq!(status(&db("42P01", Some("x"), None)), 500);
    assert_eq!(body(&db("42P01", Some("x"), None)), "Internal server error");
    let err = Error::Db(DbFailure { server_error: None, text: "connection closed".into() });
    assert_eq!(status(&err), 500);
    assert_eq!(err.to_string(), "connection closed");
}

#[test]
fn authentication_failure_is_generic() {
    let err = Error::ActixAuth("invalid header".into());
    assert_eq!(status(&err), 401);
    assert_eq!(body(&err), "Authentication failed");
}

#[test]
fn error_text_is_the_message() {
    assert_eq!(Error::Forbidden("Team membership required".into()).to_string(), "Team membership required");
    assert_eq!(Error::DbMapper(FromRowError::ColumnNotFound("x".into())).to_string(), "Column not found: x");
}

#[test]
fn error_response_display_normal() {
    let resp = breakfast::errors::ErrorResponse { error: "something broke".to_string() };
    let display = resp.to_string();
    assert!(display.contains("something broke"));
    let parsed: serde_json::Value = serde_json::from_str(&display).unwrap();
    assert_eq!(parsed["error"], "something broke");
}

#[test]
fn error_response_display_with_special_chars() {
    let resp = breakfast::errors::ErrorResponse { error: r#"has "quotes" and \backslash"#.to_string() };
    let display = resp.to_string();
    let parsed: serde_json::Value = serde_json::from_str(&display).unwrap();
    assert_eq!(parsed["error"], r#"has "quotes" and \backslash"#);
}

#[test]
fn error_body_fallback_escapes_by_hand() {
    assert_eq!(
        breakfast::errors::error_body_from(r#"a "b" \c"#, None),
        r#"{"error":"a \"b\" \\c"}"#
    );
    assert_eq!(
        breakfast::errors::error_body_from("x", Some("\"x\"".to_string())),
        r#"{"error":"x"}"#
    );
}

#[test]
fn error_response_escapes_control_characters() {
    let resp = breakfast::errors::ErrorResponse { error: "line\nnext\ttab\u{1}\u{1f}".to_string() };
    assert_eq!(resp.to_string(), r#"{"error":"line\nnext\ttab\u0001\u001f"}"#);
    let parsed: serde_json::Value = serde_json::from_str(&resp.to_string()).unwrap();
    assert_eq!(parsed["error"], "line\nnext\ttab\u{1}\u{1f}");
}
