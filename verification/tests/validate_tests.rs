use breakfast::errors::Error;
use breakfast::models::{CreateRoleEntry, CreateTeamEntry, CreateUserEntry};
use breakfast::validate::validate;

#[test]
fn validate_accepts_valid_user() {
    let body = CreateUserEntry {
        firstname: "Alice".to_string(),
        lastname: "Smith".to_string(),
        email: "alice@example.com".to_string(),
        password: "securepass".to_string(),
    };
    assert!(validate(&body).is_ok());
}

#[test]
fn validate_rejects_short_firstname() {
    let body = CreateUserEntry {
        firstname: "A".to_string(),
        lastname: "Smith".to_string(),
        email: "a@example.com".to_string(),
        password: "securepass".to_string(),
    };
    let err = validate(&body).unwrap_err();
    assert!(err.to_string().contains("firstname"));
}

#[test]
fn validate_rejects_invalid_email() {
    let body = CreateUserEntry {
        firstname: "Alice".to_string(),
        lastname: "Smith".to_string(),
        email: "not-an-email".to_string(),
        password: "securepass".to_string(),
    };
    assert!(validate(&body).is_err());
}

#[test]
fn validate_rejects_short_password() {
    let body = CreateUserEntry {
        firstname: "Alice".to_string(),
        lastname: "Smith".to_string(),
        email: "alice@example.com".to_string(),
        password: "short".to_string(),
    };
    let err = validate(&body).unwrap_err();
    assert!(err.to_string().contains("password"));
}

#[test]
fn validate_reports_multiple_errors() {
    let body = CreateUserEntry {
        firstname: "A".to_string(),
        lastname: "B".to_string(),
        email: "bad".to_string(),
        password: "short".to_string(),
    };
    let err = validate(&body).unwrap_err();
    let msg = err.to_string();
    assert!(msg.contains(';'), "expected multiple errors separated by ;");
}

#[test]
fn validate_accepts_valid_team() {
    let body = CreateTeamEntry {
        tname: "Engineering".to_string(),
        descr: Some("The eng team".to_string()),
    };
    assert!(validate(&body).is_ok());
}

#[test]
fn validate_rejects_empty_team_name() {
    let body = CreateTeamEntry { tname: "".to_string(), descr: None };
    assert!(validate(&body).is_err());
}

#[test]
fn validate_accepts_valid_role() {
    let body = CreateRoleEntry { title: "Admin".to_string() };
    assert!(validate(&body).is_ok());
}

#[test]
fn validate_rejects_empty_role_title() {
    let body = CreateRoleEntry { title: "".to_string() };
    assert!(validate(&body).is_err());
}

#[test]
fn validation_messages_come_in_field_order() {
    let body = CreateUserEntry {
        firstname: "A".to_string(),
        lastname: "B".to_string(),
        email: "bad".to_string(),
        password: "short".to_string(),
    };
    match validate(&body) {
        Err(Error::Validation(m)) => assert_eq!(
            m,
            "firstname is required and must be between 2 and 50 characters;\
lastname is required and must be between 2 and 50 characters;\
email is required;\
password is required and must be between 8 and 128 characters"
        ),
        _ => panic!("expected a validation error"),
    }
}

#[test]
fn validation_error_is_answered_with_422_and_the_messages() {
    let body = CreateRoleEntry { title: "".to_string() };
    let reply = validate(&body).unwrap_err().error_response();
    assert_eq!(reply.status, 422);
    assert_eq!(reply.body.error, "title is required and must be between 1 and 255 characters");
}

#[test]
fn lengths_count_characters() {
    let body = CreateUserEntry {
        firstname: "\u{e9}\u{e9}".to_string(),
        lastname: "\u{e9}".repeat(50),
        email: "a@example.com".to_string(),
        password: "\u{e9}".repeat(8),
    };
    assert!(validate(&body).is_ok());
}

#[test]
fn long_email_is_refused() {
    let body = CreateUserEntry {
        firstname: "Alice".to_string(),
        lastname: "Smith".to_string(),
        email: format!("{}@example.com", "a".repeat(64)),
        password: "securepass".to_string(),
    };
    match validate(&body) {
        Err(Error::Validation(m)) => assert_eq!(m, "email must not exceed 75 characters"),
        _ => panic!("expected a validation error"),
    }
}
