use breakfast::models::{
    validate_non_negative_price, validate_optional_password, CreateItemEntry, CreateOrderEntry,
    CreateRoleEntry, CreateTeamEntry, CreateUserEntry, PaginationParams, Price, UpdateItemEntry,
    UpdateOrderEntry, UpdateTeamEntry, UpdateUserRequest,
};
use breakfast::validate::validate;

fn rust_decimal_price(mantissa: i64, scale: u32) -> Price {
    let d = rust_decimal::Decimal::new(mantissa, scale);
    Price { mantissa: d.mantissa(), scale: d.scale() }
}

#[test]
fn validate_optional_password_rejects_too_short() {
    let err = validate_optional_password(&"short".to_string()).unwrap_err();
    assert_eq!(err.code, "password");
    assert!(err.message.as_ref().unwrap().contains("at least 8 characters"));
}

#[test]
fn validate_optional_password_rejects_too_long() {
    let long = "a".repeat(129);
    let err = validate_optional_password(&long).unwrap_err();
    assert_eq!(err.code, "password");
    assert!(err.message.as_ref().unwrap().contains("must not exceed 128"));
}

#[test]
fn validate_optional_password_accepts_valid() {
    assert!(validate_optional_password(&"validpass".to_string()).is_ok());
}

#[test]
fn validate_optional_password_boundary_min() {
    assert!(validate_optional_password(&"12345678".to_string()).is_ok());
    assert!(validate_optional_password(&"1234567".to_string()).is_err());
}

#[test]
fn validate_optional_password_boundary_max() {
    let max = "a".repeat(128);
    assert!(validate_optional_password(&max).is_ok());
    let over = "a".repeat(129);
    assert!(validate_optional_password(&over).is_err());
}

#[test]
fn create_order_entry_rejects_zero_quantity() {
    let entry = CreateOrderEntry { orders_item_id: 0, amt: 0 };
    let err = validate(&entry).unwrap_err();
    let msg = err.to_string();
    assert!(msg.contains("quantity must be between 1 and 10000"));
}

#[test]
fn create_order_entry_rejects_negative_quantity() {
    let entry = CreateOrderEntry { orders_item_id: 0, amt: -1 };
    assert!(validate(&entry).is_err());
}

#[test]
fn create_order_entry_accepts_positive_quantity() {
    let entry = CreateOrderEntry { orders_item_id: 0, amt: 1 };
    assert!(validate(&entry).is_ok());
}

#[test]
fn create_order_entry_rejects_exceeding_max_quantity() {
    let entry = CreateOrderEntry { orders_item_id: 0, amt: 10001 };
    assert!(validate(&entry).is_err());
}

#[test]
fn create_order_entry_accepts_max_quantity() {
    let entry = CreateOrderEntry { orders_item_id: 0, amt: 10000 };
    assert!(validate(&entry).is_ok());
}

#[test]
fn update_order_entry_rejects_zero_quantity() {
    assert!(validate(&UpdateOrderEntry { amt: 0 }).is_err());
}

#[test]
fn update_order_entry_accepts_positive_quantity() {
    assert!(validate(&UpdateOrderEntry { amt: 3 }).is_ok());
}

#[test]
fn update_order_entry_rejects_exceeding_max_quantity() {
    assert!(validate(&UpdateOrderEntry { amt: 10001 }).is_err());
}

#[test]
fn update_order_entry_accepts_max_quantity() {
    assert!(validate(&UpdateOrderEntry { amt: 10000 }).is_ok());
}

#[test]
fn validate_non_negative_price_rejects_negative() {
    let price = rust_decimal_price(-100, 2);
    let err = validate_non_negative_price(&price).unwrap_err();
    assert_eq!(err.code, "price");
    assert!(err.message.as_ref().unwrap().contains("zero or positive"));
}

#[test]
fn validate_non_negative_price_accepts_zero() {
    let zero = rust_decimal::Decimal::ZERO;
    let price = Price { mantissa: zero.mantissa(), scale: zero.scale() };
    assert!(validate_non_negative_price(&price).is_ok());
}

#[test]
fn validate_non_negative_price_accepts_positive() {
    assert!(validate_non_negative_price(&rust_decimal_price(999, 2)).is_ok());
}

fn user(firstname: String, lastname: String) -> CreateUserEntry {
    CreateUserEntry {
        firstname,
        lastname,
        email: "test@example.com".to_string(),
        password: "validpass123".to_string(),
    }
}

#[test]
fn create_user_entry_firstname_at_max_50_is_valid() {
    assert!(validate(&user("a".repeat(50), "Valid".to_string())).is_ok());
}

#[test]
fn create_user_entry_firstname_at_51_is_rejected() {
    assert!(validate(&user("a".repeat(51), "Valid".to_string())).is_err());
}

#[test]
fn create_user_entry_lastname_at_max_50_is_valid() {
    assert!(validate(&user("Valid".to_string(), "b".repeat(50))).is_ok());
}

#[test]
fn create_user_entry_lastname_at_51_is_rejected() {
    assert!(validate(&user("Valid".to_string(), "b".repeat(51))).is_err());
}

#[test]
fn create_user_entry_firstname_at_min_2_is_valid() {
    assert!(validate(&user("ab".to_string(), "Valid".to_string())).is_ok());
}

#[test]
fn create_user_entry_firstname_at_1_is_rejected() {
    assert!(validate(&user("a".to_string(), "Valid".to_string())).is_err());
}

#[test]
fn create_team_entry_tname_at_max_255_is_valid() {
    assert!(validate(&CreateTeamEntry { tname: "t".repeat(255), descr: None }).is_ok());
}

#[test]
fn create_team_entry_tname_at_256_is_rejected() {
    assert!(validate(&CreateTeamEntry { tname: "t".repeat(256), descr: None }).is_err());
}

#[test]
fn create_team_entry_descr_at_max_1000_is_valid() {
    let entry = CreateTeamEntry { tname: "Valid Team".to_string(), descr: Some("d".repeat(1000)) };
    assert!(validate(&entry).is_ok());
}

#[test]
fn create_team_entry_descr_at_1001_is_rejected() {
    let entry = CreateTeamEntry { tname: "Valid Team".to_string(), descr: Some("d".repeat(1001)) };
    assert!(validate(&entry).is_err());
}

#[test]
fn create_team_entry_empty_tname_is_rejected() {
    assert!(validate(&CreateTeamEntry { tname: String::new(), descr: None }).is_err());
}

#[test]
fn update_team_entry_tname_at_max_255_is_valid() {
    assert!(validate(&UpdateTeamEntry { tname: "t".repeat(255), descr: None }).is_ok());
}

#[test]
fn update_team_entry_tname_at_256_is_rejected() {
    assert!(validate(&UpdateTeamEntry { tname: "t".repeat(256), descr: None }).is_err());
}

#[test]
fn create_role_entry_title_at_max_255_is_valid() {
    assert!(validate(&CreateRoleEntry { title: "r".repeat(255) }).is_ok());
}

#[test]
fn create_role_entry_title_at_256_is_rejected() {
    assert!(validate(&CreateRoleEntry { title: "r".repeat(256) }).is_err());
}

#[test]
fn create_role_entry_empty_title_is_rejected() {
    assert!(validate(&CreateRoleEntry { title: String::new() }).is_err());
}

#[test]
fn create_item_entry_descr_at_max_255_is_valid() {
    let entry = CreateItemEntry { descr: "i".repeat(255), price: rust_decimal_price(100, 2) };
    assert!(validate(&entry).is_ok());
}

#[test]
fn create_item_entry_descr_at_256_is_rejected() {
    let entry = CreateItemEntry { descr: "i".repeat(256), price: rust_decimal_price(100, 2) };
    assert!(validate(&entry).is_err());
}

#[test]
fn create_item_entry_empty_descr_is_rejected() {
    let entry = CreateItemEntry { descr: String::new(), price: rust_decimal_price(100, 2) };
    assert!(validate(&entry).is_err());
}

#[test]
fn update_item_entry_descr_at_max_255_is_valid() {
    let entry = UpdateItemEntry { descr: "i".repeat(255), price: rust_decimal_price(100, 2) };
    assert!(validate(&entry).is_ok());
}

#[test]
fn update_item_entry_descr_at_256_is_rejected() {
    let entry = UpdateItemEntry { descr: "i".repeat(256), price: rust_decimal_price(100, 2) };
    assert!(validate(&entry).is_err());
}

#[test]
fn create_order_entry_boundary_min_1_is_valid() {
    assert!(validate(&CreateOrderEntry { orders_item_id: 0, amt: 1 }).is_ok());
}

#[test]
fn update_order_entry_boundary_min_1_is_valid() {
    assert!(validate(&UpdateOrderEntry { amt: 1 }).is_ok());
}

#[test]
fn negative_item_price_is_reported_after_description() {
    let entry = CreateItemEntry { descr: String::new(), price: rust_decimal_price(-1, 0) };
    assert_eq!(
        validate(&entry).unwrap_err().to_string(),
        "descr is required and must be between 1 and 255 characters;price must be zero or positive"
    );
}

#[test]
fn update_user_request_checks_optional_password() {
    let mut req = UpdateUserRequest {
        firstname: "Alice".to_string(),
        lastname: "Smith".to_string(),
        email: "alice@example.com".to_string(),
        password: None,
        current_password: None,
    };
    assert!(validate(&req).is_ok());
    req.password = Some("short".to_string());
    assert_eq!(validate(&req).unwrap_err().to_string(), "password must be at least 8 characters");
    req.password = Some("long enough".to_string());
    assert!(validate(&req).is_ok());
}

#[test]
fn pagination_defaults_and_clamps() {
    assert_eq!(PaginationParams { limit: None, offset: None }.sanitize(), (50, 0));
    assert_eq!(PaginationParams { limit: Some(0), offset: Some(-5) }.sanitize(), (1, 0));
    assert_eq!(PaginationParams { limit: Some(1000), offset: Some(30) }.sanitize(), (100, 30));
    assert_eq!(PaginationParams { limit: Some(25), offset: Some(0) }.sanitize(), (25, 0));
    assert_eq!(PaginationParams { limit: Some(i64::MIN), offset: Some(i64::MAX) }.sanitize(), (1, i64::MAX));
}

#[test]
fn validate_optional_password_counts_characters() {
    let four_wide = "\u{e9}\u{e9}\u{e9}\u{e9}".to_string();
    assert_eq!(four_wide.len(), 8);
    assert!(validate_optional_password(&four_wide).is_err());
    let eight_wide = "\u{e9}".repeat(8);
    assert!(validate_optional_password(&eight_wide).is_ok());
    let many_wide = "\u{e9}".repeat(128);
    assert!(validate_optional_password(&many_wide).is_ok());
    assert!(validate_optional_password(&"\u{e9}".repeat(129)).is_err());
}
