use breakfast::errors::Error;
use breakfast::rbac::{
    access_after, access_start, check_due_date, check_email_path, check_not_last_admin,
    check_order_open, check_pickup_member, check_reopenable, check_team_deletable,
    check_token_revoker, classify_team_role, deny_error, pickup_change_requires_team_admin,
    AccessAnswer, AccessQuery, AccessRule, AccessStep, DenyReason, TeamRole,
};

#[test]
fn require_admin_rejects_missing_claims_sync() {
    match access_start(AccessRule::Admin, None, 0) {
        AccessStep::Deny(reason) => {
            let err = deny_error(reason);
            assert!(err.to_string().contains("Authentication required"));
        }
        other => panic!("expected a refusal, got {:?}", other),
    }
}

#[test]
fn require_admin_error_is_unauthorized_variant() {
    let err = Error::Unauthorized("Authentication required".to_string());
    assert_eq!(err.error_response().status, 401);
    assert!(matches!(deny_error(DenyReason::AuthenticationRequired), Error::Unauthorized(_)));
}

#[test]
fn require_team_member_error_message() {
    let err = deny_error(DenyReason::TeamMembershipRequired);
    assert_eq!(err.to_string(), "Team membership required");
    assert_eq!(err.error_response().status, 403);
}

#[test]
fn require_team_admin_error_message() {
    let err = deny_error(DenyReason::TeamAdminRoleRequired);
    assert_eq!(err.to_string(), "Team admin role required");
    assert_eq!(err.error_response().status, 403);
}

#[test]
fn require_admin_or_team_admin_error_message() {
    let err = deny_error(DenyReason::AdminOrTeamAdminRequired);
    assert_eq!(err.to_string(), "Admin or Team Admin role required");
    assert_eq!(err.error_response().status, 403);
}

#[test]
fn require_self_or_admin_error_message() {
    let err = deny_error(DenyReason::OwnAccountOnly);
    assert_eq!(err.to_string(), "You can only modify your own account");
    assert_eq!(err.error_response().status, 403);
}

#[test]
fn require_self_or_admin_or_team_admin_error_message() {
    let err = deny_error(DenyReason::OwnAccountOrSharedTeamAdmin);
    assert_eq!(
        err.to_string(),
        "You can only modify your own account, or must be an admin of a shared team"
    );
    assert_eq!(err.error_response().status, 403);
}

#[test]
fn require_self_or_admin_allows_self() {
    assert_eq!(access_start(AccessRule::SelfOrAdmin, Some(5), 5), AccessStep::Allow);
    assert_eq!(access_start(AccessRule::SelfOrAdmin, Some(5), 6), AccessStep::Ask(AccessQuery::IsAdmin));
}

#[test]
fn team_checks_follow_the_role() {
    let ask = access_start(AccessRule::TeamAdmin, Some(1), 0);
    assert_eq!(ask, AccessStep::Ask(AccessQuery::TeamAccess));
    let answer = |is_admin, role| AccessAnswer::TeamAccess { is_admin, role };
    let q = AccessQuery::TeamAccess;
    assert_eq!(access_after(AccessRule::TeamAdmin, q, answer(true, TeamRole::NotMember)), AccessStep::Allow);
    assert_eq!(access_after(AccessRule::TeamAdmin, q, answer(false, TeamRole::TeamAdmin)), AccessStep::Allow);
    assert_eq!(
        access_after(AccessRule::TeamAdmin, q, answer(false, TeamRole::OtherRole)),
        AccessStep::Deny(DenyReason::TeamAdminRoleRequired)
    );
    assert_eq!(
        access_after(AccessRule::TeamMember, q, answer(false, TeamRole::NotMember)),
        AccessStep::Deny(DenyReason::TeamMembershipRequired)
    );
    assert_eq!(access_after(AccessRule::TeamMember, q, answer(false, TeamRole::OtherRole)), AccessStep::Allow);
}

#[test]
fn self_or_team_admin_asks_for_shared_team() {
    let r = AccessRule::SelfOrAdminOrTeamAdmin;
    assert_eq!(
        access_after(r, AccessQuery::IsAdmin, AccessAnswer::Flag(false)),
        AccessStep::Ask(AccessQuery::IsTeamAdminOfTarget)
    );
    assert_eq!(
        access_after(r, AccessQuery::IsTeamAdminOfTarget, AccessAnswer::Flag(false)),
        AccessStep::Deny(DenyReason::OwnAccountOrSharedTeamAdmin)
    );
    assert_eq!(access_after(r, AccessQuery::IsTeamAdminOfTarget, AccessAnswer::Flag(true)), AccessStep::Allow);
}

#[test]
fn team_roles_are_classified_by_title() {
    assert_eq!(classify_team_role(None), TeamRole::NotMember);
    assert_eq!(classify_team_role(Some("Team Admin")), TeamRole::TeamAdmin);
    assert_eq!(classify_team_role(Some("Member")), TeamRole::OtherRole);
    assert_eq!(classify_team_role(Some("Admin")), TeamRole::OtherRole);
}

#[test]
fn handler_rules() {
    assert_eq!(
        check_team_deletable(3).unwrap_err().to_string(),
        "Cannot delete team — it has 3 order(s). Delete the orders first."
    );
    assert!(check_team_deletable(0).is_ok());
    assert!(check_due_date(Some(10), 11).is_err());
    assert!(check_due_date(Some(11), 11).is_ok());
    assert!(check_due_date(None, 11).is_ok());
    assert_eq!(check_pickup_member(false).unwrap_err().to_string(), "Pickup user must be a member of this team");
    assert!(pickup_change_requires_team_admin(Some(None), Some(1)));
    assert!(!pickup_change_requires_team_admin(Some(Some(2)), None));
    assert!(!pickup_change_requires_team_admin(None, Some(1)));
    assert_eq!(check_order_open(true, "add").unwrap_err().to_string(), "Cannot add items in a closed order");
    assert!(check_order_open(false, "remove").is_ok());
    assert_eq!(check_reopenable(false).unwrap_err().to_string(), "Only closed orders can be reopened");
    assert!(check_reopenable(true).is_ok());
    assert_eq!(check_not_last_admin(true, true, 1).unwrap_err().to_string(), "Cannot delete the last admin account");
    assert!(check_not_last_admin(true, true, 2).is_ok());
    assert!(check_not_last_admin(false, true, 1).is_ok());
    assert_eq!(check_email_path("no-at-sign").unwrap_err().to_string(), "Invalid email format");
    assert!(check_email_path(&format!("{}@x", "a".repeat(253))).is_ok());
    assert!(check_email_path(&format!("{}@x", "a".repeat(254))).is_err());
    assert_eq!(check_token_revoker(1, 2, false).unwrap_err().to_string(), "Cannot revoke another user's token");
    assert!(check_token_revoker(1, 1, false).is_ok());
    assert!(check_token_revoker(1, 2, true).is_ok());
}

#[test]
fn registration_closes_once_a_user_exists() {
    assert!(breakfast::rbac::check_registration_open(0).is_ok());
    assert_eq!(
        breakfast::rbac::check_registration_open(1).unwrap_err().to_string(),
        "Registration is closed — users already exist"
    );
}

#[test]
fn order_owner_or_team_admin() {
    let r = AccessRule::OrderOwnerOrTeamAdmin;
    assert_eq!(access_start(r, Some(4), 4), AccessStep::Allow);
    assert_eq!(access_start(r, Some(4), 5), AccessStep::Ask(AccessQuery::TeamAccess));
    let q = AccessQuery::TeamAccess;
    assert_eq!(access_after(r, q, AccessAnswer::TeamAccess { is_admin: false, role: TeamRole::TeamAdmin }), AccessStep::Allow);
    assert_eq!(
        access_after(r, q, AccessAnswer::TeamAccess { is_admin: false, role: TeamRole::OtherRole }),
        AccessStep::Deny(DenyReason::TeamAdminRoleRequired)
    );
    assert_eq!(access_after(r, q, AccessAnswer::TeamAccess { is_admin: true, role: TeamRole::NotMember }), AccessStep::Allow);
}

#[test]
fn own_password_change_needs_current_password() {
    assert!(breakfast::rbac::current_password_required(true, Some(3), 3));
    assert!(!breakfast::rbac::current_password_required(true, Some(4), 3));
    assert!(!breakfast::rbac::current_password_required(false, Some(3), 3));
    assert!(!breakfast::rbac::current_password_required(true, None, 3));
    assert!(breakfast::rbac::is_self_action(Some(3), 3));
    assert!(!breakfast::rbac::is_self_action(None, 3));
}
