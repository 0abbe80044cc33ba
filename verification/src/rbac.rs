//! Role-based access decisions of the request handlers.
//!
//! A check starts from the requesting user (taken from the verified token),
//! may need facts from the database (whether the user is a global admin, the
//! user's role in a team, ...), and ends by allowing the request or refusing
//! it with a fixed message. The database is asked only for what the check
//! still needs, in the order in which the check needs it.

use vstd::prelude::*;
use crate::auth::ROLE_TEAM_ADMIN;
use crate::errors::Error;
use crate::text::{contains_text, text_eq};

verus! {

/// The access checks of the handlers.
#[derive(Clone, Copy, Debug, PartialEq, Eq, Structural)]
pub enum AccessRule {
    /// A member of the team (any role).
    TeamMember,
    /// A team admin of the team.
    TeamAdmin,
    /// A global admin.
    Admin,
    /// A global admin or a team admin of any team.
    AdminOrTeamAdmin,
    /// The target user themselves.
    SelfOrAdmin,
    /// The target user themselves, or a team admin of a team the target user
    /// is in.
    SelfOrAdminOrTeamAdmin,
    /// The owner of an order (the target user), or a team admin of its team.
    OrderOwnerOrTeamAdmin,
}

/// The requesting user's role in a team.
#[derive(Clone, Copy, Debug, PartialEq, Eq, Structural)]
pub enum TeamRole {
    NotMember,
    TeamAdmin,
    OtherRole,
}

/// A fact that a check needs from the database.
#[derive(Clone, Copy, Debug, PartialEq, Eq, Structural)]
pub enum AccessQuery {
    /// Whether the user is a global admin, and their role in the team.
    TeamAccess,
    /// Whether the user is a global admin.
    IsAdmin,
    /// Whether the user is a global admin or a team admin of any team.
    IsAdminOrTeamAdmin,
    /// Whether the user is a team admin of a team the target user is in.
    IsTeamAdminOfTarget,
}

/// The database's answer to a query.
#[derive(Clone, Copy, Debug, PartialEq, Eq, Structural)]
pub enum AccessAnswer {
    TeamAccess { is_admin: bool, role: TeamRole },
    Flag(bool),
}

/// Why a check refuses a request.
#[derive(Clone, Copy, Debug, PartialEq, Eq, Structural)]
pub enum DenyReason {
    AuthenticationRequired,
    TeamMembershipRequired,
    TeamAdminRoleRequired,
    AdminRoleRequired,
    AdminOrTeamAdminRequired,
    OwnAccountOnly,
    OwnAccountOrSharedTeamAdmin,
}

/// Where a check stands.
#[derive(Clone, Copy, Debug, PartialEq, Eq, Structural)]
pub enum AccessStep {
    Allow,
    Deny(DenyReason),
    Ask(AccessQuery),
}

/// The first step of a check: refuse an unauthenticated request, let users
/// act on their own account, else ask the database what the rule needs.
pub open spec fn access_first(rule: AccessRule, requester: Option<u128>, target: u128) -> AccessStep {
    match requester {
        None => AccessStep::Deny(DenyReason::AuthenticationRequired),
        Some(u) => match rule {
            AccessRule::TeamMember => AccessStep::Ask(AccessQuery::TeamAccess),
            AccessRule::TeamAdmin => AccessStep::Ask(AccessQuery::TeamAccess),
            AccessRule::Admin => AccessStep::Ask(AccessQuery::IsAdmin),
            AccessRule::AdminOrTeamAdmin => AccessStep::Ask(AccessQuery::IsAdminOrTeamAdmin),
            AccessRule::SelfOrAdmin => if u == target {
                AccessStep::Allow
            } else {
                AccessStep::Ask(AccessQuery::IsAdmin)
            },
            AccessRule::SelfOrAdminOrTeamAdmin => if u == target {
                AccessStep::Allow
            } else {
                AccessStep::Ask(AccessQuery::IsAdmin)
            },
            AccessRule::OrderOwnerOrTeamAdmin => if u == target {
                AccessStep::Allow
            } else {
                AccessStep::Ask(AccessQuery::TeamAccess)
            },
        },
    }
}

/// The step after the database answered a query. A global admin passes
/// every check.
pub open spec fn access_next(rule: AccessRule, answer: AccessAnswer) -> AccessStep {
    match answer {
        AccessAnswer::TeamAccess { is_admin, role } => if is_admin {
            AccessStep::Allow
        } else {
            match rule {
                AccessRule::TeamMember => match role {
                    TeamRole::NotMember => AccessStep::Deny(DenyReason::TeamMembershipRequired),
                    _ => AccessStep::Allow,
                },
                _ => match role {
                    TeamRole::TeamAdmin => AccessStep::Allow,
                    TeamRole::OtherRole => AccessStep::Deny(DenyReason::TeamAdminRoleRequired),
                    TeamRole::NotMember => AccessStep::Deny(DenyReason::TeamMembershipRequired),
                },
            }
        },
        AccessAnswer::Flag(b) => if b {
            AccessStep::Allow
        } else {
            match rule {
                AccessRule::Admin => AccessStep::Deny(DenyReason::AdminRoleRequired),
                AccessRule::AdminOrTeamAdmin => AccessStep::Deny(DenyReason::AdminOrTeamAdminRequired),
                AccessRule::SelfOrAdmin => AccessStep::Deny(DenyReason::OwnAccountOnly),
                _ => AccessStep::Deny(DenyReason::OwnAccountOrSharedTeamAdmin),
            }
        },
    }
}

/// The first step of a check.
pub fn access_start(rule: AccessRule, requester: Option<u128>, target: u128) -> (s: AccessStep)
    ensures
        s == access_first(rule, requester, target),
{
    match requester {
        None => AccessStep::Deny(DenyReason::AuthenticationRequired),
        Some(u) => match rule {
            AccessRule::TeamMember => AccessStep::Ask(AccessQuery::TeamAccess),
            AccessRule::TeamAdmin => AccessStep::Ask(AccessQuery::TeamAccess),
            AccessRule::Admin => AccessStep::Ask(AccessQuery::IsAdmin),
            AccessRule::AdminOrTeamAdmin => AccessStep::Ask(AccessQuery::IsAdminOrTeamAdmin),
            AccessRule::SelfOrAdmin => if u == target {
                AccessStep::Allow
            } else {
                AccessStep::Ask(AccessQuery::IsAdmin)
            },
            AccessRule::SelfOrAdminOrTeamAdmin => if u == target {
                AccessStep::Allow
            } else {
                AccessStep::Ask(AccessQuery::IsAdmin)
            },
            AccessRule::OrderOwnerOrTeamAdmin => if u == target {
                AccessStep::Allow
            } else {
                AccessStep::Ask(AccessQuery::TeamAccess)
            },
        },
    }
}

/// The step after the database answered a query of a check. The
/// self-or-team-admin check asks, after a negative admin answer, whether the
/// user administers a team of the target user.
pub fn access_after(rule: AccessRule, query: AccessQuery, answer: AccessAnswer) -> (s: AccessStep)
    ensures
        rule == AccessRule::SelfOrAdminOrTeamAdmin && query == AccessQuery::IsAdmin
            && answer == AccessAnswer::Flag(false) ==> s == AccessStep::Ask(
            AccessQuery::IsTeamAdminOfTarget,
        ),
        !(rule == AccessRule::SelfOrAdminOrTeamAdmin && query == AccessQuery::IsAdmin && answer
            == AccessAnswer::Flag(false)) ==> s == access_next(rule, answer),
{
    match answer {
        AccessAnswer::TeamAccess { is_admin, role } => {
            if is_admin {
                AccessStep::Allow
            } else {
                match rule {
                    AccessRule::TeamMember => match role {
                        TeamRole::NotMember => AccessStep::Deny(DenyReason::TeamMembershipRequired),
                        _ => AccessStep::Allow,
                    },
                    _ => match role {
                        TeamRole::TeamAdmin => AccessStep::Allow,
                        TeamRole::OtherRole => AccessStep::Deny(DenyReason::TeamAdminRoleRequired),
                        TeamRole::NotMember => AccessStep::Deny(DenyReason::TeamMembershipRequired),
                    },
                }
            }
        },
        AccessAnswer::Flag(b) => {
            if b {
                AccessStep::Allow
            } else {
                match rule {
                    AccessRule::Admin => AccessStep::Deny(DenyReason::AdminRoleRequired),
                    AccessRule::AdminOrTeamAdmin => AccessStep::Deny(
                        DenyReason::AdminOrTeamAdminRequired,
                    ),
                    AccessRule::SelfOrAdmin => AccessStep::Deny(DenyReason::OwnAccountOnly),
                    _ => {
                        match query {
                            AccessQuery::IsAdmin => {
                                if rule == AccessRule::SelfOrAdminOrTeamAdmin {
                                    AccessStep::Ask(AccessQuery::IsTeamAdminOfTarget)
                                } else {
                                    AccessStep::Deny(DenyReason::OwnAccountOrSharedTeamAdmin)
                                }
                            },
                            _ => AccessStep::Deny(DenyReason::OwnAccountOrSharedTeamAdmin),
                        }
                    },
                }
            }
        },
    }
}

/// The message of a refusal.
pub open spec fn deny_message(reason: DenyReason) -> Seq<char> {
    match reason {
        DenyReason::AuthenticationRequired => "Authentication required"@,
        DenyReason::TeamMembershipRequired => "Team membership required"@,
        DenyReason::TeamAdminRoleRequired => "Team admin role required"@,
        DenyReason::AdminRoleRequired => "Admin role required"@,
        DenyReason::AdminOrTeamAdminRequired => "Admin or Team Admin role required"@,
        DenyReason::OwnAccountOnly => "You can only modify your own account"@,
        DenyReason::OwnAccountOrSharedTeamAdmin => "You can only modify your own account, or must be an admin of a shared team"@,
    }
}

/// The error of a refusal: unauthenticated requests are unauthorized, all
/// others forbidden.
pub fn deny_error(reason: DenyReason) -> (e: Error)
    ensures
        reason == DenyReason::AuthenticationRequired ==> (e matches Error::Unauthorized(m) && m@
            == deny_message(reason)),
        reason != DenyReason::AuthenticationRequired ==> (e matches Error::Forbidden(m) && m@
            == deny_message(reason)),
{
    match reason {
        DenyReason::AuthenticationRequired => Error::Unauthorized(
            "Authentication required".to_owned(),
        ),
        DenyReason::TeamMembershipRequired => Error::Forbidden("Team membership required".to_owned()),
        DenyReason::TeamAdminRoleRequired => Error::Forbidden("Team admin role required".to_owned()),
        DenyReason::AdminRoleRequired => Error::Forbidden("Admin role required".to_owned()),
        DenyReason::AdminOrTeamAdminRequired => Error::Forbidden(
            "Admin or Team Admin role required".to_owned(),
        ),
        DenyReason::OwnAccountOnly => Error::Forbidden(
            "You can only modify your own account".to_owned(),
        ),
        DenyReason::OwnAccountOrSharedTeamAdmin => Error::Forbidden(
            "You can only modify your own account, or must be an admin of a shared team".to_owned(),
        ),
    }
}

/// The role a user holds in a team, from the role's title: `Team Admin` is
/// the team admin role.
pub fn classify_team_role(title: Option<&str>) -> (r: TeamRole)
    ensures
        title is None ==> r == TeamRole::NotMember,
        title is Some ==> (r == TeamRole::TeamAdmin <==> title->0@ == ROLE_TEAM_ADMIN@),
        title is Some ==> r != TeamRole::NotMember,
{
    match title {
        None => TeamRole::NotMember,
        Some(t) => if text_eq(t, ROLE_TEAM_ADMIN) {
            TeamRole::TeamAdmin
        } else {
            TeamRole::OtherRole
        },
    }
}

/// No check lets an unauthenticated request through, and a global admin
/// passes every check that asks about admins.
pub proof fn lemma_admins_pass_and_anonymous_fail(rule: AccessRule, target: u128, role: TeamRole)
    ensures
        access_first(rule, None, target) == AccessStep::Deny(DenyReason::AuthenticationRequired),
        access_next(rule, AccessAnswer::TeamAccess { is_admin: true, role }) == AccessStep::Allow,
        access_next(rule, AccessAnswer::Flag(true)) == AccessStep::Allow,
{
}

/// Users may always act on their own account: the checks that admit the
/// target user let them through at once, without asking the database. The
/// other checks never let a request through before the database answered,
/// whoever the target is.
pub proof fn lemma_own_account_passes_at_once(rule: AccessRule, u: u128, target: u128)
    ensures
        access_first(AccessRule::SelfOrAdmin, Some(u), u) == AccessStep::Allow,
        access_first(AccessRule::SelfOrAdminOrTeamAdmin, Some(u), u) == AccessStep::Allow,
        access_first(AccessRule::OrderOwnerOrTeamAdmin, Some(u), u) == AccessStep::Allow,
        (rule == AccessRule::TeamMember || rule == AccessRule::TeamAdmin || rule == AccessRule::Admin
            || rule == AccessRule::AdminOrTeamAdmin) ==> access_first(rule, Some(u), target) is Ask,
        u != target ==> access_first(rule, Some(u), target) is Ask,
{
}

/// The first question each check puts to the database is the one its rule
/// needs: team checks ask about the team (an order's team too), the admin
/// checks ask whether the user is an admin (or any team's admin).
pub proof fn lemma_first_query_fits_rule(rule: AccessRule, u: u128, target: u128)
    ensures
        access_first(rule, Some(u), target) matches AccessStep::Ask(q) ==> (q
            == AccessQuery::TeamAccess <==> (rule == AccessRule::TeamMember || rule
            == AccessRule::TeamAdmin || rule == AccessRule::OrderOwnerOrTeamAdmin)),
        access_first(rule, Some(u), target) matches AccessStep::Ask(q) ==> (q
            == AccessQuery::IsAdminOrTeamAdmin <==> rule == AccessRule::AdminOrTeamAdmin),
        access_first(rule, Some(u), target) matches AccessStep::Ask(q) ==> (q == AccessQuery::IsAdmin
            <==> (rule == AccessRule::Admin || rule == AccessRule::SelfOrAdmin || rule
            == AccessRule::SelfOrAdminOrTeamAdmin)),
        access_first(rule, Some(u), target) !is Deny,
{
}

/// How a check decides on a user's standing in a team: a global admin
/// passes; otherwise a member check passes any member and a team-admin check
/// only a team admin; a non-member is told membership is required, a member
/// without the admin role that the admin role is.
pub proof fn lemma_team_answer_decides(rule: AccessRule, is_admin: bool, role: TeamRole)
    ensures
        ({
            let s = access_next(rule, AccessAnswer::TeamAccess { is_admin, role });
            &&& s is Allow <==> (is_admin || role == TeamRole::TeamAdmin || (rule
                == AccessRule::TeamMember && role == TeamRole::OtherRole))
            &&& s == AccessStep::Deny(DenyReason::TeamMembershipRequired) <==> (!is_admin && role
                == TeamRole::NotMember)
            &&& s == AccessStep::Deny(DenyReason::TeamAdminRoleRequired) <==> (!is_admin && role
                == TeamRole::OtherRole && rule != AccessRule::TeamMember)
            &&& s !is Ask
        }),
{
}

/// How a check decides on a yes/no answer: yes lets the request through; no
/// refuses it with the message of its rule (the self-or-team-admin check
/// first asks whether the user administers a team of the target user).
pub proof fn lemma_flag_answer_decides(rule: AccessRule, query: AccessQuery, b: bool)
    ensures
        b ==> access_next(rule, AccessAnswer::Flag(b)) == AccessStep::Allow,
        !b ==> access_next(rule, AccessAnswer::Flag(b)) !is Allow,
        !b && rule == AccessRule::Admin ==> access_next(rule, AccessAnswer::Flag(b))
            == AccessStep::Deny(DenyReason::AdminRoleRequired),
        !b && rule == AccessRule::AdminOrTeamAdmin ==> access_next(rule, AccessAnswer::Flag(b))
            == AccessStep::Deny(DenyReason::AdminOrTeamAdminRequired),
        !b && rule == AccessRule::SelfOrAdmin ==> access_next(rule, AccessAnswer::Flag(b))
            == AccessStep::Deny(DenyReason::OwnAccountOnly),
        !b && rule == AccessRule::SelfOrAdminOrTeamAdmin ==> access_next(
            rule,
            AccessAnswer::Flag(b),
        ) == AccessStep::Deny(DenyReason::OwnAccountOrSharedTeamAdmin),
{
}

// ── Handler rules ───────────────────────────────────────────────────────────

/// A team with orders cannot be deleted: the orders would be lost with it.
pub fn check_team_deletable(order_count: i64) -> (r: Result<(), Error>)
    ensures
        r is Ok <==> order_count <= 0,
        r matches Err(e) ==> (e matches Error::Conflict(m) && m@ == "Cannot delete team — it has "@
            + crate::text::decimal_chars(order_count as nat) + " order(s). Delete the orders first."@),
{
    if order_count > 0 {
        let mut m = "Cannot delete team — it has ".to_owned();
        let digits = crate::text::u64_to_decimal(order_count as u64);
        vstd::string::StringExecFns::append(&mut m, digits.as_str());
        vstd::string::StringExecFns::append(&mut m, " order(s). Delete the orders first.");
        Err(Error::Conflict(m))
    } else {
        Ok(())
    }
}

/// A due date may not lie before today (both as days since the epoch).
pub fn check_due_date(due: Option<i32>, today: i32) -> (r: Result<(), Error>)
    ensures
        r is Ok <==> (due is None || due->0 >= today),
        r matches Err(e) ==> (e matches Error::Validation(m) && m@ == "Due date cannot be in the past"@),
{
    match due {
        Some(d) => if d < today {
            Err(Error::Validation("Due date cannot be in the past".to_owned()))
        } else {
            Ok(())
        },
        None => Ok(()),
    }
}

/// The user who picks up an order must be a member of the team.
pub fn check_pickup_member(is_member: bool) -> (r: Result<(), Error>)
    ensures
        r is Ok <==> is_member,
        r matches Err(e) ==> (e matches Error::Validation(m) && m@
            == "Pickup user must be a member of this team"@),
{
    if is_member {
        Ok(())
    } else {
        Err(Error::Validation("Pickup user must be a member of this team".to_owned()))
    }
}

/// Changing the pickup user of an order that already has one needs a team
/// admin; setting the first one does not, nor does an update that leaves the
/// pickup user alone.
pub open spec fn pickup_change_needs_team_admin(
    requested: Option<Option<u128>>,
    current: Option<u128>,
) -> bool {
    requested is Some && current is Some
}

/// Whether changing the pickup user needs a team admin.
pub fn pickup_change_requires_team_admin(requested: Option<Option<u128>>, current: Option<u128>) -> (r:
    bool)
    ensures
        r == pickup_change_needs_team_admin(requested, current),
{
    requested.is_some() && current.is_some()
}

/// A team admin is needed only to replace the pickup user of an order that
/// already has one: an update that names no pickup user, and one that sets
/// the first pickup user, go through for any member; naming a pickup user
/// (or clearing it) on an order that has one needs a team admin.
pub proof fn lemma_pickup_change_needs_admin_only_to_replace(
    requested: Option<Option<u128>>,
    current: Option<u128>,
)
    ensures
        requested is None ==> !pickup_change_needs_team_admin(requested, current),
        current is None ==> !pickup_change_needs_team_admin(requested, current),
        requested is Some && current is Some ==> pickup_change_needs_team_admin(requested, current),
{
}

/// Items can be added to, changed in or removed from open orders only.
pub fn check_order_open(closed: bool, action: &str) -> (r: Result<(), Error>)
    ensures
        r is Ok <==> !closed,
        r matches Err(e) ==> (e matches Error::Forbidden(m) && m@ == "Cannot "@ + action@
            + " items in a closed order"@),
{
    if closed {
        let mut m = "Cannot ".to_owned();
        vstd::string::StringExecFns::append(&mut m, action);
        vstd::string::StringExecFns::append(&mut m, " items in a closed order");
        Err(Error::Forbidden(m))
    } else {
        Ok(())
    }
}

/// Only a closed order can be reopened.
pub fn check_reopenable(closed: bool) -> (r: Result<(), Error>)
    ensures
        r is Ok <==> closed,
        r matches Err(e) ==> (e matches Error::Validation(m) && m@
            == "Only closed orders can be reopened"@),
{
    if closed {
        Ok(())
    } else {
        Err(Error::Validation("Only closed orders can be reopened".to_owned()))
    }
}

/// The last admin cannot delete their own account: a self-deletion by an
/// admin is refused while at most one admin exists.
pub fn check_not_last_admin(self_delete: bool, is_admin: bool, admin_count: i64) -> (r: Result<
    (),
    Error,
>)
    ensures
        r is Err <==> self_delete && is_admin && admin_count <= 1,
        r matches Err(e) ==> (e matches Error::Forbidden(m) && m@
            == "Cannot delete the last admin account"@),
{
    if self_delete && is_admin && admin_count <= 1 {
        Err(Error::Forbidden("Cannot delete the last admin account".to_owned()))
    } else {
        Ok(())
    }
}

/// The e-mail in a delete-by-e-mail path must look like one: at most 255
/// bytes and containing `@`.
pub fn check_email_path(email: &str) -> (r: Result<(), Error>)
    ensures
        r is Ok <==> vstd::utf8::encode_utf8(email@).len() <= 255 && contains_text(email@, "@"@),
        r matches Err(e) ==> (e matches Error::Validation(m) && m@ == "Invalid email format"@),
{
    if email.as_bytes().len() > 255 || !crate::text::contains(email, "@") {
        Err(Error::Validation("Invalid email format".to_owned()))
    } else {
        Ok(())
    }
}

/// A token may be revoked by the user it was issued to, or by a global admin.
pub fn check_token_revoker(token_user: u128, requester: u128, requester_is_admin: bool) -> (r: Result<
    (),
    Error,
>)
    ensures
        r is Ok <==> token_user == requester || requester_is_admin,
        r matches Err(e) ==> (e matches Error::Forbidden(m) && m@
            == "Cannot revoke another user's token"@),
{
    if token_user != requester && !requester_is_admin {
        Err(Error::Forbidden("Cannot revoke another user's token".to_owned()))
    } else {
        Ok(())
    }
}

/// The first user may register only while no user exists.
pub fn check_registration_open(user_count: i64) -> (r: Result<(), Error>)
    ensures
        r is Ok <==> user_count <= 0,
        r matches Err(e) ==> (e matches Error::Forbidden(m) && m@
            == "Registration is closed — users already exist"@),
{
    if user_count > 0 {
        Err(Error::Forbidden("Registration is closed — users already exist".to_owned()))
    } else {
        Ok(())
    }
}

/// The request acts on the requesting user's own account.
pub fn is_self_action(requester: Option<u128>, target: u128) -> (r: bool)
    ensures
        r == (requester == Some(target)),
{
    match requester {
        Some(u) => u == target,
        None => false,
    }
}

/// A user who changes their own password must give the current one; an
/// admin who resets another user's password need not.
pub fn current_password_required(password_given: bool, requester: Option<u128>, target: u128) -> (r:
    bool)
    ensures
        r == (password_given && requester == Some(target)),
{
    password_given && is_self_action(requester, target)
}

} // verus!
