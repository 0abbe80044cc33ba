//! Request and response models, with the validation rules of the request
//! bodies.
//!
//! Identifiers (UUIDs) are held as their 128-bit value, instants as
//! nanoseconds since the Unix epoch, and decimal prices as mantissa and scale.

use vstd::prelude::*;
use crate::text::chars_of;
use crate::validate::{
    Validate, ValidationError, check_email, check_length, check_range, email_accepted, email_rule, length_rule,
    range_rule,
};

verus! {

// ── Pagination ──────────────────────────────────────────────────────────────

/// Default number of items per page.
pub const DEFAULT_PAGE_LIMIT: i64 = 50;

/// Maximum allowed items per page.
pub const MAX_PAGE_LIMIT: i64 = 100;

/// Query parameters for paginated list endpoints.
#[derive(Debug)]
pub struct PaginationParams {
    /// Maximum number of items to return (1–100, default 50).
    pub limit: Option<i64>,
    /// Number of items to skip (default 0).
    pub offset: Option<i64>,
}

/// The limit that a page request gets: the requested one (50 when absent)
/// clamped to `[1, 100]`.
pub open spec fn sanitized_limit(limit: Option<i64>) -> i64 {
    let l = match limit {
        Some(l) => l,
        None => DEFAULT_PAGE_LIMIT,
    };
    if l < 1 {
        1
    } else if l > MAX_PAGE_LIMIT {
        MAX_PAGE_LIMIT
    } else {
        l
    }
}

/// The offset that a page request gets: the requested one (0 when absent),
/// at least 0.
pub open spec fn sanitized_offset(offset: Option<i64>) -> i64 {
    match offset {
        Some(o) => if o < 0 {
            0
        } else {
            o
        },
        None => 0,
    }
}

impl PaginationParams {
    /// Returns sanitised (limit, offset) values clamped to valid ranges.
    pub fn sanitize(&self) -> (r: (i64, i64))
        ensures
            r.0 == sanitized_limit(self.limit),
            r.1 == sanitized_offset(self.offset),
    {
        let requested = match self.limit {
            Some(l) => l,
            None => DEFAULT_PAGE_LIMIT,
        };
        let limit = if requested < 1 {
            1
        } else if requested > MAX_PAGE_LIMIT {
            MAX_PAGE_LIMIT
        } else {
            requested
        };
        let offset = match self.offset {
            Some(o) => if o < 0 {
                0
            } else {
                o
            },
            None => 0,
        };
        (limit, offset)
    }
}

/// A sanitized page always lies within the bounds: a limit in `[1, 100]`
/// and an offset of at least 0, and a limit or offset already in bounds is
/// kept as it is.
pub proof fn lemma_sanitized_page_in_bounds(limit: Option<i64>, offset: Option<i64>)
    ensures
        1 <= sanitized_limit(limit) <= MAX_PAGE_LIMIT,
        sanitized_offset(offset) >= 0,
        limit is Some && 1 <= limit->0 <= MAX_PAGE_LIMIT ==> sanitized_limit(limit) == limit->0,
        offset is Some && offset->0 >= 0 ==> sanitized_offset(offset) == offset->0,
        sanitized_limit(Some(sanitized_limit(limit))) == sanitized_limit(limit),
        sanitized_offset(Some(sanitized_offset(offset))) == sanitized_offset(offset),
{
}

// ── Tokens ──────────────────────────────────────────────────────────────────

/// The two kinds of JWT that the service issues.
#[derive(Clone, Copy, Debug, PartialEq, Eq, Structural)]
pub enum TokenType {
    Access,
    Refresh,
}

/// The claims of a JWT issued by the service.
#[derive(Clone, Debug)]
pub struct Claims {
    /// The user the token was issued to.
    pub sub: u128,
    /// Expiry, in seconds since the Unix epoch.
    pub exp: i64,
    /// Issue time, in seconds since the Unix epoch.
    pub iat: i64,
    /// The token's own identifier, used for revocation.
    pub jti: u128,
    pub token_type: TokenType,
    pub iss: String,
    pub aud: String,
}

/// A token pair as answered to a successful login or refresh.
#[derive(Debug)]
pub struct Auth {
    pub access_token: String,
    pub refresh_token: String,
    pub token_type: String,
    pub expires_in: i64,
}

/// Body of the revocation endpoint.
#[derive(Debug)]
pub struct TokenRequest {
    pub token: String,
}

/// Optional body for the refresh endpoint. When the client provides the
/// previous access token, the server revokes it immediately instead of
/// waiting for it to expire naturally (15 min window).
#[derive(Debug)]
pub struct RefreshRequest {
    /// The access token that should be revoked as part of the refresh.
    pub access_token: Option<String>,
}

/// Cached authentication data: the user's identifier and password hash.
#[derive(Clone, Debug)]
pub struct AuthCacheEntry {
    pub user_id: u128,
    pub password_hash: String,
}

/// A cached user entry with the instant it was cached, in nanoseconds since
/// the Unix epoch.
#[derive(Clone, Debug)]
pub struct CachedUser {
    pub user: AuthCacheEntry,
    pub cached_at: i128,
}

/// Answer of the health endpoint.
#[derive(Debug)]
pub struct StatusResponse {
    pub up: bool,
    pub setup_required: bool,
}

/// Answer of the revocation endpoint.
#[derive(Debug)]
pub struct RevokedResponse {
    pub revoked: bool,
}

/// Answer of the delete endpoints.
#[derive(Debug)]
pub struct DeletedResponse {
    pub deleted: bool,
}

// ── Users ───────────────────────────────────────────────────────────────────

/// Message of the first-name length rule.
pub open spec fn firstname_msg() -> Seq<char> {
    "firstname is required and must be between 2 and 50 characters"@
}

/// Message of the last-name length rule.
pub open spec fn lastname_msg() -> Seq<char> {
    "lastname is required and must be between 2 and 50 characters"@
}

/// Message of the e-mail length rule.
pub open spec fn email_length_msg() -> Seq<char> {
    "email must not exceed 75 characters"@
}

/// Message of the e-mail address rule, which has no message of its own.
pub open spec fn email_msg() -> Seq<char> {
    "email is required"@
}

/// The rules on the name and e-mail fields shared by user requests.
pub open spec fn person_rules(firstname: Seq<char>, lastname: Seq<char>, email: Seq<char>) -> Seq<
    Seq<char>,
> {
    length_rule(firstname, 2, 50, firstname_msg()) + length_rule(lastname, 2, 50, lastname_msg())
        + email_rule(email, email_msg()) + length_rule(email, 0, 75, email_length_msg())
}

/// Check the name and e-mail rules shared by user requests.
fn check_person(out: &mut Vec<String>, firstname: &str, lastname: &str, email: &str)
    ensures
        final(out).deep_view() == old(out).deep_view() + person_rules(firstname@, lastname@, email@),
{
    check_length(out, firstname, 2, 50, "firstname is required and must be between 2 and 50 characters");
    check_length(out, lastname, 2, 50, "lastname is required and must be between 2 and 50 characters");
    check_email(out, email, "email is required");
    check_length(out, email, 0, 75, "email must not exceed 75 characters");
    assert(final(out).deep_view() =~= old(out).deep_view() + person_rules(
        firstname@,
        lastname@,
        email@,
    ));
}

/// API request body for updating a user. Password is optional — if omitted,
/// the existing password is preserved.
///
/// When a non-admin user changes their own password, `current_password` must
/// be provided and will be verified against the stored hash. Admins resetting
/// another user's password may omit `current_password`.
#[derive(Clone, Debug)]
pub struct UpdateUserRequest {
    pub firstname: String,
    pub lastname: String,
    pub email: String,
    pub password: Option<String>,
    /// Required when a user changes their own password.
    pub current_password: Option<String>,
}

/// The message of the optional-password rule, which counts characters: at
/// least 8 and at most 128.
pub open spec fn password_length_msg(password: Seq<char>) -> Option<Seq<char>> {
    let n = password.len();
    if n < 8 {
        Some("password must be at least 8 characters"@)
    } else if n > 128 {
        Some("password must not exceed 128 characters"@)
    } else {
        None
    }
}

/// The password rule of an update request: at least 8 and at most 128 characters.
pub fn validate_optional_password(password: &String) -> (r: Result<(), ValidationError>)
    ensures
        r is Ok <==> password_length_msg(password@) is None,
        r matches Err(e) ==> e.code@ == "password"@ && (e.message matches Some(m)
            && password_length_msg(password@) == Some(m@)),
{
    let n = chars_of(password.as_str()).len();
    if n < 8 {
        return Err(
            ValidationError {
                code: "password".to_owned(),
                message: Some("password must be at least 8 characters".to_owned()),
            },
        );
    }
    if n > 128 {
        return Err(
            ValidationError {
                code: "password".to_owned(),
                message: Some("password must not exceed 128 characters".to_owned()),
            },
        );
    }
    Ok(())
}

/// The messages of the optional-password rule, if a password is given.
pub open spec fn optional_password_rule(password: Option<String>) -> Seq<Seq<char>> {
    match password {
        Some(p) => match password_length_msg(p@) {
            Some(m) => seq![m],
            None => Seq::empty(),
        },
        None => Seq::empty(),
    }
}

impl Validate for UpdateUserRequest {
    open spec fn rule_messages(&self) -> Seq<Seq<char>> {
        person_rules(self.firstname@, self.lastname@, self.email@) + optional_password_rule(
            self.password,
        )
    }

    fn messages(&self) -> (r: Vec<String>) {
        let mut out: Vec<String> = Vec::new();
        check_person(&mut out, self.firstname.as_str(), self.lastname.as_str(), self.email.as_str());
        let ghost before = out.deep_view();
        match &self.password {
            Some(p) => match validate_optional_password(p) {
                Err(e) => {
                    match e.message {
                        Some(m) => {
                            out.push(m);
                        },
                        None => {},
                    }
                },
                Ok(()) => {},
            },
            None => {},
        }
        assert(out.deep_view() =~= before + optional_password_rule(self.password));
        assert(out.deep_view() =~= self.rule_messages());
        out
    }
}

/// Request body for creating a user.
#[derive(Clone, Debug)]
pub struct CreateUserEntry {
    pub firstname: String,
    pub lastname: String,
    pub email: String,
    pub password: String,
}

impl Validate for CreateUserEntry {
    open spec fn rule_messages(&self) -> Seq<Seq<char>> {
        person_rules(self.firstname@, self.lastname@, self.email@) + length_rule(
            self.password@,
            8,
            128,
            "password is required and must be between 8 and 128 characters"@,
        )
    }

    fn messages(&self) -> (r: Vec<String>) {
        let mut out: Vec<String> = Vec::new();
        check_person(&mut out, self.firstname.as_str(), self.lastname.as_str(), self.email.as_str());
        check_length(
            &mut out,
            self.password.as_str(),
            8,
            128,
            "password is required and must be between 8 and 128 characters",
        );
        assert(out.deep_view() =~= self.rule_messages());
        out
    }
}

// ── Teams ───────────────────────────────────────────────────────────────────

/// The rules on a team's name and description.
pub open spec fn team_rules(tname: Seq<char>, descr: Option<String>) -> Seq<Seq<char>> {
    length_rule(tname, 1, 255, "tname is required and must be between 1 and 255 characters"@)
        + match descr {
        Some(d) => length_rule(d@, 0, 1000, "descr must not exceed 1000 characters"@),
        None => Seq::empty(),
    }
}

/// Check the rules on a team's name and description.
fn check_team(tname: &str, descr: &Option<String>) -> (r: Vec<String>)
    ensures
        r.deep_view() == team_rules(tname@, *descr),
{
    let mut out: Vec<String> = Vec::new();
    check_length(&mut out, tname, 1, 255, "tname is required and must be between 1 and 255 characters");
    let ghost before = out.deep_view();
    match descr {
        Some(d) => check_length(&mut out, d.as_str(), 0, 1000, "descr must not exceed 1000 characters"),
        None => {},
    }
    assert(out.deep_view() =~= team_rules(tname@, *descr));
    out
}

/// Request body for creating a team.
#[derive(Clone, Debug)]
pub struct CreateTeamEntry {
    pub tname: String,
    pub descr: Option<String>,
}

impl Validate for CreateTeamEntry {
    open spec fn rule_messages(&self) -> Seq<Seq<char>> {
        team_rules(self.tname@, self.descr)
    }

    fn messages(&self) -> (r: Vec<String>) {
        check_team(self.tname.as_str(), &self.descr)
    }
}

/// Request body for updating a team.
#[derive(Clone, Debug)]
pub struct UpdateTeamEntry {
    pub tname: String,
    pub descr: Option<String>,
}

impl Validate for UpdateTeamEntry {
    open spec fn rule_messages(&self) -> Seq<Seq<char>> {
        team_rules(self.tname@, self.descr)
    }

    fn messages(&self) -> (r: Vec<String>) {
        check_team(self.tname.as_str(), &self.descr)
    }
}

// ── Roles ───────────────────────────────────────────────────────────────────

/// The rule on a role's title.
pub open spec fn role_rules(title: Seq<char>) -> Seq<Seq<char>> {
    length_rule(title, 1, 255, "title is required and must be between 1 and 255 characters"@)
}

/// Request body for creating a role.
#[derive(Clone, Debug)]
pub struct CreateRoleEntry {
    pub title: String,
}

impl Validate for CreateRoleEntry {
    open spec fn rule_messages(&self) -> Seq<Seq<char>> {
        role_rules(self.title@)
    }

    fn messages(&self) -> (r: Vec<String>) {
        let mut out: Vec<String> = Vec::new();
        check_length(
            &mut out,
            self.title.as_str(),
            1,
            255,
            "title is required and must be between 1 and 255 characters",
        );
        assert(out.deep_view() =~= self.rule_messages());
        out
    }
}

/// Request body for updating a role.
#[derive(Clone, Debug)]
pub struct UpdateRoleEntry {
    pub title: String,
}

impl Validate for UpdateRoleEntry {
    open spec fn rule_messages(&self) -> Seq<Seq<char>> {
        role_rules(self.title@)
    }

    fn messages(&self) -> (r: Vec<String>) {
        let mut out: Vec<String> = Vec::new();
        check_length(
            &mut out,
            self.title.as_str(),
            1,
            255,
            "title is required and must be between 1 and 255 characters",
        );
        assert(out.deep_view() =~= self.rule_messages());
        out
    }
}

// ── Items ───────────────────────────────────────────────────────────────────

/// A decimal price: `mantissa / 10^scale`.
#[derive(Clone, Copy, Debug)]
pub struct Price {
    pub mantissa: i128,
    pub scale: u32,
}

/// The price rule: a price must be zero or positive.
pub fn validate_non_negative_price(price: &Price) -> (r: Result<(), ValidationError>)
    ensures
        r is Ok <==> price.mantissa >= 0,
        r matches Err(e) ==> e.code@ == "price"@ && (e.message matches Some(m) && m@
            == "price must be zero or positive"@),
{
    if price.mantissa < 0 {
        return Err(
            ValidationError {
                code: "price".to_owned(),
                message: Some("price must be zero or positive".to_owned()),
            },
        );
    }
    Ok(())
}

/// The rules on an item's description and price.
pub open spec fn item_rules(descr: Seq<char>, price: Price) -> Seq<Seq<char>> {
    length_rule(descr, 1, 255, "descr is required and must be between 1 and 255 characters"@) + if price.mantissa
        >= 0 {
        Seq::empty()
    } else {
        seq!["price must be zero or positive"@]
    }
}

/// Check the rules on an item's description and price.
fn check_item(descr: &str, price: &Price) -> (r: Vec<String>)
    ensures
        r.deep_view() == item_rules(descr@, *price),
{
    let mut out: Vec<String> = Vec::new();
    check_length(&mut out, descr, 1, 255, "descr is required and must be between 1 and 255 characters");
    let ghost before = out.deep_view();
    match validate_non_negative_price(price) {
        Err(e) => match e.message {
            Some(m) => out.push(m),
            None => {},
        },
        Ok(()) => {},
    }
    assert(out.deep_view() =~= item_rules(descr@, *price));
    out
}

/// Request body for creating an item.
#[derive(Clone, Debug)]
pub struct CreateItemEntry {
    pub descr: String,
    pub price: Price,
}

impl Validate for CreateItemEntry {
    open spec fn rule_messages(&self) -> Seq<Seq<char>> {
        item_rules(self.descr@, self.price)
    }

    fn messages(&self) -> (r: Vec<String>) {
        check_item(self.descr.as_str(), &self.price)
    }
}

/// Request body for updating an item.
#[derive(Clone, Debug)]
pub struct UpdateItemEntry {
    pub descr: String,
    pub price: Price,
}

impl Validate for UpdateItemEntry {
    open spec fn rule_messages(&self) -> Seq<Seq<char>> {
        item_rules(self.descr@, self.price)
    }

    fn messages(&self) -> (r: Vec<String>) {
        check_item(self.descr.as_str(), &self.price)
    }
}

// ── Orders ──────────────────────────────────────────────────────────────────

/// The rule on an order line's quantity.
pub open spec fn quantity_rules(amt: i32) -> Seq<Seq<char>> {
    range_rule(amt as int, 1, 10000, "quantity must be between 1 and 10000"@)
}

/// Request body for adding an item to a team order.
#[derive(Clone, Debug)]
pub struct CreateOrderEntry {
    pub orders_item_id: u128,
    pub amt: i32,
}

impl Validate for CreateOrderEntry {
    open spec fn rule_messages(&self) -> Seq<Seq<char>> {
        quantity_rules(self.amt)
    }

    fn messages(&self) -> (r: Vec<String>) {
        let mut out: Vec<String> = Vec::new();
        check_range(&mut out, self.amt as i64, 1, 10000, "quantity must be between 1 and 10000");
        assert(out.deep_view() =~= self.rule_messages());
        out
    }
}

/// Request body for changing an order line's quantity.
#[derive(Clone, Debug)]
pub struct UpdateOrderEntry {
    pub amt: i32,
}

impl Validate for UpdateOrderEntry {
    open spec fn rule_messages(&self) -> Seq<Seq<char>> {
        quantity_rules(self.amt)
    }

    fn messages(&self) -> (r: Vec<String>) {
        let mut out: Vec<String> = Vec::new();
        check_range(&mut out, self.amt as i64, 1, 10000, "quantity must be between 1 and 10000");
        assert(out.deep_view() =~= self.rule_messages());
        out
    }
}

// ── What each request's rules refuse ────────────────────────────────────────

/// A list of messages holds `m`, wherever `m` stands in it.
proof fn lemma_listed(a: Seq<Seq<char>>, m: Seq<char>, b: Seq<Seq<char>>)
    ensures
        (a + seq![m] + b).contains(m),
{
    assert((a + seq![m] + b)[a.len() as int] == m);
}

/// The optional password of an update is refused exactly when it is shorter
/// than 8 or longer than 128 characters, with the message of the side it
/// misses.
pub proof fn lemma_optional_password_rule(password: Seq<char>)
    ensures
        password_length_msg(password) is None <==> 8 <= password.len() <= 128,
        password.len() < 8 ==> password_length_msg(password) == Some(
            "password must be at least 8 characters"@,
        ),
        password.len() > 128 ==> password_length_msg(password) == Some(
            "password must not exceed 128 characters"@,
        ),
{
}

/// An update of a user is refused, with the message of each rule it breaks,
/// when a name is shorter than 2 or longer than 50 characters, when the
/// e-mail validator refuses the address, when the address is longer than 75
/// characters, or when a new password is shorter than 8 or longer than 128
/// characters; it is accepted when it breaks none of these.
pub proof fn lemma_update_user_rules(req: UpdateUserRequest)
    ensures
        !(2 <= req.firstname@.len() <= 50) ==> req.rule_messages().contains(
            "firstname is required and must be between 2 and 50 characters"@,
        ),
        !(2 <= req.lastname@.len() <= 50) ==> req.rule_messages().contains(
            "lastname is required and must be between 2 and 50 characters"@,
        ),
        !email_accepted(req.email@) ==> req.rule_messages().contains("email is required"@),
        req.email@.len() > 75 ==> req.rule_messages().contains(
            "email must not exceed 75 characters"@,
        ),
        req.password matches Some(p) && p@.len() < 8 ==> req.rule_messages().contains(
            "password must be at least 8 characters"@,
        ),
        req.password matches Some(p) && p@.len() > 128 ==> req.rule_messages().contains(
            "password must not exceed 128 characters"@,
        ),
        req.rule_messages().len() == 0 <==> (2 <= req.firstname@.len() <= 50 && 2
            <= req.lastname@.len() <= 50 && email_accepted(req.email@) && req.email@.len() <= 75
            && (req.password matches Some(p) ==> 8 <= p@.len() <= 128)),
{
    let f = length_rule(req.firstname@, 2, 50, firstname_msg());
    let l = length_rule(req.lastname@, 2, 50, lastname_msg());
    let e = email_rule(req.email@, email_msg());
    let n = length_rule(req.email@, 0, 75, email_length_msg());
    let p = optional_password_rule(req.password);
    assert(req.rule_messages() == f + l + e + n + p);
    if !(2 <= req.firstname@.len() <= 50) {
        lemma_listed(Seq::empty(), firstname_msg(), l + e + n + p);
        assert(f + l + e + n + p =~= Seq::empty() + seq![firstname_msg()] + (l + e + n + p));
    }
    if !(2 <= req.lastname@.len() <= 50) {
        lemma_listed(f, lastname_msg(), e + n + p);
        assert(f + l + e + n + p =~= f + seq![lastname_msg()] + (e + n + p));
    }
    if !email_accepted(req.email@) {
        lemma_listed(f + l, email_msg(), n + p);
        assert(f + l + e + n + p =~= (f + l) + seq![email_msg()] + (n + p));
    }
    if req.email@.len() > 75 {
        lemma_listed(f + l + e, email_length_msg(), p);
        assert(f + l + e + n + p =~= (f + l + e) + seq![email_length_msg()] + p);
    }
    if req.password is Some {
        let pw = req.password->0@;
        if pw.len() < 8 || pw.len() > 128 {
            let m = password_length_msg(pw)->0;
            lemma_listed(f + l + e + n, m, Seq::empty());
            assert(f + l + e + n + p =~= (f + l + e + n) + seq![m] + Seq::empty());
        }
    }
}

/// A new user is refused, with the message of each rule it breaks, when a
/// name is shorter than 2 or longer than 50 characters, when the e-mail
/// validator refuses the address, when the address is longer than 75
/// characters, or when the password is shorter than 8 or longer than 128
/// characters; it is accepted when it breaks none of these.
pub proof fn lemma_create_user_rules(req: CreateUserEntry)
    ensures
        !(2 <= req.firstname@.len() <= 50) ==> req.rule_messages().contains(
            "firstname is required and must be between 2 and 50 characters"@,
        ),
        !(2 <= req.lastname@.len() <= 50) ==> req.rule_messages().contains(
            "lastname is required and must be between 2 and 50 characters"@,
        ),
        !email_accepted(req.email@) ==> req.rule_messages().contains("email is required"@),
        req.email@.len() > 75 ==> req.rule_messages().contains(
            "email must not exceed 75 characters"@,
        ),
        !(8 <= req.password@.len() <= 128) ==> req.rule_messages().contains(
            "password is required and must be between 8 and 128 characters"@,
        ),
        req.rule_messages().len() == 0 <==> (2 <= req.firstname@.len() <= 50 && 2
            <= req.lastname@.len() <= 50 && email_accepted(req.email@) && req.email@.len() <= 75 && 8
            <= req.password@.len() <= 128),
{
    let f = length_rule(req.firstname@, 2, 50, firstname_msg());
    let l = length_rule(req.lastname@, 2, 50, lastname_msg());
    let e = email_rule(req.email@, email_msg());
    let n = length_rule(req.email@, 0, 75, email_length_msg());
    let pm = "password is required and must be between 8 and 128 characters"@;
    let p = length_rule(req.password@, 8, 128, pm);
    assert(req.rule_messages() == f + l + e + n + p);
    if !(2 <= req.firstname@.len() <= 50) {
        lemma_listed(Seq::empty(), firstname_msg(), l + e + n + p);
        assert(f + l + e + n + p =~= Seq::empty() + seq![firstname_msg()] + (l + e + n + p));
    }
    if !(2 <= req.lastname@.len() <= 50) {
        lemma_listed(f, lastname_msg(), e + n + p);
        assert(f + l + e + n + p =~= f + seq![lastname_msg()] + (e + n + p));
    }
    if !email_accepted(req.email@) {
        lemma_listed(f + l, email_msg(), n + p);
        assert(f + l + e + n + p =~= (f + l) + seq![email_msg()] + (n + p));
    }
    if req.email@.len() > 75 {
        lemma_listed(f + l + e, email_length_msg(), p);
        assert(f + l + e + n + p =~= (f + l + e) + seq![email_length_msg()] + p);
    }
    if !(8 <= req.password@.len() <= 128) {
        lemma_listed(f + l + e + n, pm, Seq::empty());
        assert(f + l + e + n + p =~= (f + l + e + n) + seq![pm] + Seq::empty());
    }
}

/// A team (new or updated) is refused, with the message of each rule it
/// breaks, when its name is empty or longer than 255 characters, or when its
/// description is longer than 1000 characters; it is accepted otherwise.
pub proof fn lemma_team_rules(tname: Seq<char>, descr: Option<String>)
    ensures
        !(1 <= tname.len() <= 255) ==> team_rules(tname, descr).contains(
            "tname is required and must be between 1 and 255 characters"@,
        ),
        descr matches Some(d) && d@.len() > 1000 ==> team_rules(tname, descr).contains(
            "descr must not exceed 1000 characters"@,
        ),
        team_rules(tname, descr).len() == 0 <==> (1 <= tname.len() <= 255 && (descr matches Some(
            d,
        ) ==> d@.len() <= 1000)),
        forall|c: CreateTeamEntry| #[trigger] c.rule_messages() == team_rules(c.tname@, c.descr),
        forall|u: UpdateTeamEntry| #[trigger] u.rule_messages() == team_rules(u.tname@, u.descr),
{
    let t = length_rule(tname, 1, 255, "tname is required and must be between 1 and 255 characters"@);
    let d = match descr {
        Some(d) => length_rule(d@, 0, 1000, "descr must not exceed 1000 characters"@),
        None => Seq::empty(),
    };
    assert(team_rules(tname, descr) == t + d);
    if !(1 <= tname.len() <= 255) {
        lemma_listed(Seq::empty(), "tname is required and must be between 1 and 255 characters"@, d);
        assert(t + d =~= Seq::empty() + seq![
            "tname is required and must be between 1 and 255 characters"@,
        ] + d);
    }
    if descr is Some && descr->0@.len() > 1000 {
        lemma_listed(t, "descr must not exceed 1000 characters"@, Seq::empty());
        assert(t + d =~= t + seq!["descr must not exceed 1000 characters"@] + Seq::empty());
    }
}

/// A role (new or updated) is refused exactly when its title is empty or
/// longer than 255 characters, with the title's message.
pub proof fn lemma_role_rules(title: Seq<char>)
    ensures
        !(1 <= title.len() <= 255) ==> role_rules(title) == seq![
            "title is required and must be between 1 and 255 characters"@,
        ],
        1 <= title.len() <= 255 ==> role_rules(title).len() == 0,
        forall|c: CreateRoleEntry| #[trigger] c.rule_messages() == role_rules(c.title@),
        forall|u: UpdateRoleEntry| #[trigger] u.rule_messages() == role_rules(u.title@),
{
}

/// An item (new or updated) is refused, with the message of each rule it
/// breaks, when its description is empty or longer than 255 characters, or
/// when its price is negative; it is accepted otherwise.
pub proof fn lemma_item_rules(descr: Seq<char>, price: Price)
    ensures
        !(1 <= descr.len() <= 255) ==> item_rules(descr, price).contains(
            "descr is required and must be between 1 and 255 characters"@,
        ),
        price.mantissa < 0 ==> item_rules(descr, price).contains("price must be zero or positive"@),
        item_rules(descr, price).len() == 0 <==> (1 <= descr.len() <= 255 && price.mantissa >= 0),
        forall|c: CreateItemEntry| #[trigger] c.rule_messages() == item_rules(c.descr@, c.price),
        forall|u: UpdateItemEntry| #[trigger] u.rule_messages() == item_rules(u.descr@, u.price),
{
    let dm = "descr is required and must be between 1 and 255 characters"@;
    let pm = "price must be zero or positive"@;
    let d = length_rule(descr, 1, 255, dm);
    let p: Seq<Seq<char>> = if price.mantissa >= 0 {
        Seq::empty()
    } else {
        seq![pm]
    };
    assert(item_rules(descr, price) == d + p);
    if !(1 <= descr.len() <= 255) {
        lemma_listed(Seq::empty(), dm, p);
        assert(d + p =~= Seq::empty() + seq![dm] + p);
    }
    if price.mantissa < 0 {
        lemma_listed(d, pm, Seq::empty());
        assert(d + p =~= d + seq![pm] + Seq::empty());
    }
}

/// An order line (new or changed) is refused exactly when its quantity lies
/// outside 1 to 10000, with the quantity's message.
pub proof fn lemma_quantity_rules(amt: i32)
    ensures
        !(1 <= amt <= 10000) ==> quantity_rules(amt) == seq!["quantity must be between 1 and 10000"@],
        1 <= amt <= 10000 ==> quantity_rules(amt).len() == 0,
        forall|c: CreateOrderEntry| #[trigger] c.rule_messages() == quantity_rules(c.amt),
        forall|u: UpdateOrderEntry| #[trigger] u.rule_messages() == quantity_rules(u.amt),
{
}

} // verus!
