//! Authentication bookkeeping and decisions: token claims, account lockout,
//! the credential cache, password checks, and the order in which the
//! request guards check a request.
//!
//! Instants are nanoseconds since the Unix epoch (`i128`), JWT times are
//! seconds since the Unix epoch (`i64`).

use vstd::prelude::*;
use crate::errors::{Error, ErrorReply, ErrorResponse};
use crate::models::{Auth, Claims, TokenType};

verus! {

/// Access token lifetime: 15 minutes.
pub const ACCESS_TOKEN_DURATION_MINUTES: i64 = 15;

/// Refresh token lifetime: 7 days.
pub const REFRESH_TOKEN_DURATION_DAYS: i64 = 7;

/// Credential cache time to live: 5 minutes.
pub const CACHE_TTL_SECONDS: i64 = 300;

/// Credential cache maximum number of entries.
pub const CACHE_MAX_SIZE: usize = 1000;

/// Failed login attempts that lock an account.
pub const LOCKOUT_THRESHOLD: usize = 5;

/// Only failures within this many seconds count toward the lockout.
pub const LOCKOUT_WINDOW_SECONDS: i64 = 900;

/// Nanoseconds in a second.
pub const NANOS_PER_SECOND: i128 = 1_000_000_000;

/// The token type announced with a token pair.
pub const TOKEN_TYPE_BEARER: &'static str = "Bearer";

/// Name of the global administrator role.
pub const ROLE_ADMIN: &'static str = "Admin";

/// Name of the team administrator role.
pub const ROLE_TEAM_ADMIN: &'static str = "Team Admin";

/// Issuer claim of every token.
pub const JWT_ISSUER: &'static str = "omp-breakfast";

/// Audience claim of every token.
pub const JWT_AUDIENCE: &'static str = "omp-breakfast";

/// Pre-computed Argon2id hash used for timing-equalization when an unknown
/// user attempts authentication: verifying against it costs as much as a
/// real check, so response times do not tell whether an e-mail exists. It
/// never matches.
pub const DUMMY_HASH: &'static str = "$argon2id$v=19$m=19456,t=2,p=1$dHlwaW5nZXF1YWxpemVy$QvwUmVBE5xpmfcBAnqUhQDQecbVnqjhAhj4cXN0OPWE";

// ── Token claims ────────────────────────────────────────────────────────────

/// The lifetime of a token of the given type, in seconds.
pub open spec fn token_lifetime(token_type: TokenType) -> int {
    match token_type {
        TokenType::Access => ACCESS_TOKEN_DURATION_MINUTES * 60,
        TokenType::Refresh => REFRESH_TOKEN_DURATION_DAYS * 86400,
    }
}

/// An access token lives 15 minutes, a refresh token 7 days: a refresh
/// token always outlives the access token issued with it.
pub proof fn lemma_token_lifetimes()
    ensures
        token_lifetime(TokenType::Access) == 900,
        token_lifetime(TokenType::Refresh) == 604800,
        token_lifetime(TokenType::Access) < token_lifetime(TokenType::Refresh),
{
}

/// The lifetime of a token of the given type, in seconds.
pub fn token_lifetime_seconds(token_type: TokenType) -> (s: i64)
    ensures
        s == token_lifetime(token_type),
{
    match token_type {
        TokenType::Access => ACCESS_TOKEN_DURATION_MINUTES * 60,
        TokenType::Refresh => REFRESH_TOKEN_DURATION_DAYS * 86400,
    }
}

/// The claims of a token issued at `now` (seconds since the Unix epoch) to
/// `user_id`, with identifier `jti`: it expires one lifetime after `now`,
/// and names the service as issuer and audience.
pub fn token_claims(user_id: u128, token_type: TokenType, now: i64, jti: u128) -> (c: Claims)
    requires
        now + token_lifetime(token_type) <= i64::MAX,
    ensures
        c.sub == user_id,
        c.iat == now,
        c.exp == now + token_lifetime(token_type),
        c.jti == jti,
        c.token_type == token_type,
        c.iss@ == JWT_ISSUER@,
        c.aud@ == JWT_AUDIENCE@,
{
    let lifetime = token_lifetime_seconds(token_type);
    Claims {
        sub: user_id,
        exp: now + lifetime,
        iat: now,
        jti,
        token_type,
        iss: JWT_ISSUER.to_owned(),
        aud: JWT_AUDIENCE.to_owned(),
    }
}

/// The answer to a successful login or refresh: the two signed tokens, the
/// `Bearer` token type, and the access token's lifetime in seconds.
pub fn token_pair(access_token: String, refresh_token: String) -> (a: Auth)
    ensures
        a.access_token == access_token,
        a.refresh_token == refresh_token,
        a.token_type@ == TOKEN_TYPE_BEARER@,
        a.expires_in == ACCESS_TOKEN_DURATION_MINUTES * 60,
{
    Auth {
        access_token,
        refresh_token,
        token_type: TOKEN_TYPE_BEARER.to_owned(),
        expires_in: ACCESS_TOKEN_DURATION_MINUTES * 60,
    }
}

// ── Account lockout ─────────────────────────────────────────────────────────

/// The lockout window in nanoseconds.
pub open spec fn lockout_window() -> int {
    LOCKOUT_WINDOW_SECONDS * NANOS_PER_SECOND
}

/// Whether a failure at `t` still counts at `now`: it lies after `now`
/// minus the window.
pub open spec fn counts_at(now: i128) -> spec_fn(i128) -> bool {
    |t: i128| t > now - lockout_window()
}

/// The failures that still count at `now`.
pub open spec fn recent_attempts(attempts: Seq<i128>, now: i128) -> Seq<i128> {
    attempts.filter(counts_at(now))
}

/// Prune the failures of one account to those within the lockout window,
/// and tell whether the account is locked: at least `LOCKOUT_THRESHOLD`
/// failures remain.
pub fn is_account_locked(attempts: &mut Vec<i128>, now: i128) -> (locked: bool)
    requires
        now >= i128::MIN + lockout_window(),
    ensures
        final(attempts)@ == recent_attempts(old(attempts)@, now),
        locked == (final(attempts)@.len() >= LOCKOUT_THRESHOLD),
{
    let cutoff = now - LOCKOUT_WINDOW_SECONDS as i128 * NANOS_PER_SECOND;
    let ghost keep = counts_at(now);
    let mut kept: Vec<i128> = Vec::new();
    let mut i: usize = 0;
    while i < attempts.len()
        invariant
            i <= attempts@.len(),
            cutoff == now - lockout_window(),
            keep == counts_at(now),
            kept@ == attempts@.subrange(0, i as int).filter(keep),
        decreases attempts@.len() - i,
    {
        let ghost prefix = attempts@.subrange(0, i + 1);
        assert(prefix.drop_last() =~= attempts@.subrange(0, i as int));
        assert(prefix.last() == attempts@[i as int]);
        let t = attempts[i];
        proof {
            reveal(Seq::filter);
        }
        assert(keep(t) == (t > cutoff));
        assert(prefix.filter(keep) == if keep(t) {
            attempts@.subrange(0, i as int).filter(keep).push(t)
        } else {
            attempts@.subrange(0, i as int).filter(keep)
        });
        if t > cutoff {
            kept.push(t);
        }
        i = i + 1;
    }
    assert(attempts@.subrange(0, attempts@.len() as int) =~= attempts@);
    *attempts = kept;
    attempts.len() >= LOCKOUT_THRESHOLD
}

/// Record a failed login attempt at `now`.
pub fn record_failed_attempt(attempts: &mut Vec<i128>, now: i128)
    ensures
        final(attempts)@ == old(attempts)@.push(now),
{
    attempts.push(now);
}

/// Pruning loses nothing that a later check would count: the failures that
/// count at a later instant are the same whether or not the list was pruned
/// at an earlier one.
pub proof fn lemma_pruning_keeps_later_counts(attempts: Seq<i128>, now: i128, later: i128)
    requires
        now <= later,
    ensures
        recent_attempts(recent_attempts(attempts, now), later) == recent_attempts(attempts, later),
    decreases attempts.len(),
{
    reveal(Seq::filter);
    let p = counts_at(now);
    let q = counts_at(later);
    if attempts.len() > 0 {
        let rest = attempts.drop_last();
        let x = attempts.last();
        lemma_pruning_keeps_later_counts(rest, now, later);
        assert(attempts.filter(p) == if p(x) {
            rest.filter(p).push(x)
        } else {
            rest.filter(p)
        });
        assert(attempts.filter(q) == if q(x) {
            rest.filter(q).push(x)
        } else {
            rest.filter(q)
        });
        if p(x) {
            let pushed = rest.filter(p).push(x);
            assert(pushed.drop_last() =~= rest.filter(p));
            assert(pushed.last() == x);
            assert(pushed.filter(q) == if q(x) {
                rest.filter(p).filter(q).push(x)
            } else {
                rest.filter(p).filter(q)
            });
        } else {
            assert(!q(x));
        }
    } else {
        assert(attempts.filter(p) =~= attempts);
        assert(attempts.filter(p).filter(q) =~= attempts);
        assert(attempts.filter(q) =~= attempts);
    }
}

/// A failure recorded at `now` counts at `now`: recording one adds exactly
/// one to the failures that count.
pub proof fn lemma_recorded_failure_counts(attempts: Seq<i128>, now: i128)
    ensures
        recent_attempts(attempts.push(now), now) == recent_attempts(attempts, now).push(now),
{
    reveal(Seq::filter);
    let p = counts_at(now);
    let pushed = attempts.push(now);
    assert(pushed.drop_last() =~= attempts);
    assert(pushed.last() == now);
    assert(p(now));
    assert(pushed.filter(p) == attempts.filter(p).push(now));
}

// ── Credential cache ────────────────────────────────────────────────────────

/// The cache time to live in nanoseconds.
pub open spec fn cache_ttl() -> int {
    CACHE_TTL_SECONDS * NANOS_PER_SECOND
}

/// A cache entry made at `cached_at` may still be used at `now`: less than
/// the time to live has passed (whole seconds, as the elapsed time is
/// truncated to seconds before the comparison).
pub open spec fn cache_entry_fresh(cached_at: i128, now: i128) -> bool {
    now - cached_at < cache_ttl()
}

/// Whether a cache entry made at `cached_at` may still be used at `now`.
pub fn is_cache_entry_fresh(cached_at: i128, now: i128) -> (fresh: bool)
    ensures
        fresh == cache_entry_fresh(cached_at, now),
{
    if now <= cached_at {
        true
    } else {
        match now.checked_sub(cached_at) {
            Some(elapsed) => elapsed < CACHE_TTL_SECONDS as i128 * NANOS_PER_SECOND,
            None => false,
        }
    }
}

/// A cached entry can be used from the instant it is cached until just
/// before the time to live (five minutes) has passed, and never after; an
/// entry usable at some instant was usable at every earlier one since it
/// was cached.
pub proof fn lemma_cache_entries_expire_after_ttl(cached_at: i128, now: i128, earlier: i128)
    ensures
        cache_entry_fresh(cached_at, cached_at),
        now - cached_at >= 300 * 1_000_000_000 ==> !cache_entry_fresh(cached_at, now),
        cached_at <= now < cached_at + 300 * 1_000_000_000 ==> cache_entry_fresh(cached_at, now),
        cached_at <= earlier <= now && cache_entry_fresh(cached_at, now) ==> cache_entry_fresh(
            cached_at,
            earlier,
        ),
{
}

/// `sel` picks `min(count, stamps.len())` distinct entries of `stamps`, none
/// younger than an entry left out.
pub open spec fn is_oldest_selection(stamps: Seq<i64>, count: nat, sel: Seq<usize>) -> bool {
    &&& sel.len() == if count < stamps.len() {
        count
    } else {
        stamps.len()
    }
    &&& forall|k: int| 0 <= k < sel.len() ==> #[trigger] sel[k] < stamps.len()
    &&& forall|k: int, l: int| 0 <= k < l < sel.len() ==> sel[k] != sel[l]
    &&& forall|k: int, j: int|
        #![trigger sel[k], stamps[j]]
        0 <= k < sel.len() && 0 <= j < stamps.len() && !sel.contains(j as usize) ==> stamps[sel[k] as int]
            <= stamps[j]
}

/// `idx` holds the index `j` somewhere.
spec fn holds_index(idx: Seq<usize>, j: int) -> bool {
    exists|p: int| 0 <= p < idx.len() && idx[p] == j
}

/// The indices of `count` oldest entries (all of them when there are no
/// more); among equally old entries any may be taken.
pub fn oldest_entries(stamps: &Vec<i64>, count: usize) -> (sel: Vec<usize>)
    ensures
        is_oldest_selection(stamps@, count as nat, sel@),
{
    let n = stamps.len();
    let k: usize = if count < n {
        count
    } else {
        n
    };
    let mut idx: Vec<usize> = Vec::new();
    let mut i: usize = 0;
    while i < n
        invariant
            n == stamps@.len(),
            i <= n,
            idx@.len() == i,
            forall|j: int| 0 <= j < i ==> idx@[j] == j,
        decreases n - i,
    {
        idx.push(i);
        i = i + 1;
    }
    assert forall|j: int| 0 <= j < n implies #[trigger] holds_index(idx@, j) by {
        assert(idx@[j] == j);
    }
    // `idx` stays a permutation of the indices; its first `r` places hold
    // the `r` oldest entries, in order.
    let mut r: usize = 0;
    while r < k
        invariant
            n == stamps@.len(),
            k <= n,
            r <= k,
            idx@.len() == n,
            forall|a: int| 0 <= a < n ==> #[trigger] idx@[a] < n,
            forall|a: int, b: int| 0 <= a < b < n ==> idx@[a] != idx@[b],
            forall|j: int| 0 <= j < n ==> #[trigger] holds_index(idx@, j),
            forall|a: int, b: int|
                0 <= a < r && r <= b < n ==> stamps@[idx@[a] as int] <= stamps@[idx@[b] as int],
        decreases k - r,
    {
        let mut m: usize = r;
        let mut j: usize = r + 1;
        while j < n
            invariant
                n == stamps@.len(),
                idx@.len() == n,
                forall|a: int| 0 <= a < n ==> #[trigger] idx@[a] < n,
                r < n,
                r <= m < n,
                m < j <= n,
                forall|b: int| r <= b < j ==> stamps@[idx@[m as int] as int] <= stamps@[idx@[b] as int],
            decreases n - j,
        {
            if stamps[idx[j]] < stamps[idx[m]] {
                m = j;
            }
            j = j + 1;
        }
        let ghost before = idx@;
        let x = idx[r];
        let y = idx[m];
        idx.set(r, y);
        idx.set(m, x);
        assert(idx@ == before.update(r as int, y).update(m as int, x));
        proof {
            assert forall|a: int, b: int| 0 <= a < b < n implies idx@[a] != idx@[b] by {
                if a != r && a != m && b != r && b != m {
                    assert(idx@[a] == before[a] && idx@[b] == before[b]);
                }
            }
            assert forall|jj: int| 0 <= jj < n implies #[trigger] holds_index(idx@, jj) by {
                assert(holds_index(before, jj));
                let p = choose|p: int| 0 <= p < before.len() && before[p] == jj;
                if p == r {
                    assert(idx@[m as int] == jj);
                } else if p == m {
                    assert(idx@[r as int] == jj);
                } else {
                    assert(idx@[p] == jj);
                }
            }
            assert forall|a: int, b: int|
                0 <= a < r + 1 && r + 1 <= b < n implies stamps@[idx@[a] as int]
                <= stamps@[idx@[b] as int] by {
                if a < r {
                    if b == m {
                        assert(idx@[b] == before[r as int]);
                    } else {
                        assert(idx@[b] == before[b]);
                    }
                } else {
                    if b == m {
                        assert(idx@[b] == before[r as int]);
                    } else {
                        assert(idx@[b] == before[b]);
                    }
                }
            }
        }
        r = r + 1;
    }
    let mut sel: Vec<usize> = Vec::new();
    let mut q: usize = 0;
    while q < k
        invariant
            k <= n,
            idx@.len() == n,
            q <= k,
            sel@ == idx@.subrange(0, q as int),
        decreases k - q,
    {
        sel.push(idx[q]);
        q = q + 1;
        assert(sel@ =~= idx@.subrange(0, q as int));
    }
    proof {
        assert forall|a: int, jj: int|
            #![trigger sel@[a], stamps@[jj]]
            0 <= a < sel@.len() && 0 <= jj < stamps@.len() && !sel@.contains(
                jj as usize,
            ) implies stamps@[sel@[a] as int] <= stamps@[jj] by {
            assert(holds_index(idx@, jj));
            let p = choose|p: int| 0 <= p < idx@.len() && idx@[p] == jj;
            if p < k {
                assert(sel@[p] == jj as usize);
            }
        }
    }
    sel
}

/// Which cache entries to evict before caching one more: when the cache is
/// full (`cache_len` of at least `CACHE_MAX_SIZE`), the oldest tenth of the
/// capacity (at least one) of the listed entries, else none. `stamps` are
/// the cached-at seconds of the listed entries.
pub fn cache_evictions(cache_len: usize, stamps: &Vec<i64>) -> (sel: Vec<usize>)
    ensures
        cache_len < CACHE_MAX_SIZE ==> sel@.len() == 0,
        cache_len >= CACHE_MAX_SIZE ==> is_oldest_selection(
            stamps@,
            (if CACHE_MAX_SIZE / 10 > 1 {
                CACHE_MAX_SIZE / 10
            } else {
                1
            }) as nat,
            sel@,
        ),
{
    if cache_len < CACHE_MAX_SIZE {
        return Vec::new();
    }
    let to_remove: usize = if CACHE_MAX_SIZE / 10 > 1 {
        CACHE_MAX_SIZE / 10
    } else {
        1
    };
    oldest_entries(stamps, to_remove)
}

// ── Passwords ───────────────────────────────────────────────────────────────

/// Whether `hash` is a PHC string that the `password-hash` crate parses.
pub uninterp spec fn phc_hash_parses(hash: Seq<char>) -> bool;

/// Whether Argon2 accepts `password` against the PHC string `hash`: hashing
/// it again with the salt, algorithm, version and parameters that the string
/// names gives the output that the string holds.
pub uninterp spec fn argon2_accepts(password: Seq<u8>, hash: Seq<char>) -> bool;

/// `argon2::password_hash::PasswordHash::new`: parses a PHC string. Whether
/// it succeeds is named `phc_hash_parses`; the error's text is not described.
#[verifier::external_body]
fn parse_phc_hash(hash: &str) -> (r: Result<(), String>)
    ensures
        r is Ok <==> phc_hash_parses(hash@),
{
    match argon2::password_hash::PasswordHash::new(hash) {
        Ok(_) => Ok(()),
        Err(e) => Err(e.to_string()),
    }
}

/// `argon2::password_hash::PasswordVerifier::verify_password` of an Argon2id
/// (version 0x13, default parameters) hasher, on `password` and the parsed
/// `hash`. Its verdict is named `argon2_accepts`.
#[verifier::external_body]
fn argon2_verify(password: &[u8], hash: &str) -> (ok: bool)
    requires
        phc_hash_parses(hash@),
    ensures
        ok == argon2_accepts(password@, hash@),
{
    let hasher = argon2::Argon2::new(
        argon2::Algorithm::Argon2id,
        argon2::Version::V0x13,
        argon2::Params::default(),
    );
    match argon2::password_hash::PasswordHash::new(hash) {
        Ok(parsed) => argon2::password_hash::PasswordVerifier::verify_password(
            &hasher,
            password,
            &parsed,
        ).is_ok(),
        Err(_) => false,
    }
}

/// The PHC string that Argon2id (version 0x13, default parameters) makes of
/// `password` with the salt whose base64 form is `salt`, or `None` when the
/// salt is refused or the hashing fails.
pub uninterp spec fn argon2_phc_hash(password: Seq<u8>, salt: Seq<char>) -> Option<Seq<char>>;

/// `argon2::password_hash::PasswordHasher::hash_password` of an Argon2id
/// (version 0x13, default parameters) hasher, with the salt given in base64
/// (`SaltString::from_b64`), as a PHC string. Both whether it succeeds and
/// the string it makes depend on the password and the salt alone; they are
/// named `argon2_phc_hash`. Beside it stands what the crate promises of a
/// hash: the string parses, and verifying the same password against it
/// succeeds. The error's text is not described.
#[verifier::external_body]
fn argon2_hash(password: &[u8], salt: &str) -> (r: Result<String, String>)
    ensures
        match r {
            Ok(h) => argon2_phc_hash(password@, salt@) == Some(h@) && phc_hash_parses(h@)
                && argon2_accepts(password@, h@),
            Err(_) => argon2_phc_hash(password@, salt@) is None,
        },
{
    let hasher = argon2::Argon2::new(
        argon2::Algorithm::Argon2id,
        argon2::Version::V0x13,
        argon2::Params::default(),
    );
    let salt = argon2::password_hash::SaltString::from_b64(salt).map_err(|e| e.to_string())?;
    argon2::password_hash::PasswordHasher::hash_password(&hasher, password, &salt).map(
        |h| h.to_string(),
    ).map_err(|e| e.to_string())
}

/// Hash a password for storage with Argon2id and the given base64 salt
/// (fresh and random for every password). It succeeds exactly when Argon2id
/// makes a hash of the password with that salt; the hash is then the one
/// Argon2id makes, it parses, and the password verifies against it. A
/// failure (a malformed salt, or a hashing error) is a hashing error.
pub fn hash_password(password: &str, salt: &str) -> (r: Result<String, Error>)
    ensures
        r is Ok <==> argon2_phc_hash(vstd::utf8::encode_utf8(password@), salt@) is Some,
        r matches Ok(h) ==> argon2_phc_hash(vstd::utf8::encode_utf8(password@), salt@) == Some(
            h@,
        ) && phc_hash_parses(h@) && argon2_accepts(vstd::utf8::encode_utf8(password@), h@),
        r matches Err(e) ==> e is Argon2,
{
    match argon2_hash(password.as_bytes(), salt) {
        Ok(h) => Ok(h),
        Err(e) => Err(Error::Argon2(e)),
    }
}

/// The outcome of checking a Basic-auth password against a stored hash.
#[derive(Clone, Copy, Debug, PartialEq, Eq, Structural)]
pub enum PasswordCheck {
    /// The password verifies against the hash.
    Accepted,
    /// The password does not verify.
    Rejected,
    /// No password was sent.
    Missing,
    /// The stored hash cannot be parsed.
    MalformedHash,
}

/// The outcome of checking `password` against the stored `hash`.
pub open spec fn password_check(password: Option<Seq<char>>, hash: Seq<char>) -> PasswordCheck {
    match password {
        None => PasswordCheck::Missing,
        Some(p) => if !phc_hash_parses(hash) {
            PasswordCheck::MalformedHash
        } else if argon2_accepts(vstd::utf8::encode_utf8(p), hash) {
            PasswordCheck::Accepted
        } else {
            PasswordCheck::Rejected
        },
    }
}

/// A password is accepted only when one was sent, the stored hash parses,
/// and Argon2 verifies the password against it; no password at all is
/// "missing" whatever the hash, and a hash that does not parse is reported
/// as such rather than as a wrong password.
pub proof fn lemma_password_check_outcomes(password: Option<Seq<char>>, hash: Seq<char>)
    ensures
        password_check(password, hash) == PasswordCheck::Accepted <==> (password matches Some(p)
            && phc_hash_parses(hash) && argon2_accepts(vstd::utf8::encode_utf8(p), hash)),
        password_check(password, hash) == PasswordCheck::Missing <==> password is None,
        password_check(password, hash) == PasswordCheck::MalformedHash <==> (password is Some
            && !phc_hash_parses(hash)),
        password_check(password, hash) == PasswordCheck::Rejected <==> (password matches Some(p)
            && phc_hash_parses(hash) && !argon2_accepts(vstd::utf8::encode_utf8(p), hash)),
{
}

/// The view of an optional text.
pub open spec fn opt_text(s: Option<&str>) -> Option<Seq<char>> {
    match s {
        Some(t) => Some(t@),
        None => None,
    }
}

/// Check a Basic-auth password against the stored hash.
pub fn check_password(password: Option<&str>, hash: &str) -> (r: PasswordCheck)
    ensures
        r == password_check(opt_text(password), hash@),
{
    match password {
        None => PasswordCheck::Missing,
        Some(p) => {
            if parse_phc_hash(hash).is_err() {
                PasswordCheck::MalformedHash
            } else if argon2_verify(p.as_bytes(), hash) {
                PasswordCheck::Accepted
            } else {
                PasswordCheck::Rejected
            }
        },
    }
}

/// Spend as long as a real password check, against a hash that never
/// matches, so that an unknown user is answered as slowly as a known one.
pub fn equalize_timing() {
    if parse_phc_hash(DUMMY_HASH).is_ok() {
        let _ = argon2_verify("dummy-equalize".as_bytes(), DUMMY_HASH);
    }
}

/// A user who changes their own password must give the current one, and it
/// must verify against the stored hash: a missing current password is a
/// validation error, an unparsable hash a hashing error, a wrong one is
/// forbidden.
pub fn verify_current_password(current: Option<&str>, stored_hash: &str) -> (r: Result<(), Error>)
    ensures
        current is None ==> (r matches Err(Error::Validation(m)) && m@
            == "current_password is required when changing your own password"@),
        current is Some && !phc_hash_parses(stored_hash@) ==> (r matches Err(e) && e is Argon2),
        current is Some && phc_hash_parses(stored_hash@) ==> (r is Ok <==> argon2_accepts(
            vstd::utf8::encode_utf8(current->0@),
            stored_hash@,
        )),
        current is Some && phc_hash_parses(stored_hash@) && r is Err ==> (r matches Err(
            Error::Forbidden(m),
        ) && m@ == "Current password is incorrect"@),
{
    let pw = match current {
        Some(p) => p,
        None => {
            return Err(
                Error::Validation(
                    "current_password is required when changing your own password".to_owned(),
                ),
            );
        },
    };
    match parse_phc_hash(stored_hash) {
        Err(e) => Err(Error::Argon2(e)),
        Ok(()) => {
            if argon2_verify(pw.as_bytes(), stored_hash) {
                Ok(())
            } else {
                Err(Error::Forbidden("Current password is incorrect".to_owned()))
            }
        },
    }
}

// ── Request guards ──────────────────────────────────────────────────────────

/// Why a request guard refuses a request.
#[derive(Clone, Copy, Debug, PartialEq, Eq, Structural)]
pub enum RejectReason {
    /// The application state is not configured.
    StateMissing,
    /// No database connection could be had.
    DatabaseConnection,
    /// Too many recent failed logins.
    AccountLocked,
    /// Bad credentials, or an invalid or expired access token.
    Unauthorized,
    /// A refresh token was presented where an access token is required.
    AccessTokenRequired,
    /// An access token was presented where a refresh token is required.
    RefreshTokenRequired,
    /// The token has been revoked.
    TokenRevoked,
    /// Whether the token is revoked could not be checked.
    RevocationCheckFailed,
    /// An invalid or expired refresh token.
    InvalidRefreshToken,
    /// The token's user could not be loaded.
    UserLookupFailed,
    /// The stored password hash is malformed.
    MalformedHash,
}

/// The status of a refusal.
pub open spec fn reject_status(reason: RejectReason) -> u16 {
    match reason {
        RejectReason::StateMissing => 500,
        RejectReason::DatabaseConnection => 500,
        RejectReason::AccountLocked => 429,
        RejectReason::RevocationCheckFailed => 500,
        RejectReason::MalformedHash => 500,
        _ => 401,
    }
}

/// The message of a refusal; a failed user lookup is answered with the
/// text of its error.
pub open spec fn reject_message(reason: RejectReason, lookup_error: Seq<char>) -> Seq<char> {
    match reason {
        RejectReason::StateMissing => "Internal server error"@,
        RejectReason::DatabaseConnection => "Database connection error"@,
        RejectReason::AccountLocked => "Account temporarily locked due to too many failed login attempts. Try again later."@,
        RejectReason::Unauthorized => "Unauthorized access"@,
        RejectReason::AccessTokenRequired => "Invalid token type, access token required"@,
        RejectReason::RefreshTokenRequired => "Invalid token type, refresh token required"@,
        RejectReason::TokenRevoked => "Token has been revoked"@,
        RejectReason::RevocationCheckFailed => "Failed to check token revocation"@,
        RejectReason::InvalidRefreshToken => "Invalid or expired refresh token"@,
        RejectReason::UserLookupFailed => lookup_error,
        RejectReason::MalformedHash => "Internal server error"@,
    }
}

/// A guard's refusal is answered 429 only for a locked account, 500 when the
/// server could not do its part (no state, no database connection, a failed
/// revocation check, a malformed stored hash), and 401 for every problem
/// with the credentials; a failed user lookup is answered with the lookup's
/// own error text.
pub proof fn lemma_reject_status_classes(reason: RejectReason, lookup_error: Seq<char>)
    ensures
        reject_status(reason) == 429 <==> reason == RejectReason::AccountLocked,
        reject_status(reason) == 500 <==> (reason == RejectReason::StateMissing || reason
            == RejectReason::DatabaseConnection || reason == RejectReason::RevocationCheckFailed
            || reason == RejectReason::MalformedHash),
        reject_status(reason) == 401 || reject_status(reason) == 429 || reject_status(reason) == 500,
        reason == RejectReason::UserLookupFailed ==> reject_message(reason, lookup_error)
            == lookup_error,
        reason == RejectReason::Unauthorized ==> reject_message(reason, lookup_error)
            == "Unauthorized access"@,
        reason == RejectReason::TokenRevoked ==> reject_message(reason, lookup_error)
            == "Token has been revoked"@,
{
}

/// The answer to a refused request.
pub fn reject_reply(reason: RejectReason, lookup_error: &str) -> (r: ErrorReply)
    ensures
        r.status == reject_status(reason),
        r.body.error@ == reject_message(reason, lookup_error@),
{
    let (status, message): (u16, &str) = match reason {
        RejectReason::StateMissing => (500, "Internal server error"),
        RejectReason::DatabaseConnection => (500, "Database connection error"),
        RejectReason::AccountLocked => (
            429,
            "Account temporarily locked due to too many failed login attempts. Try again later.",
        ),
        RejectReason::Unauthorized => (401, "Unauthorized access"),
        RejectReason::AccessTokenRequired => (401, "Invalid token type, access token required"),
        RejectReason::RefreshTokenRequired => (401, "Invalid token type, refresh token required"),
        RejectReason::TokenRevoked => (401, "Token has been revoked"),
        RejectReason::RevocationCheckFailed => (500, "Failed to check token revocation"),
        RejectReason::InvalidRefreshToken => (401, "Invalid or expired refresh token"),
        RejectReason::UserLookupFailed => (401, lookup_error),
        RejectReason::MalformedHash => (500, "Internal server error"),
    };
    ErrorReply { status, body: ErrorResponse { error: message.to_owned() } }
}

/// What a bearer-token guard learned from its last step.
#[derive(Clone, Copy, Debug, PartialEq, Eq, Structural)]
pub enum BearerEvent {
    /// The request arrived and the application state is configured.
    Start,
    /// The application state is not configured.
    StateMissing,
    ClientFailed,
    ClientReady,
    /// The token's signature, issuer, audience or expiry is wrong.
    TokenInvalid,
    /// The token verified; it is of this type.
    TokenValid(TokenType),
    RevocationCheckFailed,
    Revoked,
    NotRevoked,
    UserMissing,
    UserFound,
}

/// What a bearer-token guard does next.
#[derive(Clone, Copy, Debug, PartialEq, Eq, Structural)]
pub enum BearerAction {
    FetchClient,
    VerifyToken,
    CheckRevocation,
    LoadUser,
    Accept,
    Reject(RejectReason),
}

/// The next step of the access-token guard: get a database connection,
/// verify the token, require an access token, refuse a revoked one, and
/// require that its user exists.
pub open spec fn access_guard_next(e: BearerEvent) -> BearerAction {
    match e {
        BearerEvent::Start => BearerAction::FetchClient,
        BearerEvent::StateMissing => BearerAction::Reject(RejectReason::StateMissing),
        BearerEvent::ClientFailed => BearerAction::Reject(RejectReason::DatabaseConnection),
        BearerEvent::ClientReady => BearerAction::VerifyToken,
        BearerEvent::TokenInvalid => BearerAction::Reject(RejectReason::Unauthorized),
        BearerEvent::TokenValid(t) => if t == TokenType::Access {
            BearerAction::CheckRevocation
        } else {
            BearerAction::Reject(RejectReason::AccessTokenRequired)
        },
        BearerEvent::RevocationCheckFailed => BearerAction::Reject(RejectReason::RevocationCheckFailed),
        BearerEvent::Revoked => BearerAction::Reject(RejectReason::TokenRevoked),
        BearerEvent::NotRevoked => BearerAction::LoadUser,
        BearerEvent::UserMissing => BearerAction::Reject(RejectReason::UserLookupFailed),
        BearerEvent::UserFound => BearerAction::Accept,
    }
}

/// The next step of the refresh-token guard: verify the token, require a
/// refresh token, get a database connection, and refuse a revoked token.
pub open spec fn refresh_guard_next(e: BearerEvent) -> BearerAction {
    match e {
        BearerEvent::Start => BearerAction::VerifyToken,
        BearerEvent::StateMissing => BearerAction::Reject(RejectReason::StateMissing),
        BearerEvent::TokenInvalid => BearerAction::Reject(RejectReason::InvalidRefreshToken),
        BearerEvent::TokenValid(t) => if t == TokenType::Refresh {
            BearerAction::FetchClient
        } else {
            BearerAction::Reject(RejectReason::RefreshTokenRequired)
        },
        BearerEvent::ClientFailed => BearerAction::Reject(RejectReason::DatabaseConnection),
        BearerEvent::ClientReady => BearerAction::CheckRevocation,
        BearerEvent::RevocationCheckFailed => BearerAction::Reject(RejectReason::RevocationCheckFailed),
        BearerEvent::Revoked => BearerAction::Reject(RejectReason::TokenRevoked),
        BearerEvent::NotRevoked => BearerAction::Accept,
        BearerEvent::UserMissing => BearerAction::Reject(RejectReason::Unauthorized),
        BearerEvent::UserFound => BearerAction::Accept,
    }
}

/// The next step of the access-token guard.
pub fn jwt_validator_step(e: BearerEvent) -> (a: BearerAction)
    ensures
        a == access_guard_next(e),
{
    match e {
        BearerEvent::Start => BearerAction::FetchClient,
        BearerEvent::StateMissing => BearerAction::Reject(RejectReason::StateMissing),
        BearerEvent::ClientFailed => BearerAction::Reject(RejectReason::DatabaseConnection),
        BearerEvent::ClientReady => BearerAction::VerifyToken,
        BearerEvent::TokenInvalid => BearerAction::Reject(RejectReason::Unauthorized),
        BearerEvent::TokenValid(t) => match t {
            TokenType::Access => BearerAction::CheckRevocation,
            TokenType::Refresh => BearerAction::Reject(RejectReason::AccessTokenRequired),
        },
        BearerEvent::RevocationCheckFailed => BearerAction::Reject(RejectReason::RevocationCheckFailed),
        BearerEvent::Revoked => BearerAction::Reject(RejectReason::TokenRevoked),
        BearerEvent::NotRevoked => BearerAction::LoadUser,
        BearerEvent::UserMissing => BearerAction::Reject(RejectReason::UserLookupFailed),
        BearerEvent::UserFound => BearerAction::Accept,
    }
}

/// The next step of the refresh-token guard.
pub fn refresh_validator_step(e: BearerEvent) -> (a: BearerAction)
    ensures
        a == refresh_guard_next(e),
{
    match e {
        BearerEvent::Start => BearerAction::VerifyToken,
        BearerEvent::StateMissing => BearerAction::Reject(RejectReason::StateMissing),
        BearerEvent::TokenInvalid => BearerAction::Reject(RejectReason::InvalidRefreshToken),
        BearerEvent::TokenValid(t) => match t {
            TokenType::Refresh => BearerAction::FetchClient,
            TokenType::Access => BearerAction::Reject(RejectReason::RefreshTokenRequired),
        },
        BearerEvent::ClientFailed => BearerAction::Reject(RejectReason::DatabaseConnection),
        BearerEvent::ClientReady => BearerAction::CheckRevocation,
        BearerEvent::RevocationCheckFailed => BearerAction::Reject(RejectReason::RevocationCheckFailed),
        BearerEvent::Revoked => BearerAction::Reject(RejectReason::TokenRevoked),
        BearerEvent::NotRevoked => BearerAction::Accept,
        BearerEvent::UserMissing => BearerAction::Reject(RejectReason::Unauthorized),
        BearerEvent::UserFound => BearerAction::Accept,
    }
}

/// What the Basic-auth guard learned from its last step.
#[derive(Clone, Copy, Debug, PartialEq, Eq, Structural)]
pub enum BasicEvent {
    /// The request arrived and the application state is configured.
    Start,
    StateMissing,
    Locked,
    NotLocked,
    ClientFailed,
    ClientReady,
    /// A fresh cached entry holds the user's hash.
    CacheHit,
    CacheMiss,
    /// No user has the given e-mail.
    UserUnknown,
    /// The user was loaded (and cached).
    UserLoaded,
    /// The password was checked against the hash.
    Password(PasswordCheck),
}

/// What the Basic-auth guard does next.
#[derive(Clone, Copy, Debug, PartialEq, Eq, Structural)]
pub enum BasicAction {
    CheckLockout,
    FetchClient,
    LookupCache,
    LoadUser,
    CheckPassword,
    /// Let the request through, clearing the account's failures.
    Accept,
    /// Refuse the request; record a failed attempt when `record_failure`,
    /// and first spend the time of a password check when `equalize_timing`.
    Reject { reason: RejectReason, record_failure: bool, equalize_timing: bool },
}

/// The next step of the Basic-auth guard: refuse a locked account, get a
/// database connection, take the user's hash from the cache or the
/// database, and check the password. Unknown users, wrong and missing
/// passwords count as failed attempts; an unknown user is answered only
/// after as long as a password check takes.
pub open spec fn basic_guard_next(e: BasicEvent) -> BasicAction {
    match e {
        BasicEvent::Start => BasicAction::CheckLockout,
        BasicEvent::StateMissing => BasicAction::Reject {
            reason: RejectReason::StateMissing,
            record_failure: false,
            equalize_timing: false,
        },
        BasicEvent::Locked => BasicAction::Reject {
            reason: RejectReason::AccountLocked,
            record_failure: false,
            equalize_timing: false,
        },
        BasicEvent::NotLocked => BasicAction::FetchClient,
        BasicEvent::ClientFailed => BasicAction::Reject {
            reason: RejectReason::DatabaseConnection,
            record_failure: false,
            equalize_timing: false,
        },
        BasicEvent::ClientReady => BasicAction::LookupCache,
        BasicEvent::CacheHit => BasicAction::CheckPassword,
        BasicEvent::CacheMiss => BasicAction::LoadUser,
        BasicEvent::UserUnknown => BasicAction::Reject {
            reason: RejectReason::Unauthorized,
            record_failure: true,
            equalize_timing: true,
        },
        BasicEvent::UserLoaded => BasicAction::CheckPassword,
        BasicEvent::Password(c) => match c {
            PasswordCheck::Accepted => BasicAction::Accept,
            PasswordCheck::MalformedHash => BasicAction::Reject {
                reason: RejectReason::MalformedHash,
                record_failure: false,
                equalize_timing: false,
            },
            _ => BasicAction::Reject {
                reason: RejectReason::Unauthorized,
                record_failure: true,
                equalize_timing: false,
            },
        },
    }
}

/// The next step of the Basic-auth guard.
pub fn basic_validator_step(e: BasicEvent) -> (a: BasicAction)
    ensures
        a == basic_guard_next(e),
{
    match e {
        BasicEvent::Start => BasicAction::CheckLockout,
        BasicEvent::StateMissing => BasicAction::Reject {
            reason: RejectReason::StateMissing,
            record_failure: false,
            equalize_timing: false,
        },
        BasicEvent::Locked => BasicAction::Reject {
            reason: RejectReason::AccountLocked,
            record_failure: false,
            equalize_timing: false,
        },
        BasicEvent::NotLocked => BasicAction::FetchClient,
        BasicEvent::ClientFailed => BasicAction::Reject {
            reason: RejectReason::DatabaseConnection,
            record_failure: false,
            equalize_timing: false,
        },
        BasicEvent::ClientReady => BasicAction::LookupCache,
        BasicEvent::CacheHit => BasicAction::CheckPassword,
        BasicEvent::CacheMiss => BasicAction::LoadUser,
        BasicEvent::UserUnknown => BasicAction::Reject {
            reason: RejectReason::Unauthorized,
            record_failure: true,
            equalize_timing: true,
        },
        BasicEvent::UserLoaded => BasicAction::CheckPassword,
        BasicEvent::Password(c) => match c {
            PasswordCheck::Accepted => BasicAction::Accept,
            PasswordCheck::MalformedHash => BasicAction::Reject {
                reason: RejectReason::MalformedHash,
                record_failure: false,
                equalize_timing: false,
            },
            PasswordCheck::Rejected => BasicAction::Reject {
                reason: RejectReason::Unauthorized,
                record_failure: true,
                equalize_timing: false,
            },
            PasswordCheck::Missing => BasicAction::Reject {
                reason: RejectReason::Unauthorized,
                record_failure: true,
                equalize_timing: false,
            },
        },
    }
}

/// The guards let a request through only on the evidence they need: the
/// access guard once the token's user was found, the refresh guard once the
/// token is known not to be revoked (or, for an event that guard never
/// waits for, a found user), and the Basic-auth guard once the password
/// verified against the stored hash. A token of the wrong type, a revoked
/// token and a locked account are always refused.
pub proof fn lemma_guards_accept_only_on_evidence(e: BearerEvent, b: BasicEvent)
    ensures
        access_guard_next(e) is Accept ==> e == BearerEvent::UserFound,
        refresh_guard_next(e) is Accept ==> e == BearerEvent::NotRevoked || e == BearerEvent::UserFound,
        basic_guard_next(b) is Accept ==> b == BasicEvent::Password(PasswordCheck::Accepted),
        access_guard_next(BearerEvent::TokenValid(TokenType::Refresh)) is Reject,
        refresh_guard_next(BearerEvent::TokenValid(TokenType::Access)) is Reject,
        access_guard_next(BearerEvent::Revoked) is Reject,
        refresh_guard_next(BearerEvent::Revoked) is Reject,
        basic_guard_next(BasicEvent::Locked) is Reject,
{
}

/// Every refused credential counts toward the lockout: an unknown user, a
/// wrong password and a missing password are recorded as failures, and a
/// verified password is not.
pub proof fn lemma_refused_credentials_are_recorded(c: PasswordCheck)
    ensures
        basic_guard_next(BasicEvent::UserUnknown) matches BasicAction::Reject {
            record_failure,
            ..
        } && record_failure,
        c == PasswordCheck::Rejected || c == PasswordCheck::Missing ==> (basic_guard_next(
            BasicEvent::Password(c),
        ) matches BasicAction::Reject { record_failure, .. } && record_failure),
{
}

/// The access guard refuses exactly on a failed check, and its refusal
/// names that check: a token that fails verification is unauthorized, a
/// refresh token is told an access token is required, a revoked token is
/// revoked, a missing user is a failed lookup, and a missing database
/// connection, a failed revocation check or a missing application state are
/// server errors. Problems with the credentials are answered 401, problems
/// of the server 500.
pub proof fn lemma_access_refusals_name_the_failed_check(e: BearerEvent)
    ensures
        access_guard_next(e) is Reject <==> (e == BearerEvent::StateMissing || e
            == BearerEvent::ClientFailed || e == BearerEvent::TokenInvalid || e
            == BearerEvent::TokenValid(TokenType::Refresh) || e == BearerEvent::RevocationCheckFailed
            || e == BearerEvent::Revoked || e == BearerEvent::UserMissing),
        access_guard_next(e) matches BearerAction::Reject(r) ==> {
            &&& r == RejectReason::StateMissing <==> e == BearerEvent::StateMissing
            &&& r == RejectReason::DatabaseConnection <==> e == BearerEvent::ClientFailed
            &&& r == RejectReason::Unauthorized <==> e == BearerEvent::TokenInvalid
            &&& r == RejectReason::AccessTokenRequired <==> e == BearerEvent::TokenValid(
                TokenType::Refresh,
            )
            &&& r == RejectReason::RevocationCheckFailed <==> e == BearerEvent::RevocationCheckFailed
            &&& r == RejectReason::TokenRevoked <==> e == BearerEvent::Revoked
            &&& r == RejectReason::UserLookupFailed <==> e == BearerEvent::UserMissing
            &&& reject_status(r) == 401 <==> (e == BearerEvent::TokenInvalid || e
                == BearerEvent::TokenValid(TokenType::Refresh) || e == BearerEvent::Revoked || e
                == BearerEvent::UserMissing)
            &&& reject_status(r) == 500 <==> (e == BearerEvent::StateMissing || e
                == BearerEvent::ClientFailed || e == BearerEvent::RevocationCheckFailed)
        },
{
}

/// The refresh guard refuses exactly on a failed check, and its refusal
/// names that check: a token that fails verification is an invalid refresh
/// token, an access token is told a refresh token is required, a revoked
/// token is revoked; a missing database connection, a failed revocation
/// check or a missing application state are server errors. Problems with the
/// credentials are answered 401, problems of the server 500.
pub proof fn lemma_refresh_refusals_name_the_failed_check(e: BearerEvent)
    ensures
        refresh_guard_next(e) is Reject <==> (e == BearerEvent::StateMissing || e
            == BearerEvent::ClientFailed || e == BearerEvent::TokenInvalid || e
            == BearerEvent::TokenValid(TokenType::Access) || e == BearerEvent::RevocationCheckFailed
            || e == BearerEvent::Revoked || e == BearerEvent::UserMissing),
        refresh_guard_next(e) matches BearerAction::Reject(r) ==> {
            &&& r == RejectReason::StateMissing <==> e == BearerEvent::StateMissing
            &&& r == RejectReason::DatabaseConnection <==> e == BearerEvent::ClientFailed
            &&& r == RejectReason::InvalidRefreshToken <==> e == BearerEvent::TokenInvalid
            &&& r == RejectReason::RefreshTokenRequired <==> e == BearerEvent::TokenValid(
                TokenType::Access,
            )
            &&& r == RejectReason::RevocationCheckFailed <==> e == BearerEvent::RevocationCheckFailed
            &&& r == RejectReason::TokenRevoked <==> e == BearerEvent::Revoked
            &&& reject_status(r) == 401 <==> (e == BearerEvent::TokenInvalid || e
                == BearerEvent::TokenValid(TokenType::Access) || e == BearerEvent::Revoked || e
                == BearerEvent::UserMissing)
            &&& reject_status(r) == 500 <==> (e == BearerEvent::StateMissing || e
                == BearerEvent::ClientFailed || e == BearerEvent::RevocationCheckFailed)
        },
{
}

/// The Basic-auth guard refuses exactly on a failed check, and its refusal
/// names that check: only a locked account is told it is locked (429); an
/// unknown user, a wrong and a missing password are unauthorized (401), are
/// recorded as failures, and (for the unknown user only) are answered after
/// a dummy password check; a malformed stored hash, a missing database
/// connection and a missing application state are server errors (500),
/// recorded as nothing.
pub proof fn lemma_basic_refusals_name_the_failed_check(b: BasicEvent)
    ensures
        basic_guard_next(b) is Reject <==> (b == BasicEvent::StateMissing || b == BasicEvent::Locked
            || b == BasicEvent::ClientFailed || b == BasicEvent::UserUnknown || (b is Password
            && b != BasicEvent::Password(PasswordCheck::Accepted))),
        basic_guard_next(b) matches BasicAction::Reject { reason, record_failure, equalize_timing }
            ==> {
            &&& reason == RejectReason::AccountLocked <==> b == BasicEvent::Locked
            &&& reason == RejectReason::Unauthorized <==> (b == BasicEvent::UserUnknown || b
                == BasicEvent::Password(PasswordCheck::Rejected) || b == BasicEvent::Password(
                PasswordCheck::Missing,
            ))
            &&& reason == RejectReason::MalformedHash <==> b == BasicEvent::Password(
                PasswordCheck::MalformedHash,
            )
            &&& reason == RejectReason::DatabaseConnection <==> b == BasicEvent::ClientFailed
            &&& reason == RejectReason::StateMissing <==> b == BasicEvent::StateMissing
            &&& record_failure <==> reason == RejectReason::Unauthorized
            &&& equalize_timing <==> b == BasicEvent::UserUnknown
            &&& reject_status(reason) == 401 <==> reason == RejectReason::Unauthorized
            &&& reject_status(reason) == 429 <==> b == BasicEvent::Locked
            &&& reject_status(reason) == 500 <==> (b == BasicEvent::StateMissing || b
                == BasicEvent::ClientFailed || b == BasicEvent::Password(PasswordCheck::MalformedHash))
        },
{
}

// ── Runs of the guards ─────────────────────────────────────────────────────

/// Whether `e` is a possible outcome of the bearer guard's action `a`; a
/// verdict is answered by nothing.
pub open spec fn bearer_answers(a: BearerAction, e: BearerEvent) -> bool {
    match a {
        BearerAction::FetchClient => e == BearerEvent::ClientReady || e == BearerEvent::ClientFailed,
        BearerAction::VerifyToken => e == BearerEvent::TokenInvalid || e is TokenValid,
        BearerAction::CheckRevocation => e == BearerEvent::NotRevoked || e == BearerEvent::Revoked
            || e == BearerEvent::RevocationCheckFailed,
        BearerAction::LoadUser => e == BearerEvent::UserFound || e == BearerEvent::UserMissing,
        _ => false,
    }
}

/// The `i`-th event of a run of the access guard answers the action taken
/// after the event before it.
pub open spec fn access_step_ok(run: Seq<BearerEvent>, i: int) -> bool {
    bearer_answers(access_guard_next(run[i - 1]), run[i])
}

/// The `i`-th event of a run of the refresh guard answers the action taken
/// after the event before it.
pub open spec fn refresh_step_ok(run: Seq<BearerEvent>, i: int) -> bool {
    bearer_answers(refresh_guard_next(run[i - 1]), run[i])
}

/// A run of the access guard: it begins with the request (or with the
/// discovery that the application state is missing), and every later event
/// answers the action taken after the one before it.
pub open spec fn is_access_run(run: Seq<BearerEvent>) -> bool {
    &&& run.len() > 0
    &&& (run[0] == BearerEvent::Start || run[0] == BearerEvent::StateMissing)
    &&& forall|i: int| 0 < i < run.len() ==> #[trigger] access_step_ok(run, i)
}

/// A run of the refresh guard, in the same sense.
pub open spec fn is_refresh_run(run: Seq<BearerEvent>) -> bool {
    &&& run.len() > 0
    &&& (run[0] == BearerEvent::Start || run[0] == BearerEvent::StateMissing)
    &&& forall|i: int| 0 < i < run.len() ==> #[trigger] refresh_step_ok(run, i)
}

/// The access guard lets a request through only at the end of the full
/// sequence of checks, in this order: a database connection, a verified
/// token, of the access type, not revoked, whose user was found.
pub proof fn lemma_access_run_accepts_in_order(run: Seq<BearerEvent>)
    requires
        is_access_run(run),
        access_guard_next(run.last()) is Accept,
    ensures
        run == seq![
            BearerEvent::Start,
            BearerEvent::ClientReady,
            BearerEvent::TokenValid(TokenType::Access),
            BearerEvent::NotRevoked,
            BearerEvent::UserFound,
        ],
{
    let n = run.len() as int;
    assert(run[n - 1] == BearerEvent::UserFound);
    assert(n >= 2);
    assert(access_step_ok(run, n - 1));
    assert(run[n - 2] == BearerEvent::NotRevoked);
    assert(n >= 3);
    assert(access_step_ok(run, n - 2));
    assert(run[n - 3] == BearerEvent::TokenValid(TokenType::Access));
    assert(n >= 4);
    assert(access_step_ok(run, n - 3));
    assert(run[n - 4] == BearerEvent::ClientReady);
    assert(n >= 5);
    assert(access_step_ok(run, n - 4));
    assert(run[n - 5] == BearerEvent::Start);
    if n > 5 {
        assert(access_step_ok(run, n - 5));
    }
    assert(run =~= seq![
        BearerEvent::Start,
        BearerEvent::ClientReady,
        BearerEvent::TokenValid(TokenType::Access),
        BearerEvent::NotRevoked,
        BearerEvent::UserFound,
    ]);
}

/// The refresh guard lets a request through only at the end of the full
/// sequence of checks, in this order: a verified token, of the refresh
/// type, a database connection, and the token not revoked.
pub proof fn lemma_refresh_run_accepts_in_order(run: Seq<BearerEvent>)
    requires
        is_refresh_run(run),
        refresh_guard_next(run.last()) is Accept,
    ensures
        run == seq![
            BearerEvent::Start,
            BearerEvent::TokenValid(TokenType::Refresh),
            BearerEvent::ClientReady,
            BearerEvent::NotRevoked,
        ],
{
    let n = run.len() as int;
    assert(n >= 2);
    assert(refresh_step_ok(run, n - 1));
    assert(run[n - 1] == BearerEvent::NotRevoked);
    assert(run[n - 2] == BearerEvent::ClientReady);
    assert(n >= 3);
    assert(refresh_step_ok(run, n - 2));
    assert(run[n - 3] == BearerEvent::TokenValid(TokenType::Refresh));
    assert(n >= 4);
    assert(refresh_step_ok(run, n - 3));
    assert(run[n - 4] == BearerEvent::Start);
    if n > 4 {
        assert(refresh_step_ok(run, n - 4));
    }
    assert(run =~= seq![
        BearerEvent::Start,
        BearerEvent::TokenValid(TokenType::Refresh),
        BearerEvent::ClientReady,
        BearerEvent::NotRevoked,
    ]);
}

/// A request whose checks all pass is let through: the sequences in which
/// every check of the access and refresh guards passes are runs of those
/// guards, and they end in acceptance.
pub proof fn lemma_bearer_checks_passed_accept()
    ensures
        ({
            let run = seq![
                BearerEvent::Start,
                BearerEvent::ClientReady,
                BearerEvent::TokenValid(TokenType::Access),
                BearerEvent::NotRevoked,
                BearerEvent::UserFound,
            ];
            is_access_run(run) && access_guard_next(run.last()) == BearerAction::Accept
        }),
        ({
            let run = seq![
                BearerEvent::Start,
                BearerEvent::TokenValid(TokenType::Refresh),
                BearerEvent::ClientReady,
                BearerEvent::NotRevoked,
            ];
            is_refresh_run(run) && refresh_guard_next(run.last()) == BearerAction::Accept
        }),
{
    let a = seq![
        BearerEvent::Start,
        BearerEvent::ClientReady,
        BearerEvent::TokenValid(TokenType::Access),
        BearerEvent::NotRevoked,
        BearerEvent::UserFound,
    ];
    assert(access_step_ok(a, 1) && access_step_ok(a, 2) && access_step_ok(a, 3) && access_step_ok(
        a,
        4,
    ));
    assert forall|i: int| 0 < i < a.len() implies #[trigger] access_step_ok(a, i) by {
        assert(i == 1 || i == 2 || i == 3 || i == 4);
    }
    let r = seq![
        BearerEvent::Start,
        BearerEvent::TokenValid(TokenType::Refresh),
        BearerEvent::ClientReady,
        BearerEvent::NotRevoked,
    ];
    assert(refresh_step_ok(r, 1) && refresh_step_ok(r, 2) && refresh_step_ok(r, 3));
    assert forall|i: int| 0 < i < r.len() implies #[trigger] refresh_step_ok(r, i) by {
        assert(i == 1 || i == 2 || i == 3);
    }
}

/// Whether `e` is a possible outcome of the Basic-auth guard's action `a`;
/// a verdict is answered by nothing.
pub open spec fn basic_answers(a: BasicAction, e: BasicEvent) -> bool {
    match a {
        BasicAction::CheckLockout => e == BasicEvent::Locked || e == BasicEvent::NotLocked,
        BasicAction::FetchClient => e == BasicEvent::ClientReady || e == BasicEvent::ClientFailed,
        BasicAction::LookupCache => e == BasicEvent::CacheHit || e == BasicEvent::CacheMiss,
        BasicAction::LoadUser => e == BasicEvent::UserUnknown || e == BasicEvent::UserLoaded,
        BasicAction::CheckPassword => e is Password,
        _ => false,
    }
}

/// The `i`-th event of a run of the Basic-auth guard answers the action
/// taken after the event before it.
pub open spec fn basic_step_ok(run: Seq<BasicEvent>, i: int) -> bool {
    basic_answers(basic_guard_next(run[i - 1]), run[i])
}

/// A run of the Basic-auth guard, in the same sense as for the bearer guards.
pub open spec fn is_basic_run(run: Seq<BasicEvent>) -> bool {
    &&& run.len() > 0
    &&& (run[0] == BasicEvent::Start || run[0] == BasicEvent::StateMissing)
    &&& forall|i: int| 0 < i < run.len() ==> #[trigger] basic_step_ok(run, i)
}

/// A login whose checks all pass is let through, whether the user's hash
/// came from the cache or from the database.
pub proof fn lemma_basic_checks_passed_accept()
    ensures
        ({
            let run = seq![
                BasicEvent::Start,
                BasicEvent::NotLocked,
                BasicEvent::ClientReady,
                BasicEvent::CacheHit,
                BasicEvent::Password(PasswordCheck::Accepted),
            ];
            is_basic_run(run) && basic_guard_next(run.last()) == BasicAction::Accept
        }),
        ({
            let run = seq![
                BasicEvent::Start,
                BasicEvent::NotLocked,
                BasicEvent::ClientReady,
                BasicEvent::CacheMiss,
                BasicEvent::UserLoaded,
                BasicEvent::Password(PasswordCheck::Accepted),
            ];
            is_basic_run(run) && basic_guard_next(run.last()) == BasicAction::Accept
        }),
{
    let a = seq![
        BasicEvent::Start,
        BasicEvent::NotLocked,
        BasicEvent::ClientReady,
        BasicEvent::CacheHit,
        BasicEvent::Password(PasswordCheck::Accepted),
    ];
    assert(basic_step_ok(a, 1) && basic_step_ok(a, 2) && basic_step_ok(a, 3) && basic_step_ok(a, 4));
    assert forall|i: int| 0 < i < a.len() implies #[trigger] basic_step_ok(a, i) by {
        assert(i == 1 || i == 2 || i == 3 || i == 4);
    }
    let b = seq![
        BasicEvent::Start,
        BasicEvent::NotLocked,
        BasicEvent::ClientReady,
        BasicEvent::CacheMiss,
        BasicEvent::UserLoaded,
        BasicEvent::Password(PasswordCheck::Accepted),
    ];
    assert(basic_step_ok(b, 1) && basic_step_ok(b, 2) && basic_step_ok(b, 3) && basic_step_ok(b, 4)
        && basic_step_ok(b, 5));
    assert forall|i: int| 0 < i < b.len() implies #[trigger] basic_step_ok(b, i) by {
        assert(i == 1 || i == 2 || i == 3 || i == 4 || i == 5);
    }
}

/// An account's failures once the Basic-auth guard has decided: a login let
/// through clears them, a refusal that counts adds one at `now`, and any
/// other refusal keeps them unchanged.
pub open spec fn settled_attempts(verdict: BasicAction, attempts: Seq<i128>, now: i128) -> Seq<i128> {
    match verdict {
        BasicAction::Accept => Seq::empty(),
        BasicAction::Reject { record_failure, .. } => if record_failure {
            attempts.push(now)
        } else {
            attempts
        },
        _ => attempts,
    }
}

/// After a verdict an account has no failures if it was let through, one
/// more (at `now`, after the earlier ones) if it was refused for its
/// credentials, and the same ones if it was refused for anything else; so
/// a wrong password brings the account one failure closer to the lockout.
pub proof fn lemma_verdicts_settle_failures(b: BasicEvent, attempts: Seq<i128>, now: i128)
    ensures
        basic_guard_next(b) is Accept ==> settled_attempts(basic_guard_next(b), attempts, now).len()
            == 0,
        basic_guard_next(b) matches BasicAction::Reject { reason, .. } ==> (reason
            == RejectReason::Unauthorized <==> settled_attempts(basic_guard_next(b), attempts, now)
            == attempts.push(now)),
        basic_guard_next(b) matches BasicAction::Reject { reason, .. } && reason
            != RejectReason::Unauthorized ==> settled_attempts(basic_guard_next(b), attempts, now)
            == attempts,
        b == BasicEvent::Password(PasswordCheck::Rejected) ==> settled_attempts(
            basic_guard_next(b),
            attempts,
            now,
        ).len() == attempts.len() + 1,
{
    assert(attempts.push(now).len() != attempts.len());
    assert(attempts.push(now) != attempts);
}

/// Apply the Basic-auth guard's verdict to the account's failures.
pub fn settle_login_attempts(verdict: BasicAction, attempts: &mut Vec<i128>, now: i128)
    ensures
        final(attempts)@ == settled_attempts(verdict, old(attempts)@, now),
{
    match verdict {
        BasicAction::Accept => {
            attempts.clear();
        },
        BasicAction::Reject { record_failure, .. } => {
            if record_failure {
                record_failed_attempt(attempts, now);
            }
        },
        _ => {},
    }
}

/// The Basic-auth guard lets a request through only at the end of the full
/// sequence of checks, in this order: the account is not locked, a database
/// connection, the user's hash from the cache or from the database, and the
/// password verified against it. The accepted login then clears the
/// account's failures, so that no later check finds it locked.
pub proof fn lemma_basic_run_accepts_in_order(
    run: Seq<BasicEvent>,
    attempts: Seq<i128>,
    now: i128,
    later: i128,
)
    requires
        is_basic_run(run),
        basic_guard_next(run.last()) is Accept,
    ensures
        run == seq![
            BasicEvent::Start,
            BasicEvent::NotLocked,
            BasicEvent::ClientReady,
            BasicEvent::CacheHit,
            BasicEvent::Password(PasswordCheck::Accepted),
        ] || run == seq![
            BasicEvent::Start,
            BasicEvent::NotLocked,
            BasicEvent::ClientReady,
            BasicEvent::CacheMiss,
            BasicEvent::UserLoaded,
            BasicEvent::Password(PasswordCheck::Accepted),
        ],
        settled_attempts(basic_guard_next(run.last()), attempts, now).len() == 0,
        recent_attempts(settled_attempts(basic_guard_next(run.last()), attempts, now), later).len()
            < LOCKOUT_THRESHOLD,
{
    let n = run.len() as int;
    assert(run[n - 1] == BasicEvent::Password(PasswordCheck::Accepted));
    assert(n >= 2);
    assert(basic_step_ok(run, n - 1));
    assert(run[n - 2] == BasicEvent::CacheHit || run[n - 2] == BasicEvent::UserLoaded);
    assert(n >= 3);
    assert(basic_step_ok(run, n - 2));
    let k = if run[n - 2] == BasicEvent::CacheHit {
        n - 2
    } else {
        assert(run[n - 3] == BasicEvent::CacheMiss);
        assert(n >= 4);
        assert(basic_step_ok(run, n - 3));
        n - 3
    };
    assert(run[k] == BasicEvent::CacheHit || run[k] == BasicEvent::CacheMiss);
    assert(basic_step_ok(run, k));
    assert(run[k - 1] == BasicEvent::ClientReady);
    assert(k - 1 > 0);
    assert(basic_step_ok(run, k - 1));
    assert(run[k - 2] == BasicEvent::NotLocked);
    assert(k - 2 > 0);
    assert(basic_step_ok(run, k - 2));
    assert(run[k - 3] == BasicEvent::Start);
    if k - 3 > 0 {
        assert(basic_step_ok(run, k - 3));
    }
    if run[n - 2] == BasicEvent::CacheHit {
        assert(run =~= seq![
            BasicEvent::Start,
            BasicEvent::NotLocked,
            BasicEvent::ClientReady,
            BasicEvent::CacheHit,
            BasicEvent::Password(PasswordCheck::Accepted),
        ]);
    } else {
        assert(run =~= seq![
            BasicEvent::Start,
            BasicEvent::NotLocked,
            BasicEvent::ClientReady,
            BasicEvent::CacheMiss,
            BasicEvent::UserLoaded,
            BasicEvent::Password(PasswordCheck::Accepted),
        ]);
    }
    let e = Seq::<i128>::empty();
    assert(e.filter(counts_at(later)) =~= e) by {
        reveal(Seq::filter);
    }
}

/// On refresh, the access token that the client hands back is revoked too
/// when it verifies, was issued to the same user, and is an access token.
pub open spec fn revokes_old_access(refresh_sub: u128, old_access: Option<(u128, TokenType)>) -> bool {
    match old_access {
        Some((sub, t)) => sub == refresh_sub && t == TokenType::Access,
        None => false,
    }
}

/// Whether to revoke the access token handed back with a refresh: given the
/// user and type of that token when it verified.
pub fn should_revoke_old_access(refresh_sub: u128, old_access: Option<(u128, TokenType)>) -> (r: bool)
    ensures
        r == revokes_old_access(refresh_sub, old_access),
{
    match old_access {
        Some((sub, t)) => sub == refresh_sub && t == TokenType::Access,
        None => false,
    }
}

} // verus!
