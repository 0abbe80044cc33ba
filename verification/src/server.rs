//! Start-up checks and the small decisions of the server around the request
//! handlers: the production configuration checks, the HTTP→HTTPS redirect,
//! the CORS origin, and the periodic cleanups.

use vstd::prelude::*;
use vstd::string::StrSliceExecFns;
use vstd::string::StringExecFns;
use crate::auth::{LOCKOUT_WINDOW_SECONDS, is_account_locked, lockout_window, recent_attempts};
use crate::text::{chars_of, decimal_chars, text_eq, u64_to_decimal};

verus! {

/// Directory of the built frontend.
pub const FRONTEND_DIR: &'static str = "frontend/dist";

/// Directory of the avatar images seeded on first start.
pub const MINIFIGS_DIR: &'static str = "minifigs";

/// Seconds between two runs of the revoked-token cleanup (1 hour).
pub const TOKEN_CLEANUP_INTERVAL_SECS: u64 = 3600;

/// Seconds between two runs of the login-attempt cleanup (15 minutes, the
/// lockout window).
pub const LOGIN_ATTEMPTS_CLEANUP_INTERVAL_SECS: u64 = 900;

/// The placeholder secret of the default configuration.
pub const DEFAULT_SECRET: &'static str = "Very Secret";

/// The default database user and password.
pub const DEFAULT_DB_CREDENTIAL: &'static str = "actix";

/// The placeholder database host.
pub const PLACEHOLDER_DB_HOST: &'static str = "pick.a.proper.hostname";

// ── Production checks ───────────────────────────────────────────────────────

/// The configuration values that the start-up checks look at. Absent
/// database values stand for the defaults (`actix`, `actix`, `localhost`).
#[derive(Debug)]
pub struct StartupSettings {
    pub is_production: bool,
    pub secret: String,
    pub jwtsecret: String,
    pub pg_user: Option<String>,
    pub pg_password: Option<String>,
    pub pg_host: Option<String>,
}

/// A configured value, or its default.
pub open spec fn or_default(v: Option<String>, d: Seq<char>) -> Seq<char> {
    match v {
        Some(s) => s@,
        None => d,
    }
}

/// The fatal problem of a production configuration, the first in the order
/// of the checks: default or empty secrets, a short JWT secret (under 32
/// bytes), equal secrets, default or empty database credentials, the
/// placeholder database host.
pub open spec fn startup_problem(s: StartupSettings) -> Option<Seq<char>> {
    let secret = s.secret@;
    let jwt = s.jwtsecret@;
    let user = or_default(s.pg_user, "actix"@);
    let password = or_default(s.pg_password, "actix"@);
    let host = or_default(s.pg_host, "localhost"@);
    if !s.is_production {
        None
    } else if secret == "Very Secret"@ || secret.len() == 0 {
        Some(
            "FATAL: Server secret must be changed from the default value in production. Set BREAKFAST_SERVER_SECRET environment variable."@,
        )
    } else if jwt == "Very Secret"@ || jwt.len() == 0 {
        Some(
            "FATAL: JWT secret must be changed from the default value in production. Set BREAKFAST_SERVER_JWTSECRET environment variable."@,
        )
    } else if vstd::utf8::encode_utf8(jwt).len() < 32 {
        Some(
            "FATAL: JWT secret must be at least 32 characters in production. Current length: "@
                + decimal_chars(vstd::utf8::encode_utf8(jwt).len()),
        )
    } else if secret == jwt {
        Some("FATAL: Server secret and JWT secret must be different values in production."@)
    } else if user == "actix"@ || user.len() == 0 {
        Some(
            "FATAL: Database user must be changed from the default value in production. Set BREAKFAST_PG_USER environment variable."@,
        )
    } else if password == "actix"@ || password.len() == 0 {
        Some(
            "FATAL: Database password must be changed from the default value in production. Set BREAKFAST_PG_PASSWORD environment variable."@,
        )
    } else if host == "pick.a.proper.hostname"@ {
        Some(
            "FATAL: Database host must be changed from the placeholder value in production. Set BREAKFAST_PG_HOST environment variable."@,
        )
    } else {
        None
    }
}

/// The warnings for a development configuration that keeps defaults.
pub open spec fn startup_warnings(s: StartupSettings) -> Seq<Seq<char>> {
    let user = or_default(s.pg_user, "actix"@);
    let password = or_default(s.pg_password, "actix"@);
    if s.is_production {
        Seq::empty()
    } else {
        (if s.secret@ == "Very Secret"@ {
            seq!["Using default server secret — acceptable for development only"@]
        } else {
            Seq::empty()
        }) + (if s.jwtsecret@ == "Very Secret"@ {
            seq!["Using default JWT secret — acceptable for development only"@]
        } else {
            Seq::empty()
        }) + (if user == "actix"@ && password == "actix"@ {
            seq!["Using default database credentials — acceptable for development only"@]
        } else {
            Seq::empty()
        })
    }
}

/// A production server only starts with its own secrets and credentials:
/// when the checks find no problem, neither secret is the placeholder or
/// empty, the JWT secret has at least 32 bytes and differs from the other
/// secret, and the database user, password and host are not the defaults.
pub proof fn lemma_production_start_needs_own_secrets(s: StartupSettings)
    requires
        s.is_production,
        startup_problem(s) is None,
    ensures
        s.secret@ != "Very Secret"@ && s.secret@.len() > 0,
        s.jwtsecret@ != "Very Secret"@ && vstd::utf8::encode_utf8(s.jwtsecret@).len() >= 32,
        s.secret@ != s.jwtsecret@,
        or_default(s.pg_user, "actix"@) != "actix"@,
        or_default(s.pg_password, "actix"@) != "actix"@,
        or_default(s.pg_host, "localhost"@) != "pick.a.proper.hostname"@,
{
}

/// A production server refuses to start exactly when it keeps a default,
/// empty or placeholder secret or credential, a JWT secret under 32 bytes,
/// or the same value for both secrets; a development server always starts,
/// and warns about each default it keeps (a production one never warns).
pub proof fn lemma_startup_refuses_exactly_the_defaults(s: StartupSettings)
    ensures
        !s.is_production ==> startup_problem(s) is None,
        s.is_production ==> (startup_problem(s) is None <==> {
            &&& s.secret@ != "Very Secret"@ && s.secret@.len() > 0
            &&& s.jwtsecret@ != "Very Secret"@ && s.jwtsecret@.len() > 0
            &&& vstd::utf8::encode_utf8(s.jwtsecret@).len() >= 32
            &&& s.secret@ != s.jwtsecret@
            &&& or_default(s.pg_user, "actix"@) != "actix"@ && or_default(s.pg_user, "actix"@).len() > 0
            &&& or_default(s.pg_password, "actix"@) != "actix"@ && or_default(
                s.pg_password,
                "actix"@,
            ).len() > 0
            &&& or_default(s.pg_host, "localhost"@) != "pick.a.proper.hostname"@
        }),
        s.is_production ==> startup_warnings(s).len() == 0,
        !s.is_production && s.secret@ == "Very Secret"@ ==> startup_warnings(s).contains(
            "Using default server secret — acceptable for development only"@,
        ),
        !s.is_production && s.jwtsecret@ == "Very Secret"@ ==> startup_warnings(s).contains(
            "Using default JWT secret — acceptable for development only"@,
        ),
        !s.is_production && s.pg_user is None && s.pg_password is None ==> startup_warnings(
            s,
        ).contains("Using default database credentials — acceptable for development only"@),
        !s.is_production && s.secret@ != "Very Secret"@ && s.jwtsecret@ != "Very Secret"@
            && or_default(s.pg_user, "actix"@) != "actix"@ ==> startup_warnings(s).len() == 0,
{
    let a: Seq<Seq<char>> = if s.secret@ == "Very Secret"@ {
        seq!["Using default server secret — acceptable for development only"@]
    } else {
        Seq::empty()
    };
    let b: Seq<Seq<char>> = if s.jwtsecret@ == "Very Secret"@ {
        seq!["Using default JWT secret — acceptable for development only"@]
    } else {
        Seq::empty()
    };
    let c: Seq<Seq<char>> = if or_default(s.pg_user, "actix"@) == "actix"@ && or_default(
        s.pg_password,
        "actix"@,
    ) == "actix"@ {
        seq!["Using default database credentials — acceptable for development only"@]
    } else {
        Seq::empty()
    };
    if !s.is_production {
        assert(startup_warnings(s) == a + b + c);
        if s.secret@ == "Very Secret"@ {
            assert((a + b + c)[0] == a[0]);
        }
        if s.jwtsecret@ == "Very Secret"@ {
            assert((a + b + c)[a.len() as int] == b[0]);
        }
        if s.pg_user is None && s.pg_password is None {
            assert((a + b + c)[(a.len() + b.len()) as int] == c[0]);
        }
    }
}

/// A configured text, or its default.
fn text_or<'a>(v: &'a Option<String>, d: &'a str) -> (r: &'a str)
    ensures
        r@ == or_default(*v, d@),
{
    match v {
        Some(s) => s.as_str(),
        None => d,
    }
}

/// Check the configuration before the server starts: `Err` with the fatal
/// message when a production configuration keeps a default secret or
/// credential (the server must not start), else the warnings to log.
pub fn check_startup_settings(s: &StartupSettings) -> (r: Result<Vec<String>, String>)
    ensures
        r matches Err(m) ==> startup_problem(*s) == Some(m@),
        r matches Ok(w) ==> startup_problem(*s) is None && w.deep_view() == startup_warnings(*s),
{
    let secret = s.secret.as_str();
    let jwt = s.jwtsecret.as_str();
    let user = text_or(&s.pg_user, DEFAULT_DB_CREDENTIAL);
    let password = text_or(&s.pg_password, DEFAULT_DB_CREDENTIAL);
    let host = text_or(&s.pg_host, "localhost");
    proof {
        reveal_strlit("actix");
        reveal_strlit("Very Secret");
    }
    if s.is_production {
        if text_eq(secret, DEFAULT_SECRET) || secret.is_empty() {
            return Err(
                "FATAL: Server secret must be changed from the default value in production. Set BREAKFAST_SERVER_SECRET environment variable.".to_owned(),
            );
        }
        if text_eq(jwt, DEFAULT_SECRET) || jwt.is_empty() {
            return Err(
                "FATAL: JWT secret must be changed from the default value in production. Set BREAKFAST_SERVER_JWTSECRET environment variable.".to_owned(),
            );
        }
        let jwt_len = jwt.as_bytes().len();
        if jwt_len < 32 {
            let mut m =
                "FATAL: JWT secret must be at least 32 characters in production. Current length: ".to_owned();
            let digits = u64_to_decimal(jwt_len as u64);
            m.append(digits.as_str());
            return Err(m);
        }
        if text_eq(secret, jwt) {
            return Err(
                "FATAL: Server secret and JWT secret must be different values in production.".to_owned(),
            );
        }
        if text_eq(user, DEFAULT_DB_CREDENTIAL) || user.is_empty() {
            return Err(
                "FATAL: Database user must be changed from the default value in production. Set BREAKFAST_PG_USER environment variable.".to_owned(),
            );
        }
        if text_eq(password, DEFAULT_DB_CREDENTIAL) || password.is_empty() {
            return Err(
                "FATAL: Database password must be changed from the default value in production. Set BREAKFAST_PG_PASSWORD environment variable.".to_owned(),
            );
        }
        if text_eq(host, PLACEHOLDER_DB_HOST) {
            return Err(
                "FATAL: Database host must be changed from the placeholder value in production. Set BREAKFAST_PG_HOST environment variable.".to_owned(),
            );
        }
        let w: Vec<String> = Vec::new();
        assert(w.deep_view() =~= startup_warnings(*s));
        return Ok(w);
    }
    let mut w: Vec<String> = Vec::new();
    if text_eq(secret, DEFAULT_SECRET) {
        w.push("Using default server secret — acceptable for development only".to_owned());
    }
    let ghost first = w.deep_view();
    if text_eq(jwt, DEFAULT_SECRET) {
        w.push("Using default JWT secret — acceptable for development only".to_owned());
    }
    let ghost second = w.deep_view();
    if text_eq(user, DEFAULT_DB_CREDENTIAL) && text_eq(password, DEFAULT_DB_CREDENTIAL) {
        w.push("Using default database credentials — acceptable for development only".to_owned());
    }
    assert(w.deep_view() =~= startup_warnings(*s));
    Ok(w)
}

// ── HTTP → HTTPS redirect ───────────────────────────────────────────────────

/// A character allowed in the host name of a redirect: ASCII letters and
/// digits, `-` and `.`.
pub open spec fn is_host_char(c: char) -> bool {
    ('a' <= c && c <= 'z') || ('A' <= c && c <= 'Z') || ('0' <= c && c <= '9') || c == '-' || c
        == '.'
}

/// Every character of `h` is allowed in the host name of a redirect.
pub open spec fn all_host_chars(h: Seq<char>) -> bool {
    forall|i: int| 0 <= i < h.len() ==> #[trigger] is_host_char(h[i])
}

/// The host name of a `Host` header: the text before its first `:`.
pub open spec fn host_name(host: Seq<char>) -> Seq<char> {
    if exists|i: int| 0 <= i < host.len() && host[i] == ':' {
        host.subrange(0, choose_first_colon(host))
    } else {
        host
    }
}

/// The position of the first `:` in `host`.
pub open spec fn choose_first_colon(host: Seq<char>) -> int {
    choose|i: int| 0 <= i < host.len() && host[i] == ':' && forall|j: int| 0 <= j < i ==> host[j] != ':'
}

/// The `Location` of the redirect for a request with the given `Host` header
/// (`localhost` when absent or unreadable) and path with query (`/` when
/// absent): `https://<host name>[:<port>]<path>`, the port omitted when it
/// is 443. `None` (a bad request) when the host name holds anything but
/// letters, digits, `-` and `.`, which would open a redirect elsewhere.
pub open spec fn redirect_location(host: Option<Seq<char>>, path: Option<Seq<char>>, https_port: u16) -> Option<
    Seq<char>,
> {
    let h = host_name(
        match host {
            Some(h) => h,
            None => "localhost"@,
        },
    );
    let p = match path {
        Some(p) => p,
        None => "/"@,
    };
    if all_host_chars(h) {
        Some(
            "https://"@ + h + (if https_port == 443 {
                Seq::empty()
            } else {
                ":"@ + decimal_chars(https_port as nat)
            }) + p,
        )
    } else {
        None
    }
}

/// The redirect never leaves the requested host: it is refused exactly
/// when the host name holds a character other than letters, digits, `-`
/// and `.`; otherwise it is an `https://` address of that host name that
/// ends in the requested path (`/` when none), naming the port only when
/// it is not 443.
pub proof fn lemma_redirect_stays_on_host(host: Option<Seq<char>>, path: Option<Seq<char>>, port: u16)
    ensures
        ({
            let h = host_name(
                match host {
                    Some(h) => h,
                    None => "localhost"@,
                },
            );
            let p = match path {
                Some(p) => p,
                None => "/"@,
            };
            &&& redirect_location(host, path, port) is None <==> !all_host_chars(h)
            &&& redirect_location(host, path, port) matches Some(r) ==> {
                &&& r.subrange(0, 8) == "https://"@
                &&& r.subrange(8, 8 + h.len() as int) == h
                &&& r.subrange(r.len() - p.len(), r.len() as int) == p
                &&& !h.contains(':')
            }
            &&& all_host_chars(h) && port == 443 ==> redirect_location(host, path, port) == Some(
                "https://"@ + h + p,
            )
        }),
{
    reveal_strlit("https://");
    let h = host_name(
        match host {
            Some(h) => h,
            None => "localhost"@,
        },
    );
    let p = match path {
        Some(p) => p,
        None => "/"@,
    };
    if all_host_chars(h) {
        let mid: Seq<char> = if port == 443 {
            Seq::empty()
        } else {
            ":"@ + decimal_chars(port as nat)
        };
        let r = "https://"@ + h + mid + p;
        assert(r.subrange(0, 8) =~= "https://"@);
        assert(r.subrange(8, 8 + h.len() as int) =~= h);
        assert(r.subrange(r.len() - p.len(), r.len() as int) =~= p);
        if h.contains(':') {
            let i = choose|i: int| 0 <= i < h.len() && h[i] == ':';
            assert(is_host_char(h[i]));
        }
        if port == 443 {
            assert("https://"@ + h + Seq::<char>::empty() + p =~= "https://"@ + h + p);
        }
    }
}

/// The view of an optional text.
pub open spec fn opt_view(s: Option<&str>) -> Option<Seq<char>> {
    match s {
        Some(t) => Some(t@),
        None => None,
    }
}

/// The `Location` of the HTTP→HTTPS redirect, or `None` for a bad request.
pub fn https_redirect_location(host: Option<&str>, path: Option<&str>, https_port: u16) -> (r:
    Option<String>)
    ensures
        match r {
            Some(l) => redirect_location(opt_view(host), opt_view(path), https_port) == Some(l@),
            None => redirect_location(opt_view(host), opt_view(path), https_port) is None,
        },
{
    let full = match host {
        Some(h) => h,
        None => "localhost",
    };
    let cs = chars_of(full);
    let mut end: usize = 0;
    while end < cs.len() && cs[end] != ':'
        invariant
            end <= cs@.len(),
            forall|j: int| 0 <= j < end ==> cs@[j] != ':',
        decreases cs@.len() - end,
    {
        end = end + 1;
    }
    let ghost hv = full@;
    proof {
        if end < cs.len() {
            let c = choose_first_colon(hv);
            assert(0 <= end < hv.len() && hv[end as int] == ':' && forall|j: int|
                0 <= j < end ==> hv[j] != ':');
            assert(0 <= c < hv.len() && hv[c] == ':' && forall|j: int| 0 <= j < c ==> hv[j] != ':');
            if c < end {
                assert(hv[c] != ':');
            }
            if end < c {
                assert(hv[end as int] != ':');
            }
            assert(host_name(hv) =~= hv.subrange(0, end as int));
        } else {
            assert(host_name(hv) =~= hv.subrange(0, end as int));
        }
    }
    let mut i: usize = 0;
    while i < end
        invariant
            end <= cs@.len(),
            cs@ == full@,
            hv == full@,
            host_name(hv) == hv.subrange(0, end as int),
            full@ == (match opt_view(host) {
                Some(h) => h,
                None => "localhost"@,
            }),
            i <= end,
            forall|j: int| 0 <= j < i ==> #[trigger] is_host_char(cs@[j]),
        decreases end - i,
    {
        let c = cs[i];
        if !(('a' <= c && c <= 'z') || ('A' <= c && c <= 'Z') || ('0' <= c && c <= '9') || c == '-'
            || c == '.') {
            assert(host_name(hv)[i as int] == c);
            assert(!is_host_char(host_name(hv)[i as int]));
            let ghost hn = host_name(
                match opt_view(host) {
                    Some(h) => h,
                    None => "localhost"@,
                },
            );
            assert(hn == host_name(hv));
            assert(!is_host_char(hn[i as int]));
            assert(!all_host_chars(hn));
            assert(redirect_location(opt_view(host), opt_view(path), https_port) is None);
            return None;
        }
        i = i + 1;
    }
    let mut out = "https://".to_owned();
    out.append(full.substring_char(0, end));
    if https_port != 443 {
        out.append(":");
        let digits = u64_to_decimal(https_port as u64);
        out.append(digits.as_str());
    }
    match path {
        Some(p) => out.append(p),
        None => out.append("/"),
    }
    Some(out)
}

/// The origin that CORS allows: the service's own HTTPS origin, with the
/// wildcard bind address `0.0.0.0` replaced by `localhost`, which is what
/// browsers send.
pub fn cors_origin(host: &str, port: u16) -> (r: String)
    ensures
        r@ == "https://"@ + (if host@ == "0.0.0.0"@ {
            "localhost"@
        } else {
            host@
        }) + ":"@ + decimal_chars(port as nat),
{
    let mut r = "https://".to_owned();
    if text_eq(host, "0.0.0.0") {
        r.append("localhost");
    } else {
        r.append(host);
    }
    r.append(":");
    let digits = u64_to_decimal(port as u64);
    r.append(digits.as_str());
    r
}

// ── Periodic cleanups ───────────────────────────────────────────────────────

/// Prune the failures of one account to those of the last cleanup interval
/// (the lockout window); the account's entry is kept only when some remain.
pub fn prune_stale_attempts(attempts: &mut Vec<i128>, now: i128) -> (keep: bool)
    requires
        now >= i128::MIN + lockout_window(),
    ensures
        LOGIN_ATTEMPTS_CLEANUP_INTERVAL_SECS == LOCKOUT_WINDOW_SECONDS,
        final(attempts)@ == recent_attempts(old(attempts)@, now),
        keep == (final(attempts)@.len() > 0),
{
    let _ = is_account_locked(attempts, now);
    attempts.len() > 0
}

/// A revoked token is forgotten once it has expired.
pub fn keep_revoked_token(expires_at: i128, now: i128) -> (keep: bool)
    ensures
        keep == (expires_at > now),
{
    expires_at > now
}

// ── Avatar seeding ──────────────────────────────────────────────────────────

/// Where the extension of a file name starts: after its last `.`, unless
/// that dot is the name's first character (a hidden file) or the name is
/// `..`.
pub open spec fn extension_dot(name: Seq<char>) -> Option<int> {
    if name == ".."@ {
        None
    } else if exists|i: int| 0 < i < name.len() && name[i] == '.' {
        Some(choose|i: int| 0 < i < name.len() && name[i] == '.' && forall|j: int| i < j < name.len() ==> name[j] != '.')
    } else {
        None
    }
}

/// The avatar name of an image file: the file's stem, when its extension is
/// `png` in any ASCII case; `None` for any other file.
pub open spec fn png_stem_of(name: Seq<char>) -> Option<Seq<char>> {
    match extension_dot(name) {
        Some(d) => if name.len() - d - 1 == 3 && (name[d + 1] == 'p' || name[d + 1] == 'P') && (
        name[d + 2] == 'n' || name[d + 2] == 'N') && (name[d + 3] == 'g' || name[d + 3] == 'G') {
            Some(name.subrange(0, d))
        } else {
            None
        },
        None => None,
    }
}

/// Where the extension of `name + ext` starts, for a non-empty `name` and a
/// three-character extension without a dot.
proof fn lemma_extension_dot_of(name: Seq<char>, ext: Seq<char>)
    requires
        name.len() > 0,
        ext.len() == 3,
        ext[0] != '.' && ext[1] != '.' && ext[2] != '.',
    ensures
        extension_dot(name + seq!['.'] + ext) == Some(name.len() as int),
{
    let f = name + seq!['.'] + ext;
    let d = name.len() as int;
    assert(f[d] == '.');
    assert(f != ".."@) by {
        assert(f.len() != ".."@.len()) by {
            reveal_strlit("..");
        }
    }
    assert(forall|j: int| d < j < f.len() ==> f[j] != '.') by {
        assert forall|j: int| d < j < f.len() implies f[j] != '.' by {
            assert(f[j] == ext[j - d - 1]);
        }
    }
    let c = choose|i: int| 0 < i < f.len() && f[i] == '.' && forall|j: int| i < j < f.len() ==> f[j] != '.';
    assert(0 < c < f.len() && f[c] == '.' && forall|j: int| c < j < f.len() ==> f[j] != '.');
    if c < d {
        assert(f[d] != '.');
    }
    if c > d {
        assert(f[c] == ext[c - d - 1]);
    }
}

/// Where an extension starts is a `.` inside the name, past its first
/// character.
proof fn lemma_extension_dot_is_a_dot(name: Seq<char>)
    ensures
        extension_dot(name) matches Some(d) ==> 0 < d < name.len() && name[d] == '.',
{
    if name != ".."@ && exists|i: int| 0 < i < name.len() && name[i] == '.' {
        let c = choose|i: int|
            0 < i < name.len() && name[i] == '.' && forall|j: int| i < j < name.len() ==> name[j]
                != '.';
        let w = choose|i: int| 0 < i < name.len() && name[i] == '.';
        lemma_last_dot_exists(name, w);
        assert(0 < c < name.len() && name[c] == '.');
    }
}

/// A name with a dot past its first character has a last such dot.
proof fn lemma_last_dot_exists(name: Seq<char>, w: int)
    requires
        0 < w < name.len() && name[w] == '.',
    ensures
        exists|i: int|
            0 < i < name.len() && name[i] == '.' && forall|j: int| i < j < name.len() ==> name[j]
                != '.',
    decreases name.len() - w,
{
    if exists|j: int| w < j < name.len() && name[j] == '.' {
        let j = choose|j: int| w < j < name.len() && name[j] == '.';
        lemma_last_dot_exists(name, j);
    } else {
        assert(forall|j: int| w < j < name.len() ==> name[j] != '.');
    }
}

/// A file `stem.ext` with a non-empty stem and a three-character extension
/// gives its stem as the avatar name exactly when the extension is `png` in
/// any mix of cases; any other extension gives none.
#[verifier::spinoff_prover]
pub proof fn lemma_png_files_give_their_stem(stem: Seq<char>, ext: Seq<char>)
    requires
        stem.len() > 0,
        ext.len() == 3,
        ext[0] != '.' && ext[1] != '.' && ext[2] != '.',
    ensures
        png_stem_of(stem + seq!['.'] + ext) == if (ext[0] == 'p' || ext[0] == 'P') && (ext[1] == 'n'
            || ext[1] == 'N') && (ext[2] == 'g' || ext[2] == 'G') {
            Some(stem)
        } else {
            None
        },
{
    lemma_extension_dot_of(stem, ext);
    let f = stem + seq!['.'] + ext;
    let d = stem.len() as int;
    assert(f.subrange(0, d) =~= stem);
    assert(f[d + 1] == ext[0] && f[d + 2] == ext[1] && f[d + 3] == ext[2]);
}

/// An avatar name is always the non-empty part of the file name before a
/// `.png` extension (in any case).
pub proof fn lemma_png_stem_shape(name: Seq<char>)
    ensures
        png_stem_of(name) matches Some(t) ==> {
            &&& name.len() == t.len() + 4
            &&& t.len() > 0
            &&& name.subrange(0, t.len() as int) == t
            &&& name[t.len() as int] == '.'
            &&& (name[t.len() + 1 as int] == 'p' || name[t.len() + 1 as int] == 'P')
            &&& (name[t.len() + 2 as int] == 'n' || name[t.len() + 2 as int] == 'N')
            &&& (name[t.len() + 3 as int] == 'g' || name[t.len() + 3 as int] == 'G')
        },
{
    lemma_extension_dot_is_a_dot(name);
}

/// The avatar name of an image file in the avatar directory, or `None` when
/// the file is not a PNG image.
pub fn png_stem(file_name: &str) -> (r: Option<String>)
    ensures
        match r {
            Some(s) => png_stem_of(file_name@) == Some(s@),
            None => png_stem_of(file_name@) is None,
        },
{
    let cs = chars_of(file_name);
    let n = cs.len();
    if text_eq(file_name, "..") {
        return None;
    }
    let mut d: usize = n;
    while d > 0 && cs[d - 1] != '.'
        invariant
            d <= n,
            n == cs@.len(),
            forall|j: int| d <= j < n ==> cs@[j] != '.',
        decreases d,
    {
        d = d - 1;
    }
    let ghost name = file_name@;
    // `d` is one past the last dot, or 0 when there is none.
    if d <= 1 {
        proof {
            assert forall|i: int| 0 < i < name.len() implies name[i] != '.' by {
                assert(cs@[i] == name[i]);
            }
            assert(extension_dot(name) is None);
        }
        return None;
    }
    let dot = d - 1;
    proof {
        let c = choose|i: int| 0 < i < name.len() && name[i] == '.' && forall|j: int| i < j < name.len() ==> name[j] != '.';
        assert(0 < dot < name.len() && name[dot as int] == '.');
        if c < dot {
            assert(name[dot as int] != '.');
        }
        if dot < c {
            assert(cs@[c] != '.');
        }
        assert(extension_dot(name) == Some(dot as int));
    }
    if n - d == 3 && (cs[d] == 'p' || cs[d] == 'P') && (cs[d + 1] == 'n' || cs[d + 1] == 'N') && (
    cs[d + 2] == 'g' || cs[d + 2] == 'G') {
        Some(file_name.substring_char(0, dot).to_owned())
    } else {
        None
    }
}

} // verus!
