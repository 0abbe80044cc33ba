//! The service's error type and the HTTP answer given for each error.
//!
//! Errors that come from other libraries are held by what the answer depends
//! on: their text, and for database errors the SQLSTATE code, table and
//! constraint that the server reported. Internal failures are answered with
//! a generic message so that no detail leaks to the client.

use vstd::prelude::*;
use vstd::string::StrSliceExecFns;
use vstd::string::StringExecFns;
use crate::from_row::{FromRowError, from_row_error_text};
use crate::text::{contains, contains_text, text_eq};

verus! {

/// What the database server reported with a failed statement.
#[derive(Debug)]
pub struct DbErrorInfo {
    /// The SQLSTATE code, such as `23505`.
    pub code: String,
    /// The table involved, when the server names one.
    pub table: Option<String>,
    /// The constraint involved, when the server names one.
    pub constraint: Option<String>,
}

/// A database client error: the server's report, when the failure came from
/// the server, and the error's text.
#[derive(Debug)]
pub struct DbFailure {
    pub server_error: Option<DbErrorInfo>,
    pub text: String,
}

/// The kinds of JSON body failure that are answered differently.
#[derive(Clone, Copy, Debug, PartialEq, Eq, Structural)]
pub enum JsonPayloadKind {
    /// The request did not declare a JSON content type.
    ContentType,
    /// The body is JSON but does not fit the expected shape.
    DeserializeData,
    /// Any other failure (syntax error, overflow, ...).
    Other,
}

/// The service's error type. Errors of other libraries are held by their
/// text (and for database and JSON errors, by what the answer depends on).
#[derive(Debug)]
pub enum Error {
    Eyre(String),
    Jwt(String),
    ActixAuth(String),
    ActixJson(JsonPayloadKind, String),
    ActixPath(String),
    Pool(String),
    Db(DbFailure),
    DbMapper(FromRowError),
    Io(String),
    Config(String),
    Conversion(String),
    Validation(String),
    NotFound(String),
    Argon2(String),
    Utoipa(String),
    Forbidden(String),
    Unauthorized(String),
    Conflict(String),
}

/// The JSON body of every error answer: `{"error": "..."}`.
#[derive(Debug)]
pub struct ErrorResponse {
    pub error: String,
}

/// An HTTP answer to an error: its status code and its body.
#[derive(Debug)]
pub struct ErrorReply {
    pub status: u16,
    pub body: ErrorResponse,
}

/// A lower-case hexadecimal digit, `0`–`9` then `a`–`f`.
pub open spec fn hex_digit(n: int) -> char {
    if n < 10 {
        (('0' as int) + n) as char
    } else {
        (('a' as int) + n - 10) as char
    }
}

/// How `serde_json` writes one character inside a JSON string: a quote and a
/// backslash behind a backslash, the control characters with a short escape
/// where JSON has one and as `\u00XX` otherwise, every other character as it is.
pub open spec fn json_escape_char(c: char) -> Seq<char> {
    if c == '"' {
        seq!['\\', '"']
    } else if c == '\\' {
        seq!['\\', '\\']
    } else if c == '\u{8}' {
        seq!['\\', 'b']
    } else if c == '\t' {
        seq!['\\', 't']
    } else if c == '\n' {
        seq!['\\', 'n']
    } else if c == '\u{c}' {
        seq!['\\', 'f']
    } else if c == '\r' {
        seq!['\\', 'r']
    } else if (c as int) < 0x20 {
        seq!['\\', 'u', '0', '0', hex_digit((c as int) / 16), hex_digit((c as int) % 16)]
    } else {
        seq![c]
    }
}

/// The characters of `s`, each escaped as `serde_json` escapes it.
pub open spec fn json_escaped(s: Seq<char>) -> Seq<char>
    decreases s.len(),
{
    if s.len() == 0 {
        Seq::empty()
    } else {
        json_escaped(s.drop_last()) + json_escape_char(s.last())
    }
}

/// The JSON string literal that `serde_json` writes for `s`.
pub open spec fn json_quoted(s: Seq<char>) -> Seq<char> {
    seq!['"'] + json_escaped(s) + seq!['"']
}

/// `serde_json::to_string` on a `&str`: the text in double quotes, each
/// character escaped as `json_escape_char` says. It writes into a `Vec` and
/// never fails on a string, so the result is always `Some`.
#[verifier::external_body]
fn json_quote(s: &str) -> (r: Option<String>)
    ensures
        r is Some,
        r->0@ == json_quoted(s@),
{
    serde_json::to_string(s).ok()
}

/// The text with every backslash and double quote escaped by a backslash.
pub open spec fn escape_quotes(s: Seq<char>) -> Seq<char>
    decreases s.len(),
{
    if s.len() == 0 {
        Seq::empty()
    } else {
        escape_quotes(s.drop_last()) + if s.last() == '\\' {
            "\\\\"@
        } else if s.last() == '"' {
            "\\\""@
        } else {
            seq![s.last()]
        }
    }
}

/// The JSON text of an error body, `{"error":"..."}`: the message as
/// `serde_json` quotes it, or, should that fail, with backslashes and
/// quotes escaped by hand.
pub open spec fn error_body_json(message: Seq<char>, quoted: Option<Seq<char>>) -> Seq<char> {
    match quoted {
        Some(q) => "{\"error\":"@ + q + "}"@,
        None => "{\"error\":\""@ + escape_quotes(message) + "\"}"@,
    }
}

/// The JSON text of an error body from the message and, when `serde_json`
/// could quote it, the quoted message.
pub fn error_body_from(message: &str, quoted: Option<String>) -> (r: String)
    ensures
        r@ == error_body_json(message@, match quoted {
            Some(q) => Some(q@),
            None => None,
        }),
{
    match quoted {
        Some(q) => {
            let mut out = "{\"error\":".to_owned();
            out.append(q.as_str());
            out.append("}");
            out
        },
        None => {
            let mut out = "{\"error\":\"".to_owned();
            let n = message.unicode_len();
            let mut i: usize = 0;
            while i < n
                invariant
                    n == message@.len(),
                    i <= n,
                    out@ == "{\"error\":\""@ + escape_quotes(message@.subrange(0, i as int)),
                decreases n - i,
            {
                let ghost prefix = message@.subrange(0, i + 1);
                assert(prefix.drop_last() =~= message@.subrange(0, i as int));
                let c = message.get_char(i);
                if c == '\\' {
                    out.append("\\\\");
                } else if c == '"' {
                    out.append("\\\"");
                } else {
                    out.append(message.substring_char(i, i + 1));
                    assert(message@.subrange(i as int, i + 1) =~= seq![c]);
                }
                i = i + 1;
                assert(out@ =~= "{\"error\":\""@ + escape_quotes(message@.subrange(0, i as int)));
            }
            assert(message@.subrange(0, n as int) =~= message@);
            out.append("\"}");
            out
        },
    }
}

impl ErrorResponse {
    /// The body as JSON text, `{"error":"..."}`, with the message quoted as
    /// `serde_json` quotes strings.
    pub fn to_string(&self) -> (r: String)
        ensures
            r@ == error_body_json(self.error@, Some(json_quoted(self.error@))),
    {
        let quoted = json_quote(self.error.as_str());
        error_body_from(self.error.as_str(), quoted)
    }
}

/// The text of an error, as it is logged.
pub open spec fn error_text(e: Error) -> Seq<char> {
    match e {
        Error::Eyre(m) => m@,
        Error::Jwt(m) => m@,
        Error::ActixAuth(m) => m@,
        Error::ActixJson(_, m) => m@,
        Error::ActixPath(m) => m@,
        Error::Pool(m) => m@,
        Error::Db(f) => f.text@,
        Error::DbMapper(r) => from_row_error_text(r),
        Error::Io(m) => m@,
        Error::Config(m) => m@,
        Error::Conversion(m) => m@,
        Error::Validation(m) => m@,
        Error::NotFound(m) => m@,
        Error::Argon2(m) => m@,
        Error::Utoipa(m) => m@,
        Error::Forbidden(m) => m@,
        Error::Unauthorized(m) => m@,
        Error::Conflict(m) => m@,
    }
}

/// The SQLSTATE code of a unique-constraint violation.
pub open spec fn is_unique_violation(code: Seq<char>) -> bool {
    code == "23505"@
}

/// The SQLSTATE codes of a foreign-key or restrict violation.
pub open spec fn is_reference_violation(code: Seq<char>) -> bool {
    code == "23503"@ || code == "23001"@
}

/// What a violated reference constraint is about, judged by its name; the
/// first of `item`, `team`, `user`, `role`, `order` that the name contains.
pub open spec fn referenced_subject(constraint: Seq<char>) -> Option<Seq<char>> {
    if contains_text(constraint, "item"@) {
        Some("item"@)
    } else if contains_text(constraint, "team"@) {
        Some("team"@)
    } else if contains_text(constraint, "user"@) {
        Some("user"@)
    } else if contains_text(constraint, "role"@) {
        Some("role"@)
    } else if contains_text(constraint, "teamorders"@) || contains_text(constraint, "order"@) {
        Some("order"@)
    } else {
        None
    }
}

/// The message for a violated reference: names the missing entity and the
/// table (`record` when the server names none), or says that the operation
/// conflicts with an existing relationship.
pub open spec fn reference_message(info: DbErrorInfo) -> Seq<char> {
    let table = match info.table {
        Some(t) => t@,
        None => "record"@,
    };
    let subject = match info.constraint {
        Some(c) => referenced_subject(c@),
        None => None,
    };
    match subject {
        Some(s) => "Referenced "@ + s + " does not exist ("@ + table + ")"@,
        None => "Operation conflicts with an existing relationship"@,
    }
}

/// The HTTP status answered for an error.
pub open spec fn error_status(e: Error) -> u16 {
    match e {
        Error::Db(f) => match f.server_error {
            Some(info) => if is_unique_violation(info.code@) || is_reference_violation(
                info.code@,
            ) {
                409
            } else {
                500
            },
            None => 500,
        },
        Error::ActixAuth(_) => 401,
        Error::Validation(_) => 422,
        Error::Utoipa(_) => 422,
        Error::ActixJson(kind, _) => match kind {
            JsonPayloadKind::ContentType => 415,
            JsonPayloadKind::DeserializeData => 422,
            JsonPayloadKind::Other => 400,
        },
        Error::ActixPath(_) => 400,
        Error::NotFound(_) => 404,
        Error::Forbidden(_) => 403,
        Error::Unauthorized(_) => 401,
        Error::Conflict(_) => 409,
        _ => 500,
    }
}

/// The message answered for an error: the error's own text for client
/// errors, a fixed message for everything that would leak internals.
pub open spec fn error_message(e: Error) -> Seq<char> {
    match e {
        Error::Db(f) => match f.server_error {
            Some(info) => if is_unique_violation(info.code@) {
                "A record with that value already exists"@
            } else if is_reference_violation(info.code@) {
                reference_message(info)
            } else {
                "Internal server error"@
            },
            None => "Internal server error"@,
        },
        Error::ActixAuth(_) => "Authentication failed"@,
        Error::Validation(m) => m@,
        Error::Utoipa(m) => m@,
        Error::ActixJson(kind, m) => match kind {
            JsonPayloadKind::DeserializeData => "Invalid request body"@,
            _ => m@,
        },
        Error::ActixPath(m) => m@,
        Error::NotFound(m) => m@,
        Error::Forbidden(m) => m@,
        Error::Unauthorized(m) => m@,
        Error::Conflict(m) => m@,
        _ => "Internal server error"@,
    }
}

/// The message for a violated reference constraint.
fn reference_detail(info: &DbErrorInfo) -> (r: String)
    ensures
        r@ == reference_message(*info),
{
    let subject: Option<&str> = match &info.constraint {
        Some(c) => {
            let c = c.as_str();
            if contains(c, "item") {
                Some("item")
            } else if contains(c, "team") {
                Some("team")
            } else if contains(c, "user") {
                Some("user")
            } else if contains(c, "role") {
                Some("role")
            } else if contains(c, "teamorders") || contains(c, "order") {
                Some("order")
            } else {
                None
            }
        },
        None => None,
    };
    match subject {
        Some(s) => {
            let mut out = "Referenced ".to_owned();
            out.append(s);
            out.append(" does not exist (");
            match &info.table {
                Some(t) => out.append(t.as_str()),
                None => out.append("record"),
            }
            out.append(")");
            out
        },
        None => "Operation conflicts with an existing relationship".to_owned(),
    }
}

/// The answer to a database error.
fn db_error_reply(f: &DbFailure) -> (r: (u16, String))
    ensures
        r.0 == error_status(Error::Db(*f)),
        r.1@ == error_message(Error::Db(*f)),
{
    match &f.server_error {
        Some(info) => {
            let code = info.code.as_str();
            if text_eq(code, "23505") {
                (409, "A record with that value already exists".to_owned())
            } else if text_eq(code, "23503") || text_eq(code, "23001") {
                (409, reference_detail(info))
            } else {
                (500, "Internal server error".to_owned())
            }
        },
        None => (500, "Internal server error".to_owned()),
    }
}

impl Error {
    /// The text of the error, as it is logged: the message it carries, or
    /// the text of the wrapped error.
    pub fn to_string(&self) -> (r: String)
        ensures
            r@ == error_text(*self),
    {
        match self {
            Error::Eyre(m) => m.clone(),
            Error::Jwt(m) => m.clone(),
            Error::ActixAuth(m) => m.clone(),
            Error::ActixJson(_, m) => m.clone(),
            Error::ActixPath(m) => m.clone(),
            Error::Pool(m) => m.clone(),
            Error::Db(f) => f.text.clone(),
            Error::DbMapper(r) => r.to_string(),
            Error::Io(m) => m.clone(),
            Error::Config(m) => m.clone(),
            Error::Conversion(m) => m.clone(),
            Error::Validation(m) => m.clone(),
            Error::NotFound(m) => m.clone(),
            Error::Argon2(m) => m.clone(),
            Error::Utoipa(m) => m.clone(),
            Error::Forbidden(m) => m.clone(),
            Error::Unauthorized(m) => m.clone(),
            Error::Conflict(m) => m.clone(),
        }
    }

    /// The HTTP answer to the error: `500 Internal server error` for
    /// internal failures, the error's own message for client errors, and for
    /// database constraint violations a `409` that says what conflicted.
    pub fn error_response(&self) -> (r: ErrorReply)
        ensures
            r.status == error_status(*self),
            r.body.error@ == error_message(*self),
    {
        let (status, message): (u16, String) = match self {
            Error::Db(f) => db_error_reply(f),
            Error::ActixAuth(_) => (401, "Authentication failed".to_owned()),
            Error::Validation(m) => (422, m.clone()),
            Error::Utoipa(m) => (422, m.clone()),
            Error::ActixJson(kind, m) => match kind {
                JsonPayloadKind::ContentType => (415, m.clone()),
                JsonPayloadKind::DeserializeData => (422, "Invalid request body".to_owned()),
                JsonPayloadKind::Other => (400, m.clone()),
            },
            Error::ActixPath(m) => (400, m.clone()),
            Error::NotFound(m) => (404, m.clone()),
            Error::Forbidden(m) => (403, m.clone()),
            Error::Unauthorized(m) => (401, m.clone()),
            Error::Conflict(m) => (409, m.clone()),
            _ => (500, "Internal server error".to_owned()),
        };
        ErrorReply { status, body: ErrorResponse { error: message } }
    }
}

/// No internal failure leaks its details: every error answered with status
/// 500 is answered with the generic `Internal server error`.
pub proof fn lemma_internal_errors_do_not_leak(e: Error)
    ensures
        error_status(e) == 500 ==> error_message(e) == "Internal server error"@,
{
}

/// What each kind of error is answered: a client's mistake with the status
/// of its kind and its own text (a bad request body with a fixed text);
/// a failure inside the server, whatever its kind, with 500.
pub proof fn lemma_error_answers(e: Error)
    ensures
        e matches Error::Validation(m) ==> error_status(e) == 422 && error_message(e) == m@,
        e matches Error::NotFound(m) ==> error_status(e) == 404 && error_message(e) == m@,
        e matches Error::Forbidden(m) ==> error_status(e) == 403 && error_message(e) == m@,
        e matches Error::Unauthorized(m) ==> error_status(e) == 401 && error_message(e) == m@,
        e matches Error::Conflict(m) ==> error_status(e) == 409 && error_message(e) == m@,
        e matches Error::ActixPath(m) ==> error_status(e) == 400 && error_message(e) == m@,
        e is ActixAuth ==> error_status(e) == 401,
        e matches Error::ActixJson(k, _) ==> (error_status(e) == 415 <==> k
            == JsonPayloadKind::ContentType),
        e matches Error::ActixJson(k, _) && k == JsonPayloadKind::DeserializeData ==> error_status(e)
            == 422 && error_message(e) == "Invalid request body"@,
        (e is Eyre || e is Jwt || e is Pool || e is Io || e is Config || e is Conversion || e is Argon2
            || e is DbMapper) ==> error_status(e) == 500,
        error_status(e) >= 400,
{
}

/// A database error is a conflict (409) exactly when the server reports a
/// unique violation (23505) or a violated reference (23503, 23001): a
/// duplicate says a record with that value exists, a violated reference
/// names the missing entity when the constraint's name tells it. Any other
/// database failure is an internal error.
pub proof fn lemma_db_error_answers(f: DbFailure)
    ensures
        error_status(Error::Db(f)) == 409 <==> (f.server_error matches Some(info) && (info.code@
            == "23505"@ || info.code@ == "23503"@ || info.code@ == "23001"@)),
        error_status(Error::Db(f)) == 409 || error_status(Error::Db(f)) == 500,
        f.server_error matches Some(info) && info.code@ == "23505"@ ==> error_message(Error::Db(f))
            == "A record with that value already exists"@,
        f.server_error matches Some(info) ==> (info.code@ == "23503"@ && info.constraint is Some
            && contains_text(info.constraint->0@, "item"@) ==> error_message(Error::Db(f))
            == "Referenced "@ + "item"@ + " does not exist ("@
            + (match info.table {
            Some(t) => t@,
            None => "record"@,
        }) + ")"@),
{
    reveal_strlit("23505");
    reveal_strlit("23503");
    assert("23505"@ != "23503"@) by {
        assert("23505"@[4] != "23503"@[4]);
    }
}

} // verus!
