//! The container health probe: the request it sends, the port it uses, and
//! the interpretation of the raw HTTP reply it reads.

use vstd::prelude::*;
use vstd::string::StrSliceExecFns;
use vstd::string::StringExecFns;
use crate::text::{
    chars_of, digits_value, is_digit_char, is_prefix, is_u64_text, lemma_digits_value_prefix,
    parses_as_u64, starts_with, unsigned_digits,
};

verus! {

/// The reply starts with an HTTP/1.1 or HTTP/1.0 status line carrying code 200.
pub open spec fn spec_is_healthy(response: Seq<char>) -> bool {
    is_prefix("HTTP/1.1 200"@, response) || is_prefix("HTTP/1.0 200"@, response)
}

/// Check whether a raw HTTP response indicates a healthy service.
pub fn is_healthy_response(response: &str) -> (b: bool)
    ensures
        b == spec_is_healthy(response@),
{
    let v = chars_of(response);
    starts_with(&v, "HTTP/1.1 200") || starts_with(&v, "HTTP/1.0 200")
}

/// Index of the first line feed in `s`, or `s.len()` when there is none.
pub open spec fn first_newline(s: Seq<char>) -> int
    decreases s.len(),
{
    if s.len() == 0 {
        0
    } else if s[0] == '\n' {
        0
    } else {
        1 + first_newline(s.drop_first())
    }
}

/// The first line of `s` as `str::lines` yields it: the text before the first
/// line feed, without a carriage return that directly precedes that line feed.
pub open spec fn spec_first_line(s: Seq<char>) -> Seq<char> {
    let k = first_newline(s);
    if k < s.len() && k > 0 && s[k - 1] == '\r' {
        s.subrange(0, k - 1)
    } else {
        s.subrange(0, k)
    }
}

/// What `status_line` gives back: the first line, or `(empty)` for an empty reply.
pub open spec fn spec_status_line(s: Seq<char>) -> Seq<char> {
    if s.len() == 0 {
        "(empty)"@
    } else {
        spec_first_line(s)
    }
}

proof fn lemma_first_newline_at(s: Seq<char>, k: int)
    requires
        0 <= k <= s.len(),
        forall|j: int| 0 <= j < k ==> s[j] != '\n',
        k < s.len() ==> s[k] == '\n',
    ensures
        first_newline(s) == k,
    decreases k,
{
    if k > 0 {
        assert forall|j: int| 0 <= j < k - 1 implies s.drop_first()[j] != '\n' by {
            assert(s.drop_first()[j] == s[j + 1]);
        }
        if k - 1 < s.drop_first().len() {
            assert(s.drop_first()[k - 1] == s[k]);
        }
        lemma_first_newline_at(s.drop_first(), k - 1);
    }
}

/// Extract the first line of an HTTP response for error reporting,
/// or `(empty)` when the response is empty.
pub fn status_line(response: &str) -> (line: &str)
    ensures
        line@ == spec_status_line(response@),
{
    let v = chars_of(response);
    if v.len() == 0 {
        proof {
            reveal_strlit("(empty)");
        }
        return "(empty)";
    }
    let mut k: usize = 0;
    while k < v.len() && v[k] != '\n'
        invariant
            v@ == response@,
            k <= v.len(),
            forall|j: int| 0 <= j < k ==> v@[j] != '\n',
        decreases v.len() - k,
    {
        k = k + 1;
    }
    proof {
        lemma_first_newline_at(response@, k as int);
    }
    let end = if k < v.len() && k > 0 && v[k - 1] == '\r' {
        k - 1
    } else {
        k
    };
    response.substring_char(0, end)
}

/// The request the probe sends to `host`.
pub fn health_request(host: &str) -> (r: String)
    ensures
        r@ == "GET /health HTTP/1.1\r\nHost: "@ + host@ + "\r\nConnection: close\r\n\r\n"@,
{
    let mut r = "GET /health HTTP/1.1\r\nHost: ".to_owned();
    r.append(host);
    r.append("\r\nConnection: close\r\n\r\n");
    r
}

/// The port probed by default.
pub const DEFAULT_HEALTH_PORT: u16 = 8080;

/// The port to probe: the configured one when it reads as a `u16` (as
/// `str::parse::<u16>` reads it), else 8080.
pub open spec fn probe_port(configured: Option<Seq<char>>) -> int {
    match configured {
        Some(p) => if parses_as_u64(p) && digits_value(unsigned_digits(p)) <= u16::MAX {
            digits_value(unsigned_digits(p)) as int
        } else {
            DEFAULT_HEALTH_PORT as int
        },
        None => DEFAULT_HEALTH_PORT as int,
    }
}

/// The value of a decimal text that reads as a `u64`.
fn u64_value(s: &str) -> (v: u64)
    requires
        parses_as_u64(s@),
    ensures
        v == digits_value(unsigned_digits(s@)),
{
    let cs = chars_of(s);
    let start: usize = if cs[0] == '+' {
        1
    } else {
        0
    };
    let ghost d = unsigned_digits(s@);
    assert(d =~= cs@.subrange(start as int, cs@.len() as int));
    let mut acc: u64 = 0;
    let mut i: usize = start;
    while i < cs.len()
        invariant
            cs@ == s@,
            start <= i <= cs@.len(),
            d == cs@.subrange(start as int, cs@.len() as int),
            d == unsigned_digits(s@),
            parses_as_u64(s@),
            acc == digits_value(d.subrange(0, i - start)),
        decreases cs@.len() - i,
    {
        let ghost next = d.subrange(0, i + 1 - start);
        assert(next.drop_last() =~= d.subrange(0, i - start));
        proof {
            lemma_digits_value_prefix(d, i + 1 - start);
        }
        assert(is_digit_char(d[i - start]));
        let c = cs[i];
        acc = acc * 10 + (c as u32 - 48) as u64;
        i = i + 1;
    }
    assert(d.subrange(0, d.len() as int) =~= d);
    acc
}

/// The port to probe, from the configured text if any.
pub fn health_port(configured: Option<&str>) -> (port: u16)
    ensures
        port as int == probe_port(match configured {
            Some(p) => Some(p@),
            None => None,
        }),
{
    match configured {
        Some(p) => {
            if is_u64_text(p) {
                let v = u64_value(p);
                if v <= 65535 {
                    v as u16
                } else {
                    DEFAULT_HEALTH_PORT
                }
            } else {
                DEFAULT_HEALTH_PORT
            }
        },
        None => DEFAULT_HEALTH_PORT,
    }
}

/// A certificate verifier for the probe that accepts any server certificate:
/// the probe only ever talks to the service on its own host.
#[derive(Debug)]
pub struct NoVerifier;

/// The TLS signature schemes the probe offers, by their IANA code:
/// RSA PKCS#1 with SHA-256/384/512, ECDSA P-256/P-384/P-521, RSA-PSS with
/// SHA-256/384/512, Ed25519 and Ed448.
pub open spec fn probe_signature_schemes() -> Seq<u16> {
    seq![
        0x0401u16,
        0x0501u16,
        0x0601u16,
        0x0403u16,
        0x0503u16,
        0x0603u16,
        0x0804u16,
        0x0805u16,
        0x0806u16,
        0x0807u16,
        0x0808u16,
    ]
}

impl NoVerifier {
    /// The signature schemes offered, by their IANA code.
    pub fn supported_verify_schemes(&self) -> (r: Vec<u16>)
        ensures
            r@ == probe_signature_schemes(),
    {
        let r: Vec<u16> = vec![
            0x0401u16,
            0x0501u16,
            0x0601u16,
            0x0403u16,
            0x0503u16,
            0x0603u16,
            0x0804u16,
            0x0805u16,
            0x0806u16,
            0x0807u16,
            0x0808u16,
        ];
        assert(r@ =~= probe_signature_schemes());
        r
    }
}

/// A reply is healthy exactly when its status line is an HTTP/1.0 or 1.1
/// line with code 200: any reply that begins so is healthy, whatever
/// follows; a reply with another code, or an empty one, is not.
pub proof fn lemma_healthy_means_status_200(rest: Seq<char>, response: Seq<char>)
    ensures
        spec_is_healthy("HTTP/1.1 200"@ + rest),
        spec_is_healthy("HTTP/1.0 200"@ + rest),
        !spec_is_healthy("HTTP/1.1 500"@ + rest),
        !spec_is_healthy("HTTP/1.1 404"@ + rest),
        !spec_is_healthy(Seq::<char>::empty()),
        spec_is_healthy(response) ==> response.len() >= 12 && response.subrange(0, 7) == "HTTP/1."@
            && response.subrange(8, 12) == " 200"@,
{
    reveal_strlit("HTTP/1.1 200");
    reveal_strlit("HTTP/1.0 200");
    reveal_strlit("HTTP/1.1 500");
    reveal_strlit("HTTP/1.1 404");
    reveal_strlit("HTTP/1.");
    reveal_strlit(" 200");
    assert(("HTTP/1.1 200"@ + rest).subrange(0, 12) =~= "HTTP/1.1 200"@);
    assert(("HTTP/1.0 200"@ + rest).subrange(0, 12) =~= "HTTP/1.0 200"@);
    let a = "HTTP/1.1 500"@ + rest;
    assert(a.subrange(0, 12)[9] == '5');
    assert(a.subrange(0, 12) != "HTTP/1.1 200"@ && a.subrange(0, 12) != "HTTP/1.0 200"@) by {
        assert("HTTP/1.1 200"@[9] == '2' && "HTTP/1.0 200"@[9] == '2');
    }
    let b = "HTTP/1.1 404"@ + rest;
    assert(b.subrange(0, 12)[9] == '4');
    assert(b.subrange(0, 12) != "HTTP/1.1 200"@ && b.subrange(0, 12) != "HTTP/1.0 200"@) by {
        assert("HTTP/1.1 200"@[9] == '2' && "HTTP/1.0 200"@[9] == '2');
    }
    if spec_is_healthy(response) {
        if is_prefix("HTTP/1.1 200"@, response) {
            assert(response.subrange(0, 7) =~= "HTTP/1.1 200"@.subrange(0, 7));
            assert(response.subrange(8, 12) =~= "HTTP/1.1 200"@.subrange(8, 12));
        } else {
            assert(response.subrange(0, 7) =~= "HTTP/1.0 200"@.subrange(0, 7));
            assert(response.subrange(8, 12) =~= "HTTP/1.0 200"@.subrange(8, 12));
        }
        assert("HTTP/1.1 200"@.subrange(0, 7) =~= "HTTP/1."@);
        assert("HTTP/1.0 200"@.subrange(0, 7) =~= "HTTP/1."@);
        assert("HTTP/1.1 200"@.subrange(8, 12) =~= " 200"@);
        assert("HTTP/1.0 200"@.subrange(8, 12) =~= " 200"@);
    }
}

/// The status line reported for a non-empty reply is its beginning, up to
/// the first line break and without the carriage return before it: it holds
/// no line feed, and a reply without one is reported whole.
pub proof fn lemma_status_line_is_first_line(response: Seq<char>)
    ensures
        response.len() > 0 ==> is_prefix(spec_status_line(response), response),
        response.len() > 0 ==> !spec_status_line(response).contains('\n'),
        response.len() > 0 && !response.contains('\n') ==> spec_status_line(response) == response,
{
    if response.len() > 0 {
        lemma_first_newline_bounds(response);
        let k = first_newline(response);
        let l = spec_status_line(response);
        assert(response.subrange(0, l.len() as int) =~= l);
        if l.contains('\n') {
            let i = choose|i: int| 0 <= i < l.len() && l[i] == '\n';
            assert(response[i] == '\n');
        }
        if !response.contains('\n') {
            if k < response.len() {
                assert(response[k] == '\n');
            }
            assert(response.subrange(0, k) =~= response);
        }
    }
}

/// The first line feed lies at or after every character before it.
proof fn lemma_first_newline_bounds(s: Seq<char>)
    ensures
        0 <= first_newline(s) <= s.len(),
        first_newline(s) < s.len() ==> s[first_newline(s)] == '\n',
        forall|j: int| 0 <= j < first_newline(s) ==> s[j] != '\n',
    decreases s.len(),
{
    if s.len() > 0 && s[0] != '\n' {
        lemma_first_newline_bounds(s.drop_first());
        assert forall|j: int| 0 <= j < first_newline(s) implies s[j] != '\n' by {
            if j > 0 {
                assert(s[j] == s.drop_first()[j - 1]);
            }
        }
    }
}

/// The probe uses the configured port whenever it is the decimal notation
/// of a port number, and 8080 when none is configured or the configured
/// text is not a number.
pub proof fn lemma_probe_port_reads_the_configured_port(port: u16, text: Seq<char>)
    ensures
        probe_port(Some(crate::text::decimal_chars(port as nat))) == port,
        probe_port(None) == 8080,
        !parses_as_u64(text) ==> probe_port(Some(text)) == 8080,
        0 <= probe_port(Some(text)) <= u16::MAX,
{
    crate::text::lemma_decimal_reads_back(port as u64);
    crate::text::lemma_decimal_digits(port as nat);
    let d = crate::text::decimal_chars(port as nat);
    assert(is_digit_char(d[0]));
}

} // verus!
