//! Recognition and repair of the RFC 3339 timestamps stored in the
//! migration-history table.
//!
//! Both functions look at the bytes of the trimmed input, exactly as a
//! strict RFC 3339 parser does: `YYYY-MM-DDTHH:MM:SS[.frac](Z|+HH:MM|-HH:MM)`.

use vstd::prelude::*;
use vstd::string::StringExecFns;
use vstd::string::StringSliceAdditionalSpecFns;
use vstd::utf8::*;
use crate::text::{
    byte_range, is_white_space, lemma_after_ascii_boundary, lemma_ascii_boundary,
    lemma_ascii_encoding, lemma_encode_ascii_char, lemma_encode_concat, spec_trim, trim, trim_end,
    trim_start,
};

verus! {

/// `-`
pub const DASH: u8 = 45;
/// `:`
pub const COLON: u8 = 58;
/// `.`
pub const DOT: u8 = 46;
/// `T`
pub const UPPER_T: u8 = 84;
/// `t`
pub const LOWER_T: u8 = 116;
/// `Z`
pub const UPPER_Z: u8 = 90;
/// `z`
pub const LOWER_Z: u8 = 122;
/// `+`
pub const PLUS: u8 = 43;
/// ` `
pub const SPACE: u8 = 32;

/// An ASCII decimal digit.
pub open spec fn is_digit(c: u8) -> bool {
    48 <= c && c <= 57
}

/// Every byte of `b` in `[lo, hi)` is a digit.
pub open spec fn all_digits(b: Seq<u8>, lo: int, hi: int) -> bool {
    forall|i: int| lo <= i < hi ==> #[trigger] is_digit(b[i])
}

/// The number of consecutive digits in `b` from `start` on.
pub open spec fn digit_run(b: Seq<u8>, start: int) -> nat
    decreases b.len() - start,
{
    if 0 <= start < b.len() && is_digit(b[start]) {
        1 + digit_run(b, start + 1)
    } else {
        0
    }
}

/// `YYYY-MM-DD` in the first ten bytes.
pub open spec fn date_ok(b: Seq<u8>) -> bool {
    &&& b.len() >= 10
    &&& all_digits(b, 0, 4)
    &&& b[4] == DASH
    &&& all_digits(b, 5, 7)
    &&& b[7] == DASH
    &&& all_digits(b, 8, 10)
}

/// `HH:MM:SS` in bytes 11 to 18.
pub open spec fn time_ok(b: Seq<u8>) -> bool {
    &&& b.len() >= 19
    &&& all_digits(b, 11, 13)
    &&& b[13] == COLON
    &&& all_digits(b, 14, 16)
    &&& b[16] == COLON
    &&& all_digits(b, 17, 19)
}

/// Where the offset starts: after the seconds, or after the fractional digits.
pub open spec fn offset_start(b: Seq<u8>) -> int {
    if b.len() > 19 && b[19] == DOT {
        20 + digit_run(b, 20) as int
    } else {
        19
    }
}

/// `Z`, `z`, `+HH:MM` or `-HH:MM`.
pub open spec fn valid_offset(o: Seq<u8>) -> bool {
    ||| (o.len() == 1 && (o[0] == UPPER_Z || o[0] == LOWER_Z))
    ||| (o.len() == 6 && (o[0] == PLUS || o[0] == DASH) && all_digits(o, 1, 3) && o[3] == COLON
        && all_digits(o, 4, 6))
}

/// The byte-level shape of an accepted timestamp (already trimmed).
pub open spec fn valid_rfc3339_bytes(b: Seq<u8>) -> bool {
    &&& b.len() >= 20
    &&& date_ok(b)
    &&& (b[10] == UPPER_T || b[10] == LOWER_T)
    &&& time_ok(b)
    &&& !(b[19] == DOT && digit_run(b, 20) == 0)
    &&& valid_offset(b.subrange(offset_start(b), b.len() as int))
}

/// `s`, once trimmed, is an RFC 3339 timestamp that a strict parser accepts.
pub open spec fn spec_is_valid_rfc3339(s: Seq<char>) -> bool {
    valid_rfc3339_bytes(encode_utf8(spec_trim(s)))
}

/// What the check accepts: the date with its dashes, `T` or `t`, the time
/// with its colons, and an offset that ends in `Z`, `z` or a digit; a
/// timestamp written so with a `Z`, `z` or `+HH:MM`/`-HH:MM` offset right
/// after the seconds is accepted, one with a space for the `T` is not.
pub proof fn lemma_rfc3339_shape(b: Seq<u8>)
    ensures
        valid_rfc3339_bytes(b) ==> {
            &&& all_digits(b, 0, 4) && b[4] == DASH && all_digits(b, 5, 7) && b[7] == DASH
                && all_digits(b, 8, 10)
            &&& b[10] == UPPER_T || b[10] == LOWER_T
            &&& all_digits(b, 11, 13) && b[13] == COLON && all_digits(b, 14, 16) && b[16] == COLON
                && all_digits(b, 17, 19)
            &&& b.last() == UPPER_Z || b.last() == LOWER_Z || is_digit(b.last())
        },
        b.len() == 20 && date_ok(b) && (b[10] == UPPER_T || b[10] == LOWER_T) && time_ok(b) && (b[19]
            == UPPER_Z || b[19] == LOWER_Z) ==> valid_rfc3339_bytes(b),
        b.len() == 25 && date_ok(b) && (b[10] == UPPER_T || b[10] == LOWER_T) && time_ok(b) && (b[19]
            == PLUS || b[19] == DASH) && all_digits(b, 20, 22) && b[22] == COLON && all_digits(
            b,
            23,
            25,
        ) ==> valid_rfc3339_bytes(b),
        b.len() > 10 && b[10] == SPACE ==> !valid_rfc3339_bytes(b),
        b.len() == 19 ==> !valid_rfc3339_bytes(b),
{
    if valid_rfc3339_bytes(b) {
        if b[19] == DOT {
            lemma_digit_run_digits(b, 20);
        }
        let p = offset_start(b);
        let o = b.subrange(p, b.len() as int);
        assert(o.len() > 0);
        assert(b.last() == o[o.len() - 1]);
        if o.len() == 6 {
            assert(is_digit(o[5]));
        }
    }
    if b.len() == 20 && b[19] != DOT {
        assert(b.subrange(19, 20)[0] == b[19]);
    }
    if b.len() == 25 && (b[19] == PLUS || b[19] == DASH) && all_digits(b, 20, 22) && all_digits(
        b,
        23,
        25,
    ) {
        let o = b.subrange(19, 25);
        assert(o[0] == b[19] && o[3] == b[22]);
        assert(all_digits(o, 1, 3) && all_digits(o, 4, 6)) by {
            assert forall|i: int| 1 <= i < 3 implies #[trigger] is_digit(o[i]) by {
                assert(is_digit(b[19 + i]));
                assert(o[i] == b[19 + i]);
            }
            assert forall|i: int| 4 <= i < 6 implies #[trigger] is_digit(o[i]) by {
                assert(is_digit(b[19 + i]));
                assert(o[i] == b[19 + i]);
            }
        }
    }
}

proof fn lemma_digit_run_exact(b: Seq<u8>, start: int, end: int)
    requires
        0 <= start <= end <= b.len(),
        all_digits(b, start, end),
        end == b.len() || !is_digit(b[end]),
    ensures
        digit_run(b, start) == end - start,
    decreases end - start,
{
    if start < end {
        lemma_digit_run_exact(b, start + 1, end);
    }
}

/// The number of digits in `b` from `start` on.
fn count_digits(b: &[u8], start: usize) -> (n: usize)
    requires
        start <= b@.len(),
    ensures
        n == digit_run(b@, start as int),
        start + n <= b@.len(),
        all_digits(b@, start as int, start + n),
{
    let mut i = start;
    while i < b.len() && 48 <= b[i] && b[i] <= 57
        invariant
            start <= i <= b@.len(),
            all_digits(b@, start as int, i as int),
        decreases b.len() - i,
    {
        i = i + 1;
    }
    proof {
        lemma_digit_run_exact(b@, start as int, i as int);
    }
    i - start
}

/// Whether every byte of `b` in `[lo, hi)` is a digit.
fn digits_in(b: &[u8], lo: usize, hi: usize) -> (r: bool)
    requires
        lo <= hi <= b@.len(),
    ensures
        r == all_digits(b@, lo as int, hi as int),
{
    let mut i = lo;
    while i < hi
        invariant
            lo <= i <= hi,
            hi <= b@.len(),
            all_digits(b@, lo as int, i as int),
        decreases hi - i,
    {
        if !(48 <= b[i] && b[i] <= 57) {
            assert(!is_digit(b@[i as int]));
            return false;
        }
        i = i + 1;
    }
    true
}

/// Whether the first ten bytes read `YYYY-MM-DD`.
fn date_in(b: &[u8]) -> (r: bool)
    requires
        b@.len() >= 10,
    ensures
        r == date_ok(b@),
{
    digits_in(b, 0, 4) && b[4] == DASH && digits_in(b, 5, 7) && b[7] == DASH && digits_in(b, 8, 10)
}

/// Whether bytes 11 to 18 read `HH:MM:SS`.
fn time_in(b: &[u8]) -> (r: bool)
    requires
        b@.len() >= 19,
    ensures
        r == time_ok(b@),
{
    digits_in(b, 11, 13) && b[13] == COLON && digits_in(b, 14, 16) && b[16] == COLON && digits_in(
        b,
        17,
        19,
    )
}

/// Minimal structural check for RFC 3339 compliance as understood by a
/// strict parser: `YYYY-MM-DDTHH:MM:SS[.fractional]` followed by `Z`, `z`,
/// `+HH:MM` or `-HH:MM`. Surrounding white space is ignored.
pub fn is_valid_rfc3339(s: &str) -> (r: bool)
    ensures
        r == spec_is_valid_rfc3339(s@),
{
    let t = trim(s);
    let b = t.as_bytes();
    if b.len() < 20 {
        return false;
    }
    if !date_in(b) {
        return false;
    }
    if b[10] != UPPER_T && b[10] != LOWER_T {
        return false;
    }
    if !time_in(b) {
        return false;
    }
    let mut start: usize = 19;
    if b[19] == DOT {
        let f = count_digits(b, 20);
        if f == 0 {
            return false;
        }
        start = 20 + f;
    }
    assert(start == offset_start(b@));
    let o = Ghost(b@.subrange(start as int, b@.len() as int));
    let olen = b.len() - start;
    if olen == 1 && (b[start] == UPPER_Z || b[start] == LOWER_Z) {
        assert(o@[0] == b@[start as int]);
        return true;
    }
    if olen != 6 {
        return false;
    }
    assert(forall|k: int| 0 <= k < 6 ==> o@[k] == b@[start + k]);
    if b[start] != PLUS && b[start] != DASH {
        return false;
    }
    if !digits_in(b, start + 1, start + 3) {
        assert(!is_digit(o@[1]) || !is_digit(o@[2]));
        return false;
    }
    if b[start + 3] != COLON {
        return false;
    }
    if !digits_in(b, start + 4, start + 6) {
        assert(!is_digit(o@[4]) || !is_digit(o@[5]));
        return false;
    }
    true
}

/// A separator that the repair accepts between date and time.
pub open spec fn norm_sep_ok(c: u8) -> bool {
    c == UPPER_T || c == LOWER_T || c == SPACE
}

/// `YYYY-MM-DD?HH:MM:SS` with `?` one of `T`, `t` or a space.
pub open spec fn norm_prefix_ok(t: Seq<u8>) -> bool {
    &&& t.len() >= 19
    &&& date_ok(t)
    &&& norm_sep_ok(t[10])
    &&& time_ok(t)
}

/// The number of fractional digits after a `.` that follows the seconds.
pub open spec fn frac_digits(t: Seq<u8>) -> nat {
    if t.len() > 19 && t[19] == DOT {
        digit_run(t, 20)
    } else {
        0
    }
}

/// The canonical date, `T`, time and fractional part.
pub open spec fn norm_head(t: Seq<u8>) -> Seq<u8> {
    t.subrange(0, 10) + seq![UPPER_T] + t.subrange(11, 19) + if frac_digits(t) > 0 {
        seq![DOT] + t.subrange(20, 20 + frac_digits(t) as int)
    } else {
        Seq::<u8>::empty()
    }
}

/// The bytes of the trimmed text that follows the fractional part.
pub open spec fn norm_offset_source(t: Seq<u8>) -> Seq<u8> {
    encode_utf8(spec_trim(decode_utf8(t.subrange(offset_start(t), t.len() as int))))
}

/// The repaired offset: a missing offset and `z` become `Z`; `+HH` gains `:00`;
/// `+HHMM` gains a colon; `+HH:MM:SS` loses its seconds; `+HH:MM` is kept.
/// Hours and minutes must be digits in every form.
pub open spec fn norm_offset(o: Seq<u8>) -> Option<Seq<u8>> {
    if o.len() == 0 {
        Some(seq![UPPER_Z])
    } else if o.len() == 1 && (o[0] == UPPER_Z || o[0] == LOWER_Z) {
        Some(seq![UPPER_Z])
    } else if o[0] != PLUS && o[0] != DASH {
        None
    } else if o.len() == 6 && o[3] == COLON {
        if all_digits(o, 1, 3) && all_digits(o, 4, 6) {
            Some(o)
        } else {
            None
        }
    } else if o.len() == 3 {
        if all_digits(o, 1, 3) {
            Some(o + seq![COLON, 48u8, 48u8])
        } else {
            None
        }
    } else if o.len() == 5 {
        if all_digits(o, 1, 5) {
            Some(o.subrange(0, 3) + seq![COLON] + o.subrange(3, 5))
        } else {
            None
        }
    } else if o.len() == 9 && o[3] == COLON && o[6] == COLON {
        if all_digits(o, 1, 3) && all_digits(o, 4, 6) {
            Some(o.subrange(0, 6))
        } else {
            None
        }
    } else {
        None
    }
}

/// The repaired bytes of a trimmed timestamp, or `None` when it cannot be salvaged.
pub open spec fn normalize_bytes(t: Seq<u8>) -> Option<Seq<u8>> {
    if !norm_prefix_ok(t) {
        None
    } else {
        match norm_offset(norm_offset_source(t)) {
            Some(o) => Some(norm_head(t) + o),
            None => None,
        }
    }
}

/// The inputs on which slicing the trimmed text would cut a character in two:
/// a character that spans byte 10, or (with a valid date and separator) one
/// that spans byte 19.
pub open spec fn normalize_cuts_char(t: Seq<u8>) -> bool {
    &&& t.len() >= 19
    &&& (!is_char_boundary(t, 10) || (date_ok(t) && norm_sep_ok(t[10]) && !is_char_boundary(
        t,
        19,
    )))
}

/// The trimmed bytes of `s`.
pub open spec fn trimmed_bytes(s: Seq<char>) -> Seq<u8> {
    encode_utf8(spec_trim(s))
}

/// The bytes that `normalize_to_rfc3339` produces for `s`: nothing when the
/// text is mangled so far that a character straddles the date or the time.
pub open spec fn spec_normalize_to_rfc3339(s: Seq<char>) -> Option<Seq<u8>> {
    if normalize_cuts_char(trimmed_bytes(s)) {
        None
    } else {
        normalize_bytes(trimmed_bytes(s))
    }
}

/// The bytes of the literal pieces that the repair inserts.
proof fn lemma_literal_bytes()
    ensures
        encode_utf8("T"@) == seq![UPPER_T],
        encode_utf8("."@) == seq![DOT],
        encode_utf8("Z"@) == seq![UPPER_Z],
        encode_utf8("+"@) == seq![PLUS],
        encode_utf8("-"@) == seq![DASH],
        encode_utf8(":"@) == seq![COLON],
        encode_utf8(":00"@) == seq![COLON, 48u8, 48u8],
{
    reveal_strlit("T");
    reveal_strlit(".");
    reveal_strlit("Z");
    reveal_strlit("+");
    reveal_strlit("-");
    reveal_strlit(":");
    reveal_strlit(":00");
    assert("T"@ =~= seq!['T']);
    assert("."@ =~= seq!['.']);
    assert("Z"@ =~= seq!['Z']);
    assert("+"@ =~= seq!['+']);
    assert("-"@ =~= seq!['-']);
    assert(":"@ =~= seq![':']);
    assert(":00"@ =~= seq![':', '0', '0']);
    lemma_encode_ascii_char('T');
    lemma_encode_ascii_char('.');
    lemma_encode_ascii_char('Z');
    lemma_encode_ascii_char('+');
    lemma_encode_ascii_char('-');
    lemma_encode_ascii_char(':');
    let c = seq![':', '0', '0'];
    assert(is_ascii_chars(c));
    is_ascii_chars_encode_utf8(c);
    assert(encode_utf8(c) =~= seq![COLON, 48u8, 48u8]);
}

/// Append `piece` to `out`, keeping track of the encoded bytes.
fn push_piece(out: &mut String, piece: &str)
    ensures
        encode_utf8(final(out)@) == encode_utf8(old(out)@) + encode_utf8(piece@),
{
    proof {
        lemma_encode_concat(old(out)@, piece@);
    }
    out.append(piece);
}

/// Attempt to normalize a timestamp that a strict RFC 3339 parser rejects
/// into one that it accepts: the separator becomes `T`, a missing offset
/// becomes `Z`, and offsets written `+HH`, `+HHMM` or `+HH:MM:SS` become
/// `+HH:MM`. Returns `None` when the text is too mangled to salvage.
#[verifier::rlimit(40)]
pub fn normalize_to_rfc3339(s: &str) -> (r: Option<String>)
    ensures
        match r {
            Some(x) => spec_normalize_to_rfc3339(s@) == Some(encode_utf8(x@)),
            None => spec_normalize_to_rfc3339(s@) is None,
        },
{
    if normalize_would_cut_char(s) {
        return None;
    }
    let t = trim(s);
    let b = t.as_bytes();
    let ghost tb = b@;
    proof {
        encode_utf8_valid_utf8(t@);
        is_char_boundary_start_end_of_seq(tb);
    }
    if b.len() < 19 {
        return None;
    }
    if !date_in(b) {
        return None;
    }
    let sep = b[10];
    if sep != UPPER_T && sep != LOWER_T && sep != SPACE {
        return None;
    }
    if !time_in(b) {
        return None;
    }
    proof {
        reveal_strlit("T");
        reveal_strlit(".");
        lemma_encode_ascii_char('T');
        lemma_encode_ascii_char('.');
        assert(is_digit(tb[11]));
        lemma_ascii_boundary(tb, 11);
    }
    proof {
        lemma_literal_bytes();
        assert(is_digit(tb[11]));
        lemma_ascii_boundary(tb, 11);
    }
    let mut out = String::new();
    assert(encode_utf8(out@) =~= Seq::<u8>::empty());
    push_piece(&mut out, byte_range(t, 0, 10));
    push_piece(&mut out, "T");
    push_piece(&mut out, byte_range(t, 11, 19));
    assert(encode_utf8(out@) =~= tb.subrange(0, 10) + seq![UPPER_T] + tb.subrange(11, 19));
    let mut p: usize = 19;
    if b.len() > 19 && b[19] == DOT {
        proof {
            lemma_after_ascii_boundary(tb, 19);
        }
        let f = count_digits(b, 20);
        if f > 0 {
            proof {
                assert(is_digit(tb[19 + f]));
                lemma_after_ascii_boundary(tb, 19 + f);
            }
            let ghost before = encode_utf8(out@);
            push_piece(&mut out, ".");
            push_piece(&mut out, byte_range(t, 20, 20 + f));
            assert(encode_utf8(out@) =~= before + (seq![DOT] + tb.subrange(20, 20 + f)));
        }
        p = 20 + f;
    }
    let ghost head = encode_utf8(out@);
    assert(head =~= norm_head(tb));
    assert(p == offset_start(tb));
    let after = byte_range(t, p, b.len());
    let off = trim(after);
    let ob = off.as_bytes();
    let ghost o = ob@;
    assert(o == norm_offset_source(tb));
    proof {
        encode_utf8_valid_utf8(off@);
        is_char_boundary_start_end_of_seq(o);
    }
    if ob.len() == 0 || (ob.len() == 1 && (ob[0] == UPPER_Z || ob[0] == LOWER_Z)) {
        push_piece(&mut out, "Z");
        assert(encode_utf8(out@) =~= head + seq![UPPER_Z]);
        return Some(out);
    }
    if ob[0] != PLUS && ob[0] != DASH {
        return None;
    }
    proof {
        lemma_after_ascii_boundary(o, 0);
    }
    let sign = if ob[0] == PLUS {
        "+"
    } else {
        "-"
    };
    assert(encode_utf8(sign@) == seq![o[0]]);
    let n = ob.len();
    if n == 6 && ob[3] == COLON {
        if !digits_in(ob, 1, 3) || !digits_in(ob, 4, 6) {
            return None;
        }
        push_piece(&mut out, sign);
        push_piece(&mut out, byte_range(off, 1, 6));
        assert(encode_utf8(out@) =~= head + (seq![o[0]] + o.subrange(1, 6)));
        assert(seq![o[0]] + o.subrange(1, 6) =~= o);
        return Some(out);
    } else if n == 3 {
        if digits_in(ob, 1, 3) {
            push_piece(&mut out, sign);
            push_piece(&mut out, byte_range(off, 1, 3));
            push_piece(&mut out, ":00");
            assert(encode_utf8(out@) =~= head + (seq![o[0]] + o.subrange(1, 3)) + seq![
                COLON,
                48u8,
                48u8,
            ]);
            assert(seq![o[0]] + o.subrange(1, 3) =~= o);
            assert(encode_utf8(out@) =~= head + (o + seq![COLON, 48u8, 48u8]));
            return Some(out);
        }
        return None;
    } else if n == 5 {
        if digits_in(ob, 1, 5) {
            proof {
                assert(is_digit(o[3]));
                lemma_ascii_boundary(o, 3);
            }
            push_piece(&mut out, sign);
            push_piece(&mut out, byte_range(off, 1, 3));
            push_piece(&mut out, ":");
            push_piece(&mut out, byte_range(off, 3, 5));
            assert(encode_utf8(out@) =~= head + (seq![o[0]] + o.subrange(1, 3)) + seq![COLON]
                + o.subrange(3, 5));
            assert(seq![o[0]] + o.subrange(1, 3) =~= o.subrange(0, 3));
            assert(encode_utf8(out@) =~= head + (o.subrange(0, 3) + seq![COLON] + o.subrange(
                3,
                5,
            )));
            return Some(out);
        }
        return None;
    } else if n == 9 && ob[3] == COLON && ob[6] == COLON {
        if !digits_in(ob, 1, 3) || !digits_in(ob, 4, 6) {
            return None;
        }
        proof {
            lemma_ascii_boundary(o, 6);
        }
        push_piece(&mut out, sign);
        push_piece(&mut out, byte_range(off, 1, 6));
        assert(encode_utf8(out@) =~= head + (seq![o[0]] + o.subrange(1, 6)));
        assert(seq![o[0]] + o.subrange(1, 6) =~= o.subrange(0, 6));
        return Some(out);
    }
    None
}

/// Whether a character of the trimmed text straddles the date or the time
/// (see `normalize_cuts_char`); the repair gives up on such text.
pub fn normalize_would_cut_char(s: &str) -> (r: bool)
    ensures
        r == normalize_cuts_char(trimmed_bytes(s@)),
{
    let t = trim(s);
    let b = t.as_bytes();
    if b.len() < 19 {
        return false;
    }
    if !t.is_char_boundary(10) {
        return true;
    }
    date_in(b) && (b[10] == UPPER_T || b[10] == LOWER_T || b[10] == SPACE) && !t.is_char_boundary(
        19,
    )
}

proof fn lemma_digit_run_digits(b: Seq<u8>, start: int)
    requires
        0 <= start,
    ensures
        all_digits(b, start, start + digit_run(b, start)),
        start + digit_run(b, start) <= b.len() || digit_run(b, start) == 0,
        start + digit_run(b, start) < b.len() ==> !is_digit(b[start + digit_run(b, start)]),
    decreases b.len() - start,
{
    if 0 <= start < b.len() && is_digit(b[start]) {
        lemma_digit_run_digits(b, start + 1);
    }
}

proof fn lemma_norm_offset_shape(o: Seq<u8>)
    requires
        norm_offset(o) is Some,
    ensures
        ({
            let x = norm_offset(o)->0;
            &&& valid_offset(x)
            &&& forall|i: int| 0 <= i < x.len() ==> #[trigger] x[i] <= 0x7f
            &&& x[0] == UPPER_Z || x[0] == PLUS || x[0] == DASH
            &&& is_digit(x[x.len() - 1]) || x[x.len() - 1] == UPPER_Z
        }),
{
    let x = norm_offset(o)->0;
    if o.len() >= 2 && (o[0] == PLUS || o[0] == DASH) {
        assert(is_digit(o[1]) || o.len() != 6 || o[3] != COLON);
        if o.len() == 6 && o[3] == COLON {
            assert(is_digit(o[1]) && is_digit(o[2]) && is_digit(o[4]) && is_digit(o[5]));
        } else if o.len() == 3 {
            assert(is_digit(o[1]) && is_digit(o[2]));
        } else if o.len() == 5 {
            assert(is_digit(o[1]) && is_digit(o[2]) && is_digit(o[3]) && is_digit(o[4]));
            assert(x[4] == o[3] && x[5] == o[4]);
        } else if o.len() == 9 {
            assert(is_digit(o[1]) && is_digit(o[2]) && is_digit(o[4]) && is_digit(o[5]));
        }
    }
}

proof fn lemma_ascii_not_white_space(c: char)
    requires
        '\0' <= c <= '\u{7f}',
        (c as u8) > 32,
    ensures
        !is_white_space(c),
{
}

/// Every timestamp that the repair produces is accepted by the RFC 3339 check.
pub proof fn lemma_normalized_passes_validation(s: Seq<char>, r: Seq<char>)
    requires
        spec_normalize_to_rfc3339(s) == Some(encode_utf8(r)),
    ensures
        spec_is_valid_rfc3339(r),
{
    let t = trimmed_bytes(s);
    let o = norm_offset_source(t);
    lemma_norm_offset_shape(o);
    let x = norm_offset(o)->0;
    let head = norm_head(t);
    let out = encode_utf8(r);
    assert(out == head + x);
    let f = frac_digits(t) as int;
    if t.len() > 19 && t[19] == DOT {
        lemma_digit_run_digits(t, 20);
    }
    assert(head.len() == if f > 0 { 20 + f } else { 19 });
    assert forall|i: int| 0 <= i < out.len() implies #[trigger] out[i] <= 0x7f by {
        if i < head.len() {
            if i < 10 {
                assert(t[i] == out[i]);
                assert(is_digit(t[i]) || t[i] == DASH);
            } else if 11 <= i < 19 {
                assert(t[i] == out[i]);
                assert(is_digit(t[i]) || t[i] == COLON);
            } else if i >= 20 {
                assert(out[i] == t[i]);
                assert(is_digit(t[i]));
            }
        } else {
            assert(out[i] == x[i - head.len()]);
        }
    }
    lemma_ascii_encoding(r);
    assert(r.len() == out.len());
    assert(is_digit(t[0]));
    assert(r[0] as u8 == out[0]);
    lemma_ascii_not_white_space(r[0]);
    assert(out[out.len() - 1] == x[x.len() - 1]);
    assert(r[r.len() - 1] as u8 == out[out.len() - 1]);
    lemma_ascii_not_white_space(r[r.len() - 1]);
    assert(trim_start(r) == r);
    assert(trim_end(r) == r);
    assert(spec_trim(r) == r);
    if f > 0 {
        assert(all_digits(out, 20, 20 + f)) by {
            assert forall|i: int| 20 <= i < 20 + f implies #[trigger] is_digit(out[i]) by {
                assert(out[i] == t[i]);
            }
        }
        assert(out[20 + f] == x[0]);
        lemma_digit_run_exact(out, 20, 20 + f);
    }
    assert(offset_start(out) == head.len());
    assert(out.subrange(head.len() as int, out.len() as int) =~= x);
    assert(date_ok(out)) by {
        assert forall|i: int| 0 <= i < 10 implies out[i] == t[i] by {}
    }
    assert(time_ok(out)) by {
        assert forall|i: int| 11 <= i < 19 implies out[i] == t[i] by {}
    }
}

/// Where the offset starts in a repaired timestamp: after the seconds, or
/// after the kept fractional digits.
pub open spec fn repaired_offset_start(t: Seq<u8>) -> int {
    if frac_digits(t) > 0 {
        20 + frac_digits(t) as int
    } else {
        19
    }
}

/// The repair keeps the wall-clock reading of the text: the date, the time of
/// day and the fractional digits are copied, and a numeric offset keeps its
/// sign, its hours and its minutes (`00` when none were written); a missing
/// or `z` offset becomes `Z`. No time is converted to UTC.
pub proof fn lemma_repair_keeps_wall_clock(s: Seq<char>, r: Seq<u8>)
    requires
        spec_normalize_to_rfc3339(s) == Some(r),
    ensures
        ({
            let t = trimmed_bytes(s);
            let o = norm_offset_source(t);
            let p = repaired_offset_start(t);
            let f = frac_digits(t) as int;
            &&& r.subrange(0, 10) == t.subrange(0, 10)
            &&& r[10] == UPPER_T
            &&& r.subrange(11, 19) == t.subrange(11, 19)
            &&& f > 0 ==> r[19] == DOT && r.subrange(20, 20 + f) == t.subrange(20, 20 + f)
            &&& (o.len() == 0 || o[0] == UPPER_Z || o[0] == LOWER_Z) ==> r.subrange(p, r.len() as int)
                == seq![UPPER_Z]
            &&& (o.len() > 0 && (o[0] == PLUS || o[0] == DASH)) ==> {
                &&& r.len() == p + 6
                &&& r[p] == o[0]
                &&& r.subrange(p + 1, p + 3) == o.subrange(1, 3)
                &&& r[p + 3] == COLON
                &&& r.subrange(p + 4, p + 6) == if o.len() == 3 {
                    seq![48u8, 48u8]
                } else if o.len() == 5 {
                    o.subrange(3, 5)
                } else {
                    o.subrange(4, 6)
                }
            }
        }),
{
    let t = trimmed_bytes(s);
    let o = norm_offset_source(t);
    let x = norm_offset(o)->0;
    let head = norm_head(t);
    let f = frac_digits(t) as int;
    if t.len() > 19 && t[19] == DOT {
        lemma_digit_run_digits(t, 20);
    }
    assert(r == head + x);
    assert(head.len() == repaired_offset_start(t));
    let p = repaired_offset_start(t);
    assert(r.subrange(0, 10) =~= t.subrange(0, 10));
    assert(r.subrange(11, 19) =~= t.subrange(11, 19));
    if f > 0 {
        assert(r.subrange(20, 20 + f) =~= t.subrange(20, 20 + f));
    }
    assert(r.subrange(p, r.len() as int) =~= x);
    if o.len() > 0 && (o[0] == PLUS || o[0] == DASH) {
        assert(r.subrange(p + 1, p + 3) =~= o.subrange(1, 3));
        if o.len() == 3 {
            assert(r.subrange(p + 4, p + 6) =~= seq![48u8, 48u8]);
        } else if o.len() == 5 {
            assert(r.subrange(p + 4, p + 6) =~= o.subrange(3, 5));
        } else {
            assert(r.subrange(p + 4, p + 6) =~= o.subrange(4, 6));
        }
    }
}

/// The canonical spelling of an accepted timestamp: `T` between date and
/// time, and `Z` for a UTC offset written `z`.
pub open spec fn canonical_rfc3339(t: Seq<u8>) -> Seq<u8> {
    let u = t.update(10, UPPER_T);
    if u[u.len() - 1] == LOWER_Z {
        u.update(u.len() - 1, UPPER_Z)
    } else {
        u
    }
}

/// An accepted timestamp is repaired into its canonical spelling, which is
/// accepted in turn; the repair never cuts a character of it in two.
pub proof fn lemma_valid_timestamp_is_canonicalized(s: Seq<char>)
    requires
        spec_is_valid_rfc3339(s),
    ensures
        !normalize_cuts_char(trimmed_bytes(s)),
        spec_normalize_to_rfc3339(s) == Some(canonical_rfc3339(trimmed_bytes(s))),
        forall|r: Seq<char>|
            spec_normalize_to_rfc3339(s) == Some(#[trigger] encode_utf8(r)) ==> spec_is_valid_rfc3339(
                r,
            ),
{
    let t = trimmed_bytes(s);
    encode_utf8_valid_utf8(spec_trim(s));
    lemma_ascii_boundary(t, 10);
    assert(is_digit(t[18]));
    lemma_after_ascii_boundary(t, 18);
    let p = offset_start(t);
    if t[19] == DOT {
        lemma_digit_run_digits(t, 20);
        assert(is_digit(t[p - 1]));
    }
    lemma_after_ascii_boundary(t, p - 1);
    valid_utf8_split(t, p);
    let raw = t.subrange(p, t.len() as int);
    let c = decode_utf8(raw);
    decode_utf8_encode_utf8(raw);
    assert(valid_offset(raw));
    assert forall|i: int| 0 <= i < encode_utf8(c).len() implies #[trigger] encode_utf8(c)[i]
        <= 0x7f by {
        if raw.len() == 6 && i != 0 && i != 3 {
            assert(is_digit(raw[i]));
        }
    }
    lemma_ascii_encoding(c);
    assert(c[0] as u8 == raw[0]);
    lemma_ascii_not_white_space(c[0]);
    assert(c[c.len() - 1] as u8 == raw[raw.len() - 1]);
    assert(is_digit(raw[raw.len() - 1]) || raw[raw.len() - 1] == UPPER_Z || raw[raw.len() - 1]
        == LOWER_Z);
    lemma_ascii_not_white_space(c[c.len() - 1]);
    assert(trim_start(c) == c);
    assert(trim_end(c) == c);
    assert(norm_offset_source(t) == raw);
    let out = normalize_bytes(t)->0;
    assert(norm_prefix_ok(t));
    assert(norm_head(t) =~= t.update(10, UPPER_T).subrange(0, p));
    if raw.len() == 1 {
        assert(out =~= canonical_rfc3339(t));
    } else {
        assert(norm_offset(raw) == Some(raw));
        assert(raw[5] != LOWER_Z);
        assert(out =~= canonical_rfc3339(t));
    }
    assert forall|r: Seq<char>|
        spec_normalize_to_rfc3339(s) == Some(#[trigger] encode_utf8(r)) implies spec_is_valid_rfc3339(
        r,
    ) by {
        lemma_normalized_passes_validation(s, r);
    }
}

} // verus!
