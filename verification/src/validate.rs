//! Validation of request bodies.
//!
//! Every request type states its rules as a list of messages, one for each
//! rule that the value breaks, in the order in which the fields are declared
//! and, within a field, in the order of its rules. A rule without a message
//! of its own reports `<field> is required`. A request is refused with all
//! of its messages joined by `;`.

use vstd::prelude::*;
use vstd::string::StrSliceExecFns;
use vstd::string::StringExecFns;
use crate::errors::Error;

verus! {

/// An error raised by one validation rule: a code naming the rule or field,
/// and a message for the client.
#[derive(Debug)]
pub struct ValidationError {
    pub code: String,
    pub message: Option<String>,
}

/// The message of a length rule, if `s` is shorter than `min` or longer than
/// `max` characters.
pub open spec fn length_rule(s: Seq<char>, min: int, max: int, msg: Seq<char>) -> Seq<Seq<char>> {
    if min <= s.len() <= max {
        Seq::empty()
    } else {
        seq![msg]
    }
}

/// The message of a range rule, if `v` lies outside `[min, max]`.
pub open spec fn range_rule(v: int, min: int, max: int, msg: Seq<char>) -> Seq<Seq<char>> {
    if min <= v <= max {
        Seq::empty()
    } else {
        seq![msg]
    }
}

/// `parts` joined with `sep` between consecutive parts.
pub open spec fn join(parts: Seq<Seq<char>>, sep: Seq<char>) -> Seq<char>
    decreases parts.len(),
{
    if parts.len() == 0 {
        Seq::empty()
    } else if parts.len() == 1 {
        parts[0]
    } else {
        join(parts.drop_last(), sep) + sep + parts.last()
    }
}

/// Joining puts the separator between consecutive parts and nowhere else:
/// no parts give the empty text, one part gives itself, and one more part
/// is added after one more separator.
pub proof fn lemma_join_separates_parts(parts: Seq<Seq<char>>, last: Seq<char>, sep: Seq<char>)
    ensures
        join(Seq::empty(), sep) == Seq::<char>::empty(),
        join(seq![last], sep) == last,
        parts.len() > 0 ==> join(parts.push(last), sep) == join(parts, sep) + sep + last,
        parts.len() == 0 ==> join(parts.push(last), sep) == last,
{
    assert(parts.push(last).drop_last() =~= parts);
    if parts.len() == 0 {
        assert(parts.push(last) =~= seq![last]);
    }
}

/// Append the message of a length rule over the characters of `s`.
pub fn check_length(out: &mut Vec<String>, s: &str, min: usize, max: usize, msg: &str)
    ensures
        final(out).deep_view() == old(out).deep_view() + length_rule(s@, min as int, max as int, msg@),
{
    let n = s.unicode_len();
    if !(min <= n && n <= max) {
        let ghost before = out.deep_view();
        out.push(msg.to_owned());
        assert(out.deep_view() =~= before + seq![msg@]);
    } else {
        assert(length_rule(s@, min as int, max as int, msg@) =~= Seq::<Seq<char>>::empty());
        assert(out.deep_view() =~= old(out).deep_view() + Seq::<Seq<char>>::empty());
    }
}

/// Append the message of a range rule over `v`.
pub fn check_range(out: &mut Vec<String>, v: i64, min: i64, max: i64, msg: &str)
    ensures
        final(out).deep_view() == old(out).deep_view() + range_rule(v as int, min as int, max as int, msg@),
{
    if !(min <= v && v <= max) {
        let ghost before = out.deep_view();
        out.push(msg.to_owned());
        assert(out.deep_view() =~= before + seq![msg@]);
    } else {
        assert(out.deep_view() =~= old(out).deep_view() + Seq::<Seq<char>>::empty());
    }
}

/// The verdict of the `validator` crate's e-mail address check on `s`.
pub uninterp spec fn email_accepted(s: Seq<char>) -> bool;

/// `validator::ValidateEmail::validate_email` on a `&str`: the HTML5 e-mail
/// address check (a user part of at most 64 allowed characters, an `@`, and a
/// domain name, IDNA domain or bracketed IP literal of at most 255
/// characters). Its verdict is named `email_accepted`; beside it the source
/// shows that an empty text, or one without `@`, is refused.
#[verifier::external_body]
fn email_check(s: &str) -> (b: bool)
    ensures
        b == email_accepted(s@),
        b ==> s@.len() > 0 && s@.contains('@'),
{
    validator::ValidateEmail::validate_email(&s)
}

/// The message of the e-mail rule, if `s` is not an acceptable address.
pub open spec fn email_rule(s: Seq<char>, msg: Seq<char>) -> Seq<Seq<char>> {
    if email_accepted(s) {
        Seq::empty()
    } else {
        seq![msg]
    }
}

/// Append the message of the e-mail rule.
pub fn check_email(out: &mut Vec<String>, s: &str, msg: &str)
    ensures
        final(out).deep_view() == old(out).deep_view() + email_rule(s@, msg@),
{
    if !email_check(s) {
        let ghost before = out.deep_view();
        out.push(msg.to_owned());
        assert(out.deep_view() =~= before + seq![msg@]);
    } else {
        assert(out.deep_view() =~= old(out).deep_view() + Seq::<Seq<char>>::empty());
    }
}

/// The messages joined with `;`.
pub fn join_messages(parts: &Vec<String>) -> (r: String)
    ensures
        r@ == join(parts.deep_view(), ";"@),
{
    let mut out = String::new();
    let mut i: usize = 0;
    while i < parts.len()
        invariant
            i <= parts@.len(),
            out@ == join(parts.deep_view().subrange(0, i as int), ";"@),
        decreases parts@.len() - i,
    {
        let ghost prev = parts.deep_view().subrange(0, i as int);
        let ghost next = parts.deep_view().subrange(0, i + 1);
        assert(next.drop_last() =~= prev);
        assert(next.last() == parts[i as int]@);
        if i > 0 {
            out.append(";");
        } else {
            assert(prev =~= Seq::<Seq<char>>::empty());
        }
        out.append(parts[i].as_str());
        i = i + 1;
    }
    assert(parts.deep_view().subrange(0, parts@.len() as int) =~= parts.deep_view());
    out
}

/// A request type with validation rules.
pub trait Validate {
    /// The messages of the rules that the value breaks, in order.
    spec fn rule_messages(&self) -> Seq<Seq<char>>;

    /// The messages of the rules that the value breaks, in order.
    fn messages(&self) -> (r: Vec<String>)
        ensures
            r.deep_view() == self.rule_messages(),
    ;
}

/// Validate a request: `Ok` when it breaks no rule, else a validation error
/// whose text is all messages joined by `;`.
pub fn validate<T: Validate>(params: &T) -> (r: Result<(), Error>)
    ensures
        r is Ok <==> params.rule_messages().len() == 0,
        r matches Err(e) ==> (e matches Error::Validation(m) && m@ == join(
            params.rule_messages(),
            ";"@,
        )),
{
    let msgs = params.messages();
    if msgs.len() == 0 {
        Ok(())
    } else {
        Err(Error::Validation(join_messages(&msgs)))
    }
}

} // verus!
