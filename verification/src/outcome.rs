//! The outcome of one request — a numeric status code or a classified
//! transport failure, with the URL that produced it — and its
//! classification key.

use vstd::prelude::*;
use crate::classify::{kind_label, label_of, ErrorKind};
use crate::text::push_char;

verus! {

/// The character of a single decimal digit.
pub open spec fn digit_char(d: int) -> char {
    ((d + 48) as u8) as char
}

/// The decimal notation of `n`, most significant digit first, without
/// leading zeros (a single zero for `n == 0`).
pub open spec fn dec_digits(n: nat) -> Seq<char>
    decreases n,
{
    if n < 10 {
        seq![digit_char(n as int)]
    } else {
        dec_digits(n / 10).push(digit_char((n % 10) as int))
    }
}

/// The character of the digit `d`.
fn digit_to_char(d: u8) -> (c: char)
    requires
        d < 10,
    ensures
        c == digit_char(d as int),
{
    (d + 48) as char
}

/// Writes a status code in decimal, the classification key of a
/// successful request.
pub fn status_key(code: u16) -> (s: String)
    ensures
        s@ == dec_digits(code as nat),
    decreases code,
{
    if code < 10 {
        let mut s = String::new();
        push_char(&mut s, digit_to_char(code as u8));
        proof {
            assert(s@ =~= seq![digit_char(code as int)]);
        }
        s
    } else {
        let mut s = status_key(code / 10);
        push_char(&mut s, digit_to_char((code % 10) as u8));
        s
    }
}

/// What one request produced: the reported status code on success, the
/// classified transport-error kind on failure; either way the fully
/// substituted URL that was requested.
pub enum Outcome {
    Success { status_code: u16, url: String },
    Failure { kind: ErrorKind, url: String },
}

/// The classification key an outcome is aggregated under: the status code
/// in decimal, or the error kind's label.
pub open spec fn key_of(o: Outcome) -> Seq<char> {
    match o {
        Outcome::Success { status_code, .. } => dec_digits(status_code as nat),
        Outcome::Failure { kind, .. } => label_of(kind),
    }
}

/// The URL an outcome speaks of.
pub open spec fn url_of(o: Outcome) -> Seq<char> {
    match o {
        Outcome::Success { url, .. } => url@,
        Outcome::Failure { url, .. } => url@,
    }
}

/// Returns the classification key of an outcome.
pub fn classification_key(o: &Outcome) -> (s: String)
    ensures
        s@ == key_of(*o),
{
    match o {
        Outcome::Success { status_code, .. } => status_key(*status_code),
        Outcome::Failure { kind, .. } => kind_label(kind),
    }
}

} // verus!
