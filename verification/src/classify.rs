//! Classification of transport-level failures into a closed set of error
//! kinds, resolved through a fixed priority chain.

use vstd::prelude::*;

verus! {

/// The closed set of transport-error kinds. Each kind doubles as a
/// classification key (via its label) when results are aggregated.
#[derive(Clone, Copy, Debug, PartialEq, Eq, Structural)]
pub enum ErrorKind {
    Body,
    Decode,
    Status,
    Builder,
    Timeout,
    Redirect,
    Unknown,
}

/// The predicates a transport failure may satisfy, read off the failure as
/// plain booleans. A single failure may satisfy several predicates at once;
/// classification resolves the ambiguity through a fixed priority chain.
#[derive(Clone, Copy, Debug, PartialEq, Eq, Structural)]
pub struct ErrorSignals {
    pub body: bool,
    pub decode: bool,
    pub status: bool,
    pub builder: bool,
    pub timeout: bool,
    pub redirect: bool,
}

/// The fixed priority chain: body before decode before status before
/// builder before timeout before redirect; `Unknown` if no predicate holds.
pub open spec fn classify_spec(s: ErrorSignals) -> ErrorKind {
    if s.body {
        ErrorKind::Body
    } else if s.decode {
        ErrorKind::Decode
    } else if s.status {
        ErrorKind::Status
    } else if s.builder {
        ErrorKind::Builder
    } else if s.timeout {
        ErrorKind::Timeout
    } else if s.redirect {
        ErrorKind::Redirect
    } else {
        ErrorKind::Unknown
    }
}

/// Maps a transport failure's signals to the first matching kind of the
/// priority chain, `Unknown` if none matches.
pub fn classify(s: ErrorSignals) -> (k: ErrorKind)
    ensures
        k == classify_spec(s),
{
    if s.body {
        ErrorKind::Body
    } else if s.decode {
        ErrorKind::Decode
    } else if s.status {
        ErrorKind::Status
    } else if s.builder {
        ErrorKind::Builder
    } else if s.timeout {
        ErrorKind::Timeout
    } else if s.redirect {
        ErrorKind::Redirect
    } else {
        ErrorKind::Unknown
    }
}

/// The label of a kind, used as a classification key and as a file name stem.
pub open spec fn label_of(k: ErrorKind) -> Seq<char> {
    match k {
        ErrorKind::Body => "Body"@,
        ErrorKind::Decode => "Decode"@,
        ErrorKind::Status => "Status"@,
        ErrorKind::Builder => "Builder"@,
        ErrorKind::Timeout => "Timeout"@,
        ErrorKind::Redirect => "Redirect"@,
        ErrorKind::Unknown => "Unknown"@,
    }
}

/// Returns the label of a kind.
pub fn kind_label(k: &ErrorKind) -> (s: String)
    ensures
        s@ == label_of(*k),
{
    match k {
        ErrorKind::Body => "Body".to_owned(),
        ErrorKind::Decode => "Decode".to_owned(),
        ErrorKind::Status => "Status".to_owned(),
        ErrorKind::Builder => "Builder".to_owned(),
        ErrorKind::Timeout => "Timeout".to_owned(),
        ErrorKind::Redirect => "Redirect".to_owned(),
        ErrorKind::Unknown => "Unknown".to_owned(),
    }
}

/// Priority resolution: a failure that satisfies the timeout predicate is
/// never classified as `Redirect` or `Unknown`, whatever else it satisfies;
/// in particular a failure satisfying both the timeout and the redirect
/// predicates classifies as the higher-priority kind of the chain.
pub proof fn lemma_timeout_beats_redirect(s: ErrorSignals)
    requires
        s.timeout,
    ensures
        classify_spec(s) != ErrorKind::Redirect,
        classify_spec(s) != ErrorKind::Unknown,
{
}

} // verus!
