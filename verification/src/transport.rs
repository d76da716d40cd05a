//! Bridge to the HTTP client's error type: reads the predicates a transport
//! failure satisfies and hands them to the classifier as plain booleans.
//!
//! The failure value itself is opaque here; nothing is assumed about which
//! predicates hold of it, so classification is verified for every
//! combination of answers the client may give.

use vstd::prelude::*;
use crate::classify::{classify, ErrorKind, ErrorSignals};

verus! {

/// Declares the HTTP client's error type so that values of it can be
/// carried through signatures; its contents stay opaque.
#[verifier::external_type_specification]
#[verifier::external_body]
pub struct ExReqwestError(reqwest::Error);

/// Relies on reqwest::Error::is_body: whether the failure concerns the
/// request or response body.
pub assume_specification[ reqwest::Error::is_body ](e: &reqwest::Error) -> bool;

/// Relies on reqwest::Error::is_decode: whether the failure arose while
/// decoding the response body.
pub assume_specification[ reqwest::Error::is_decode ](e: &reqwest::Error) -> bool;

/// Relies on reqwest::Error::is_status: whether the failure carries a
/// status-code error.
pub assume_specification[ reqwest::Error::is_status ](e: &reqwest::Error) -> bool;

/// Relies on reqwest::Error::is_builder: whether the failure came from
/// building the request.
pub assume_specification[ reqwest::Error::is_builder ](e: &reqwest::Error) -> bool;

/// Relies on reqwest::Error::is_timeout: whether a timeout stands anywhere
/// in the failure's source chain.
pub assume_specification[ reqwest::Error::is_timeout ](e: &reqwest::Error) -> bool;

/// Relies on reqwest::Error::is_redirect: whether the failure came from the
/// redirect policy.
pub assume_specification[ reqwest::Error::is_redirect ](e: &reqwest::Error) -> bool;

/// Reads off a transport failure the six predicates the classifier orders.
/// Which predicates hold is the client's business; classification is exact
/// for every combination (see `classify`).
pub fn signals_of(e: &reqwest::Error) -> ErrorSignals {
    ErrorSignals {
        body: e.is_body(),
        decode: e.is_decode(),
        status: e.is_status(),
        builder: e.is_builder(),
        timeout: e.is_timeout(),
        redirect: e.is_redirect(),
    }
}

/// Classifies a transport failure of the HTTP client: reads its predicates
/// and resolves them through the fixed priority chain.
pub fn classify_transport_error(e: &reqwest::Error) -> ErrorKind {
    classify(signals_of(e))
}

} // verus!
