//! The per-item decision of a worker, between the two shared resources:
//! take the next word and build the URL to request, or observe the queue
//! drained and stop. The request itself and the merge of its outcome are
//! the driver's and the statistics' business.

use vstd::prelude::*;
use crate::queue::WorkQueue;
use crate::text::{replace_all, substitute};

verus! {

/// Takes the next pending word and substitutes it into the template,
/// returning the URL to request; `None` once the queue is drained, which
/// is the worker's signal to stop. Each word is turned into a URL by
/// exactly one call, in load order.
pub fn next_url(q: &mut WorkQueue, template: &str, placeholder: &str) -> (r: Option<String>)
    requires
        old(q).wf(),
    ensures
        final(q).wf(),
        final(q).loaded() == old(q).loaded(),
        old(q).taken() < old(q).loaded().len() ==> {
            &&& r matches Some(u) && u@ == replace_all(
                template@,
                placeholder@,
                old(q).loaded()[old(q).taken() as int],
            )
            &&& final(q).taken() == old(q).taken() + 1
        },
        old(q).taken() >= old(q).loaded().len() ==> {
            &&& r is None
            &&& final(q).taken() == old(q).taken()
        },
{
    match q.take_one() {
        Some(w) => Some(substitute(template, placeholder, w.as_str())),
        None => None,
    }
}

} // verus!
