//! The queue of pending words: loaded once before work begins, drained one
//! item at a time, never replenished. Each item is served exactly once and
//! in load order; after the last item every take reports the queue empty.
//!
//! A driver that shares the queue between workers guards it with its own
//! mutual exclusion, so that a take is one atomic step; what a take does to
//! the queue's state is stated here.

use vstd::prelude::*;

verus! {

/// The pending words plus a removal cursor. Items at positions below the
/// cursor have been served; the rest remain.
pub struct WorkQueue {
    items: Vec<String>,
    next: usize,
}

impl WorkQueue {
    /// Every word ever loaded, in load order.
    pub closed spec fn loaded(&self) -> Seq<Seq<char>> {
        self.items.deep_view()
    }

    /// How many words have been served so far.
    pub closed spec fn taken(&self) -> nat {
        self.next as nat
    }

    /// The words not yet served, in load order.
    pub open spec fn remaining(&self) -> Seq<Seq<char>> {
        self.loaded().skip(self.taken() as int)
    }

    /// The cursor never passes the end of the loaded words.
    pub closed spec fn wf(&self) -> bool {
        self.next <= self.items.len()
    }

    /// Creates a queue holding the given words, none of them served yet.
    pub fn load(words: Vec<String>) -> (q: WorkQueue)
        ensures
            q.wf(),
            q.loaded() == words.deep_view(),
            q.taken() == 0,
    {
        WorkQueue { items: words, next: 0 }
    }

    /// Removes and returns the head of the remaining words, or reports the
    /// queue empty. Each loaded word is returned by exactly one call, in
    /// load order; once the queue is drained every call returns `None`.
    pub fn take_one(&mut self) -> (r: Option<String>)
        requires
            old(self).wf(),
        ensures
            final(self).wf(),
            final(self).loaded() == old(self).loaded(),
            old(self).taken() < old(self).loaded().len() ==> {
                &&& r matches Some(w) && w@ == old(self).loaded()[old(self).taken() as int]
                &&& final(self).taken() == old(self).taken() + 1
            },
            old(self).taken() >= old(self).loaded().len() ==> {
                &&& r is None
                &&& final(self).taken() == old(self).taken()
            },
    {
        if self.next < self.items.len() {
            let w = self.items[self.next].clone();
            self.next = self.next + 1;
            Some(w)
        } else {
            None
        }
    }

    /// How many words remain to be served.
    pub fn remaining_count(&self) -> (n: usize)
        requires
            self.wf(),
        ensures
            n == self.remaining().len(),
    {
        self.items.len() - self.next
    }
}

/// Conservation: at every point, the words already served and the words
/// still remaining partition the words loaded — none is lost, none is
/// served twice.
pub proof fn lemma_queue_conservation(q: &WorkQueue)
    requires
        q.wf(),
    ensures
        q.taken() + q.remaining().len() == q.loaded().len(),
        q.remaining() == q.loaded().subrange(q.taken() as int, q.loaded().len() as int),
{
}

} // verus!
