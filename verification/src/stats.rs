//! Aggregation of outcomes: a mapping from classification key to the list
//! of URLs that produced it, keys in creation order, URLs in the order
//! they were recorded.
//!
//! A driver that shares the statistics between workers guards them with
//! its own mutual exclusion, so that each merge is one atomic step; what a
//! merge does to the state is stated here. Whatever order the workers'
//! merges serialize into, the conservation law below counts every outcome.

use vstd::prelude::*;
use vstd::multiset::Multiset;
use vstd::seq_lib::lemma_multiset_commutative;
use crate::outcome::{classification_key, key_of, url_of, Outcome};

verus! {

/// One classification key with the URLs recorded under it so far.
struct Bucket {
    key: String,
    urls: Vec<String>,
}

/// The aggregated statistics.
pub struct Statistics {
    buckets: Vec<Bucket>,
}

/// Whether the entries hold the key `k`.
pub open spec fn has_key(es: Seq<(Seq<char>, Seq<Seq<char>>)>, k: Seq<char>) -> bool {
    exists|i: int| 0 <= i < es.len() && es[i].0 == k
}

/// The position of the key `k` among the entries.
pub open spec fn key_index(es: Seq<(Seq<char>, Seq<Seq<char>>)>, k: Seq<char>) -> int {
    choose|i: int| 0 <= i < es.len() && es[i].0 == k
}

/// The URLs recorded under the key `k`.
pub open spec fn urls_of(es: Seq<(Seq<char>, Seq<Seq<char>>)>, k: Seq<char>) -> Seq<Seq<char>> {
    es[key_index(es, k)].1
}

/// What recording one URL under one key does to the entries: appends the
/// URL to the key's list, creating the key at the end if it is absent.
pub open spec fn record_entry(
    es: Seq<(Seq<char>, Seq<Seq<char>>)>,
    k: Seq<char>,
    u: Seq<char>,
) -> Seq<(Seq<char>, Seq<Seq<char>>)> {
    if has_key(es, k) {
        let i = key_index(es, k);
        es.update(i, (k, es[i].1.push(u)))
    } else {
        es.push((k, seq![u]))
    }
}

/// How many URLs the entries hold in all, over all keys.
pub open spec fn total_urls(es: Seq<(Seq<char>, Seq<Seq<char>>)>) -> nat
    decreases es.len(),
{
    if es.len() == 0 {
        0
    } else {
        total_urls(es.drop_last()) + es.last().1.len()
    }
}

impl Statistics {
    /// The entries: one pair of key and URL list per bucket, in
    /// key-creation order.
    pub closed spec fn entries(&self) -> Seq<(Seq<char>, Seq<Seq<char>>)> {
        self.buckets@.map(|i: int, b: Bucket| (b.key@, b.urls.deep_view()))
    }

    /// Keys are unique: exactly one list per key.
    pub open spec fn wf(&self) -> bool {
        forall|i: int, j: int|
            0 <= i < j < self.entries().len() ==> self.entries()[i].0 != self.entries()[j].0
    }

    /// Creates empty statistics.
    pub fn new() -> (s: Statistics)
        ensures
            s.wf(),
            s.entries() == Seq::<(Seq<char>, Seq<Seq<char>>)>::empty(),
    {
        let s = Statistics { buckets: Vec::new() };
        proof {
            assert(s.entries() =~= Seq::<(Seq<char>, Seq<Seq<char>>)>::empty());
        }
        s
    }

    /// The position of the bucket holding `key`, if any.
    fn find_key(&self, key: &String) -> (r: Option<usize>)
        ensures
            match r {
                Some(i) => 0 <= i < self.entries().len() && self.entries()[i as int].0 == key@,
                None => !has_key(self.entries(), key@),
            },
    {
        let n = self.buckets.len();
        let mut i: usize = 0;
        while i < n
            invariant
                i <= n,
                n == self.buckets.len(),
                forall|j: int| 0 <= j < i ==> self.entries()[j].0 != key@,
            decreases n - i,
        {
            if self.buckets[i].key == *key {
                return Some(i);
            }
            i += 1;
        }
        None
    }

    /// Appends `url` to the list keyed by `key`, creating the key's entry
    /// at the end if it is absent. Called once per outcome; a driver
    /// serializes concurrent calls, so no merge is lost.
    pub fn record(&mut self, key: String, url: String)
        requires
            old(self).wf(),
        ensures
            final(self).wf(),
            final(self).entries() == record_entry(old(self).entries(), key@, url@),
    {
        let ghost old_es = self.entries();
        match self.find_key(&key) {
            Some(i) => {
                let ghost old_buckets = self.buckets@;
                let mut b = Bucket { key: String::new(), urls: Vec::new() };
                self.buckets.set_and_swap(i, &mut b);
                b.urls.push(url);
                let ghost b1 = b;
                self.buckets.set_and_swap(i, &mut b);
                proof {
                    let j = key_index(old_es, key@);
                    assert(0 <= j < old_es.len() && old_es[j].0 == key@);
                    if j != i {
                        assert(old_es[j].0 != old_es[i as int].0);
                    }
                    assert(j == i);
                    assert(self.buckets@ =~= old_buckets.update(i as int, b1));
                    assert(self.entries() =~~= old_es.update(
                        i as int,
                        (key@, old_es[i as int].1.push(url@)),
                    ));
                }
            },
            None => {
                let mut urls: Vec<String> = Vec::new();
                urls.push(url);
                self.buckets.push(Bucket { key, urls });
                proof {
                    assert(self.entries() =~~= old_es.push((key@, seq![url@])));
                }
            },
        }
    }

    /// Records an outcome: its URL, under its classification key.
    pub fn record_outcome(&mut self, o: Outcome)
        requires
            old(self).wf(),
        ensures
            final(self).wf(),
            final(self).entries() == record_entry(old(self).entries(), key_of(o), url_of(o)),
    {
        let key = classification_key(&o);
        match o {
            Outcome::Success { url, .. } => self.record(key, url),
            Outcome::Failure { url, .. } => self.record(key, url),
        }
    }

    /// How many keys the statistics hold.
    pub fn key_count(&self) -> (n: usize)
        ensures
            n == self.entries().len(),
    {
        self.buckets.len()
    }

    /// The key at position `i`, in key-creation order.
    pub fn key_at(&self, i: usize) -> (k: &String)
        requires
            i < self.entries().len(),
        ensures
            k@ == self.entries()[i as int].0,
    {
        &self.buckets[i].key
    }

    /// The URLs recorded under the key at position `i`.
    pub fn urls_at(&self, i: usize) -> (v: &Vec<String>)
        requires
            i < self.entries().len(),
        ensures
            v.deep_view() == self.entries()[i as int].1,
    {
        &self.buckets[i].urls
    }

    /// The URLs recorded under `key`, or `None` if no outcome produced it.
    pub fn get(&self, key: &String) -> (r: Option<&Vec<String>>)
        requires
            self.wf(),
        ensures
            match r {
                Some(v) => has_key(self.entries(), key@) && v.deep_view() == urls_of(
                    self.entries(),
                    key@,
                ),
                None => !has_key(self.entries(), key@),
            },
    {
        match self.find_key(key) {
            Some(i) => {
                proof {
                    let j = key_index(self.entries(), key@);
                    assert(0 <= j < self.entries().len() && self.entries()[j].0 == key@);
                    if j != i {
                        assert(self.entries()[j].0 != self.entries()[i as int].0);
                    }
                    assert(j == i);
                }
                Some(&self.buckets[i].urls)
            },
            None => None,
        }
    }

    /// A full copy of the statistics, taken for downstream consumption
    /// once the pool has drained.
    pub fn snapshot(&self) -> (out: Statistics)
        ensures
            out.entries() == self.entries(),
            self.wf() ==> out.wf(),
    {
        let n = self.buckets.len();
        let mut buckets: Vec<Bucket> = Vec::new();
        let mut i: usize = 0;
        while i < n
            invariant
                i <= n,
                n == self.buckets.len(),
                buckets@.len() == i,
                forall|j: int|
                    0 <= j < i ==> buckets@[j].key@ == self.buckets@[j].key@
                        && buckets@[j].urls@ == self.buckets@[j].urls@,
            decreases n - i,
        {
            let b = Bucket {
                key: self.buckets[i].key.clone(),
                urls: clone_urls(&self.buckets[i].urls),
            };
            buckets.push(b);
            i += 1;
        }
        let out = Statistics { buckets };
        proof {
            assert(out.entries() =~~= self.entries());
        }
        out
    }
}

/// An element-by-element copy of a URL list.
fn clone_urls(v: &Vec<String>) -> (out: Vec<String>)
    ensures
        out@ == v@,
{
    let n = v.len();
    let mut out: Vec<String> = Vec::new();
    let mut i: usize = 0;
    while i < n
        invariant
            i <= n,
            n == v@.len(),
            out@.len() == i,
            forall|j: int| 0 <= j < i ==> out@[j] == v@[j],
        decreases n - i,
    {
        out.push(v[i].clone());
        i += 1;
    }
    proof {
        assert(out@ =~= v@);
    }
    out
}

/// What recording a whole sequence of keyed URLs does to the entries,
/// first record first.
pub open spec fn record_seq(
    es: Seq<(Seq<char>, Seq<Seq<char>>)>,
    rs: Seq<(Seq<char>, Seq<char>)>,
) -> Seq<(Seq<char>, Seq<Seq<char>>)>
    decreases rs.len(),
{
    if rs.len() == 0 {
        es
    } else {
        record_seq(record_entry(es, rs[0].0, rs[0].1), rs.drop_first())
    }
}

/// The records a sequence of outcomes merges into the statistics.
pub open spec fn records_of(os: Seq<Outcome>) -> Seq<(Seq<char>, Seq<char>)> {
    os.map(|i: int, o: Outcome| (key_of(o), url_of(o)))
}

proof fn lemma_total_update(
    es: Seq<(Seq<char>, Seq<Seq<char>>)>,
    i: int,
    e: (Seq<char>, Seq<Seq<char>>),
)
    requires
        0 <= i < es.len(),
    ensures
        total_urls(es.update(i, e)) + es[i].1.len() == total_urls(es) + e.1.len(),
    decreases es.len(),
{
    let es2 = es.update(i, e);
    if i == es.len() - 1 {
        assert(es2.drop_last() =~= es.drop_last());
        assert(es2.last() == e);
    } else {
        assert(es2.drop_last() =~= es.drop_last().update(i, e));
        assert(es2.last() == es.last());
        lemma_total_update(es.drop_last(), i, e);
        assert(es.drop_last()[i] == es[i]);
    }
}

/// Each record adds exactly one URL to the total, whether its key was
/// present already or not.
pub proof fn lemma_record_entry_total(
    es: Seq<(Seq<char>, Seq<Seq<char>>)>,
    k: Seq<char>,
    u: Seq<char>,
)
    ensures
        total_urls(record_entry(es, k, u)) == total_urls(es) + 1,
{
    if has_key(es, k) {
        let i = key_index(es, k);
        assert(0 <= i < es.len() && es[i].0 == k);
        lemma_total_update(es, i, (k, es[i].1.push(u)));
    } else {
        let es2 = es.push((k, seq![u]));
        assert(es2.drop_last() =~= es);
        assert(es2.last() == (k, seq![u]));
    }
}

proof fn lemma_record_seq_total(es: Seq<(Seq<char>, Seq<Seq<char>>)>, rs: Seq<(Seq<char>, Seq<char>)>)
    ensures
        total_urls(record_seq(es, rs)) == total_urls(es) + rs.len(),
    decreases rs.len(),
{
    if rs.len() == 0 {
    } else {
        lemma_record_entry_total(es, rs[0].0, rs[0].1);
        lemma_record_seq_total(record_entry(es, rs[0].0, rs[0].1), rs.drop_first());
    }
}

/// Conservation of outcomes: however many workers drain the queue and in
/// whatever order their merges serialize, a run that records one outcome
/// per word leaves statistics whose lists hold exactly one URL per
/// outcome in all — none lost, none duplicated.
pub proof fn lemma_all_outcomes_counted(os: Seq<Outcome>)
    ensures
        total_urls(record_seq(Seq::empty(), records_of(os))) == os.len(),
{
    lemma_record_seq_total(Seq::empty(), records_of(os));
}

/// Every URL the entries hold, key after key.
pub open spec fn all_urls(es: Seq<(Seq<char>, Seq<Seq<char>>)>) -> Seq<Seq<char>>
    decreases es.len(),
{
    if es.len() == 0 {
        Seq::empty()
    } else {
        all_urls(es.drop_last()) + es.last().1
    }
}

/// The URLs of a sequence of outcomes, in outcome order.
pub open spec fn urls_of_outcomes(os: Seq<Outcome>) -> Seq<Seq<char>> {
    os.map(|i: int, o: Outcome| url_of(o))
}

proof fn lemma_all_urls_update_push(
    es: Seq<(Seq<char>, Seq<Seq<char>>)>,
    i: int,
    k: Seq<char>,
    u: Seq<char>,
)
    requires
        0 <= i < es.len(),
    ensures
        all_urls(es.update(i, (k, es[i].1.push(u)))).to_multiset() =~= all_urls(
            es,
        ).to_multiset().insert(u),
    decreases es.len(),
{
    broadcast use vstd::seq_lib::group_to_multiset_ensures;
    broadcast use vstd::multiset::group_multiset_axioms;

    let es2 = es.update(i, (k, es[i].1.push(u)));
    if i == es.len() - 1 {
        assert(es2.drop_last() =~= es.drop_last());
        assert(es2.last() == (k, es[i].1.push(u)));
        lemma_multiset_commutative(all_urls(es.drop_last()), es[i].1.push(u));
        lemma_multiset_commutative(all_urls(es.drop_last()), es[i].1);
        assert(es[i].1.push(u).to_multiset() =~= es[i].1.to_multiset().insert(u));
    } else {
        assert(es.drop_last()[i] == es[i]);
        assert(es2.drop_last() =~= es.drop_last().update(i, (k, es.drop_last()[i].1.push(u))));
        lemma_all_urls_update_push(es.drop_last(), i, k, u);
        assert(es2.last() == es.last());
        lemma_multiset_commutative(all_urls(es2.drop_last()), es.last().1);
        lemma_multiset_commutative(all_urls(es.drop_last()), es.last().1);
    }
}

/// Each record adds exactly its URL to the multiset of all URLs held,
/// whether its key was present already or not.
pub proof fn lemma_record_entry_urls(
    es: Seq<(Seq<char>, Seq<Seq<char>>)>,
    k: Seq<char>,
    u: Seq<char>,
)
    ensures
        all_urls(record_entry(es, k, u)).to_multiset() =~= all_urls(es).to_multiset().insert(u),
{
    broadcast use vstd::seq_lib::group_to_multiset_ensures;
    broadcast use vstd::multiset::group_multiset_axioms;

    if has_key(es, k) {
        let i = key_index(es, k);
        assert(0 <= i < es.len() && es[i].0 == k);
        lemma_all_urls_update_push(es, i, k, u);
    } else {
        let es2 = es.push((k, seq![u]));
        assert(es2.drop_last() =~= es);
        assert(es2.last() == (k, seq![u]));
        lemma_multiset_commutative(all_urls(es), seq![u]);
        assert(seq![u] =~= Seq::<Seq<char>>::empty().push(u));
        assert(seq![u].to_multiset() =~= Seq::<Seq<char>>::empty().to_multiset().insert(u));
        assert forall|x: Seq<char>| Seq::<Seq<char>>::empty().to_multiset().count(x) == 0 by {
            assert(!Seq::<Seq<char>>::empty().contains(x));
        }
        assert(Seq::<Seq<char>>::empty().to_multiset() =~= Multiset::<Seq<char>>::empty());
    }
}

proof fn lemma_record_seq_urls(
    es: Seq<(Seq<char>, Seq<Seq<char>>)>,
    rs: Seq<(Seq<char>, Seq<char>)>,
)
    ensures
        all_urls(record_seq(es, rs)).to_multiset() =~= all_urls(es).to_multiset().add(
            rs.map(|i: int, r: (Seq<char>, Seq<char>)| r.1).to_multiset(),
        ),
    decreases rs.len(),
{
    broadcast use vstd::seq_lib::group_to_multiset_ensures;
    broadcast use vstd::multiset::group_multiset_axioms;

    let urls = rs.map(|i: int, r: (Seq<char>, Seq<char>)| r.1);
    if rs.len() == 0 {
        assert forall|x: Seq<char>| urls.to_multiset().count(x) == 0 by {
            assert(!urls.contains(x));
        }
    } else {
        let es1 = record_entry(es, rs[0].0, rs[0].1);
        lemma_record_entry_urls(es, rs[0].0, rs[0].1);
        lemma_record_seq_urls(es1, rs.drop_first());
        let urls1 = rs.drop_first().map(|i: int, r: (Seq<char>, Seq<char>)| r.1);
        assert(urls1 =~= urls.drop_first());
        assert(urls.remove(0) =~= urls.drop_first());
        assert(urls.remove(0).to_multiset() =~= urls.to_multiset().remove(urls[0]));
        assert(urls.contains(urls[0]));
        assert(urls.to_multiset().count(urls[0]) > 0);
        assert(urls.drop_first().to_multiset().insert(urls[0]) =~= urls.to_multiset());
    }
}

/// Conservation of outcomes, URL by URL: the lists of a run's final
/// statistics hold, as a multiset, exactly the URLs of the outcomes that
/// were recorded — whatever order the workers' merges serialize into.
pub proof fn lemma_no_outcome_lost(os: Seq<Outcome>)
    ensures
        all_urls(record_seq(Seq::empty(), records_of(os))).to_multiset()
            =~= urls_of_outcomes(os).to_multiset(),
{
    broadcast use vstd::seq_lib::group_to_multiset_ensures;
    broadcast use vstd::multiset::group_multiset_axioms;

    lemma_record_seq_urls(Seq::empty(), records_of(os));
    assert(records_of(os).map(|i: int, r: (Seq<char>, Seq<char>)| r.1) =~= urls_of_outcomes(os));
    assert(all_urls(Seq::empty()) =~= Seq::<Seq<char>>::empty());
    assert forall|x: Seq<char>| Seq::<Seq<char>>::empty().to_multiset().count(x) == 0 by {
        assert(!Seq::<Seq<char>>::empty().contains(x));
    }
}

} // verus!
