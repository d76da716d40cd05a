//! Rendering of the final statistics for persistence: one file per
//! classification key, named after the key, holding one URL per line.
//!
//! Writing the files is a driver's business; each run's content is
//! rendered whole, so writing it replaces whatever an earlier run left.

use vstd::prelude::*;
use crate::stats::Statistics;
use crate::text::push_char;

verus! {

/// The content of one file: every URL of the list, each followed by a
/// newline, in recorded order.
pub open spec fn joined_lines(urls: Seq<Seq<char>>) -> Seq<char>
    decreases urls.len(),
{
    if urls.len() == 0 {
        Seq::empty()
    } else {
        urls[0] + seq!['\n'] + joined_lines(urls.drop_first())
    }
}

/// Joins a list of URLs into file content, one per line.
fn join_lines(urls: &Vec<String>) -> (s: String)
    ensures
        s@ == joined_lines(urls.deep_view()),
{
    let ghost dv = urls.deep_view();
    let n = urls.len();
    let mut out = String::new();
    let mut i: usize = 0;
    proof {
        assert(dv.skip(0) =~= dv);
        assert(Seq::<char>::empty() + joined_lines(dv) =~= joined_lines(dv));
    }
    while i < n
        invariant
            i <= n,
            n == dv.len(),
            dv == urls.deep_view(),
            out@ + joined_lines(dv.skip(i as int)) == joined_lines(dv),
        decreases n - i,
    {
        let ghost rest = dv.skip(i as int);
        let ghost out0 = out@;
        out.append(urls[i].as_str());
        push_char(&mut out, '\n');
        proof {
            assert(rest[0] == dv[i as int]);
            assert(rest.drop_first() =~= dv.skip(i + 1));
            assert(joined_lines(rest) == rest[0] + seq!['\n'] + joined_lines(dv.skip(i + 1)));
            assert(out@ + joined_lines(dv.skip(i + 1)) =~= out0 + joined_lines(rest));
        }
        i += 1;
    }
    proof {
        assert(dv.skip(n as int) =~= Seq::<Seq<char>>::empty());
        assert(out@ + Seq::<char>::empty() =~= out@);
    }
    out
}

/// Renders the statistics as files: for each key, in key-creation order,
/// a file named after the key with a `.txt` suffix whose content holds
/// the key's URLs, one per line, in recorded order.
pub fn render(stats: &Statistics) -> (files: Vec<(String, String)>)
    ensures
        files@.len() == stats.entries().len(),
        forall|i: int|
            0 <= i < files@.len() ==> files@[i].0@ == stats.entries()[i].0 + ".txt"@
                && files@[i].1@ == joined_lines(stats.entries()[i].1),
{
    let n = stats.key_count();
    let mut files: Vec<(String, String)> = Vec::new();
    let mut i: usize = 0;
    while i < n
        invariant
            i <= n,
            n == stats.entries().len(),
            files@.len() == i,
            forall|j: int|
                0 <= j < i ==> files@[j].0@ == stats.entries()[j].0 + ".txt"@ && files@[j].1@
                    == joined_lines(stats.entries()[j].1),
        decreases n - i,
    {
        let name = stats.key_at(i).clone().concat(".txt");
        let content = join_lines(stats.urls_at(i));
        files.push((name, content));
        i += 1;
    }
    files
}

} // verus!
