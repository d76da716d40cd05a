//! Placeholder substitution: replaces every occurrence of a placeholder
//! token in a URL template with a word, scanning left to right.

use vstd::prelude::*;

verus! {

/// `p` occurs in `t` at position `i`.
pub open spec fn occurs_at(t: Seq<char>, p: Seq<char>, i: int) -> bool {
    0 <= i && i + p.len() <= t.len() && t.subrange(i, i + p.len() as int) == p
}

/// `p` occurs somewhere in `t`.
pub open spec fn has_occurrence(t: Seq<char>, p: Seq<char>) -> bool {
    exists|i: int| occurs_at(t, p, i)
}

/// Left-to-right replacement of every occurrence of `p` in `t` by `w`.
/// Occurrences are consumed greedily and do not overlap; an empty `p`
/// occurs nowhere to be consumed, so the template is returned unchanged.
pub open spec fn replace_all(t: Seq<char>, p: Seq<char>, w: Seq<char>) -> Seq<char>
    decreases t.len(),
{
    if p.len() == 0 || t.len() == 0 {
        t
    } else if occurs_at(t, p, 0) {
        w + replace_all(t.skip(p.len() as int), p, w)
    } else {
        seq![t[0]] + replace_all(t.skip(1), p, w)
    }
}

/// Relies on String::push: appends the character to the end of the string.
#[verifier::external_body]
pub(crate) fn push_char(s: &mut String, c: char)
    ensures
        final(s)@ == old(s)@.push(c),
{
    s.push(c);
}

/// Whether `p@` occurs in `t@` at position `i`, compared character by
/// character.
fn matches_at(t: &str, p: &str, i: usize, t_len: usize, p_len: usize) -> (b: bool)
    requires
        t_len == t@.len(),
        p_len == p@.len(),
        i + p_len <= t_len,
    ensures
        b == occurs_at(t@, p@, i as int),
{
    let mut j: usize = 0;
    while j < p_len
        invariant
            j <= p_len,
            t_len == t@.len(),
            p_len == p@.len(),
            i + p_len <= t_len,
            forall|k: int| 0 <= k < j ==> t@[i + k] == p@[k],
        decreases p_len - j,
    {
        if t.get_char(i + j) != p.get_char(j) {
            proof {
                assert(t@.subrange(i as int, i + p_len as int)[j as int] == t@[i + j]);
                assert(!occurs_at(t@, p@, i as int));
            }
            return false;
        }
        j += 1;
    }
    proof {
        assert(t@.subrange(i as int, i + p_len as int) =~= p@);
    }
    true
}

/// Replaces every occurrence of `placeholder` in `template` by `word`.
/// No escaping and no validation of the result: whether the outcome is a
/// well-formed URL is the caller's business.
pub fn substitute(template: &str, placeholder: &str, word: &str) -> (r: String)
    ensures
        r@ == replace_all(template@, placeholder@, word@),
{
    let t_len = template.unicode_len();
    let p_len = placeholder.unicode_len();
    let mut out = String::new();
    let mut i: usize = 0;
    proof {
        assert(template@.skip(0) =~= template@);
        assert(Seq::<char>::empty() + replace_all(template@, placeholder@, word@)
            =~= replace_all(template@, placeholder@, word@));
    }
    while i < t_len
        invariant
            i <= t_len,
            t_len == template@.len(),
            p_len == placeholder@.len(),
            out@ + replace_all(template@.skip(i as int), placeholder@, word@) == replace_all(
                template@,
                placeholder@,
                word@,
            ),
        decreases t_len - i,
    {
        let ghost rest = template@.skip(i as int);
        if p_len >= 1 && p_len <= t_len - i && matches_at(template, placeholder, i, t_len, p_len) {
            proof {
                assert(rest.subrange(0, p_len as int) =~= template@.subrange(
                    i as int,
                    i + p_len as int,
                ));
                assert(occurs_at(rest, placeholder@, 0));
                assert(rest.skip(p_len as int) =~= template@.skip(i + p_len as int));
                assert((out@ + word@) + replace_all(
                    template@.skip(i + p_len as int),
                    placeholder@,
                    word@,
                ) =~= out@ + replace_all(rest, placeholder@, word@));
            }
            out.append(word);
            i += p_len;
        } else {
            let c = template.get_char(i);
            proof {
                assert(rest[0] == template@[i as int]);
                assert(rest.skip(1) =~= template@.skip(i + 1));
                if p_len >= 1 {
                    if p_len <= t_len - i {
                        assert(rest.subrange(0, p_len as int) =~= template@.subrange(
                            i as int,
                            i + p_len as int,
                        ));
                        assert(!occurs_at(rest, placeholder@, 0));
                    } else {
                        assert(!occurs_at(rest, placeholder@, 0));
                    }
                    assert(replace_all(rest, placeholder@, word@) == seq![rest[0]] + replace_all(
                        rest.skip(1),
                        placeholder@,
                        word@,
                    ));
                } else {
                    assert(replace_all(rest, placeholder@, word@) =~= rest);
                    assert(replace_all(template@.skip(i + 1), placeholder@, word@) =~= template@.skip(
                        i + 1,
                    ));
                }
                assert((out@.push(c)) + replace_all(template@.skip(i + 1), placeholder@, word@)
                    =~= out@ + (seq![rest[0]] + replace_all(template@.skip(i + 1), placeholder@, word@)));
            }
            push_char(&mut out, c);
            i += 1;
        }
    }
    proof {
        assert(template@.skip(i as int) =~= Seq::<char>::empty());
        assert(out@ + Seq::<char>::empty() =~= out@);
    }
    out
}

/// Whether `placeholder` occurs in `template` at all; the configuration
/// check made once before any work begins.
pub fn contains_placeholder(template: &str, placeholder: &str) -> (b: bool)
    ensures
        b == has_occurrence(template@, placeholder@),
{
    let t_len = template.unicode_len();
    let p_len = placeholder.unicode_len();
    if p_len == 0 {
        proof {
            assert(template@.subrange(0, 0) =~= placeholder@);
            assert(occurs_at(template@, placeholder@, 0));
        }
        return true;
    }
    if p_len > t_len {
        proof {
            assert(forall|i: int| !occurs_at(template@, placeholder@, i));
        }
        return false;
    }
    let mut i: usize = 0;
    while i <= t_len - p_len
        invariant
            1 <= p_len <= t_len,
            i <= t_len - p_len + 1,
            t_len == template@.len(),
            p_len == placeholder@.len(),
            forall|k: int| 0 <= k < i ==> !occurs_at(template@, placeholder@, k),
        decreases t_len - p_len + 1 - i,
    {
        if matches_at(template, placeholder, i, t_len, p_len) {
            return true;
        }
        i += 1;
    }
    proof {
        assert(forall|k: int| k > t_len - p_len ==> !occurs_at(template@, placeholder@, k));
    }
    false
}

/// Substitution touches only occurrences of the placeholder: on a template
/// in which the placeholder does not occur, the output equals the input.
pub proof fn lemma_substitute_absent(t: Seq<char>, p: Seq<char>, w: Seq<char>)
    requires
        !has_occurrence(t, p),
    ensures
        replace_all(t, p, w) == t,
    decreases t.len(),
{
    if p.len() == 0 {
        assert(t.subrange(0, 0) =~= p);
        assert(occurs_at(t, p, 0));
    } else if t.len() == 0 {
    } else {
        assert(!occurs_at(t, p, 0));
        assert forall|j: int| !occurs_at(t.skip(1), p, j) by {
            if occurs_at(t.skip(1), p, j) {
                assert(t.skip(1).subrange(j, j + p.len() as int) =~= t.subrange(
                    j + 1,
                    j + 1 + p.len() as int,
                ));
                assert(occurs_at(t, p, j + 1));
            }
        }
        lemma_substitute_absent(t.skip(1), p, w);
        assert(seq![t[0]] + t.skip(1) =~= t);
    }
}

} // verus!
