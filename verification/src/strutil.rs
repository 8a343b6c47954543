//! Verified string predicates used by the classifier and the argument
//! policies — equality, prefix tests and substring search over `&str` —
//! and two small lemmas relating a vector's element-wise view to pushes
//! and prepends.

use vstd::prelude::*;

verus! {

/// `needle` occurs in `hay` starting at position `i`.
pub open spec fn contains_at(hay: Seq<char>, needle: Seq<char>, i: int) -> bool {
    0 <= i && i + needle.len() <= hay.len() && hay.subrange(i, i + needle.len()) == needle
}

/// `needle` occurs somewhere in `hay`.
pub open spec fn seq_contains(hay: Seq<char>, needle: Seq<char>) -> bool {
    exists|i: int| contains_at(hay, needle, i)
}

/// `s` begins with `prefix`.
pub open spec fn starts_with_spec(s: Seq<char>, prefix: Seq<char>) -> bool {
    prefix.len() <= s.len() && s.subrange(0, prefix.len() as int) == prefix
}

/// Pushing one element onto a vector pushes its view onto the vector's
/// view.
pub proof fn lemma_deep_view_push<T: DeepView>(pre: Vec<T>, post: Vec<T>, x: T)
    requires
        post@ == pre@.push(x),
    ensures
        post.deep_view() == pre.deep_view().push(x.deep_view()),
{
    assert(post.deep_view() =~= pre.deep_view().push(x.deep_view()));
}

/// Prepending one element to a vector prepends its view to the vector's
/// view.
pub proof fn lemma_deep_view_prepend<T: DeepView>(pre: Vec<T>, post: Vec<T>, x: T)
    requires
        post@ == seq![x] + pre@,
    ensures
        post.deep_view() == seq![x.deep_view()] + pre.deep_view(),
{
    assert(post.deep_view() =~= seq![x.deep_view()] + pre.deep_view());
}

/// Character-for-character equality of two string slices.
pub fn str_eq(a: &str, b: &str) -> (r: bool)
    ensures
        r == (a@ == b@),
{
    let alen = a.unicode_len();
    let blen = b.unicode_len();
    if alen != blen {
        assert(a@ != b@) by {
            assert(a@.len() != b@.len());
        }
        return false;
    }
    let mut i: usize = 0;
    while i < alen
        invariant
            i <= alen,
            alen == a@.len(),
            alen == b@.len(),
            forall|j: int| 0 <= j < i ==> a@[j] == b@[j],
        decreases alen - i,
    {
        if a.get_char(i) != b.get_char(i) {
            return false;
        }
        i += 1;
    }
    proof {
        assert(a@ =~= b@);
    }
    true
}

/// Does `s` start with `prefix`?
pub fn str_starts_with(s: &str, prefix: &str) -> (r: bool)
    ensures
        r == starts_with_spec(s@, prefix@),
{
    let slen = s.unicode_len();
    let plen = prefix.unicode_len();
    if plen > slen {
        return false;
    }
    let mut i: usize = 0;
    while i < plen
        invariant
            i <= plen,
            plen <= slen,
            slen == s@.len(),
            plen == prefix@.len(),
            forall|j: int| 0 <= j < i ==> s@[j] == prefix@[j],
        decreases plen - i,
    {
        if s.get_char(i) != prefix.get_char(i) {
            assert(!starts_with_spec(s@, prefix@)) by {
                assert(s@.subrange(0, prefix@.len() as int)[i as int] == s@[i as int]);
            }
            return false;
        }
        i += 1;
    }
    proof {
        assert(s@.subrange(0, prefix@.len() as int) =~= prefix@);
    }
    true
}

/// Does `needle` occur at position `at` of `hay`? Helper for `str_contains`.
fn matches_at(hay: &str, needle: &str, at: usize) -> (r: bool)
    requires
        at + needle@.len() <= hay@.len(),
        hay@.len() <= usize::MAX,
    ensures
        r == contains_at(hay@, needle@, at as int),
{
    let nlen = needle.unicode_len();
    let mut i: usize = 0;
    while i < nlen
        invariant
            i <= nlen,
            nlen == needle@.len(),
            at + nlen <= hay@.len(),
            hay@.len() <= usize::MAX,
            forall|j: int| 0 <= j < i ==> hay@[at + j] == needle@[j],
        decreases nlen - i,
    {
        if hay.get_char(at + i) != needle.get_char(i) {
            assert(!contains_at(hay@, needle@, at as int)) by {
                assert(hay@.subrange(at as int, at + needle@.len())[i as int]
                    == hay@[at + i]);
            }
            return false;
        }
        i += 1;
    }
    proof {
        assert(hay@.subrange(at as int, at + needle@.len()) =~= needle@);
    }
    true
}

/// Does `needle` occur anywhere in `hay`?
pub fn str_contains(hay: &str, needle: &str) -> (r: bool)
    ensures
        r == seq_contains(hay@, needle@),
{
    let hlen = hay.unicode_len();
    let nlen = needle.unicode_len();
    if nlen > hlen {
        assert(!seq_contains(hay@, needle@));
        return false;
    }
    if nlen == 0 {
        proof {
            assert(hay@.subrange(0, 0) =~= needle@);
            assert(contains_at(hay@, needle@, 0));
        }
        return true;
    }
    let mut at: usize = 0;
    while at <= hlen - nlen
        invariant
            0 < nlen <= hlen,
            hlen == hay@.len(),
            nlen == needle@.len(),
            at <= hlen - nlen + 1,
            forall|j: int| 0 <= j < at ==> !contains_at(hay@, needle@, j),
        decreases hlen - nlen + 1 - at,
    {
        if matches_at(hay, needle, at) {
            return true;
        }
        at += 1;
    }
    assert(!seq_contains(hay@, needle@)) by {
        assert(forall|j: int| contains_at(hay@, needle@, j) ==> 0 <= j <= hay@.len() - needle@.len());
    }
    false
}

} // verus!
