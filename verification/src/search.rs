//! Exact substring search over byte buffers.
//!
//! Signature matching is an exact substring match anywhere in the buffer:
//! no wildcards, no regular expressions.

use vstd::prelude::*;

verus! {

/// The needle occurs in the haystack starting at index `i`.
pub open spec fn is_match_at(hay: Seq<u8>, needle: Seq<u8>, i: int) -> bool {
    0 <= i && i + needle.len() <= hay.len() && hay.subrange(i, i + needle.len() as int) == needle
}

/// The needle occurs somewhere in the haystack.  An empty needle never
/// counts as occurring: an empty signature matches nothing.
pub open spec fn contains_seq(hay: Seq<u8>, needle: Seq<u8>) -> bool {
    needle.len() > 0 && exists|i: int| is_match_at(hay, needle, i)
}

/// The needle occurs at `i` and nowhere earlier.
pub open spec fn is_first_match_at(hay: Seq<u8>, needle: Seq<u8>, i: int) -> bool {
    is_match_at(hay, needle, i) && forall|j: int| 0 <= j < i ==> !is_match_at(hay, needle, j)
}

/// There is at most one first match.
pub proof fn lemma_first_match_unique(hay: Seq<u8>, needle: Seq<u8>, i: int, j: int)
    requires
        is_first_match_at(hay, needle, i),
        is_first_match_at(hay, needle, j),
    ensures
        i == j,
{
    if i < j {
        assert(!is_match_at(hay, needle, i));
    } else if j < i {
        assert(!is_match_at(hay, needle, j));
    }
}

/// Every occurrence has a first occurrence at or before it.
pub proof fn lemma_first_match_exists(hay: Seq<u8>, needle: Seq<u8>, i: int)
    requires
        is_match_at(hay, needle, i),
    ensures
        exists|j: int| is_first_match_at(hay, needle, j),
    decreases i,
{
    if exists|j: int| 0 <= j < i && is_match_at(hay, needle, j) {
        let j = choose|j: int| 0 <= j < i && is_match_at(hay, needle, j);
        lemma_first_match_exists(hay, needle, j);
    } else {
        assert(is_first_match_at(hay, needle, i));
    }
}

/// Whether the two byte slices hold the same bytes.
pub fn bytes_eq(a: &[u8], b: &[u8]) -> (r: bool)
    ensures
        r == (a@ == b@),
{
    if a.len() != b.len() {
        assert(a@ != b@) by {
            assert(a@.len() != b@.len());
        }
        return false;
    }
    let n = a.len();
    let mut k: usize = 0;
    while k < n
        invariant
            n == a@.len() == b@.len(),
            0 <= k <= n,
            forall|t: int| 0 <= t < k ==> a@[t] == b@[t],
        decreases n - k,
    {
        if a[k] != b[k] {
            return false;
        }
        k = k + 1;
    }
    proof {
        assert(a@ =~= b@);
    }
    true
}

/// Whether the needle occurs starting exactly at `i`.
fn matches_at(hay: &[u8], needle: &[u8], i: usize) -> (r: bool)
    requires
        i + needle@.len() <= hay@.len(),
    ensures
        r == is_match_at(hay@, needle@, i as int),
{
    let n = needle.len();
    let hl = hay.len();
    let mut k: usize = 0;
    while k < n
        invariant
            n == needle@.len(),
            hl == hay@.len(),
            i + n <= hl,
            0 <= k <= n,
            forall|t: int| 0 <= t < k ==> hay@[i + t] == needle@[t],
        decreases n - k,
    {
        if hay[i + k] != needle[k] {
            assert(!is_match_at(hay@, needle@, i as int)) by {
                assert(hay@.subrange(i as int, i + needle@.len() as int)[k as int] == hay@[i + k]);
            }
            return false;
        }
        k = k + 1;
    }
    proof {
        assert(hay@.subrange(i as int, i + needle@.len() as int) =~= needle@);
    }
    true
}

/// Index of the earliest occurrence of `needle` in `haystack`, if any.
/// An empty needle is never found.
pub fn bytes_search(haystack: &[u8], needle: &[u8]) -> (r: Option<usize>)
    ensures
        match r {
            Some(i) => is_first_match_at(haystack@, needle@, i as int) && needle@.len() > 0,
            None => !contains_seq(haystack@, needle@),
        },
{
    let len = needle.len();
    if len == 0 || len > haystack.len() {
        proof {
            if needle@.len() > 0 {
                assert(forall|i: int| !is_match_at(haystack@, needle@, i));
            }
        }
        return None;
    }
    let last = haystack.len() - len;
    let mut i: usize = 0;
    while i <= last
        invariant
            needle@.len() == len > 0,
            last + len == haystack@.len(),
            last < usize::MAX,
            0 <= i <= last + 1,
            forall|j: int| 0 <= j < i ==> !is_match_at(haystack@, needle@, j),
        decreases last + 1 - i,
    {
        if matches_at(haystack, needle, i) {
            return Some(i);
        }
        i = i + 1;
    }
    proof {
        assert(forall|j: int| 0 <= j ==> !is_match_at(haystack@, needle@, j)) by {
            assert(forall|j: int| j > last ==> !is_match_at(haystack@, needle@, j));
        }
    }
    None
}

/// Whether `needle` occurs anywhere in `haystack`.  An empty needle is
/// never contained.
pub fn bytes_contains(haystack: &[u8], needle: &[u8]) -> (r: bool)
    ensures
        r == contains_seq(haystack@, needle@),
{
    match bytes_search(haystack, needle) {
        Some(_) => true,
        None => false,
    }
}

} // verus!
