//! Byte-level searching: first occurrence of a subsequence or of a single
//! byte.  The subsequence search is the sliding-window scan the request
//! parser uses to locate the header/body delimiter.

use vstd::prelude::*;

verus! {

/// True when `needle` occurs in `hay` starting at index `i`.
pub open spec fn match_at(hay: Seq<u8>, needle: Seq<u8>, i: int) -> bool {
    &&& 0 <= i
    &&& i + needle.len() <= hay.len()
    &&& hay.subrange(i, i + needle.len() as int) == needle
}

/// The least index at or after `i` where `needle` occurs in `hay`, or
/// `hay.len()` when it occurs nowhere at or after `i`.
pub open spec fn first_match_from(hay: Seq<u8>, needle: Seq<u8>, i: int) -> int
    decreases hay.len() - i,
{
    if i >= hay.len() {
        hay.len() as int
    } else if match_at(hay, needle, i) {
        i
    } else {
        first_match_from(hay, needle, i + 1)
    }
}

/// The least index where `needle` occurs in `hay`, or `hay.len()` when it
/// occurs nowhere.
pub open spec fn first_match(hay: Seq<u8>, needle: Seq<u8>) -> int {
    first_match_from(hay, needle, 0)
}

/// The least index at or after `i` holding byte `b`, or `s.len()` when no
/// index at or after `i` holds it.
pub open spec fn find_byte_from(s: Seq<u8>, b: u8, i: int) -> int
    decreases s.len() - i,
{
    if i >= s.len() {
        s.len() as int
    } else if s[i] == b {
        i
    } else {
        find_byte_from(s, b, i + 1)
    }
}

/// The least index holding byte `b`, or `s.len()` when none holds it.
pub open spec fn find_byte(s: Seq<u8>, b: u8) -> int {
    find_byte_from(s, b, 0)
}

/// Where the search starts in bounds, its result stays between the start and
/// the end of the sequence.
pub proof fn lemma_first_match_from_bounds(hay: Seq<u8>, needle: Seq<u8>, i: int)
    requires
        0 <= i <= hay.len(),
    ensures
        i <= first_match_from(hay, needle, i) <= hay.len(),
    decreases hay.len() - i,
{
    if i < hay.len() && !match_at(hay, needle, i) {
        lemma_first_match_from_bounds(hay, needle, i + 1);
    }
}

/// Same bounds for the single-byte search.
pub proof fn lemma_find_byte_from_bounds(s: Seq<u8>, b: u8, i: int)
    requires
        0 <= i <= s.len(),
    ensures
        i <= find_byte_from(s, b, i) <= s.len(),
    decreases s.len() - i,
{
    if i < s.len() && s[i] != b {
        lemma_find_byte_from_bounds(s, b, i + 1);
    }
}

/// Before the result of `find_byte_from`, no index holds the byte; at the
/// result, the byte stands, unless the search ran off the end.
pub proof fn lemma_find_byte_from_props(s: Seq<u8>, b: u8, i: int)
    requires
        0 <= i <= s.len(),
    ensures
        i <= find_byte_from(s, b, i) <= s.len(),
        forall|j: int| i <= j < find_byte_from(s, b, i) ==> s[j] != b,
        find_byte_from(s, b, i) < s.len() ==> s[find_byte_from(s, b, i)] == b,
    decreases s.len() - i,
{
    if i < s.len() && s[i] != b {
        lemma_find_byte_from_props(s, b, i + 1);
    }
}

/// Checks whether `needle` occurs in `hay` at index `i`.
fn is_match_at(hay: &[u8], needle: &[u8], i: usize) -> (r: bool)
    requires
        i + needle@.len() <= hay@.len(),
    ensures
        r == match_at(hay@, needle@, i as int),
{
    let n = needle.len();
    let m = hay.len();
    let mut j: usize = 0;
    while j < n
        invariant
            j <= n,
            n == needle@.len(),
            m == hay@.len(),
            i + n <= m,
            forall|k: int| 0 <= k < j ==> hay@[i + k] == needle@[k],
        decreases n - j,
    {
        if hay[i + j] != needle[j] {
            proof {
                assert(hay@.subrange(i as int, i + n as int)[j as int] == hay@[i + j]);
            }
            return false;
        }
        j += 1;
    }
    proof {
        assert(hay@.subrange(i as int, i + n as int) =~= needle@);
    }
    true
}

/// The linear sliding-window search for the first occurrence of `needle` in
/// `hay`; returns `hay.len()` when there is none.
pub fn find_subsequence(hay: &[u8], needle: &[u8]) -> (r: usize)
    ensures
        r as int == first_match(hay@, needle@),
{
    let n = hay.len();
    let mut i: usize = 0;
    while i < n
        invariant
            i <= n,
            n == hay@.len(),
            first_match(hay@, needle@) == first_match_from(hay@, needle@, i as int),
        decreases n - i,
    {
        if needle.len() <= n - i {
            if is_match_at(hay, needle, i) {
                return i;
            }
        }
        i += 1;
    }
    n
}

/// The first index at or after `from` holding byte `b`; returns `s.len()`
/// when no index at or after `from` holds it.
pub fn find_byte_at(s: &[u8], b: u8, from: usize) -> (r: usize)
    requires
        from <= s@.len(),
    ensures
        r as int == find_byte_from(s@, b, from as int),
{
    let n = s.len();
    let mut i: usize = from;
    while i < n
        invariant
            from <= i <= n,
            n == s@.len(),
            find_byte_from(s@, b, from as int) == find_byte_from(s@, b, i as int),
        decreases n - i,
    {
        if s[i] == b {
            return i;
        }
        i += 1;
    }
    n
}

} // verus!
