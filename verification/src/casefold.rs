//! Case-insensitive text matching.
//!
//! Queries and candidate texts are folded to lowercase, then compared by
//! plain substring or suffix search.  The search itself is verified against
//! an exact definition; only the fold is taken from the standard library.

use vstd::prelude::*;

verus! {

/// The lowercase form of a character sequence, as `str::to_lowercase`
/// produces it.
pub uninterp spec fn lower_of(s: Seq<char>) -> Seq<char>;

/// Relies on str::to_lowercase: the lowercase equivalent of the slice,
/// a function of its characters alone.
#[verifier::external_body]
pub(crate) fn to_lowercase(s: &str) -> (r: String)
    ensures
        r@ == lower_of(s@),
{
    s.to_lowercase()
}

/// `needle` occurs in `hay` starting at position `i`.
pub open spec fn is_substring_at(hay: Seq<char>, needle: Seq<char>, i: int) -> bool {
    &&& 0 <= i
    &&& i + needle.len() <= hay.len()
    &&& hay.subrange(i, i + needle.len()) == needle
}

/// `needle` occurs somewhere in `hay`.
pub open spec fn has_substring(hay: Seq<char>, needle: Seq<char>) -> bool {
    exists|i: int| is_substring_at(hay, needle, i)
}

/// `suffix` ends `s`.
pub open spec fn has_suffix(s: Seq<char>, suffix: Seq<char>) -> bool {
    &&& suffix.len() <= s.len()
    &&& s.subrange(s.len() - suffix.len(), s.len() as int) == suffix
}

/// Does `needle` occur in `hay` exactly at position `i`?
fn match_at(hay: &str, needle: &str, i: usize) -> (r: bool)
    requires
        i + needle@.len() <= hay@.len(),
        hay@.len() <= usize::MAX,
    ensures
        r == is_substring_at(hay@, needle@, i as int),
{
    let m = needle.unicode_len();
    let mut j: usize = 0;
    while j < m
        invariant
            m == needle@.len(),
            i + m <= hay@.len(),
            hay@.len() <= usize::MAX,
            j <= m,
            forall|t: int| 0 <= t < j ==> hay@[i + t] == needle@[t],
        decreases m - j,
    {
        if hay.get_char(i + j) != needle.get_char(j) {
            proof {
                assert(hay@.subrange(i as int, i + m as int) == needle@ ==> hay@.subrange(
                    i as int,
                    i + m as int,
                )[j as int] == needle@[j as int]);
            }
            return false;
        }
        j = j + 1;
    }
    proof {
        assert(hay@.subrange(i as int, i + m as int) =~= needle@);
    }
    true
}

/// Plain substring search, character by character.
fn find_substring(hay: &str, needle: &str) -> (r: bool)
    ensures
        r == has_substring(hay@, needle@),
{
    let n = hay.unicode_len();
    let m = needle.unicode_len();
    if m > n {
        assert(!has_substring(hay@, needle@));
        return false;
    }
    if m == 0 {
        proof {
            assert(hay@.subrange(0, 0) =~= needle@);
            assert(is_substring_at(hay@, needle@, 0));
        }
        return true;
    }
    let mut i: usize = 0;
    while i <= n - m
        invariant
            1 <= m <= n,
            n == hay@.len(),
            m == needle@.len(),
            i <= n - m + 1,
            forall|k: int| 0 <= k < i ==> !is_substring_at(hay@, needle@, k),
        decreases n - m - i + 1,
    {
        if match_at(hay, needle, i) {
            return true;
        }
        i = i + 1;
    }
    proof {
        assert forall|k: int| #[trigger] is_substring_at(hay@, needle@, k) implies false by {
            assert(0 <= k <= n - m);
        }
    }
    false
}

/// Plain suffix check, character by character.
fn ends_with_chars(s: &str, suffix: &str) -> (r: bool)
    ensures
        r == has_suffix(s@, suffix@),
{
    let n = s.unicode_len();
    let m = suffix.unicode_len();
    if m > n {
        return false;
    }
    let mut j: usize = 0;
    while j < m
        invariant
            m <= n,
            n == s@.len(),
            m == suffix@.len(),
            j <= m,
            forall|t: int| 0 <= t < j ==> s@[n - m + t] == suffix@[t],
        decreases m - j,
    {
        if s.get_char(n - m + j) != suffix.get_char(j) {
            proof {
                assert(s@.subrange(n - m as int, n as int) == suffix@ ==> s@.subrange(
                    n - m as int,
                    n as int,
                )[j as int] == suffix@[j as int]);
            }
            return false;
        }
        j = j + 1;
    }
    proof {
        assert(s@.subrange(n - m as int, n as int) =~= suffix@);
    }
    true
}

/// Case-insensitive containment: both sides folded, then substring search.
pub open spec fn ci_contains(hay: Seq<char>, query: Seq<char>) -> bool {
    has_substring(lower_of(hay), lower_of(query))
}

pub fn contains_ci(hay: &str, query: &str) -> (r: bool)
    ensures
        r == ci_contains(hay@, query@),
{
    let h = to_lowercase(hay);
    let q = to_lowercase(query);
    find_substring(h.as_str(), q.as_str())
}

/// Does the folded form of `s` end in the (already lowercase) `suffix`?
pub open spec fn ci_has_suffix(s: Seq<char>, suffix: Seq<char>) -> bool {
    has_suffix(lower_of(s), suffix)
}

pub fn ends_with_ci(s: &str, suffix: &str) -> (r: bool)
    ensures
        r == ci_has_suffix(s@, suffix@),
{
    let l = to_lowercase(s);
    ends_with_chars(l.as_str(), suffix)
}

} // verus!
