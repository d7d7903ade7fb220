//! Small verified helpers on strings: prefix and substring tests over the
//! character-sequence view, used by pack selection and path exclusion.

use vstd::prelude::*;

verus! {

/// `pre` is an initial segment of `s`.
pub open spec fn is_prefix_of(pre: Seq<char>, s: Seq<char>) -> bool {
    pre.len() <= s.len() && s.subrange(0, pre.len() as int) == pre
}

/// `n` occurs somewhere in `h` as a contiguous run of characters.
pub open spec fn contains_seq(h: Seq<char>, n: Seq<char>) -> bool {
    exists|i: int|
        0 <= i && i + n.len() <= h.len() && #[trigger] h.subrange(i, i + n.len() as int) == n
}

/// Whether `pre` is a prefix of `s`, decided character by character.
pub fn starts_with_str(s: &str, pre: &str) -> (r: bool)
    ensures
        r == is_prefix_of(pre@, s@),
{
    let n = pre.unicode_len();
    if n > s.unicode_len() {
        return false;
    }
    let mut j: usize = 0;
    while j < n
        invariant
            j <= n,
            n == pre@.len() <= s@.len(),
            forall|k: int| 0 <= k < j ==> s@[k] == pre@[k],
        decreases n - j,
    {
        if s.get_char(j) != pre.get_char(j) {
            assert(s@.subrange(0, n as int) != pre@) by {
                assert(s@.subrange(0, n as int)[j as int] == s@[j as int]);
            }
            return false;
        }
        j += 1;
    }
    assert(s@.subrange(0, n as int) =~= pre@);
    true
}

/// Whether `h` matches `n` starting at position `i`.
fn matches_at(h: &str, n: &str, i: usize) -> (r: bool)
    requires
        i + n@.len() <= h@.len() <= usize::MAX,
    ensures
        r == (h@.subrange(i as int, i + n@.len() as int) == n@),
{
    let len = n.unicode_len();
    let mut j: usize = 0;
    while j < len
        invariant
            j <= len,
            len == n@.len(),
            i + len <= h@.len() <= usize::MAX,
            forall|k: int| 0 <= k < j ==> h@[i + k] == n@[k],
        decreases len - j,
    {
        if h.get_char(i + j) != n.get_char(j) {
            assert(h@.subrange(i as int, i + n@.len() as int) != n@) by {
                assert(h@.subrange(i as int, i + n@.len() as int)[j as int] == h@[i + j]);
            }
            return false;
        }
        j += 1;
    }
    assert(h@.subrange(i as int, i + n@.len() as int) =~= n@);
    true
}

/// Whether `n` occurs anywhere in `h`, by scanning every start position.
pub fn contains_str(h: &str, n: &str) -> (r: bool)
    ensures
        r == contains_seq(h@, n@),
{
    let nlen = n.unicode_len();
    let hlen = h.unicode_len();
    if nlen > hlen {
        assert(!contains_seq(h@, n@));
        return false;
    }
    if nlen == 0 {
        assert(h@.subrange(0, 0 + n@.len() as int) =~= n@);
        assert(contains_seq(h@, n@));
        return true;
    }
    let last = hlen - nlen;
    let mut i: usize = 0;
    while i <= last
        invariant
            0 < n@.len(),
            last == h@.len() - n@.len() < h@.len() <= usize::MAX,
            i <= last + 1,
            forall|k: int|
                0 <= k < i ==> #[trigger] h@.subrange(k, k + n@.len() as int) != n@,
        decreases last + 1 - i,
    {
        if matches_at(h, n, i) {
            assert(contains_seq(h@, n@));
            return true;
        }
        i += 1;
    }
    assert(!contains_seq(h@, n@));
    false
}

} // verus!
