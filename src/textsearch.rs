//! Substring search and splitting on a separator.
use vstd::prelude::*;

verus! {

/// `needle` occurs in `hay` at position `i`.
pub open spec fn occurs_at(hay: Seq<char>, needle: Seq<char>, i: int) -> bool {
    0 <= i && i + needle.len() <= hay.len() && hay.subrange(i, i + needle.len()) == needle
}

/// `needle` occurs somewhere in `hay`.
pub open spec fn has_substring(hay: Seq<char>, needle: Seq<char>) -> bool {
    exists|i: int| #[trigger] occurs_at(hay, needle, i)
}

fn occurs_at_exec(hay: &str, needle: &str, i: usize) -> (r: bool)
    requires
        i + needle@.len() <= hay@.len(),
    ensures
        r == occurs_at(hay@, needle@, i as int),
{
    let n = needle.unicode_len();
    let h = hay.unicode_len();
    let mut k: usize = 0;
    while k < n
        invariant
            n == needle@.len(),
            h == hay@.len(),
            i + n <= hay@.len(),
            k <= n,
            forall|j: int| 0 <= j < k ==> hay@[i + j] == needle@[j],
        decreases n - k,
    {
        if hay.get_char(i + k) != needle.get_char(k) {
            assert(hay@.subrange(i as int, i + n)[k as int] != needle@[k as int]);
            return false;
        }
        k = k + 1;
    }
    assert(hay@.subrange(i as int, i + n) =~= needle@);
    true
}

/// Whether `needle` occurs in `hay`.
pub fn contains(hay: &str, needle: &str) -> (r: bool)
    ensures
        r == has_substring(hay@, needle@),
{
    let h = hay.unicode_len();
    let n = needle.unicode_len();
    if n > h {
        return false;
    }
    if n == 0 {
        assert(hay@.subrange(0, 0) =~= needle@);
        assert(occurs_at(hay@, needle@, 0));
        return true;
    }
    let mut i: usize = 0;
    while i <= h - n
        invariant
            h == hay@.len(),
            n == needle@.len(),
            0 < n <= h,
            i <= h - n + 1,
            forall|j: int| 0 <= j < i ==> !occurs_at(hay@, needle@, j),
        decreases h - n + 1 - i,
    {
        if occurs_at_exec(hay, needle, i) {
            return true;
        }
        i = i + 1;
    }
    proof {
        assert forall|j: int| !(#[trigger] occurs_at(hay@, needle@, j)) by {
            if 0 <= j && j + n <= h {
                assert(j < i);
            }
        }
    }
    false
}

/// `i` is the first position of `c` in `s`, or `s.len()` where `c` does not occur.
pub open spec fn is_first_of(s: Seq<char>, c: char, i: int) -> bool {
    &&& 0 <= i <= s.len()
    &&& (i < s.len() ==> s[i] == c)
    &&& forall|j: int| 0 <= j < i ==> s[j] != c
}

/// The text before the first `c`, or all of `s` where `c` does not occur.
pub open spec fn before_first(s: Seq<char>, c: char) -> Seq<char> {
    s.subrange(0, choose|i: int| is_first_of(s, c, i))
}

proof fn lemma_first_of_unique(s: Seq<char>, c: char, i: int)
    requires
        is_first_of(s, c, i),
    ensures
        before_first(s, c) == s.subrange(0, i),
{
    let k = choose|k: int| is_first_of(s, c, k);
    assert(is_first_of(s, c, k));
    if k < i {
        assert(s[k] != c);
    } else if i < k {
        assert(s[i] != c);
    }
}

/// The text before the first `c` in `s`.
pub fn segment_before(s: &str, c: char) -> (r: &str)
    ensures
        r@ == before_first(s@, c),
{
    let len = s.unicode_len();
    let mut i: usize = 0;
    let mut found = false;
    while i < len && !found
        invariant
            len == s@.len(),
            i <= len,
            found ==> i < len && s@[i as int] == c,
            forall|j: int| 0 <= j < i ==> s@[j] != c,
        decreases len - i + (if found { 0int } else { 1int }),
    {
        if s.get_char(i) == c {
            found = true;
        } else {
            i = i + 1;
        }
    }
    proof {
        lemma_first_of_unique(s@, c, i as int);
    }
    s.substring_char(0, i)
}

} // verus!
