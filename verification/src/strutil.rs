//! Searching within strings: substring containment and first occurrences,
//! stated over character sequences.

use vstd::prelude::*;

verus! {

/// Whether `needle` occurs in `hay` starting at position `i`.
pub open spec fn matches_at(hay: Seq<char>, needle: Seq<char>, i: int) -> bool {
    0 <= i && i + needle.len() <= hay.len() && hay.subrange(i, i + needle.len()) == needle
}

/// Whether `needle` occurs anywhere in `hay`.
pub open spec fn has_substr(hay: Seq<char>, needle: Seq<char>) -> bool {
    exists|i: int| matches_at(hay, needle, i)
}

/// Whether `i` is the first occurrence of `needle` in `hay`.
pub open spec fn is_first_match(hay: Seq<char>, needle: Seq<char>, i: int) -> bool {
    matches_at(hay, needle, i) && forall|j: int| 0 <= j < i ==> !matches_at(hay, needle, j)
}

/// Whether `hay[i]` is the first occurrence of the character `c` at or
/// after position `from` and before position `to`.
pub open spec fn is_first_char_between(
    hay: Seq<char>,
    c: char,
    from: int,
    to: int,
    i: int,
) -> bool {
    from <= i < to && hay[i] == c && forall|j: int| from <= j < i ==> hay[j] != c
}

/// Whether `needle` occurs in `hay` starting at position `i`, checked
/// character by character.
fn check_match_at(hay: &str, needle: &str, i: usize) -> (r: bool)
    requires
        i + needle@.len() <= hay@.len(),
    ensures
        r == matches_at(hay@, needle@, i as int),
{
    let hlen = hay.unicode_len();
    let n = needle.unicode_len();
    let mut j: usize = 0;
    while j < n
        invariant
            0 <= j <= n,
            n == needle@.len(),
            hlen == hay@.len(),
            i + n <= hlen,
            forall|k: int| 0 <= k < j ==> hay@[i + k] == needle@[k],
        decreases n - j,
    {
        if hay.get_char(i + j) != needle.get_char(j) {
            proof {
                assert(hay@.subrange(i as int, i + needle@.len())[j as int] != needle@[j as int]);
            }
            return false;
        }
        j = j + 1;
    }
    proof {
        assert(hay@.subrange(i as int, i + needle@.len()) =~= needle@);
    }
    true
}

/// Whether `needle` occurs anywhere in `hay`.
pub fn str_contains(hay: &str, needle: &str) -> (r: bool)
    ensures
        r == has_substr(hay@, needle@),
{
    let hl = hay.unicode_len();
    let nl = needle.unicode_len();
    if nl > hl {
        return false;
    }
    if nl == 0 {
        proof {
            assert(hay@.subrange(0, 0) =~= needle@);
            assert(matches_at(hay@, needle@, 0));
        }
        return true;
    }
    let mut i: usize = 0;
    while i <= hl - nl
        invariant
            hl == hay@.len(),
            nl == needle@.len(),
            1 <= nl <= hl,
            0 <= i <= hl - nl + 1,
            forall|j: int| 0 <= j < i ==> !matches_at(hay@, needle@, j),
        decreases hl - i,
    {
        if check_match_at(hay, needle, i) {
            return true;
        }
        i = i + 1;
    }
    false
}

/// The first occurrence of `needle` in `hay`, if any.
pub fn find_str(hay: &str, needle: &str) -> (r: Option<usize>)
    ensures
        match r {
            Some(i) => is_first_match(hay@, needle@, i as int),
            None => !has_substr(hay@, needle@),
        },
{
    let hl = hay.unicode_len();
    let nl = needle.unicode_len();
    if nl > hl {
        return None;
    }
    if nl == 0 {
        proof {
            assert(hay@.subrange(0, 0) =~= needle@);
            assert(matches_at(hay@, needle@, 0));
        }
        return Some(0);
    }
    let mut i: usize = 0;
    while i <= hl - nl
        invariant
            hl == hay@.len(),
            nl == needle@.len(),
            1 <= nl <= hl,
            0 <= i <= hl - nl + 1,
            forall|j: int| 0 <= j < i ==> !matches_at(hay@, needle@, j),
        decreases hl - i,
    {
        if check_match_at(hay, needle, i) {
            return Some(i);
        }
        i = i + 1;
    }
    None
}

/// The first occurrence of the character `c` in `hay` at or after `from`
/// and before `to`, if any.
pub fn find_char_between(hay: &str, c: char, from: usize, to: usize) -> (r: Option<usize>)
    requires
        from <= to <= hay@.len(),
    ensures
        match r {
            Some(i) => is_first_char_between(hay@, c, from as int, to as int, i as int),
            None => forall|j: int| from <= j < to ==> hay@[j] != c,
        },
{
    let mut i: usize = from;
    while i < to
        invariant
            from <= i <= to <= hay@.len(),
            forall|j: int| from <= j < i ==> hay@[j] != c,
        decreases to - i,
    {
        if hay.get_char(i) == c {
            return Some(i);
        }
        i = i + 1;
    }
    None
}

} // verus!
