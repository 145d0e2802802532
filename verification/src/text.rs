//! Verified text utilities: substring search, prefix tests and
//! concatenation, used by the verbosity policy (failure keywords) and the
//! event decoder (producer prefixes).

use vstd::prelude::*;
use vstd::string::StrSliceExecFns;
use vstd::string::StringExecFns;

verus! {

/// The needle `n` occurs in the haystack `h` at position `i`.
pub open spec fn contains_at(h: Seq<char>, n: Seq<char>, i: int) -> bool {
    &&& 0 <= i
    &&& i + n.len() <= h.len()
    &&& h.subrange(i, i + n.len() as int) == n
}

/// The needle `n` occurs somewhere in the haystack `h`.
pub open spec fn seq_contains(h: Seq<char>, n: Seq<char>) -> bool {
    exists|i: int| contains_at(h, n, i)
}

/// `p` is a prefix of `h`.
pub open spec fn is_prefix_of(h: Seq<char>, p: Seq<char>) -> bool {
    &&& p.len() <= h.len()
    &&& h.subrange(0, p.len() as int) == p
}

/// Compares `n` against the characters of `h` starting at position `i`.
fn chars_match_at(h: &str, n: &str, i: usize, h_len: usize, n_len: usize) -> (r: bool)
    requires
        h_len == h@.len(),
        n_len == n@.len(),
        i + n_len <= h_len,
    ensures
        r == contains_at(h@, n@, i as int),
{
    let mut j: usize = 0;
    while j < n_len
        invariant
            h_len == h@.len(),
            n_len == n@.len(),
            i + n_len <= h_len,
            j <= n_len,
            forall|k: int| 0 <= k < j ==> h@[i + k] == n@[k],
        decreases n_len - j,
    {
        if h.get_char(i + j) != n.get_char(j) {
            assert(!contains_at(h@, n@, i as int)) by {
                if h@.subrange(i as int, i + n@.len() as int) == n@ {
                    assert(h@.subrange(i as int, i + n@.len() as int)[j as int] == h@[i + j]);
                }
            }
            return false;
        }
        j += 1;
    }
    assert(h@.subrange(i as int, i + n@.len() as int) =~= n@);
    true
}

/// Whether `h` contains `n` as a contiguous run of characters.
pub fn text_contains(h: &str, n: &str) -> (r: bool)
    ensures
        r == seq_contains(h@, n@),
{
    let h_len = h.unicode_len();
    let n_len = n.unicode_len();
    if n_len > h_len {
        assert(forall|i: int| !contains_at(h@, n@, i));
        return false;
    }
    if n_len == 0 {
        assert(h@.subrange(0, 0) =~= n@);
        assert(contains_at(h@, n@, 0));
        return true;
    }
    let mut i: usize = 0;
    while i <= h_len - n_len
        invariant
            h_len == h@.len(),
            n_len == n@.len(),
            0 < n_len <= h_len,
            i <= h_len - n_len + 1,
            forall|k: int| 0 <= k < i ==> !contains_at(h@, n@, k),
        decreases h_len - n_len - i + 1,
    {
        if chars_match_at(h, n, i, h_len, n_len) {
            return true;
        }
        i += 1;
    }
    assert(forall|k: int| !contains_at(h@, n@, k)) by {
        assert(forall|k: int| k >= i ==> !contains_at(h@, n@, k));
    }
    false
}

/// Whether `h` starts with `p`.
pub fn str_starts_with(h: &str, p: &str) -> (r: bool)
    ensures
        r == is_prefix_of(h@, p@),
{
    let h_len = h.unicode_len();
    let p_len = p.unicode_len();
    if p_len > h_len {
        return false;
    }
    let r = chars_match_at(h, p, 0, h_len, p_len);
    assert(contains_at(h@, p@, 0) == is_prefix_of(h@, p@));
    r
}

/// Removes the prefix `p` from `h`, or reports that `h` does not start
/// with it.
pub fn strip_prefix_of<'a>(h: &'a str, p: &str) -> (r: Option<&'a str>)
    ensures
        match r {
            Some(rest) => is_prefix_of(h@, p@) && rest@ == h@.skip(p@.len() as int),
            None => !is_prefix_of(h@, p@),
        },
{
    let h_len = h.unicode_len();
    let p_len = p.unicode_len();
    if p_len > h_len {
        return None;
    }
    if chars_match_at(h, p, 0, h_len, p_len) {
        let rest = h.substring_char(p_len, h_len);
        assert(rest@ =~= h@.skip(p@.len() as int));
        Some(rest)
    } else {
        assert(contains_at(h@, p@, 0) == is_prefix_of(h@, p@));
        None
    }
}

/// Character-wise equality of two string slices.
pub fn str_eq(a: &str, b: &str) -> (r: bool)
    ensures
        r == (a@ == b@),
{
    let a_len = a.unicode_len();
    let b_len = b.unicode_len();
    if a_len != b_len {
        return false;
    }
    let r = chars_match_at(a, b, 0, a_len, b_len);
    if r {
        assert(a@ =~= b@);
    } else {
        assert(a@ != b@) by {
            if a@ == b@ {
                assert(a@.subrange(0, b@.len() as int) =~= b@);
            }
        }
    }
    r
}

/// Concatenation of two string slices into an owned string.
pub fn concat2(a: &str, b: &str) -> (r: String)
    ensures
        r@ == a@ + b@,
{
    let mut s = String::from_str(a);
    s.append(b);
    s
}

/// Concatenation of three string slices into an owned string.
pub fn concat3(a: &str, b: &str, c: &str) -> (r: String)
    ensures
        r@ == a@ + b@ + c@,
{
    let mut s = String::from_str(a);
    s.append(b);
    s.append(c);
    s
}

} // verus!
