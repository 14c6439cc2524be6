//! Character-level string predicates and their executable checks.

use vstd::prelude::*;
use vstd::string::*;

verus! {

/// `suf` is a suffix of `s`.
pub open spec fn ends_with<A>(s: Seq<A>, suf: Seq<A>) -> bool {
    suf.len() <= s.len() && s.subrange(s.len() - suf.len(), s.len() as int) == suf
}

/// `pre` is a prefix of `s`.
pub open spec fn starts_with<A>(s: Seq<A>, pre: Seq<A>) -> bool {
    pre.len() <= s.len() && s.subrange(0, pre.len() as int) == pre
}

/// `pat` occurs in `s` starting at position `i`.
pub open spec fn occurs_at<A>(s: Seq<A>, pat: Seq<A>, i: int) -> bool {
    0 <= i && i + pat.len() <= s.len() && s.subrange(i, i + pat.len()) == pat
}

/// `pat` occurs somewhere in `s`.
pub open spec fn contains<A>(s: Seq<A>, pat: Seq<A>) -> bool {
    exists|i: int| occurs_at(s, pat, i)
}

/// Code point of a character after ASCII lower-casing.
pub open spec fn lower_code(c: char) -> u32 {
    if 'A' <= c && c <= 'Z' {
        (c as u32 + 32) as u32
    } else {
        c as u32
    }
}

/// Code points of a character sequence.
pub open spec fn codes(s: Seq<char>) -> Seq<u32> {
    s.map_values(|c: char| c as u32)
}

/// Code points of a character sequence after ASCII lower-casing.
pub open spec fn lower_codes(s: Seq<char>) -> Seq<u32> {
    s.map_values(|c: char| lower_code(c))
}

/// Decides whether `pat` occurs in `s` at position `i`.
pub fn occurs_at_exec(s: &str, pat: &str, i: usize) -> (r: bool)
    ensures
        r == occurs_at(s@, pat@, i as int),
{
    let n = s.unicode_len();
    let m = pat.unicode_len();
    if m > n || i > n - m {
        return false;
    }
    let mut k: usize = 0;
    while k < m
        invariant
            n == s@.len(),
            m == pat@.len(),
            i + m <= n,
            k <= m,
            forall|j: int| 0 <= j < k ==> s@[i + j] == pat@[j],
        decreases m - k,
    {
        if s.get_char(i + k) != pat.get_char(k) {
            assert(s@.subrange(i as int, i + m)[k as int] != pat@[k as int]);
            return false;
        }
        k = k + 1;
    }
    assert(s@.subrange(i as int, i + m) =~= pat@);
    true
}

/// Decides whether `s` ends with `suf`.
pub fn ends_with_exec(s: &str, suf: &str) -> (r: bool)
    ensures
        r == ends_with(s@, suf@),
{
    let n = s.unicode_len();
    let m = suf.unicode_len();
    if m > n {
        return false;
    }
    occurs_at_exec(s, suf, n - m)
}

/// Decides whether the two strings hold the same characters.
pub fn str_eq(a: &str, b: &str) -> (r: bool)
    ensures
        r == (a@ == b@),
{
    let n = a.unicode_len();
    let m = b.unicode_len();
    if n != m {
        return false;
    }
    let r = occurs_at_exec(a, b, 0);
    assert(a@ =~= a@.subrange(0, n as int));
    r
}

/// Decides whether `pat` occurs anywhere in `s`.
pub fn contains_exec(s: &str, pat: &str) -> (r: bool)
    ensures
        r == contains(s@, pat@),
{
    let n = s.unicode_len();
    let m = pat.unicode_len();
    if m > n {
        return false;
    }
    let mut i: usize = 0;
    loop
        invariant
            n == s@.len(),
            m == pat@.len(),
            m <= n,
            i <= n - m,
            forall|j: int| 0 <= j < i ==> !occurs_at(s@, pat@, j),
        ensures
            forall|j: int| 0 <= j <= n - m ==> !occurs_at(s@, pat@, j),
        decreases n - m - i,
    {
        if occurs_at_exec(s, pat, i) {
            return true;
        }
        if i == n - m {
            break;
        }
        i = i + 1;
    }
    assert forall|j: int| !occurs_at(s@, pat@, j) by {
        if 0 <= j <= n - m {
        }
    }
    false
}

/// Decides whether `pat` occurs at position `i` of `s` once `s` is ASCII lower-cased.
pub fn lower_occurs_at_exec(s: &str, pat: &str, i: usize) -> (r: bool)
    ensures
        r == occurs_at(lower_codes(s@), codes(pat@), i as int),
{
    let n = s.unicode_len();
    let m = pat.unicode_len();
    if m > n || i > n - m {
        return false;
    }
    let mut k: usize = 0;
    while k < m
        invariant
            n == s@.len(),
            m == pat@.len(),
            i + m <= n,
            k <= m,
            forall|j: int| 0 <= j < k ==> lower_code(s@[i + j]) == pat@[j] as u32,
        decreases m - k,
    {
        let c = s.get_char(i + k);
        let lc: u32 = if 'A' <= c && c <= 'Z' { c as u32 + 32 } else { c as u32 };
        if lc != pat.get_char(k) as u32 {
            assert(lower_codes(s@).subrange(i as int, i + m)[k as int] != codes(pat@)[k as int]);
            return false;
        }
        k = k + 1;
    }
    assert(lower_codes(s@).subrange(i as int, i + m) =~= codes(pat@));
    true
}

/// Decides whether `s`, ASCII lower-cased, ends with `suf`.
pub fn lower_ends_with_exec(s: &str, suf: &str) -> (r: bool)
    ensures
        r == ends_with(lower_codes(s@), codes(suf@)),
{
    let n = s.unicode_len();
    let m = suf.unicode_len();
    if m > n {
        return false;
    }
    lower_occurs_at_exec(s, suf, n - m)
}

/// Decides whether `s`, ASCII lower-cased, starts with `pre`.
pub fn lower_starts_with_exec(s: &str, pre: &str) -> (r: bool)
    ensures
        r == starts_with(lower_codes(s@), codes(pre@)),
{
    lower_occurs_at_exec(s, pre, 0)
}

/// Decides whether `s`, ASCII lower-cased, is exactly `t`.
pub fn lower_eq_exec(s: &str, t: &str) -> (r: bool)
    ensures
        r == (lower_codes(s@) == codes(t@)),
{
    let n = s.unicode_len();
    let m = t.unicode_len();
    if n != m {
        assert(lower_codes(s@).len() != codes(t@).len());
        return false;
    }
    let r = lower_occurs_at_exec(s, t, 0);
    assert(lower_codes(s@) =~= lower_codes(s@).subrange(0, n as int));
    r
}

/// Decides whether `pat` occurs anywhere in `s` once `s` is ASCII lower-cased.
pub fn lower_contains_exec(s: &str, pat: &str) -> (r: bool)
    ensures
        r == contains(lower_codes(s@), codes(pat@)),
{
    let n = s.unicode_len();
    let m = pat.unicode_len();
    if m > n {
        return false;
    }
    let mut i: usize = 0;
    loop
        invariant
            n == s@.len(),
            m == pat@.len(),
            m <= n,
            i <= n - m,
            forall|j: int| 0 <= j < i ==> !occurs_at(lower_codes(s@), codes(pat@), j),
        ensures
            forall|j: int| 0 <= j <= n - m ==> !occurs_at(lower_codes(s@), codes(pat@), j),
        decreases n - m - i,
    {
        if lower_occurs_at_exec(s, pat, i) {
            return true;
        }
        if i == n - m {
            break;
        }
        i = i + 1;
    }
    assert forall|j: int| !occurs_at(lower_codes(s@), codes(pat@), j) by {
        if 0 <= j <= n - m {
        }
    }
    false
}

/// What `str::trim` leaves of a string.
pub uninterp spec fn trim_of(s: Seq<char>) -> Seq<char>;

/// Relies on `str::trim`: the string without leading and trailing white space.
#[verifier::external_body]
pub(crate) fn trim(s: &str) -> (r: &str)
    ensures
        r@ == trim_of(s@),
{
    s.trim()
}

/// A character after ASCII lower-casing.
pub open spec fn ascii_lower_char(c: char) -> char {
    if 'A' <= c && c <= 'Z' {
        ((c as u8) + 32) as char
    } else {
        c
    }
}

/// A string after ASCII lower-casing.
pub open spec fn ascii_lower(s: Seq<char>) -> Seq<char> {
    s.map_values(|c: char| ascii_lower_char(c))
}

/// Relies on `str::to_ascii_lowercase`: ASCII upper-case letters become
/// lower-case, every other character stays.
#[verifier::external_body]
pub(crate) fn ascii_lowercase(s: &str) -> (r: String)
    ensures
        r@ == ascii_lower(s@),
{
    s.to_ascii_lowercase()
}

} // verus!
