//! Ordering of cached version directory names.
//!
//! A name is read as a dot-separated list of numeric components (`1.24.1`,
//! `1.24.1.post1`); names are ordered by those components, missing ones
//! counting as zero, and then by their characters.

use std::cmp::Ordering;
use vstd::prelude::*;
use vstd::string::*;

verus! {

pub open spec fn is_digit(c: char) -> bool {
    '0' <= c && c <= '9'
}

pub open spec fn digit_val(c: char) -> nat {
    (c as u32 - '0' as u32) as nat
}

/// Number of leading decimal digits of `s`.
pub open spec fn digit_count(s: Seq<char>) -> nat
    decreases s.len(),
{
    if s.len() > 0 && is_digit(s[0]) {
        1 + digit_count(s.drop_first())
    } else {
        0
    }
}

/// Decimal value of a sequence of digits.
pub open spec fn digits_value(s: Seq<char>) -> nat
    decreases s.len(),
{
    if s.len() == 0 {
        0
    } else {
        digits_value(s.drop_last()) * 10 + digit_val(s.last())
    }
}

/// Index of the first `'.'` in `s`, or its length when there is none.
pub open spec fn first_dot(s: Seq<char>) -> nat
    decreases s.len(),
{
    if s.len() == 0 || s[0] == '.' {
        0
    } else {
        1 + first_dot(s.drop_first())
    }
}

/// Numeric components of a version name: for each dot-separated part, the
/// value of its leading digits, stopping at the first part that has none or
/// whose value does not fit in a `u64`.
pub open spec fn version_prefix(s: Seq<char>) -> Seq<u64>
    decreases s.len(),
{
    let d = digit_count(s);
    let v = digits_value(s.take(d as int));
    let e = first_dot(s) as int;
    if d == 0 || v > u64::MAX {
        Seq::empty()
    } else if e < s.len() {
        seq![v as u64] + version_prefix(s.subrange(e + 1 as int, s.len() as int))
    } else {
        seq![v as u64]
    }
}

/// Component `k` of a parsed version, zero where the version is shorter.
pub open spec fn component(p: Seq<u64>, k: int) -> u64 {
    if 0 <= k < p.len() {
        p[k]
    } else {
        0
    }
}

pub open spec fn max_len(a: Seq<u64>, b: Seq<u64>) -> int {
    if a.len() >= b.len() {
        a.len() as int
    } else {
        b.len() as int
    }
}

/// Compares the zero-padded components of two versions from index `k` on.
pub open spec fn cmp_components(a: Seq<u64>, b: Seq<u64>, k: int) -> Ordering
    decreases max_len(a, b) - k,
{
    if k >= max_len(a, b) {
        Ordering::Equal
    } else if component(a, k) < component(b, k) {
        Ordering::Less
    } else if component(a, k) > component(b, k) {
        Ordering::Greater
    } else {
        cmp_components(a, b, k + 1)
    }
}

/// Lexicographic order of character sequences by code point (the order of
/// `str`'s `Ord`, as UTF-8 preserves code point order).
pub open spec fn cmp_chars(a: Seq<char>, b: Seq<char>) -> Ordering
    decreases a.len(),
{
    if a.len() == 0 && b.len() == 0 {
        Ordering::Equal
    } else if a.len() == 0 {
        Ordering::Less
    } else if b.len() == 0 {
        Ordering::Greater
    } else if a[0] < b[0] {
        Ordering::Less
    } else if a[0] > b[0] {
        Ordering::Greater
    } else {
        cmp_chars(a.drop_first(), b.drop_first())
    }
}

/// The order of version names: numeric components first, then characters.
pub open spec fn version_order(a: Seq<char>, b: Seq<char>) -> Ordering {
    match cmp_components(version_prefix(a), version_prefix(b), 0) {
        Ordering::Equal => cmp_chars(a, b),
        o => o,
    }
}

pub open spec fn reverse(o: Ordering) -> Ordering {
    match o {
        Ordering::Less => Ordering::Greater,
        Ordering::Greater => Ordering::Less,
        Ordering::Equal => Ordering::Equal,
    }
}

proof fn lemma_digit_count_step(s: Seq<char>, c: int)
    requires
        0 <= c <= s.len(),
        forall|j: int| 0 <= j < c ==> is_digit(#[trigger] s[j]),
        c == s.len() || !is_digit(s[c]),
    ensures
        digit_count(s) == c,
    decreases c,
{
    if c > 0 {
        let t = s.drop_first();
        assert forall|j: int| 0 <= j < c - 1 implies is_digit(#[trigger] t[j]) by {
            assert(t[j] == s[j + 1]);
        }
        lemma_digit_count_step(t, c - 1);
    }
}

proof fn lemma_first_dot_step(s: Seq<char>, e: int)
    requires
        0 <= e <= s.len(),
        forall|j: int| 0 <= j < e ==> #[trigger] s[j] != '.',
        e == s.len() || s[e] == '.',
    ensures
        first_dot(s) == e,
    decreases e,
{
    if e > 0 {
        let t = s.drop_first();
        assert forall|j: int| 0 <= j < e - 1 implies #[trigger] t[j] != '.' by {
            assert(t[j] == s[j + 1]);
        }
        lemma_first_dot_step(t, e - 1);
    }
}

proof fn lemma_digits_value_monotone(s: Seq<char>, i: int, j: int)
    requires
        0 <= i <= j <= s.len(),
    ensures
        digits_value(s.take(i)) <= digits_value(s.take(j)),
    decreases j - i,
{
    if i < j {
        lemma_digits_value_monotone(s, i, j - 1);
        assert(s.take(j).drop_last() =~= s.take(j - 1));
    }
}

/// The numeric components of a version name.
pub fn parse_version_prefix(s: &str) -> (out: Vec<u64>)
    ensures
        out@ == version_prefix(s@),
{
    let n = s.unicode_len();
    let mut out: Vec<u64> = Vec::new();
    let mut start: usize = 0;
    assert(s@.subrange(0, n as int) =~= s@);
    assert(out@ + version_prefix(s@) =~= version_prefix(s@));
    loop
        invariant_except_break
            version_prefix(s@) == out@ + version_prefix(s@.subrange(start as int, n as int)),
        invariant
            n == s@.len(),
            start <= n,
        ensures
            out@ == version_prefix(s@),
        decreases n - start,
    {
        let ghost rest = s@.subrange(start as int, n as int);
        let mut j: usize = start;
        let mut v: u64 = 0;
        let mut over = false;
        while j < n && '0' <= s.get_char(j) && s.get_char(j) <= '9'
            invariant
                n == s@.len(),
                start <= j <= n,
                rest == s@.subrange(start as int, n as int),
                forall|k: int| 0 <= k < j - start ==> is_digit(#[trigger] rest[k]),
                !over ==> v == digits_value(rest.take(j - start)),
                over ==> digits_value(rest.take(j - start)) > u64::MAX,
            decreases n - j,
        {
            let c = s.get_char(j);
            let d: u64 = (c as u32 - '0' as u32) as u64;
            proof {
                assert(rest.take(j + 1 - start).drop_last() =~= rest.take(j - start));
                assert(rest[j - start] == c);
            }
            if !over {
                if v > (u64::MAX - d) / 10 {
                    over = true;
                    assert(v * 10 + d > u64::MAX) by (nonlinear_arith)
                        requires
                            v > (u64::MAX - d) / 10,
                            d <= 9,
                    ;
                } else {
                    assert(v * 10 + d <= u64::MAX) by (nonlinear_arith)
                        requires
                            v <= (u64::MAX - d) / 10,
                            d <= 9,
                    ;
                    v = v * 10 + d;
                }
            } else {
                proof {
                    lemma_digits_value_monotone(rest, j - start, j + 1 - start);
                }
            }
            j = j + 1;
        }
        proof {
            lemma_digit_count_step(rest, j - start);
        }
        if j == start || over {
            assert(version_prefix(rest) == Seq::<u64>::empty());
            assert(out@ + Seq::<u64>::empty() =~= out@);
            break;
        }
        let mut k: usize = j;
        while k < n && s.get_char(k) != '.'
            invariant
                n == s@.len(),
                start <= j <= k <= n,
                rest == s@.subrange(start as int, n as int),
                forall|i: int| 0 <= i < j - start ==> is_digit(#[trigger] rest[i]),
                forall|i: int| j - start <= i < k - start ==> #[trigger] rest[i] != '.',
            decreases n - k,
        {
            k = k + 1;
        }
        proof {
            assert forall|i: int| 0 <= i < k - start implies #[trigger] rest[i] != '.' by {
                if i < j - start {
                    assert(is_digit(rest[i]));
                }
            }
            lemma_first_dot_step(rest, k - start);
        }
        let ghost before = out@;
        out.push(v);
        if k == n {
            assert(version_prefix(rest) == seq![v]);
            assert(out@ =~= before + seq![v]);
            break;
        }
        assert(rest.subrange(k - start + 1, rest.len() as int) =~= s@.subrange(k + 1, n as int));
        assert(version_prefix(rest) == seq![v] + version_prefix(s@.subrange(k + 1, n as int)));
        assert(before + (seq![v] + version_prefix(s@.subrange(k + 1, n as int))) =~= out@
            + version_prefix(s@.subrange(k + 1, n as int)));
        start = k + 1;
    }
    out
}

/// Compares two character sequences by code point.
pub fn cmp_str(a: &str, b: &str) -> (r: Ordering)
    ensures
        r == cmp_chars(a@, b@),
{
    let n = a.unicode_len();
    let m = b.unicode_len();
    let mut i: usize = 0;
    assert(a@.subrange(0, n as int) =~= a@);
    assert(b@.subrange(0, m as int) =~= b@);
    while i < n && i < m
        invariant
            n == a@.len(),
            m == b@.len(),
            i <= n,
            i <= m,
            cmp_chars(a@, b@) == cmp_chars(a@.subrange(i as int, n as int), b@.subrange(i as int, m as int)),
        decreases n - i,
    {
        let x = a.get_char(i);
        let y = b.get_char(i);
        let ghost sa = a@.subrange(i as int, n as int);
        let ghost sb = b@.subrange(i as int, m as int);
        assert(sa[0] == x && sb[0] == y);
        if x < y {
            return Ordering::Less;
        }
        if x > y {
            return Ordering::Greater;
        }
        assert(sa.drop_first() =~= a@.subrange(i + 1, n as int));
        assert(sb.drop_first() =~= b@.subrange(i + 1, m as int));
        i = i + 1;
    }
    if i < n {
        Ordering::Greater
    } else if i < m {
        Ordering::Less
    } else {
        Ordering::Equal
    }
}

/// Compares two version names: numeric components first (missing ones read
/// as zero), then, where those agree, the names themselves.
pub fn cmp_versions(a: &str, b: &str) -> (r: Ordering)
    ensures
        r == version_order(a@, b@),
{
    let pa = parse_version_prefix(a);
    let pb = parse_version_prefix(b);
    let n: usize = if pa.len() >= pb.len() { pa.len() } else { pb.len() };
    let mut i: usize = 0;
    while i < n
        invariant
            pa@ == version_prefix(a@),
            pb@ == version_prefix(b@),
            n == max_len(pa@, pb@),
            i <= n,
            cmp_components(pa@, pb@, 0) == cmp_components(pa@, pb@, i as int),
        decreases n - i,
    {
        let av: u64 = if i < pa.len() { pa[i] } else { 0 };
        let bv: u64 = if i < pb.len() { pb[i] } else { 0 };
        if av < bv {
            return Ordering::Less;
        }
        if av > bv {
            return Ordering::Greater;
        }
        i = i + 1;
    }
    cmp_str(a, b)
}

/// Compares two version directory names; see [`cmp_versions`].
pub fn cmp_version_dir_names(a: &String, b: &String) -> (r: Ordering)
    ensures
        r == version_order(a@, b@),
{
    cmp_versions(a.as_str(), b.as_str())
}

proof fn lemma_cmp_components_antisymmetric(a: Seq<u64>, b: Seq<u64>, k: int)
    ensures
        cmp_components(a, b, k) == reverse(cmp_components(b, a, k)),
    decreases max_len(a, b) - k,
{
    if k < max_len(a, b) && component(a, k) == component(b, k) {
        lemma_cmp_components_antisymmetric(a, b, k + 1);
    }
}

proof fn lemma_cmp_components_transitive(a: Seq<u64>, b: Seq<u64>, c: Seq<u64>, k: int, o: Ordering)
    requires
        o != Ordering::Equal,
        cmp_components(a, b, k) == o || cmp_components(a, b, k) == Ordering::Equal,
        cmp_components(b, c, k) == o || cmp_components(b, c, k) == Ordering::Equal,
    ensures
        cmp_components(a, c, k) == o || (cmp_components(a, c, k) == Ordering::Equal
            && cmp_components(a, b, k) == Ordering::Equal && cmp_components(b, c, k)
            == Ordering::Equal),
    decreases max_len(a, b) + max_len(b, c) + max_len(a, c) - k,
{
    if k < max_len(a, b) || k < max_len(b, c) || k < max_len(a, c) {
        if component(a, k) == component(b, k) && component(b, k) == component(c, k) {
            lemma_cmp_components_transitive(a, b, c, k + 1, o);
        }
    }
}

/// Swapping the arguments of the character order reverses it, and only equal
/// sequences compare equal.
pub proof fn lemma_cmp_chars_antisymmetric(a: Seq<char>, b: Seq<char>)
    ensures
        cmp_chars(a, b) == reverse(cmp_chars(b, a)),
        cmp_chars(a, b) == Ordering::Equal <==> a == b,
    decreases a.len(),
{
    if a.len() > 0 && b.len() > 0 && a[0] == b[0] {
        lemma_cmp_chars_antisymmetric(a.drop_first(), b.drop_first());
        if a.drop_first() == b.drop_first() {
            assert(a =~= seq![a[0]] + a.drop_first());
            assert(b =~= seq![b[0]] + b.drop_first());
        }
        if a == b {
            assert(a.drop_first() == b.drop_first());
        }
    }
    if a.len() == 0 && b.len() == 0 {
        assert(a =~= b);
    }
}

/// The character order is transitive.
pub proof fn lemma_cmp_chars_transitive(a: Seq<char>, b: Seq<char>, c: Seq<char>, o: Ordering)
    requires
        o != Ordering::Equal,
        cmp_chars(a, b) == o,
        cmp_chars(b, c) == o,
    ensures
        cmp_chars(a, c) == o,
    decreases a.len(),
{
    if a.len() > 0 && b.len() > 0 && c.len() > 0 && a[0] == b[0] && b[0] == c[0] {
        lemma_cmp_chars_transitive(a.drop_first(), b.drop_first(), c.drop_first(), o);
    }
}

/// Swapping the arguments reverses the order, and two names compare equal
/// exactly when they are the same name.
pub proof fn lemma_version_order_antisymmetric(a: Seq<char>, b: Seq<char>)
    ensures
        version_order(a, b) == reverse(version_order(b, a)),
        version_order(a, b) == Ordering::Equal <==> a == b,
{
    lemma_cmp_components_antisymmetric(version_prefix(a), version_prefix(b), 0);
    lemma_cmp_chars_antisymmetric(a, b);
}

/// The order of version names is transitive.
pub proof fn lemma_version_order_transitive(a: Seq<char>, b: Seq<char>, c: Seq<char>)
    requires
        version_order(a, b) == Ordering::Less,
        version_order(b, c) == Ordering::Less,
    ensures
        version_order(a, c) == Ordering::Less,
{
    let (pa, pb, pc) = (version_prefix(a), version_prefix(b), version_prefix(c));
    lemma_cmp_components_transitive(pa, pb, pc, 0, Ordering::Less);
    if cmp_components(pa, pc, 0) == Ordering::Equal {
        lemma_cmp_chars_transitive(a, b, c, Ordering::Less);
    }
}

/// Where the numeric components of two names differ, the first component
/// that differs decides, whatever follows in either name.
pub proof fn lemma_version_order_numeric(a: Seq<char>, b: Seq<char>, k: int)
    requires
        0 <= k,
        forall|i: int|
            0 <= i < k ==> component(version_prefix(a), i) == component(version_prefix(b), i),
        component(version_prefix(a), k) < component(version_prefix(b), k),
    ensures
        version_order(a, b) == Ordering::Less,
{
    lemma_cmp_components_first_difference(version_prefix(a), version_prefix(b), 0, k);
}

proof fn lemma_cmp_components_first_difference(a: Seq<u64>, b: Seq<u64>, i: int, k: int)
    requires
        0 <= i <= k,
        forall|j: int| i <= j < k ==> component(a, j) == component(b, j),
        component(a, k) < component(b, k),
    ensures
        cmp_components(a, b, i) == Ordering::Less,
    decreases k - i,
{
    assert(k < max_len(a, b));
    if i < k {
        lemma_cmp_components_first_difference(a, b, i + 1, k);
    }
}

/// Where the numeric components of two names agree (missing ones reading
/// as zero), the names are ordered by their characters.
pub proof fn lemma_version_order_suffix(a: Seq<char>, b: Seq<char>)
    requires
        forall|i: int| 0 <= i ==> component(version_prefix(a), i) == component(version_prefix(b), i),
    ensures
        version_order(a, b) == cmp_chars(a, b),
{
    lemma_cmp_components_equal(version_prefix(a), version_prefix(b), 0);
}

proof fn lemma_cmp_components_equal(a: Seq<u64>, b: Seq<u64>, k: int)
    requires
        0 <= k,
        forall|i: int| k <= i ==> component(a, i) == component(b, i),
    ensures
        cmp_components(a, b, k) == Ordering::Equal,
    decreases max_len(a, b) - k,
{
    if k < max_len(a, b) {
        assert(component(a, k) == component(b, k));
        lemma_cmp_components_equal(a, b, k + 1);
    }
}

} // verus!
