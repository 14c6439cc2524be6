//! Bookkeeping of a download: progress events and digest verification.

use crate::text::{lower_codes, occurs_at_exec, starts_with, trim, trim_of};
use vstd::prelude::*;
use vstd::string::*;

verus! {

/// The state of a transfer, reported to an observer.
#[derive(Debug, Clone, Copy, PartialEq, Eq, Structural)]
pub struct Progress {
    pub downloaded: u64,
    pub total: Option<u64>,
    /// Time since the transfer started, in milliseconds.
    pub elapsed_ms: u64,
    pub done: bool,
}

/// The expected digests of a download, as hexadecimal text.
pub struct Digests {
    pub sha256_hex: Option<String>,
    pub md5_hex: Option<String>,
}

/// The least time between two progress reports during a transfer.
pub const REPORT_INTERVAL_MS: u64 = 250;

/// Counts the bytes of a transfer and paces its progress reports.
pub struct Transfer {
    pub downloaded: u64,
    pub total: Option<u64>,
    /// When the last report was due, in milliseconds since the start.
    pub last_report_ms: u64,
}

impl Transfer {
    pub fn new(total: Option<u64>) -> (r: Transfer)
        ensures
            r.downloaded == 0,
            r.total == total,
            r.last_report_ms == 0,
    {
        Transfer { downloaded: 0, total, last_report_ms: 0 }
    }

    /// Counts a chunk of `n` bytes received `now_ms` after the start, and
    /// gives the report that is due, if any: one once at least
    /// [`REPORT_INTERVAL_MS`] passed since the last.
    pub fn record_chunk(&mut self, n: u64, now_ms: u64) -> (r: Option<Progress>)
        requires
            old(self).downloaded + n <= u64::MAX,
        ensures
            final(self).downloaded == old(self).downloaded + n,
            final(self).total == old(self).total,
            now_ms >= old(self).last_report_ms && now_ms - old(self).last_report_ms
                >= REPORT_INTERVAL_MS ==> {
                &&& r == Some(
                    Progress {
                        downloaded: final(self).downloaded,
                        total: old(self).total,
                        elapsed_ms: now_ms,
                        done: false,
                    },
                )
                &&& final(self).last_report_ms == now_ms
            },
            !(now_ms >= old(self).last_report_ms && now_ms - old(self).last_report_ms
                >= REPORT_INTERVAL_MS) ==> r is None && final(self).last_report_ms == old(
                self,
            ).last_report_ms,
    {
        self.downloaded = self.downloaded + n;
        if now_ms >= self.last_report_ms && now_ms - self.last_report_ms >= REPORT_INTERVAL_MS {
            self.last_report_ms = now_ms;
            Some(
                Progress {
                    downloaded: self.downloaded,
                    total: self.total,
                    elapsed_ms: now_ms,
                    done: false,
                },
            )
        } else {
            None
        }
    }

    /// The one terminal report of the transfer.
    pub fn finish(&self, now_ms: u64) -> (r: Progress)
        ensures
            r == (Progress {
                downloaded: self.downloaded,
                total: self.total,
                elapsed_ms: now_ms,
                done: true,
            }),
    {
        Progress { downloaded: self.downloaded, total: self.total, elapsed_ms: now_ms, done: true }
    }
}

pub open spec fn hex_digit(n: u8) -> char {
    if n < 10 {
        ('0' as u8 + n) as char
    } else {
        ('a' as u8 + n - 10) as char
    }
}

/// Lower-case hexadecimal text of a byte sequence, two digits per byte, high
/// nibble first.
pub open spec fn hex_of(b: Seq<u8>) -> Seq<char>
    decreases b.len(),
{
    if b.len() == 0 {
        Seq::empty()
    } else {
        hex_of(b.drop_last()) + seq![hex_digit(b.last() / 16), hex_digit(b.last() % 16)]
    }
}

/// Relies on `hex::encode`: two lower-case digits per byte, in order.
#[verifier::external_body]
fn to_hex(b: &[u8]) -> (r: String)
    ensures
        r@ == hex_of(b@),
{
    hex::encode(b)
}

/// `s` without every leading `0x`.
pub open spec fn strip_0x(s: Seq<char>) -> Seq<char>
    decreases s.len(),
{
    if s.len() >= 2 && s[0] == '0' && s[1] == 'x' {
        strip_0x(s.subrange(2, s.len() as int))
    } else {
        s
    }
}

/// Two trimmed digests are the same: equal once leading `0x` are dropped,
/// ignoring ASCII case.
pub open spec fn hex_text_eq(a: Seq<char>, b: Seq<char>) -> bool {
    lower_codes(strip_0x(a)) == lower_codes(strip_0x(b))
}

fn skip_0x(s: &str) -> (k: usize)
    ensures
        k <= s@.len(),
        strip_0x(s@) == s@.subrange(k as int, s@.len() as int),
{
    let n = s.unicode_len();
    let mut k: usize = 0;
    assert(s@.subrange(0, n as int) =~= s@);
    while n - k >= 2 && s.get_char(k) == '0' && s.get_char(k + 1) == 'x'
        invariant
            n == s@.len(),
            k <= n,
            strip_0x(s@) == strip_0x(s@.subrange(k as int, n as int)),
        decreases n - k,
    {
        let ghost t = s@.subrange(k as int, n as int);
        assert(t.subrange(2, t.len() as int) =~= s@.subrange(k + 2, n as int));
        k = k + 2;
    }
    k
}

/// Compares two digests that were already trimmed.
pub fn eq_hex_trimmed(a: &str, b: &str) -> (r: bool)
    ensures
        r == hex_text_eq(a@, b@),
{
    let i = skip_0x(a);
    let j = skip_0x(b);
    let n = a.unicode_len();
    let m = b.unicode_len();
    let ghost sa = a@.subrange(i as int, n as int);
    let ghost sb = b@.subrange(j as int, m as int);
    if n - i != m - j {
        assert(lower_codes(sa).len() != lower_codes(sb).len());
        return false;
    }
    let mut k: usize = 0;
    while k < n - i
        invariant
            n == a@.len(),
            m == b@.len(),
            i <= n,
            j <= m,
            n - i == m - j,
            sa == a@.subrange(i as int, n as int),
            sb == b@.subrange(j as int, m as int),
            strip_0x(a@) == sa,
            strip_0x(b@) == sb,
            k <= n - i,
            forall|t: int| 0 <= t < k ==> lower_codes(sa)[t] == lower_codes(sb)[t],
        decreases n - i - k,
    {
        let x = a.get_char(i + k);
        let y = b.get_char(j + k);
        let lx: u32 = if 'A' <= x && x <= 'Z' { x as u32 + 32 } else { x as u32 };
        let ly: u32 = if 'A' <= y && y <= 'Z' { y as u32 + 32 } else { y as u32 };
        assert(sa[k as int] == x && sb[k as int] == y);
        if lx != ly {
            assert(lower_codes(sa)[k as int] != lower_codes(sb)[k as int]);
            return false;
        }
        k = k + 1;
    }
    assert(lower_codes(sa) =~= lower_codes(sb));
    true
}

/// Compares two hexadecimal digests, ignoring surrounding white space, any
/// leading `0x` and letter case.
pub fn eq_hex(a: &str, b: &str) -> (r: bool)
    ensures
        r == hex_text_eq(trim_of(a@), trim_of(b@)),
{
    eq_hex_trimmed(trim(a), trim(b))
}

/// A digest that differs from the expected one.
#[derive(Debug, Clone, PartialEq, Eq)]
pub enum DigestError {
    Sha256Mismatch { expected: String, got: String },
    Md5Mismatch { expected: String, got: String },
}

/// The verdict on a finished transfer: each expected digest for which a
/// digest was computed must match it, SHA-256 checked first. Only an `Ok`
/// transfer may be moved to its destination.
pub open spec fn digests_verdict(
    expected_sha256: Option<Seq<char>>,
    sha256: Option<Seq<u8>>,
    expected_md5: Option<Seq<char>>,
    md5: Option<Seq<u8>>,
) -> Result<(), (bool, Seq<char>, Seq<char>)> {
    match (expected_sha256, sha256) {
        (Some(e), Some(d)) if !hex_text_eq(trim_of(e), trim_of(hex_of(d))) => Err(
            (true, e, hex_of(d)),
        ),
        _ => match (expected_md5, md5) {
            (Some(e), Some(d)) if !hex_text_eq(trim_of(e), trim_of(hex_of(d))) => Err(
                (false, e, hex_of(d)),
            ),
            _ => Ok(()),
        },
    }
}

pub open spec fn opt_view(s: Option<String>) -> Option<Seq<char>> {
    match s {
        Some(x) => Some(x@),
        None => None,
    }
}

pub open spec fn opt_bytes(s: Option<&[u8]>) -> Option<Seq<u8>> {
    match s {
        Some(x) => Some(x@),
        None => None,
    }
}

fn check_one(expected: &String, digest: &[u8]) -> (r: Result<(), String>)
    ensures
        match r {
            Ok(_) => hex_text_eq(trim_of(expected@), trim_of(hex_of(digest@))),
            Err(got) => !hex_text_eq(trim_of(expected@), trim_of(hex_of(digest@))) && got@ == hex_of(
                digest@,
            ),
        },
{
    let got = to_hex(digest);
    if eq_hex(expected.as_str(), got.as_str()) {
        Ok(())
    } else {
        Err(got)
    }
}

/// Checks the digests computed over a finished transfer against the
/// expected ones.
pub fn verify_digests(digests: &Digests, sha256: Option<&[u8]>, md5: Option<&[u8]>) -> (r: Result<
    (),
    DigestError,
>)
    ensures
        match (
            r,
            digests_verdict(
                opt_view(digests.sha256_hex),
                opt_bytes(sha256),
                opt_view(digests.md5_hex),
                opt_bytes(md5),
            ),
        ) {
            (Ok(_), Ok(_)) => true,
            (Err(DigestError::Sha256Mismatch { expected, got }), Err((true, e, g))) => expected@
                == e && got@ == g,
            (Err(DigestError::Md5Mismatch { expected, got }), Err((false, e, g))) => expected@ == e
                && got@ == g,
            _ => false,
        },
{
    if let (Some(e), Some(d)) = (&digests.sha256_hex, sha256) {
        if let Err(got) = check_one(e, d) {
            return Err(DigestError::Sha256Mismatch { expected: e.clone(), got });
        }
    }
    if let (Some(e), Some(d)) = (&digests.md5_hex, md5) {
        if let Err(got) = check_one(e, d) {
            return Err(DigestError::Md5Mismatch { expected: e.clone(), got });
        }
    }
    Ok(())
}

/// A transfer whose computed SHA-256 differs from the expected one is
/// rejected, whatever the MD5 check would say; so it is never moved to its
/// destination.
pub proof fn lemma_sha256_mismatch_rejected(
    expected: Seq<char>,
    digest: Seq<u8>,
    expected_md5: Option<Seq<char>>,
    md5: Option<Seq<u8>>,
)
    requires
        !hex_text_eq(trim_of(expected), trim_of(hex_of(digest))),
    ensures
        digests_verdict(Some(expected), Some(digest), expected_md5, md5) == Err::<
            (),
            (bool, Seq<char>, Seq<char>),
        >((true, expected, hex_of(digest))),
{
}

/// A transfer with no expected digest is accepted.
pub proof fn lemma_no_expectation_accepted(sha256: Option<Seq<u8>>, md5: Option<Seq<u8>>)
    ensures
        digests_verdict(None, sha256, None, md5) is Ok,
{
}

} // verus!
