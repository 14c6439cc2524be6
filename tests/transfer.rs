use rembg_rs::download::{eq_hex, eq_hex_trimmed, verify_digests, DigestError, Digests, Progress, Transfer};

#[test]
fn progress_is_paced() {
    let mut t = Transfer::new(Some(100));
    assert_eq!(t.record_chunk(10, 100), None);
    assert_eq!(
        t.record_chunk(10, 250),
        Some(Progress { downloaded: 20, total: Some(100), elapsed_ms: 250, done: false })
    );
    assert_eq!(t.record_chunk(10, 400), None);
    assert_eq!(
        t.record_chunk(70, 500),
        Some(Progress { downloaded: 100, total: Some(100), elapsed_ms: 500, done: false })
    );
    assert_eq!(t.finish(510), Progress { downloaded: 100, total: Some(100), elapsed_ms: 510, done: true });
}

#[test]
fn hex_comparison() {
    assert!(eq_hex_trimmed("0xAB01", "ab01"));
    assert!(eq_hex_trimmed("0x0xab", "AB"));
    assert!(!eq_hex_trimmed("ab01", "ab02"));
    assert!(!eq_hex_trimmed("ab0", "ab01"));
    assert!(eq_hex("  AB01\n", "ab01"));
    assert!(!eq_hex(" ab01", "ab"));
}

#[test]
fn matching_digest_is_accepted() {
    let d = Digests { sha256_hex: Some("0xAB01FF".to_string()), md5_hex: None };
    assert_eq!(verify_digests(&d, Some(&[0xab, 0x01, 0xff]), None), Ok(()));
    let none = Digests { sha256_hex: None, md5_hex: None };
    assert_eq!(verify_digests(&none, Some(&[1]), Some(&[2])), Ok(()));
}

#[test]
fn sha256_mismatch_is_rejected() {
    let d = Digests { sha256_hex: Some("ab02".to_string()), md5_hex: Some("00".to_string()) };
    assert_eq!(
        verify_digests(&d, Some(&[0xab, 0x01]), Some(&[0])),
        Err(DigestError::Sha256Mismatch { expected: "ab02".to_string(), got: "ab01".to_string() })
    );
}

#[test]
fn md5_mismatch_is_rejected() {
    let d = Digests { sha256_hex: None, md5_hex: Some("0f".to_string()) };
    assert_eq!(
        verify_digests(&d, None, Some(&[0x10])),
        Err(DigestError::Md5Mismatch { expected: "0f".to_string(), got: "10".to_string() })
    );
}
