use git_cryptx::crypto::{CryptoError, DecryptFailure, Encryptor};
use git_cryptx::filter::{clean, diff, smudge, DiffOutcome};

#[test]
fn clean_without_key_passes_through() {
    let out = clean(None, b"working tree bytes");
    assert_eq!(out, b"working tree bytes");
}

#[test]
fn clean_encodes_with_key() {
    let encryptor = Encryptor::new(b"test-key-12345").unwrap();
    let out = clean(Some(&encryptor), b"working tree bytes");
    let expected = encryptor.encrypt(b"working tree bytes").unwrap();
    assert_eq!(out, expected);
    assert!(Encryptor::is_encrypted(&out));
}

#[test]
fn smudge_without_key_passes_through() {
    let out = smudge(None, b"repository bytes");
    assert_eq!(out, b"repository bytes");
}

#[test]
fn smudge_plain_content_passes_through() {
    let encryptor = Encryptor::new(b"test-key-12345").unwrap();
    let out = smudge(Some(&encryptor), b"already plaintext");
    assert_eq!(out, b"already plaintext");
}

#[test]
fn smudge_decodes_clean_output() {
    let encryptor = Encryptor::new(b"test-key-12345").unwrap();
    let stored = clean(Some(&encryptor), b"round trip content");
    let out = smudge(Some(&encryptor), &stored);
    assert_eq!(out, b"round trip content");
}

#[test]
fn smudge_bad_record_passes_through_silently() {
    let encryptor = Encryptor::new(b"test-key-12345").unwrap();
    let mut stored = encryptor.encrypt(b"round trip content").unwrap();
    stored[25] ^= 0x10;
    let out = smudge(Some(&encryptor), &stored);
    assert_eq!(out, stored);
}

#[test]
fn smudge_wrong_key_passes_through_silently() {
    let right = Encryptor::new(b"first key material").unwrap();
    let wrong = Encryptor::new(b"other key material").unwrap();
    let stored = right.encrypt(b"secret content").unwrap();
    let out = smudge(Some(&wrong), &stored);
    assert_eq!(out, stored);
}

#[test]
fn diff_plain_content_passes_through() {
    let encryptor = Encryptor::new(b"test-key-12345").unwrap();
    match diff(Some(&encryptor), b"already plaintext") {
        DiffOutcome::Content(c) => assert_eq!(c, b"already plaintext"),
        other => panic!("expected pass-through content, got {:?}", other),
    }
}

#[test]
fn diff_without_key_reports_notice() {
    let encryptor = Encryptor::new(b"test-key-12345").unwrap();
    let stored = encryptor.encrypt(b"secret content").unwrap();
    match diff(None, &stored) {
        DiffOutcome::KeyNotAvailable => {},
        other => panic!("expected a key notice, got {:?}", other),
    }
}

#[test]
fn diff_decodes_with_key() {
    let encryptor = Encryptor::new(b"test-key-12345").unwrap();
    let stored = encryptor.encrypt(b"secret content").unwrap();
    match diff(Some(&encryptor), &stored) {
        DiffOutcome::Content(c) => assert_eq!(c, b"secret content"),
        other => panic!("expected decoded content, got {:?}", other),
    }
}

#[test]
fn diff_surfaces_decode_failure() {
    let encryptor = Encryptor::new(b"test-key-12345").unwrap();
    let mut stored = encryptor.encrypt(b"secret content").unwrap();
    stored[30] ^= 0x01;
    match diff(Some(&encryptor), &stored) {
        DiffOutcome::DecodeFailed(e) => {
            assert_eq!(e, CryptoError::DecryptError(DecryptFailure::AuthFailure));
        },
        other => panic!("expected a surfaced failure, got {:?}", other),
    }
}

#[test]
fn diff_surfaces_malformed_record() {
    let encryptor = Encryptor::new(b"test-key-12345").unwrap();
    match diff(Some(&encryptor), b"GITENCshort") {
        DiffOutcome::DecodeFailed(e) => {
            assert_eq!(
                e,
                CryptoError::DecryptError(DecryptFailure::MalformedLength)
            );
        },
        other => panic!("expected a surfaced failure, got {:?}", other),
    }
}
