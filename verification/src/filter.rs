//! The three stateless filter transforms (clean, smudge, diff) built on the
//! codec, each with the pass-through and failure policy its hook needs: the
//! version-control tool invokes them as non-interactive subprocesses that
//! must never abort the surrounding workflow on routine conditions.

use vstd::prelude::*;
use vstd::slice::slice_to_vec;

use crate::crypto::{
    decrypt_spec, encrypt_spec, is_encoded_spec, CryptoError, DecryptFailure, Encryptor,
};

verus! {

/// What smudge yields under `key`: the decoded plaintext where the buffer is
/// a record that decodes, the input unchanged otherwise.
pub open spec fn smudge_spec(key: Seq<u8>, content: Seq<u8>) -> Seq<u8> {
    match decrypt_spec(key, content) {
        Some(plaintext) => plaintext,
        None => content,
    }
}

/// Outcome of the diff transform, whose failures are surfaced rather than
/// masked: diff output is informational, not working-tree state.
#[derive(Debug)]
pub enum DiffOutcome {
    /// Readable content: the decoded plaintext, or the input itself where it
    /// was not encoded.
    Content(Vec<u8>),
    /// The buffer is encoded but no key is available; a notice should be
    /// printed instead of failing the process.
    KeyNotAvailable,
    /// The buffer is encoded but did not decode; the error is reported.
    DecodeFailed(CryptoError),
}

/// Clean: working-tree bytes to stored form. With a codec the content is
/// encoded; without a key, or should the seal refuse the input, the content
/// passes through unchanged rather than aborting the checkin.
pub fn clean(codec: Option<&Encryptor>, content: &[u8]) -> (out: Vec<u8>)
    ensures
        codec is None ==> out@ == content@,
        codec matches Some(enc) ==> (content@.len() <= 0x10_0000_0000 ==> out@ == encrypt_spec(
            enc.key(),
            content@,
        )),
        codec matches Some(enc) ==> (out@ == encrypt_spec(enc.key(), content@) || out@
            == content@),
{
    match codec {
        None => slice_to_vec(content),
        Some(enc) => match enc.encrypt(content) {
            Ok(record) => record,
            Err(_) => slice_to_vec(content),
        },
    }
}

/// Smudge: stored bytes to working-tree form. Decodes an encoded record;
/// anything else, and any record that fails to decode, passes through
/// unchanged, silently — the working tree must never be corrupted and a
/// checkout must never abort on a missing key or a bad record.
pub fn smudge(codec: Option<&Encryptor>, content: &[u8]) -> (out: Vec<u8>)
    ensures
        codec is None ==> out@ == content@,
        codec matches Some(enc) ==> out@ == smudge_spec(enc.key(), content@),
        codec matches Some(enc) ==> (forall|p: Seq<u8>|
            p.len() <= 0x10_0000_0000 && content@ == #[trigger] encrypt_spec(enc.key(), p)
                ==> out@ == p),
{
    match codec {
        None => slice_to_vec(content),
        Some(enc) => {
            if !Encryptor::is_encrypted(content) {
                proof {
                    assert forall|p: Seq<u8>|
                        !(p.len() <= 0x10_0000_0000 && content@ == #[trigger] encrypt_spec(
                            enc.key(),
                            p,
                        )) by {
                        crate::crypto::lemma_encrypt_is_encoded(enc.key(), p);
                    };
                }
                slice_to_vec(content)
            } else {
                match enc.decrypt(content) {
                    Ok(plaintext) => plaintext,
                    Err(_) => slice_to_vec(content),
                }
            }
        },
    }
}

/// Diff: stored bytes to display form. Content that is not encoded passes
/// through; an encoded record without a key yields a notice rather than a
/// failure of the process; a record that fails to decode surfaces the error,
/// which is safe here because diff output is read-only display.
pub fn diff(codec: Option<&Encryptor>, content: &[u8]) -> (out: DiffOutcome)
    ensures
        !is_encoded_spec(content@) ==> (out matches DiffOutcome::Content(c) && c@ == content@),
        is_encoded_spec(content@) && codec is None ==> out is KeyNotAvailable,
        codec matches Some(enc) ==> (decrypt_spec(enc.key(), content@) matches Some(p) ==> (out
            matches DiffOutcome::Content(c) && c@ == p)),
        codec matches Some(enc) ==> (is_encoded_spec(content@) && decrypt_spec(
            enc.key(),
            content@,
        ) is None ==> (out matches DiffOutcome::DecodeFailed(e) && e == (if content@.len() < 18 {
            CryptoError::DecryptError(DecryptFailure::MalformedLength)
        } else {
            CryptoError::DecryptError(DecryptFailure::AuthFailure)
        }))),
        codec matches Some(enc) ==> (forall|p: Seq<u8>|
            p.len() <= 0x10_0000_0000 && content@ == #[trigger] encrypt_spec(enc.key(), p)
                ==> (out matches DiffOutcome::Content(c) && c@ == p)),
{
    if !Encryptor::is_encrypted(content) {
        proof {
            if let Some(enc) = codec {
                assert forall|p: Seq<u8>|
                    !(p.len() <= 0x10_0000_0000 && content@ == #[trigger] encrypt_spec(
                        enc.key(),
                        p,
                    )) by {
                    crate::crypto::lemma_encrypt_is_encoded(enc.key(), p);
                };
            }
        }
        return DiffOutcome::Content(slice_to_vec(content));
    }
    match codec {
        None => DiffOutcome::KeyNotAvailable,
        Some(enc) => match enc.decrypt(content) {
            Ok(plaintext) => DiffOutcome::Content(plaintext),
            Err(e) => DiffOutcome::DecodeFailed(e),
        },
    }
}

} // verus!
