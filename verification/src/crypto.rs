//! Deterministic authenticated-encryption codec.
//!
//! An encoded record is `MAGIC ‖ NONCE ‖ SEALED`, where `MAGIC` is a fixed
//! 6-byte tag, `NONCE` is the first 12 bytes of the SHA-256 digest of the
//! plaintext, and `SEALED` is the AES-256-GCM seal of the plaintext (16-byte
//! integrity tag appended) under a key derived by hashing the user-supplied
//! key material. Deriving the nonce from the plaintext makes encryption a
//! pure function of key and plaintext, which the surrounding filter pipeline
//! needs; the deliberate trade-off is that identical plaintexts under one key
//! produce identical records, leaking equality of contents.

use vstd::prelude::*;
use vstd::slice::slice_subrange;

use aes_gcm::aead::{Aead, KeyInit};
use aes_gcm::{Aes256Gcm, Nonce};
use sha2::{Digest, Sha256};

verus! {

/// An AES-256-GCM cipher instance of the `aes_gcm` crate, held opaquely: the
/// crate's cipher type cannot be named in verified signatures (its type
/// arguments are constrained by a sealed trait), so a private field carries
/// it through.
#[verifier::external_body]
pub struct Cipher {
    inner: Aes256Gcm,
}

/// The `i`-th byte of the SHA-256 digest of `data`.
pub uninterp spec fn sha256_byte(data: Seq<u8>, i: int) -> u8;

/// The SHA-256 digest of `data`: 32 bytes, a function of the input alone.
pub open spec fn sha256_of(data: Seq<u8>) -> Seq<u8> {
    Seq::new(32, |i: int| sha256_byte(data, i))
}

/// The `i`-th byte of the AES-256-GCM seal of `plaintext` under `key` and `nonce`.
pub uninterp spec fn aead_seal_byte(key: Seq<u8>, nonce: Seq<u8>, plaintext: Seq<u8>, i: int) -> u8;

/// The AES-256-GCM seal of `plaintext` under `key` and `nonce`: the ciphertext
/// with the 16-byte integrity tag appended, a function of its arguments alone.
pub open spec fn aead_seal(key: Seq<u8>, nonce: Seq<u8>, plaintext: Seq<u8>) -> Seq<u8> {
    Seq::new(plaintext.len() + 16, |i: int| aead_seal_byte(key, nonce, plaintext, i))
}

/// What AES-256-GCM open yields for `ciphertext` under `key` and `nonce`:
/// the plaintext when the integrity tag verifies, nothing otherwise.
pub uninterp spec fn aead_open(key: Seq<u8>, nonce: Seq<u8>, ciphertext: Seq<u8>) -> Option<Seq<u8>>;

/// The key a cipher instance was initialized with.
pub uninterp spec fn cipher_key_of(cipher: Cipher) -> Seq<u8>;

/// The fixed 6-byte magic tag that marks an encoded record ("GITENC").
pub open spec fn magic_seq() -> Seq<u8> {
    seq![71u8, 73u8, 84u8, 69u8, 78u8, 67u8]
}

/// A buffer is classified as encoded iff it is at least as long as the magic
/// tag and starts with it.
pub open spec fn is_encoded_spec(s: Seq<u8>) -> bool {
    s.len() >= 6 && s.subrange(0, 6) == magic_seq()
}

/// Why a decryption was refused.
#[derive(Clone, Copy, Debug, PartialEq, Eq, Structural)]
pub enum DecryptFailure {
    /// The buffer does not start with the magic tag.
    NotEncoded,
    /// The buffer starts with the magic tag but is too short to hold a nonce.
    MalformedLength,
    /// The integrity tag did not verify: wrong key, corruption, or tampering.
    AuthFailure,
}

/// Errors of the codec and of the storage around it.
#[derive(Clone, Copy, Debug, PartialEq, Eq, Structural)]
pub enum CryptoError {
    /// Storage access failed (raised by callers that read or write the key).
    IoError,
    /// The AEAD seal operation failed.
    EncryptError,
    /// The key material is unusable (shorter than 8 bytes).
    KeyError,
    /// Decryption was refused, with the reason.
    DecryptError(DecryptFailure),
}

/// The magic tag as a byte vector.
fn magic_bytes() -> (r: Vec<u8>)
    ensures
        r@ == magic_seq(),
{
    let mut v: Vec<u8> = Vec::new();
    v.push(71);
    v.push(73);
    v.push(84);
    v.push(69);
    v.push(78);
    v.push(67);
    proof {
        assert(v@ =~= magic_seq());
    }
    v
}

/// The derived cipher key: the SHA-256 digest of the key material, giving the
/// fixed 32-byte width the cipher mandates without using raw user input as
/// the literal key.
pub open spec fn derived_key(key_material: Seq<u8>) -> Seq<u8> {
    sha256_of(key_material)
}

/// The first 12 bytes of the SHA-256 digest of the plaintext: the
/// deterministic nonce, so that encryption is a pure function of key and
/// plaintext.
pub open spec fn nonce_spec(plaintext: Seq<u8>) -> Seq<u8> {
    sha256_of(plaintext).take(12)
}

/// The encoded record for `plaintext` under `key`: magic tag, nonce, sealed
/// payload.
pub open spec fn encrypt_spec(key: Seq<u8>, plaintext: Seq<u8>) -> Seq<u8> {
    magic_seq() + nonce_spec(plaintext) + aead_seal(key, nonce_spec(plaintext), plaintext)
}

/// What decrypting `record` under `key` yields: nothing unless the record
/// carries the magic tag, a full nonce, and a payload whose integrity tag
/// verifies.
pub open spec fn decrypt_spec(key: Seq<u8>, record: Seq<u8>) -> Option<Seq<u8>> {
    if !is_encoded_spec(record) {
        None
    } else if record.len() < 18 {
        None
    } else {
        aead_open(key, record.subrange(6, 18), record.subrange(18, record.len() as int))
    }
}

/// Relies on `sha2::Sha256` (through `Digest::digest`): the digest is 32
/// bytes and depends on the input bytes alone.
#[verifier::external_body]
fn sha256_digest(data: &[u8]) -> (r: Vec<u8>)
    ensures
        r@ == sha256_of(data@),
        forall|i: int| 0 <= i < 32 ==> r@[i] == sha256_byte(data@, i),
{
    Sha256::digest(data).to_vec()
}

/// Relies on `aes_gcm::aead::KeyInit::new_from_slice`: a 32-byte slice is the
/// accepted key length of AES-256-GCM and keys the cipher with exactly those
/// bytes.
#[verifier::external_body]
fn aes256_gcm_new(key: &[u8]) -> (cipher: Cipher)
    requires
        key@.len() == 32,
    ensures
        cipher_key_of(cipher) == key@,
{
    Cipher { inner: Aes256Gcm::new_from_slice(key).unwrap() }
}

/// Relies on `aes_gcm::aead::Aead::encrypt` (AES-256-GCM seal): the result is
/// the ciphertext with the 16-byte tag appended, a function of key, nonce and
/// plaintext alone, and the call succeeds exactly when the plaintext is
/// within the mode's length bound of 2^36 bytes.
#[verifier::external_body]
fn aead_seal_call(cipher: &Cipher, nonce: &[u8], plaintext: &[u8]) -> (r: Result<
    Vec<u8>,
    CryptoError,
>)
    requires
        nonce@.len() == 12,
    ensures
        r matches Ok(c) ==> c@ == aead_seal(cipher_key_of(*cipher), nonce@, plaintext@),
        r matches Ok(c) ==> forall|i: int|
            0 <= i < c@.len() ==> c@[i] == aead_seal_byte(
                cipher_key_of(*cipher),
                nonce@,
                plaintext@,
                i,
            ),
        r is Ok <==> plaintext@.len() <= 0x10_0000_0000,
        r matches Err(e) ==> e == CryptoError::EncryptError,
{
    match cipher.inner.encrypt(Nonce::from_slice(nonce), plaintext) {
        Ok(sealed) => Ok(sealed),
        Err(_) => Err(CryptoError::EncryptError),
    }
}

/// Relies on `aes_gcm::aead::Aead::decrypt` (AES-256-GCM open): it yields a
/// plaintext exactly when the integrity tag verifies; in particular it
/// inverts the seal, returning the original plaintext on any buffer the seal
/// produced under the same key and nonce.
#[verifier::external_body]
fn aead_open_call(cipher: &Cipher, nonce: &[u8], ciphertext: &[u8]) -> (r: Result<
    Vec<u8>,
    CryptoError,
>)
    requires
        nonce@.len() == 12,
    ensures
        r matches Ok(p) ==> aead_open(cipher_key_of(*cipher), nonce@, ciphertext@) == Some(p@),
        r is Err ==> aead_open(cipher_key_of(*cipher), nonce@, ciphertext@) is None,
        r matches Err(e) ==> e == CryptoError::DecryptError(DecryptFailure::AuthFailure),
        (exists|p: Seq<u8>|
            p.len() <= 0x10_0000_0000 && ciphertext@ == #[trigger] aead_seal(
                cipher_key_of(*cipher),
                nonce@,
                p,
            )) ==> r is Ok,
        r matches Ok(q) ==> forall|p: Seq<u8>|
            p.len() <= 0x10_0000_0000 && ciphertext@ == #[trigger] aead_seal(
                cipher_key_of(*cipher),
                nonce@,
                p,
            ) ==> q@ == p,
{
    match cipher.inner.decrypt(Nonce::from_slice(nonce), ciphertext) {
        Ok(plaintext) => Ok(plaintext),
        Err(_) => Err(CryptoError::DecryptError(DecryptFailure::AuthFailure)),
    }
}

/// Classifier correctness on codec output: every record the codec emits
/// starts with the magic tag, whatever the key and the plaintext, and its
/// length is the plaintext's plus the fixed 34 bytes of overhead (6-byte
/// magic tag, 12-byte nonce, 16-byte integrity tag).
pub proof fn lemma_encrypt_is_encoded(key: Seq<u8>, plaintext: Seq<u8>)
    ensures
        is_encoded_spec(encrypt_spec(key, plaintext)),
        encrypt_spec(key, plaintext).len() == plaintext.len() + 34,
{
    assert(encrypt_spec(key, plaintext).subrange(0, 6) =~= magic_seq());
}

/// Divergence: two plaintexts whose derived nonces differ encrypt, under any
/// key, to different records (the records differ within the nonce field).
/// Two plaintexts share a nonce only when the first 12 bytes of their SHA-256
/// digests collide.
pub proof fn lemma_encrypt_divergence(key: Seq<u8>, p1: Seq<u8>, p2: Seq<u8>)
    requires
        nonce_spec(p1) != nonce_spec(p2),
    ensures
        encrypt_spec(key, p1) != encrypt_spec(key, p2),
{
    if encrypt_spec(key, p1) == encrypt_spec(key, p2) {
        assert(encrypt_spec(key, p1).subrange(6, 18) =~= nonce_spec(p1));
        assert(encrypt_spec(key, p2).subrange(6, 18) =~= nonce_spec(p2));
    }
}

/// The codec: an AES-256-GCM cipher keyed with the SHA-256 digest of the
/// user-supplied key material.
pub struct Encryptor {
    cipher: Cipher,
}

impl Encryptor {
    /// The derived cipher key this codec encrypts and decrypts with.
    pub closed spec fn key(self) -> Seq<u8> {
        cipher_key_of(self.cipher)
    }

    /// Content classifier: does `content` start with the magic tag?
    pub fn is_encrypted(content: &[u8]) -> (r: bool)
        ensures
            r == is_encoded_spec(content@),
    {
        if content.len() < 6 {
            return false;
        }
        let r = content[0] == 71 && content[1] == 73 && content[2] == 84 && content[3] == 69
            && content[4] == 78 && content[5] == 67;
        proof {
            if r {
                assert(content@.subrange(0, 6) =~= magic_seq());
            } else {
                if content@.subrange(0, 6) == magic_seq() {
                    assert(content@[0] == magic_seq()[0]);
                    assert(content@[1] == magic_seq()[1]);
                    assert(content@[2] == magic_seq()[2]);
                    assert(content@[3] == magic_seq()[3]);
                    assert(content@[4] == magic_seq()[4]);
                    assert(content@[5] == magic_seq()[5]);
                }
            }
        }
        r
    }

    /// Builds a codec from user key material: rejects material shorter than 8
    /// bytes, otherwise keys the cipher with the 32-byte digest of the
    /// material.
    pub fn new(key: &[u8]) -> (r: Result<Encryptor, CryptoError>)
        ensures
            r is Ok <==> key@.len() >= 8,
            r matches Err(e) ==> e == CryptoError::KeyError,
            r matches Ok(enc) ==> enc.key() == derived_key(key@),
    {
        if key.len() < 8 {
            return Err(CryptoError::KeyError);
        }
        let digest = sha256_digest(key);
        let cipher = aes256_gcm_new(digest.as_slice());
        Ok(Encryptor { cipher })
    }

    /// The first 12 bytes of the SHA-256 digest of `data`.
    fn generate_deterministic_nonce(&self, data: &[u8]) -> (r: Vec<u8>)
        ensures
            r@ == nonce_spec(data@),
    {
        let hash = sha256_digest(data);
        let mut nonce: Vec<u8> = Vec::new();
        let mut i: usize = 0;
        while i < 12
            invariant
                i <= 12,
                hash@ == sha256_of(data@),
                nonce@ == sha256_of(data@).take(i as int),
            decreases 12 - i,
        {
            nonce.push(hash[i]);
            i = i + 1;
            proof {
                assert(nonce@ =~= sha256_of(data@).take(i as int));
            }
        }
        proof {
            assert(nonce@ =~= nonce_spec(data@));
        }
        nonce
    }

    /// Encrypts `data` into an encoded record. Deterministic: the record is a
    /// function of the derived key and the plaintext alone, so independent
    /// invocations on unchanged content emit byte-identical output. Fails
    /// only when the AEAD seal refuses the input (plaintext over 2^36 bytes).
    pub fn encrypt(&self, data: &[u8]) -> (r: Result<Vec<u8>, CryptoError>)
        ensures
            r matches Ok(c) ==> c@ == encrypt_spec(self.key(), data@),
            r matches Ok(c) ==> c@.len() == data@.len() + 34,
            r is Ok <==> data@.len() <= 0x10_0000_0000,
            r matches Err(e) ==> e == CryptoError::EncryptError,
    {
        let nonce = self.generate_deterministic_nonce(data);
        let sealed = match aead_seal_call(&self.cipher, nonce.as_slice(), data) {
            Ok(sealed) => sealed,
            Err(e) => {
                return Err(e);
            },
        };
        let mut output = magic_bytes();
        output.extend_from_slice(nonce.as_slice());
        output.extend_from_slice(sealed.as_slice());
        proof {
            assert(output@ =~= encrypt_spec(self.key(), data@));
        }
        Ok(output)
    }

    /// Decrypts an encoded record back to its plaintext. Refuses a buffer
    /// without the magic tag (so plain content is never fed to the cipher),
    /// one too short to hold a nonce, and one whose integrity tag does not
    /// verify; no partial plaintext leaks on failure. Round-trip: any record
    /// that `encrypt` produced under the same key decrypts to the original
    /// plaintext, exactly.
    pub fn decrypt(&self, data: &[u8]) -> (r: Result<Vec<u8>, CryptoError>)
        ensures
            r matches Ok(p) ==> decrypt_spec(self.key(), data@) == Some(p@),
            decrypt_spec(self.key(), data@) matches Some(p) ==> r matches Ok(q) && q@ == p,
            r is Err <==> decrypt_spec(self.key(), data@) is None,
            !is_encoded_spec(data@) <==> r == Err::<Vec<u8>, CryptoError>(
                CryptoError::DecryptError(DecryptFailure::NotEncoded),
            ),
            (is_encoded_spec(data@) && data@.len() < 18) <==> r == Err::<Vec<u8>, CryptoError>(
                CryptoError::DecryptError(DecryptFailure::MalformedLength),
            ),
            (is_encoded_spec(data@) && data@.len() >= 18 && decrypt_spec(self.key(), data@)
                is None) <==> r == Err::<Vec<u8>, CryptoError>(
                CryptoError::DecryptError(DecryptFailure::AuthFailure),
            ),
            forall|p: Seq<u8>|
                p.len() <= 0x10_0000_0000 && data@ == #[trigger] encrypt_spec(self.key(), p)
                    ==> (r matches Ok(q) && q@ == p),
    {
        if !Self::is_encrypted(data) {
            proof {
                assert forall|p: Seq<u8>|
                    !(p.len() <= 0x10_0000_0000 && data@ == #[trigger] encrypt_spec(
                        self.key(),
                        p,
                    )) by {
                    lemma_encrypt_is_encoded(self.key(), p);
                };
            }
            return Err(CryptoError::DecryptError(DecryptFailure::NotEncoded));
        }
        if data.len() < 18 {
            proof {
                assert forall|p: Seq<u8>|
                    !(p.len() <= 0x10_0000_0000 && data@ == #[trigger] encrypt_spec(
                        self.key(),
                        p,
                    )) by {
                    lemma_encrypt_is_encoded(self.key(), p);
                };
            }
            return Err(CryptoError::DecryptError(DecryptFailure::MalformedLength));
        }
        let nonce = slice_subrange(data, 6, 18);
        let ciphertext = slice_subrange(data, 18, data.len());
        let result = aead_open_call(&self.cipher, nonce, ciphertext);
        proof {
            assert forall|p: Seq<u8>|
                p.len() <= 0x10_0000_0000 && data@ == #[trigger] encrypt_spec(self.key(), p)
                    implies ciphertext@ == aead_seal(cipher_key_of(self.cipher), nonce@, p) by {
                lemma_encrypt_is_encoded(self.key(), p);
                assert(nonce@ =~= nonce_spec(p));
                assert(ciphertext@ =~= aead_seal(self.key(), nonce_spec(p), p));
            };
        }
        match result {
            Ok(plaintext) => Ok(plaintext),
            Err(e) => Err(e),
        }
    }
}

} // verus!
