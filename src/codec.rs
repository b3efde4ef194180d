//! The persisted form of the working copy.
//!
//! An archive of the working copy is compressed with gzip, encrypted with
//! ChaCha20-Poly1305 under a fresh nonce, and stored as `nonce || ciphertext`.

use crate::error::SignalStateError;
use chacha20poly1305::aead::{Aead, OsRng};
use chacha20poly1305::{AeadCore, ChaCha20Poly1305, Key, KeyInit, Nonce};
use std::io::{Read, Write};
use vstd::prelude::*;
use vstd::slice::{slice_subrange, slice_to_vec};

verus! {

pub const KEY_LEN: usize = 32;

pub const NONCE_LEN: usize = 12;

pub const TAG_LEN: usize = 16;

#[verifier::external_type_specification]
#[verifier::external_body]
pub struct ExAeadError(chacha20poly1305::Error);

/// The ciphertext, tag included, that ChaCha20-Poly1305 makes of a plaintext
/// under a key and a nonce.
pub uninterp spec fn sealed_of(key: Seq<u8>, nonce: Seq<u8>, plaintext: Seq<u8>) -> Seq<u8>;

/// The gzip stream (default level) of some bytes, where one was produced.
pub uninterp spec fn gzip_of(data: Seq<u8>) -> Option<Seq<u8>>;

/// What a gzip stream decompresses to, where it is well formed.
pub uninterp spec fn gunzip_of(data: Seq<u8>) -> Option<Seq<u8>>;

/// ChaCha20-Poly1305 takes messages of fewer than 2^32 - 1 blocks of 64 bytes.
pub open spec fn sealable(len: nat) -> bool {
    len / 64 < 0xffff_ffff
}

/// A decryption outcome that gives back each plaintext whose sealing is the
/// ciphertext.
pub open spec fn opens_every_sealing(
    key: Seq<u8>,
    nonce: Seq<u8>,
    ciphertext: Seq<u8>,
    r: Result<Vec<u8>, chacha20poly1305::Error>,
) -> bool {
    forall|m: Seq<u8>|
        sealable(m.len()) && #[trigger] sealed_of(key, nonce, m) == ciphertext ==> (r matches Ok(q) && q@ == m)
}

/// A decompression outcome that gives back each input whose gzip stream is the data.
pub open spec fn inflates_every_deflation(data: Seq<u8>, r: Option<Vec<u8>>) -> bool {
    forall|m: Seq<u8>| #[trigger] gzip_of(m) == Some(data) ==> (r matches Some(q) && q@ == m)
}

/// Relies on `Aead::encrypt` of `ChaCha20Poly1305` (chacha20poly1305 0.10):
/// the ciphertext followed by a 16-byte tag; it fails only on a message of
/// 2^32 - 1 blocks or more.
#[verifier::external_body]
fn aead_encrypt(key: &[u8], nonce: &[u8], plaintext: &[u8]) -> (r: Result<Vec<u8>, chacha20poly1305::Error>)
    requires
        key@.len() == KEY_LEN,
        nonce@.len() == NONCE_LEN,
    ensures
        r.is_ok() <==> sealable(plaintext@.len()),
        r matches Ok(c) ==> c@ == sealed_of(key@, nonce@, plaintext@) && c@.len() == plaintext@.len() + TAG_LEN,
{
    ChaCha20Poly1305::new(Key::from_slice(key)).encrypt(Nonce::from_slice(nonce), plaintext)
}

/// Relies on `Aead::decrypt` of `ChaCha20Poly1305` (chacha20poly1305 0.10):
/// it checks the tag and undoes `encrypt`, so what it returns seals back to
/// exactly its input, and the sealing of a plaintext opens to that plaintext.
#[verifier::external_body]
fn aead_decrypt(key: &[u8], nonce: &[u8], ciphertext: &[u8]) -> (r: Result<Vec<u8>, chacha20poly1305::Error>)
    requires
        key@.len() == KEY_LEN,
        nonce@.len() == NONCE_LEN,
    ensures
        r matches Ok(p) ==> sealable(p@.len()) && sealed_of(key@, nonce@, p@) == ciphertext@,
        opens_every_sealing(key@, nonce@, ciphertext@, r),
{
    ChaCha20Poly1305::new(Key::from_slice(key)).decrypt(Nonce::from_slice(nonce), ciphertext)
}

/// Relies on `AeadCore::generate_nonce` with `OsRng`: twelve bytes from the
/// operating system's generator.
#[verifier::external_body]
fn fresh_nonce() -> (r: Vec<u8>)
    ensures
        r@.len() == NONCE_LEN,
{
    ChaCha20Poly1305::generate_nonce(&mut OsRng).to_vec()
}

/// Relies on `KeyInit::generate_key` with `OsRng`: thirty-two bytes from the
/// operating system's generator.
#[verifier::external_body]
fn fresh_key() -> (r: Vec<u8>)
    ensures
        r@.len() == KEY_LEN,
{
    ChaCha20Poly1305::generate_key(&mut OsRng).to_vec()
}

/// Relies on flate2's `write::GzEncoder` at `Compression::default()`, writing
/// into memory: the stream depends on the input bytes alone.
#[verifier::external_body]
fn gzip(data: &[u8]) -> (r: Option<Vec<u8>>)
    ensures
        r matches Some(z) ==> gzip_of(data@) == Some(z@),
        r.is_none() ==> gzip_of(data@).is_none(),
{
    let mut encoder = flate2::write::GzEncoder::new(Vec::new(), flate2::Compression::default());
    match encoder.write_all(data) {
        Ok(()) => encoder.finish().ok(),
        Err(_) => None,
    }
}

/// Relies on flate2's `read::GzDecoder`, read to its end: it undoes
/// `GzEncoder`, and its outcome depends on the input bytes alone.
#[verifier::external_body]
fn gunzip(data: &[u8]) -> (r: Option<Vec<u8>>)
    ensures
        r matches Some(p) ==> gunzip_of(data@) == Some(p@),
        r.is_none() ==> gunzip_of(data@).is_none(),
        inflates_every_deflation(data@, r),
{
    let mut out = Vec::new();
    match flate2::read::GzDecoder::new(data).read_to_end(&mut out) {
        Ok(_) => Some(out),
        Err(_) => None,
    }
}

/// The symmetric key that snapshots are sealed under.
pub struct StateKey {
    bytes: Vec<u8>,
}

impl View for StateKey {
    type V = Seq<u8>;

    closed spec fn view(&self) -> Seq<u8> {
        self.bytes@
    }
}

impl StateKey {
    #[verifier::type_invariant]
    spec fn inv(&self) -> bool {
        self.bytes@.len() == KEY_LEN
    }

    /// Takes key material as read from the key file.
    pub fn from_bytes(bytes: Vec<u8>) -> (r: Result<StateKey, SignalStateError>)
        ensures
            r is Ok <==> bytes@.len() == KEY_LEN,
            r matches Ok(k) ==> k@ == bytes@,
            r matches Err(e) ==> e == SignalStateError::InvalidKeyLength,
    {
        if bytes.len() == KEY_LEN {
            Ok(StateKey { bytes })
        } else {
            Err(SignalStateError::InvalidKeyLength)
        }
    }

    /// A new random key.
    pub fn generate() -> (r: StateKey)
        ensures
            r@.len() == KEY_LEN,
    {
        StateKey { bytes: fresh_key() }
    }

    /// The raw key material, as written to the key file.
    pub fn as_bytes(&self) -> (r: &[u8])
        ensures
            r@ == self@,
            r@.len() == KEY_LEN,
    {
        proof {
            use_type_invariant(self);
        }
        self.bytes.as_slice()
    }
}

/// The bytes of a successful outcome, or its error.
pub open spec fn bytes_result(r: Result<Vec<u8>, SignalStateError>) -> Result<Seq<u8>, SignalStateError> {
    match r {
        Ok(v) => Ok(v@),
        Err(e) => Err(e),
    }
}

/// The blob that sealing an archive under a key and a nonce gives.
pub open spec fn sealed_blob(key: Seq<u8>, nonce: Seq<u8>, archive: Seq<u8>) -> Result<
    Seq<u8>,
    SignalStateError,
> {
    match gzip_of(archive) {
        None => Err(SignalStateError::IOError),
        Some(z) => if sealable(z.len()) {
            Ok(nonce + sealed_of(key, nonce, z))
        } else {
            Err(SignalStateError::CryptoError)
        },
    }
}

/// Some compressed bytes whose sealing under the key and the blob's nonce is
/// the rest of the blob.
pub open spec fn authentic(key: Seq<u8>, blob: Seq<u8>) -> bool {
    exists|z: Seq<u8>|
        sealable(z.len()) && #[trigger] sealed_of(key, blob.subrange(0, NONCE_LEN as int), z)
            == blob.subrange(NONCE_LEN as int, blob.len() as int)
}

/// The archive that a blob opens to under a key, or why it does not.
pub open spec fn opened_blob(key: Seq<u8>, blob: Seq<u8>) -> Result<Seq<u8>, SignalStateError> {
    if blob.len() <= NONCE_LEN {
        Err(SignalStateError::CiphertextTooShort)
    } else if !authentic(key, blob) {
        Err(SignalStateError::CryptoError)
    } else {
        let z = choose|z: Seq<u8>|
            sealable(z.len()) && #[trigger] sealed_of(key, blob.subrange(0, NONCE_LEN as int), z)
                == blob.subrange(NONCE_LEN as int, blob.len() as int);
        match gunzip_of(z) {
            Some(a) => Ok(a),
            None => Err(SignalStateError::IOError),
        }
    }
}

/// Seals an archive under a given nonce: compress, encrypt, put the nonce in front.
pub fn seal_with_nonce(key: &StateKey, nonce: &[u8], archive: &[u8]) -> (r: Result<
    Vec<u8>,
    SignalStateError,
>)
    requires
        nonce@.len() == NONCE_LEN,
    ensures
        bytes_result(r) == sealed_blob(key@, nonce@, archive@),
        r matches Ok(b) ==> b@.len() >= NONCE_LEN + TAG_LEN,
{
    proof {
        use_type_invariant(key);
    }
    let compressed = match gzip(archive) {
        Some(z) => z,
        None => return Err(SignalStateError::IOError),
    };
    match aead_encrypt(key.as_bytes(), nonce, compressed.as_slice()) {
        Ok(c) => {
            let mut blob = slice_to_vec(nonce);
            let mut c = c;
            blob.append(&mut c);
            Ok(blob)
        },
        Err(_) => Err(SignalStateError::CryptoError),
    }
}

/// Seals an archive of the working copy under a fresh random nonce.
pub fn pack_state(key: &StateKey, archive: &[u8]) -> (r: Result<Vec<u8>, SignalStateError>)
    ensures
        r matches Ok(b) ==> b@.len() > NONCE_LEN && sealed_blob(key@, b@.subrange(0, NONCE_LEN as int), archive@) == Ok::<Seq<u8>, SignalStateError>(b@),
        r matches Err(e) ==> exists|n: Seq<u8>| n.len() == NONCE_LEN && sealed_blob(key@, n, archive@) == Err::<Seq<u8>, _>(e),
{
    let nonce = fresh_nonce();
    let r = seal_with_nonce(key, nonce.as_slice(), archive);
    proof {
        if r is Ok {
            assert(r->Ok_0@.subrange(0, NONCE_LEN as int) =~= nonce@);
        }
    }
    r
}

/// Opens a blob made by `pack_state` back into the archive it sealed.
///
/// A blob opens exactly when its tail is an authentic sealing under the key
/// and its nonce; so one changed anywhere opens, if at all, only to what its
/// own bytes authenticate, and the blob of an archive opens to that archive.
pub fn unpack_state(key: &StateKey, blob: &[u8]) -> (r: Result<Vec<u8>, SignalStateError>)
    ensures
        bytes_result(r) == opened_blob(key@, blob@),
        forall|n: Seq<u8>, a: Seq<u8>|
            n.len() == NONCE_LEN && blob@.len() > NONCE_LEN && #[trigger] sealed_blob(key@, n, a) == Ok::<
                _,
                SignalStateError,
            >(blob@) ==> (r matches Ok(x) && x@ == a),
{
    proof {
        use_type_invariant(key);
    }
    let len = blob.len();
    if len <= NONCE_LEN {
        return Err(SignalStateError::CiphertextTooShort);
    }
    let nonce = slice_subrange(blob, 0, NONCE_LEN);
    let body = slice_subrange(blob, NONCE_LEN, len);
    let compressed = match aead_decrypt(key.as_bytes(), nonce, body) {
        Ok(p) => p,
        Err(_) => {
            proof {
                assert forall|n: Seq<u8>, a: Seq<u8>|
                    n.len() == NONCE_LEN && #[trigger] sealed_blob(key@, n, a) == Ok::<_, SignalStateError>(blob@)
                    implies false by {
                    let z = gzip_of(a).unwrap();
                    assert(blob@ == n + sealed_of(key@, n, z));
                    assert(blob@.subrange(0, NONCE_LEN as int) =~= n);
                    assert(blob@.subrange(NONCE_LEN as int, blob@.len() as int) =~= sealed_of(key@, n, z));
                }
            }
            return Err(SignalStateError::CryptoError);
        },
    };
    proof {
        assert(authentic(key@, blob@));
        let z = choose|z: Seq<u8>|
            sealable(z.len()) && #[trigger] sealed_of(key@, blob@.subrange(0, NONCE_LEN as int), z)
                == blob@.subrange(NONCE_LEN as int, blob@.len() as int);
        assert(z == compressed@);
    }
    let r = match gunzip(compressed.as_slice()) {
        Some(a) => Ok(a),
        None => Err(SignalStateError::IOError),
    };
    proof {
        assert forall|n: Seq<u8>, a: Seq<u8>|
            n.len() == NONCE_LEN && #[trigger] sealed_blob(key@, n, a) == Ok::<_, SignalStateError>(blob@)
            implies (r matches Ok(x) && x@ == a) by {
            let z = gzip_of(a).unwrap();
            assert(blob@ == n + sealed_of(key@, n, z));
            assert(blob@.subrange(0, NONCE_LEN as int) =~= n);
            assert(blob@.subrange(NONCE_LEN as int, blob@.len() as int) =~= sealed_of(key@, n, z));
            assert(z == compressed@);
        }
    }
    r
}

} // verus!
