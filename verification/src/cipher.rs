//! Authenticated encryption of byte payloads with XChaCha20-Poly1305.
//!
//! A sealed payload is the 24-byte nonce followed by the ciphertext, which
//! ends in the 16-byte authentication tag.

use chacha20poly1305::aead::Aead;
use chacha20poly1305::KeyInit;
use vstd::prelude::*;

use crate::random::random_array;

verus! {

/// Number of bytes in a nonce.
pub const NONCE_SIZE: usize = 24;

/// Number of bytes in an authentication tag.
pub const TAG_SIZE: usize = 16;

/// Number of bytes that sealing adds to a payload.
pub const SEAL_OVERHEAD: usize = 40;

/// A payload must be shorter than this many bytes: the keystream has
/// 2^32 - 2 blocks of 64 bytes for it, which is 274,877,906,816 bytes.
pub const MAX_PLAINTEXT_LEN: u64 = 274_877_906_817;

/// Why a payload could not be sealed or opened.
#[derive(Clone, Copy, Debug, PartialEq, Eq, Structural)]
pub enum CipherError {
    /// The sealed bytes are not what this key produced: the key is wrong, or
    /// the bytes were altered or cut short.
    AuthenticationFailure,
    /// The payload has [`MAX_PLAINTEXT_LEN`] bytes or more.
    MessageTooLong,
    /// The operating system gave no random bytes for a nonce.
    NoRandomness,
}

/// The XChaCha20-Poly1305 ciphertext, tag included, of a payload under a key
/// of 32 bytes and a nonce of 24 bytes, with no associated data.
pub uninterp spec fn xchacha20poly1305_encrypt(
    key: Seq<u8>,
    nonce: Seq<u8>,
    plaintext: Seq<u8>,
) -> Seq<u8>;

/// What XChaCha20-Poly1305 decryption makes of a ciphertext under a key and a
/// nonce: the payload, or `None` where the tag does not authenticate it.
pub uninterp spec fn xchacha20poly1305_decrypt(
    key: Seq<u8>,
    nonce: Seq<u8>,
    ciphertext: Seq<u8>,
) -> Option<Seq<u8>>;

/// Makes a `chacha20poly1305::XChaCha20Poly1305` from the key and calls its
/// `Aead::encrypt` with the nonce and the payload.
///
/// The payload is required to fit the keystream that is left once its
/// first block has made the tag's key: a longer one is refused by the call
/// or, just below the length that it refuses, makes it panic. For a payload
/// that fits the call succeeds. The result is the ciphertext, 16 bytes
/// longer than the payload, and decrypting it under the same key and nonce
/// gives the payload back.
#[verifier::external_body]
fn aead_encrypt(key: &[u8; 32], nonce: &[u8; 24], plaintext: &[u8]) -> (out: Option<Vec<u8>>)
    requires
        plaintext@.len() < MAX_PLAINTEXT_LEN,
    ensures
        out is Some,
        out matches Some(ciphertext) ==> {
            &&& ciphertext@ == xchacha20poly1305_encrypt(key@, nonce@, plaintext@)
            &&& ciphertext@.len() == plaintext@.len() + TAG_SIZE
            &&& xchacha20poly1305_decrypt(key@, nonce@, ciphertext@) == Some(plaintext@)
        },
{
    let cipher = chacha20poly1305::XChaCha20Poly1305::new(chacha20poly1305::Key::from_slice(key));
    cipher.encrypt(chacha20poly1305::XNonce::from_slice(nonce), plaintext).ok()
}

/// Makes a `chacha20poly1305::XChaCha20Poly1305` from the key and calls its
/// `Aead::decrypt` with the nonce and the ciphertext.
///
/// The ciphertext is required to be no longer than that of the longest
/// payload: beyond that length an authentic one is refused by the call or
/// makes it panic. The result is what decryption makes of the three: the
/// payload where the tag authenticates the ciphertext, and nothing where it
/// does not. Decryption recomputes the tag over the ciphertext and removes
/// the same keystream that encryption adds, so a payload comes back only for
/// the very ciphertext that encryption gives for it under this key and
/// nonce.
#[verifier::external_body]
fn aead_decrypt(key: &[u8; 32], nonce: &[u8; 24], ciphertext: &[u8]) -> (out: Option<Vec<u8>>)
    requires
        ciphertext@.len() < MAX_PLAINTEXT_LEN + TAG_SIZE,
    ensures
        out is Some <==> xchacha20poly1305_decrypt(key@, nonce@, ciphertext@) is Some,
        out matches Some(plaintext) ==> {
            &&& xchacha20poly1305_decrypt(key@, nonce@, ciphertext@) == Some(plaintext@)
            &&& ciphertext@ == xchacha20poly1305_encrypt(key@, nonce@, plaintext@)
        },
{
    let cipher = chacha20poly1305::XChaCha20Poly1305::new(chacha20poly1305::Key::from_slice(key));
    cipher.decrypt(chacha20poly1305::XNonce::from_slice(nonce), ciphertext).ok()
}

/// The sealed form of a payload: the nonce, then the ciphertext.
pub open spec fn sealed(key: Seq<u8>, nonce: Seq<u8>, plaintext: Seq<u8>) -> Seq<u8> {
    nonce + xchacha20poly1305_encrypt(key, nonce, plaintext)
}

/// What opening sealed bytes under a key gives: the payload, or `None` where
/// the bytes are too short to hold a nonce and a tag, too long to be the
/// sealed form of any payload, or do not authenticate.
pub open spec fn opened(key: Seq<u8>, bytes: Seq<u8>) -> Option<Seq<u8>> {
    if bytes.len() < SEAL_OVERHEAD || bytes.len() - SEAL_OVERHEAD >= MAX_PLAINTEXT_LEN {
        None
    } else {
        xchacha20poly1305_decrypt(
            key,
            bytes.subrange(0, NONCE_SIZE as int),
            bytes.subrange(NONCE_SIZE as int, bytes.len() as int),
        )
    }
}

/// Seals a payload under a key with the nonce given. The caller answers for
/// the nonce never being used twice under one key.
///
/// The result opens under the same key to the payload. A payload of
/// [`MAX_PLAINTEXT_LEN`] bytes or more is refused, and no other is.
pub fn seal_with_nonce(key: &[u8; 32], nonce: &[u8; 24], plaintext: &[u8]) -> (res: Result<
    Vec<u8>,
    CipherError,
>)
    ensures
        match res {
            Ok(bytes) => {
                &&& plaintext@.len() < MAX_PLAINTEXT_LEN
                &&& bytes@ == sealed(key@, nonce@, plaintext@)
                &&& bytes@.len() == plaintext@.len() + SEAL_OVERHEAD
                &&& opened(key@, bytes@) == Some(plaintext@)
            },
            Err(e) => plaintext@.len() >= MAX_PLAINTEXT_LEN && e == CipherError::MessageTooLong,
        },
{
    if plaintext.len() as u64 >= MAX_PLAINTEXT_LEN {
        return Err(CipherError::MessageTooLong);
    }
    match aead_encrypt(key, nonce, plaintext) {
        Some(ciphertext) => {
            let mut bytes: Vec<u8> = Vec::new();
            bytes.extend_from_slice(nonce.as_slice());
            bytes.extend_from_slice(ciphertext.as_slice());
            proof {
                assert(bytes@ =~= nonce@ + ciphertext@);
                assert(bytes@.subrange(0, NONCE_SIZE as int) =~= nonce@);
                assert(bytes@.subrange(NONCE_SIZE as int, bytes@.len() as int) =~= ciphertext@);
            }
            Ok(bytes)
        },
        None => Err(CipherError::MessageTooLong),
    }
}

/// Seals a payload under a key with a nonce drawn afresh from the operating
/// system.
///
/// Whatever nonce was drawn, the result opens under the same key to the
/// payload. A payload below [`MAX_PLAINTEXT_LEN`] is refused only where no
/// random bytes could be had.
pub fn seal(key: &[u8; 32], plaintext: &[u8]) -> (res: Result<Vec<u8>, CipherError>)
    ensures
        match res {
            Ok(bytes) => {
                &&& plaintext@.len() < MAX_PLAINTEXT_LEN
                &&& exists|nonce: Seq<u8>|
                    nonce.len() == NONCE_SIZE && bytes@ == #[trigger] sealed(
                        key@,
                        nonce,
                        plaintext@,
                    )
                &&& bytes@.len() == plaintext@.len() + SEAL_OVERHEAD
                &&& opened(key@, bytes@) == Some(plaintext@)
            },
            Err(e) => {
                &&& e != CipherError::AuthenticationFailure
                &&& e == CipherError::MessageTooLong <==> plaintext@.len() >= MAX_PLAINTEXT_LEN
            },
        },
{
    if plaintext.len() as u64 >= MAX_PLAINTEXT_LEN {
        return Err(CipherError::MessageTooLong);
    }
    match random_array::<24>() {
        Some(nonce) => {
            let res = seal_with_nonce(key, &nonce, plaintext);
            proof {
                if res is Ok {
                    assert(res->Ok_0@ == sealed(key@, nonce@, plaintext@));
                }
            }
            res
        },
        None => Err(CipherError::NoRandomness),
    }
}

/// Opens sealed bytes under a key.
///
/// The payload comes back exactly where the bytes authenticate under the
/// key, and then the bytes are the sealed form of that payload under the key
/// and the nonce that they begin with: what is handed out is never anything
/// but what was sealed. Every other input gives
/// [`CipherError::AuthenticationFailure`] and no payload at all; bytes too
/// short or too long to be a sealed payload are among them and never reach
/// the cipher.
pub fn open(key: &[u8; 32], bytes: &[u8]) -> (res: Result<Vec<u8>, CipherError>)
    ensures
        match res {
            Ok(plaintext) => {
                &&& opened(key@, bytes@) == Some(plaintext@)
                &&& bytes@ == sealed(key@, bytes@.subrange(0, NONCE_SIZE as int), plaintext@)
            },
            Err(e) => opened(key@, bytes@) is None && e == CipherError::AuthenticationFailure,
        },
{
    if bytes.len() < SEAL_OVERHEAD {
        return Err(CipherError::AuthenticationFailure);
    }
    if (bytes.len() - SEAL_OVERHEAD) as u64 >= MAX_PLAINTEXT_LEN {
        return Err(CipherError::AuthenticationFailure);
    }
    let mut nonce = [0u8; 24];
    let mut i: usize = 0;
    while i < 24
        invariant
            i <= 24,
            bytes@.len() >= SEAL_OVERHEAD,
            bytes@.len() - SEAL_OVERHEAD < MAX_PLAINTEXT_LEN,
            forall|j: int| 0 <= j < i ==> nonce@[j] == bytes@[j],
        decreases 24 - i,
    {
        nonce[i] = bytes[i];
        i = i + 1;
    }
    assert(nonce@ =~= bytes@.subrange(0, NONCE_SIZE as int));
    let ciphertext = vstd::slice::slice_subrange(bytes, NONCE_SIZE, bytes.len());
    match aead_decrypt(key, &nonce, ciphertext) {
        Some(plaintext) => {
            assert(bytes@ =~= nonce@ + ciphertext@);
            Ok(plaintext)
        },
        None => Err(CipherError::AuthenticationFailure),
    }
}

} // verus!
