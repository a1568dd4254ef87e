//! The wallet's Ed25519 keypair and the signatures it makes.

use ed25519_dalek::Signer;
use vstd::prelude::*;

use crate::hash::bytes32_eq;
use crate::random::random_array;

verus! {

/// Number of bytes in a secret key and in a public key.
pub const KEY_LENGTH: usize = 32;

/// Number of bytes in a signature.
pub const SIGNATURE_LENGTH: usize = 64;

/// The signer gave no signature. The wallet's own keypair always gives
/// one; the error is for a signer that answers from elsewhere.
#[derive(Clone, Copy, Debug, PartialEq, Eq, Structural)]
pub struct SigningError;

/// The Ed25519 public key that belongs to a secret key of 32 bytes.
pub uninterp spec fn ed25519_public_key(secret: Seq<u8>) -> Seq<u8>;

/// The Ed25519 signature of a message under a secret key of 32 bytes.
pub uninterp spec fn ed25519_signature(secret: Seq<u8>, message: Seq<u8>) -> Seq<u8>;

/// Calls `ed25519_dalek::SigningKey::from_bytes` on the secret and returns
/// the bytes of its `verifying_key`. The public key is a function of the
/// secret alone.
#[verifier::external_body]
fn ed25519_derive_public(secret: &[u8; 32]) -> (public: [u8; 32])
    ensures
        public@ == ed25519_public_key(secret@),
{
    ed25519_dalek::SigningKey::from_bytes(secret).verifying_key().to_bytes()
}

/// Calls `try_sign` of `ed25519_dalek::SigningKey`, made from the secret, on
/// the message. For a key held in memory that call hashes and multiplies and
/// returns `Ok` on every input, so a signature always comes back. Ed25519
/// signs without randomness, so the signature is a function of the secret
/// and the message.
#[verifier::external_body]
fn ed25519_sign(secret: &[u8; 32], message: &[u8]) -> (out: Option<[u8; 64]>)
    ensures
        out is Some,
        out matches Some(signature) ==> signature@ == ed25519_signature(secret@, message@),
{
    match ed25519_dalek::SigningKey::from_bytes(secret).try_sign(message) {
        Ok(signature) => Some(signature.to_bytes()),
        Err(_) => None,
    }
}

/// A public key: the address of a wallet on the ledger.
#[derive(Clone, Copy, Debug, PartialEq, Eq)]
pub struct PublicKey {
    bytes: [u8; 32],
}

impl View for PublicKey {
    type V = Seq<u8>;

    closed spec fn view(&self) -> Seq<u8> {
        self.bytes@
    }
}

impl PublicKey {
    /// The public key made of the given bytes.
    pub fn new(bytes: [u8; 32]) -> (key: PublicKey)
        ensures
            key@ == bytes@,
    {
        PublicKey { bytes }
    }

    /// The bytes of this key.
    pub fn as_bytes(&self) -> (bytes: &[u8; 32])
        ensures
            bytes@ == self@,
    {
        &self.bytes
    }

    /// Whether `self` and `other` are the same key.
    pub fn equals(&self, other: &PublicKey) -> (same: bool)
        ensures
            same == (self@ == other@),
    {
        bytes32_eq(&self.bytes, &other.bytes)
    }
}

/// An Ed25519 signature.
#[derive(Clone, Copy, Debug, PartialEq, Eq)]
pub struct Signature {
    bytes: [u8; 64],
}

impl View for Signature {
    type V = Seq<u8>;

    closed spec fn view(&self) -> Seq<u8> {
        self.bytes@
    }
}

impl Signature {
    /// The signature made of the given bytes.
    pub fn new(bytes: [u8; 64]) -> (signature: Signature)
        ensures
            signature@ == bytes@,
    {
        Signature { bytes }
    }

    /// The bytes of this signature.
    pub fn as_bytes(&self) -> (bytes: &[u8; 64])
        ensures
            bytes@ == self@,
    {
        &self.bytes
    }
}

/// The wallet's long-term keypair. The public half always is the one that
/// belongs to the secret half.
#[derive(Clone, Copy, Debug, PartialEq, Eq)]
pub struct KeyPair {
    secret: [u8; 32],
    public: [u8; 32],
}

impl KeyPair {
    #[verifier::type_invariant]
    spec fn matched(self) -> bool {
        self.public@ == ed25519_public_key(self.secret@)
    }

    /// The secret key.
    pub closed spec fn spec_secret(self) -> Seq<u8> {
        self.secret@
    }

    /// The public key.
    pub closed spec fn spec_public(self) -> Seq<u8> {
        self.public@
    }

    /// The keypair of a secret key.
    pub fn from_secret(secret: [u8; 32]) -> (pair: KeyPair)
        ensures
            pair.spec_secret() == secret@,
            pair.spec_public() == ed25519_public_key(secret@),
    {
        let public = ed25519_derive_public(&secret);
        KeyPair { secret, public }
    }

    /// A keypair whose secret is drawn afresh from the operating system, or
    /// `None` where it gave no random bytes.
    pub fn generate() -> (pair: Option<KeyPair>)
        ensures
            pair matches Some(p) ==> p.spec_public() == ed25519_public_key(p.spec_secret()),
    {
        match random_array::<32>() {
            Some(secret) => Some(KeyPair::from_secret(secret)),
            None => None,
        }
    }

    /// The secret key.
    pub fn secret_bytes(&self) -> (bytes: &[u8; 32])
        ensures
            bytes@ == self.spec_secret(),
    {
        &self.secret
    }

    /// The public key.
    pub fn public_key(&self) -> (key: PublicKey)
        ensures
            key@ == self.spec_public(),
            key@ == ed25519_public_key(self.spec_secret()),
    {
        proof {
            use_type_invariant(self);
        }
        PublicKey { bytes: self.public }
    }

    /// Signs a message. Every message is signed: the result is the Ed25519
    /// signature of the message under this pair's secret, which depends on
    /// the secret and the message alone.
    pub fn sign(&self, message: &[u8]) -> (res: Result<Signature, SigningError>)
        ensures
            res matches Ok(signature) && signature@ == ed25519_signature(
                self.spec_secret(),
                message@,
            ),
    {
        match ed25519_sign(&self.secret, message) {
            Some(bytes) => Ok(Signature { bytes }),
            None => Err(SigningError),
        }
    }
}

} // verus!
