//! Fixed-size identifiers: asset ids and transaction hashes.

use sha3::Digest;
use vstd::prelude::*;

verus! {

/// Number of bytes in a [`Hash256`].
pub const HASH_SIZE: usize = 32;

/// A 32-byte identifier (a 256-bit hash). Assets are named by one, and so are transactions.
#[derive(Clone, Copy, Debug, PartialEq, Eq)]
pub struct Hash256 {
    bytes: [u8; 32],
}

impl View for Hash256 {
    type V = Seq<u8>;

    closed spec fn view(&self) -> Seq<u8> {
        self.bytes@
    }
}

/// The Keccak-256 digest, 32 bytes, of a byte string.
pub uninterp spec fn keccak256(data: Seq<u8>) -> Seq<u8>;

/// Calls `sha3::Keccak256::digest` on the bytes and copies the 32 bytes of
/// output. The digest is a function of the bytes alone.
#[verifier::external_body]
fn keccak256_digest(data: &[u8]) -> (out: [u8; 32])
    ensures
        out@ == keccak256(data@),
{
    sha3::Keccak256::digest(data).into()
}

/// The hash that names a byte string: its Keccak-256 digest.
pub fn hash(data: &[u8]) -> (h: Hash256)
    ensures
        h@ == keccak256(data@),
{
    Hash256 { bytes: keccak256_digest(data) }
}

/// Whether two byte arrays hold the same bytes.
pub fn bytes32_eq(a: &[u8; 32], b: &[u8; 32]) -> (same: bool)
    ensures
        same == (a@ == b@),
{
    let mut i: usize = 0;
    while i < 32
        invariant
            i <= 32,
            forall|j: int| 0 <= j < i ==> a@[j] == b@[j],
        decreases 32 - i,
    {
        if a[i] != b[i] {
            return false;
        }
        i = i + 1;
    }
    assert(a@ =~= b@);
    true
}

impl Hash256 {
    /// The hash made of the given bytes.
    pub fn new(bytes: [u8; 32]) -> (h: Hash256)
        ensures
            h@ == bytes@,
    {
        Hash256 { bytes }
    }

    /// The hash whose bytes are all zero.
    pub fn zero() -> (h: Hash256)
        ensures
            h@ == Seq::new(32, |i: int| 0u8),
    {
        let h = Hash256 { bytes: [0u8; 32] };
        assert(h@ =~= Seq::new(32, |i: int| 0u8));
        h
    }

    /// The bytes of this hash.
    pub fn as_bytes(&self) -> (bytes: &[u8; 32])
        ensures
            bytes@ == self@,
    {
        &self.bytes
    }

    /// Whether `self` and `other` are the same identifier.
    pub fn equals(&self, other: &Hash256) -> (same: bool)
        ensures
            same == (self@ == other@),
    {
        bytes32_eq(&self.bytes, &other.bytes)
    }

    /// Every hash has exactly [`HASH_SIZE`] bytes.
    pub proof fn lemma_len(self)
        ensures
            self@.len() == 32,
    {
    }
}

} // verus!
