//! Fresh random bytes from the operating system.

use rand::RngCore;
use vstd::prelude::*;

verus! {

/// Calls `rand::rngs::OsRng::try_fill_bytes` on a zeroed array of `N` bytes.
/// Nothing is claimed of the bytes that come back; `None` stands for the
/// error that the operating system's generator reported.
#[verifier::external_body]
pub(crate) fn random_array<const N: usize>() -> (out: Option<[u8; N]>) {
    let mut bytes = [0u8; N];
    match rand::rngs::OsRng.try_fill_bytes(&mut bytes) {
        Ok(()) => Some(bytes),
        Err(_) => None,
    }
}

} // verus!
