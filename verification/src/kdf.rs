//! Password-based key derivation with Argon2id.

use vstd::prelude::*;

verus! {

/// Number of bytes in a salt.
pub const SALT_SIZE: usize = 32;

/// Number of bytes in a derived key.
pub const KEY_SIZE: usize = 32;

/// Number of bytes that the password hash produces.
pub const PASSWORD_HASH_SIZE: usize = 32;

/// Memory cost of the wallet's key derivation, in KiB (about 15 MB).
pub const KDF_MEMORY_COST: u32 = 15000;

/// Number of passes of the wallet's key derivation.
pub const KDF_ITERATIONS: u32 = 16;

/// Degree of parallelism of the wallet's key derivation.
pub const KDF_PARALLELISM: u32 = 1;

/// Longest password, in bytes, that Argon2 accepts.
pub const MAX_PASSWORD_LEN: u64 = 0xFFFF_FFFF;

/// Why a key could not be derived.
#[derive(Clone, Copy, Debug, PartialEq, Eq, Structural)]
pub enum KdfError {
    /// The password has more than [`MAX_PASSWORD_LEN`] bytes.
    PasswordTooLong,
}

/// Cost parameters of Argon2id. A value of this type always holds a
/// combination that Argon2 accepts, so a misconfiguration shows when the
/// parameters are made and never when a key is derived.
#[derive(Clone, Copy, Debug)]
pub struct KdfParams {
    memory_cost: u32,
    iterations: u32,
    parallelism: u32,
}

/// The Argon2id (version 0x13) tag of 32 bytes for the given costs, password
/// and salt, with no secret and no associated data.
pub uninterp spec fn argon2id(
    memory_cost: u32,
    iterations: u32,
    parallelism: u32,
    password: Seq<u8>,
    salt: Seq<u8>,
) -> Seq<u8>;

/// Whether Argon2 accepts the three costs: at least 8 KiB of memory for each
/// lane, at least one pass, and between 1 and 2^24 - 1 lanes.
pub open spec fn costs_accepted(memory_cost: u32, iterations: u32, parallelism: u32) -> bool {
    &&& 1 <= parallelism <= 0xFF_FFFF
    &&& 8 * parallelism <= memory_cost
    &&& 1 <= iterations
}

/// Builds `argon2::Params` from the three costs with an output length of 32,
/// makes an `argon2::Argon2` for Argon2id version 0x13 and calls its
/// `hash_password_into` on a buffer of 32 bytes.
///
/// The costs are required to be ones that `Params::new` accepts. The salt has
/// 32 bytes, which is within Argon2's bounds, so the only input that
/// `hash_password_into` still refuses is a password of more than 2^32 - 1
/// bytes: the result is `None` exactly then. Otherwise it is the tag, which
/// is a function of the five inputs alone.
#[verifier::external_body]
fn argon2id_hash(
    memory_cost: u32,
    iterations: u32,
    parallelism: u32,
    password: &[u8],
    salt: &[u8; 32],
) -> (out: Option<[u8; 32]>)
    requires
        costs_accepted(memory_cost, iterations, parallelism),
    ensures
        out is Some <==> password@.len() <= MAX_PASSWORD_LEN,
        out matches Some(key) ==> key@ == argon2id(
            memory_cost,
            iterations,
            parallelism,
            password@,
            salt@,
        ),
{
    let params = argon2::Params::new(memory_cost, iterations, parallelism, Some(32)).ok()?;
    let hasher = argon2::Argon2::new(argon2::Algorithm::Argon2id, argon2::Version::V0x13, params);
    let mut key = [0u8; 32];
    hasher.hash_password_into(password, salt, &mut key).ok()?;
    Some(key)
}

impl KdfParams {
    #[verifier::type_invariant]
    spec fn accepted(self) -> bool {
        costs_accepted(self.memory_cost, self.iterations, self.parallelism)
    }

    /// Memory cost in KiB.
    pub closed spec fn spec_memory_cost(self) -> u32 {
        self.memory_cost
    }

    /// Number of passes.
    pub closed spec fn spec_iterations(self) -> u32 {
        self.iterations
    }

    /// Number of lanes.
    pub closed spec fn spec_parallelism(self) -> u32 {
        self.parallelism
    }

    /// The key that these parameters derive from a password and a salt.
    pub open spec fn key_for(self, password: Seq<u8>, salt: Seq<u8>) -> Seq<u8> {
        argon2id(
            self.spec_memory_cost(),
            self.spec_iterations(),
            self.spec_parallelism(),
            password,
            salt,
        )
    }

    /// Parameters with the given costs, or `None` where Argon2 would refuse
    /// them.
    pub fn new(memory_cost: u32, iterations: u32, parallelism: u32) -> (params: Option<KdfParams>)
        ensures
            params is Some <==> costs_accepted(memory_cost, iterations, parallelism),
            params matches Some(p) ==> {
                &&& p.spec_memory_cost() == memory_cost
                &&& p.spec_iterations() == iterations
                &&& p.spec_parallelism() == parallelism
            },
    {
        if parallelism < 1 || parallelism > 0xFF_FFFF || iterations < 1 {
            return None;
        }
        if memory_cost < 8 * parallelism {
            return None;
        }
        Some(KdfParams { memory_cost, iterations, parallelism })
    }

    /// The wallet's fixed parameters: about 15 MB of memory, 16 passes, one
    /// lane.
    pub fn standard() -> (params: KdfParams)
        ensures
            params.spec_memory_cost() == KDF_MEMORY_COST,
            params.spec_iterations() == KDF_ITERATIONS,
            params.spec_parallelism() == KDF_PARALLELISM,
    {
        KdfParams {
            memory_cost: KDF_MEMORY_COST,
            iterations: KDF_ITERATIONS,
            parallelism: KDF_PARALLELISM,
        }
    }

    /// Memory cost in KiB.
    pub fn memory_cost(&self) -> (cost: u32)
        ensures
            cost == self.spec_memory_cost(),
    {
        self.memory_cost
    }

    /// Number of passes.
    pub fn iterations(&self) -> (passes: u32)
        ensures
            passes == self.spec_iterations(),
    {
        self.iterations
    }

    /// Number of lanes.
    pub fn parallelism(&self) -> (lanes: u32)
        ensures
            lanes == self.spec_parallelism(),
    {
        self.parallelism
    }
}

/// Derives the 32-byte key for a password and a salt.
///
/// The key is a function of the parameters, the password and the salt alone,
/// so the same three always give the same key. The one input that is refused
/// is a password too long for Argon2.
pub fn derive(params: &KdfParams, password: &[u8], salt: &[u8; 32]) -> (res: Result<
    [u8; 32],
    KdfError,
>)
    ensures
        match res {
            Ok(key) => password@.len() <= MAX_PASSWORD_LEN && key@ == params.key_for(
                password@,
                salt@,
            ),
            Err(e) => password@.len() > MAX_PASSWORD_LEN && e == KdfError::PasswordTooLong,
        },
{
    proof {
        use_type_invariant(params);
    }
    match argon2id_hash(params.memory_cost, params.iterations, params.parallelism, password, salt) {
        Some(key) => Ok(key),
        None => Err(KdfError::PasswordTooLong),
    }
}

} // verus!
