//! The encrypted store: the bytes that stand on disk for a wallet.
//!
//! A store is the salt (32 bytes) followed by the sealed wallet state. The
//! key that seals it is derived from the password and the salt. This module
//! turns states into store bytes and back; reading and writing the file is
//! the caller's, by the steps that [`crate::replace`] lays down.

use vstd::prelude::*;

use crate::cipher::{
    open, opened, seal, seal_with_nonce, sealed, CipherError, MAX_PLAINTEXT_LEN,
};
use crate::codec::get_array32;
use crate::kdf::{KdfParams, MAX_PASSWORD_LEN, SALT_SIZE};
use crate::state::{StateModel, WalletState};

verus! {

/// Number of bytes of the shortest store: a salt and an empty sealed payload.
pub const STORE_MIN_LEN: usize = 72;

/// Why a store could not be made, opened or rewritten.
#[derive(Clone, Copy, Debug, PartialEq, Eq, Structural)]
pub enum StoreError {
    /// A store already stands under that name.
    AlreadyExists,
    /// No store stands under that name.
    NotFound,
    /// The store does not open under the password. A store whose sealed
    /// bytes were altered looks the same: the two cannot be told apart.
    WrongPassword,
    /// The store is too short to hold a salt and a sealed payload, or what
    /// it opens to is not a wallet state.
    Corrupted,
    /// The new password is too long to derive a key from.
    PasswordTooLong,
    /// The state is too large to seal.
    StateTooLarge,
    /// The operating system gave no random bytes.
    NoRandomness,
}

/// The key that a password gives for a store: derived with the salt that the
/// store begins with.
pub open spec fn store_key(params: KdfParams, stored: Seq<u8>, password: Seq<u8>) -> Seq<u8> {
    params.key_for(password, stored.subrange(0, SALT_SIZE as int))
}

/// The sealed part of a store.
pub open spec fn store_payload(stored: Seq<u8>) -> Seq<u8> {
    stored.subrange(SALT_SIZE as int, stored.len() as int)
}

/// Whether a store could have been written at all: it has room for the salt
/// and a sealed payload, and the password is one that a key can be derived
/// from.
pub open spec fn well_shaped(stored: Seq<u8>, password: Seq<u8>) -> bool {
    stored.len() >= STORE_MIN_LEN && password.len() <= MAX_PASSWORD_LEN
}

/// What a store opens to under a password: the bytes that were sealed, or
/// `None` where it does not authenticate under the password's key.
pub open spec fn unsealed(params: KdfParams, stored: Seq<u8>, password: Seq<u8>) -> Option<Seq<u8>> {
    opened(store_key(params, stored, password), store_payload(stored))
}

/// Whether a store opens under a password to the given state.
pub open spec fn opens_to(
    params: KdfParams,
    stored: Seq<u8>,
    password: Seq<u8>,
    model: StateModel,
) -> bool {
    &&& well_shaped(stored, password)
    &&& model.wf()
    &&& unsealed(params, stored, password) == Some(model.bytes())
}

/// The error with which a store that does not open is refused: none found,
/// too short to hold a salt and a sealed payload, not authentic under the
/// key of the password, or authentic but no wallet state. A password too
/// long to derive a key from can have sealed no store and counts as wrong.
pub open spec fn refusal(params: KdfParams, stored: Option<Seq<u8>>, password: Seq<u8>) -> StoreError {
    match stored {
        None => StoreError::NotFound,
        Some(bytes) => if bytes.len() < STORE_MIN_LEN {
            StoreError::Corrupted
        } else if password.len() > MAX_PASSWORD_LEN {
            StoreError::WrongPassword
        } else if unsealed(params, bytes, password) is None {
            StoreError::WrongPassword
        } else {
            StoreError::Corrupted
        },
    }
}

/// A store opens under a password to at most one state: whoever opens what
/// was written for a state gets that very state back.
pub proof fn lemma_opens_to_one(
    params: KdfParams,
    stored: Seq<u8>,
    password: Seq<u8>,
    a: StateModel,
    b: StateModel,
)
    requires
        opens_to(params, stored, password, a),
        opens_to(params, stored, password, b),
    ensures
        a == b,
{
    crate::state::lemma_bytes_injective(a, b);
}

/// What opening a store gives: the state, and the key and the salt that the
/// store was sealed with.
#[derive(Debug)]
pub struct Unlocked {
    pub state: WalletState,
    pub key: [u8; 32],
    pub salt: [u8; 32],
}

/// The store bytes for the bytes of a state: the salt, then the bytes sealed
/// under the key with the nonce given. Bytes too many to seal are refused,
/// and no others are.
pub fn seal_store(key: &[u8; 32], salt: &[u8; 32], nonce: &[u8; 24], plain: &[u8]) -> (res: Result<
    Vec<u8>,
    StoreError,
>)
    ensures
        match res {
            Ok(stored) => {
                &&& plain@.len() < MAX_PLAINTEXT_LEN
                &&& stored@ == salt@ + sealed(key@, nonce@, plain@)
                &&& stored@.len() >= STORE_MIN_LEN
                &&& stored@.subrange(0, SALT_SIZE as int) == salt@
                &&& opened(key@, store_payload(stored@)) == Some(plain@)
            },
            Err(e) => e == StoreError::StateTooLarge && plain@.len() >= MAX_PLAINTEXT_LEN,
        },
{
    match seal_with_nonce(key, nonce, plain) {
        Ok(payload) => {
            let mut stored: Vec<u8> = Vec::new();
            stored.extend_from_slice(salt.as_slice());
            stored.extend_from_slice(payload.as_slice());
            proof {
                assert(stored@ =~= salt@ + payload@);
                assert(stored@.subrange(0, SALT_SIZE as int) =~= salt@);
                assert(store_payload(stored@) =~= payload@);
            }
            Ok(stored)
        },
        Err(_) => Err(StoreError::StateTooLarge),
    }
}

/// The store bytes for a state: the salt, then the state sealed under the
/// key with the nonce given.
pub fn write_store_with_nonce(
    key: &[u8; 32],
    salt: &[u8; 32],
    nonce: &[u8; 24],
    state: &WalletState,
) -> (res: Result<Vec<u8>, StoreError>)
    requires
        state.wf(),
    ensures
        state.model().wf(),
        match res {
            Ok(stored) => {
                &&& state.model().bytes().len() < MAX_PLAINTEXT_LEN
                &&& stored@ == salt@ + sealed(key@, nonce@, state.model().bytes())
                &&& stored@.len() >= STORE_MIN_LEN
                &&& stored@.subrange(0, SALT_SIZE as int) == salt@
                &&& opened(key@, store_payload(stored@)) == Some(state.model().bytes())
            },
            Err(e) => e == StoreError::StateTooLarge && state.model().bytes().len()
                >= MAX_PLAINTEXT_LEN,
        },
{
    let plain = state.to_bytes();
    seal_store(key, salt, nonce, plain.as_slice())
}

/// The store bytes for a state, sealed under the key with a fresh nonce.
///
/// Whatever nonce was drawn, the store begins with the salt and its sealed
/// part opens under the key to the bytes of the state.
pub fn write_store(key: &[u8; 32], salt: &[u8; 32], state: &WalletState) -> (res: Result<
    Vec<u8>,
    StoreError,
>)
    requires
        state.wf(),
    ensures
        state.model().wf(),
        match res {
            Ok(stored) => {
                &&& state.model().bytes().len() < MAX_PLAINTEXT_LEN
                &&& stored@.len() >= STORE_MIN_LEN
                &&& stored@.subrange(0, SALT_SIZE as int) == salt@
                &&& opened(key@, store_payload(stored@)) == Some(state.model().bytes())
            },
            Err(e) => {
                &&& e == StoreError::StateTooLarge || e == StoreError::NoRandomness
                &&& e == StoreError::StateTooLarge <==> state.model().bytes().len()
                    >= MAX_PLAINTEXT_LEN
            },
        },
{
    let plain = state.to_bytes();
    match seal(key, plain.as_slice()) {
        Ok(payload) => {
            let mut stored: Vec<u8> = Vec::new();
            stored.extend_from_slice(salt.as_slice());
            stored.extend_from_slice(payload.as_slice());
            proof {
                assert(stored@ =~= salt@ + payload@);
                assert(stored@.subrange(0, SALT_SIZE as int) =~= salt@);
                assert(store_payload(stored@) =~= payload@);
            }
            Ok(stored)
        },
        Err(CipherError::MessageTooLong) => Err(StoreError::StateTooLarge),
        Err(_) => Err(StoreError::NoRandomness),
    }
}

/// Opens a store under a password.
///
/// The state comes back exactly where the store opens under the password to
/// a state, and it is that state; the store then is the salt followed by
/// that state sealed under the password's key. Otherwise the error is the
/// one that
/// [`refusal`] names: no store, a store too short, one that does not
/// authenticate under the password, or one whose payload is no wallet state.
pub fn read_store(params: &KdfParams, stored: Option<&[u8]>, password: &[u8]) -> (res: Result<
    Unlocked,
    StoreError,
>)
    ensures
        match res {
            Ok(unlocked) => {
                &&& stored matches Some(bytes)
                &&& unlocked.state.wf()
                &&& opens_to(*params, bytes@, password@, unlocked.state.model())
                &&& unlocked.key@ == store_key(*params, bytes@, password@)
                &&& unlocked.salt@ == bytes@.subrange(0, SALT_SIZE as int)
                &&& store_payload(bytes@) == sealed(
                    unlocked.key@,
                    store_payload(bytes@).subrange(0, crate::cipher::NONCE_SIZE as int),
                    unlocked.state.model().bytes(),
                )
            },
            Err(e) => {
                &&& e == refusal(
                    *params,
                    match stored {
                        Some(bytes) => Some(bytes@),
                        None => None,
                    },
                    password@,
                )
                &&& stored matches Some(bytes) ==> forall|model: StateModel|
                    !#[trigger] opens_to(*params, bytes@, password@, model)
            },
        },
{
    let bytes = match stored {
        Some(bytes) => bytes,
        None => {
            return Err(StoreError::NotFound);
        },
    };
    if bytes.len() < STORE_MIN_LEN {
        return Err(StoreError::Corrupted);
    }
    let salt = get_array32(bytes, 0);
    let key = match crate::kdf::derive(params, password, &salt) {
        Ok(key) => key,
        Err(_) => {
            return Err(StoreError::WrongPassword);
        },
    };
    let payload = vstd::slice::slice_subrange(bytes, SALT_SIZE, bytes.len());
    let plain = match open(&key, payload) {
        Ok(plain) => plain,
        Err(_) => {
            return Err(StoreError::WrongPassword);
        },
    };
    match WalletState::from_bytes(plain.as_slice()) {
        Some(state) => Ok(Unlocked { state, key, salt }),
        None => {
            proof {
                assert forall|model: StateModel| !#[trigger] opens_to(
                    *params,
                    bytes@,
                    password@,
                    model,
                ) by {
                    if opens_to(*params, bytes@, password@, model) {
                        assert(model.bytes() == plain@);
                    }
                }
            }
            Err(StoreError::Corrupted)
        },
    }
}

} // verus!
