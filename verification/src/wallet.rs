//! An open wallet: the state in memory together with the key and the salt
//! that seal it.
//!
//! Every operation that changes the wallet hands back, or is followed by,
//! the store bytes to write, so that the disk is never more than one
//! operation behind memory. The caller holds one exclusive lock around each
//! operation and the write that follows it.

use vstd::prelude::*;

use crate::builder::{covers, spend_all, spends_of, BuildError};
use crate::cipher::{opened, MAX_PLAINTEXT_LEN};
use crate::codec::{concat_all, lemma_u64_bytes};
use crate::hash::Hash256;
use crate::kdf::{KdfParams, MAX_PASSWORD_LEN, SALT_SIZE};
use crate::ledger::{larger, overwrite, Balance, HistoryEntry, Ledger};
use crate::random::random_array;
use crate::signing::{ed25519_public_key, ed25519_signature, KeyPair, PublicKey};
use crate::state::{holding_writer, past_writer, StateModel, WalletState};
use crate::store::{
    opens_to, read_store, refusal, seal_store, store_payload, write_store,
    write_store_with_nonce, StoreError, Unlocked, STORE_MIN_LEN,
};
use crate::transaction::{body_bytes, Transaction, TransactionType, TransactionView};

verus! {

/// A change of password that has been worked out and not yet taken up: the
/// new store, and the key and the salt that seal it.
#[derive(Debug)]
pub struct Rotation {
    store: Vec<u8>,
    key: [u8; 32],
    salt: [u8; 32],
}

impl Rotation {
    /// The new store bytes.
    pub closed spec fn spec_store(self) -> Seq<u8> {
        self.store@
    }

    /// The key that seals the new store.
    pub closed spec fn spec_key(self) -> Seq<u8> {
        self.key@
    }

    /// The salt that the new key was derived with.
    pub closed spec fn spec_salt(self) -> Seq<u8> {
        self.salt@
    }

    /// Whether the rotation holds a store of the given state: the store
    /// begins with the rotation's salt and opens under the rotation's key to
    /// the state.
    pub open spec fn seals(self, model: StateModel) -> bool {
        &&& self.spec_store().len() >= STORE_MIN_LEN
        &&& self.spec_store().subrange(0, SALT_SIZE as int) == self.spec_salt()
        &&& model.wf()
        &&& opened(self.spec_key(), store_payload(self.spec_store())) == Some(model.bytes())
    }

    /// The new store bytes, to be put in the place of the old store.
    pub fn store(&self) -> (store: &Vec<u8>)
        ensures
            store@ == self.spec_store(),
    {
        &self.store
    }
}

/// An open wallet.
#[derive(Debug)]
pub struct Wallet {
    state: WalletState,
    key: [u8; 32],
    salt: [u8; 32],
    params: KdfParams,
}

impl Drop for Wallet {
    /// Overwrites the key with zeros when the wallet is closed.
    fn drop(&mut self)
        opens_invariants none
        no_unwind
    {
        self.key = [
            0, 0, 0, 0, 0, 0, 0, 0, 0, 0, 0, 0, 0, 0, 0, 0, 0, 0, 0, 0, 0, 0, 0, 0, 0, 0, 0, 0, 0, 0, 0, 0,
        ];
    }
}

impl Wallet {
    /// The state held in memory.
    pub closed spec fn spec_state(self) -> WalletState {
        self.state
    }

    /// The key that seals the store.
    pub closed spec fn spec_key(self) -> Seq<u8> {
        self.key@
    }

    /// The salt that the key was derived with.
    pub closed spec fn spec_salt(self) -> Seq<u8> {
        self.salt@
    }

    /// The parameters that the key was derived with.
    pub closed spec fn spec_params(self) -> KdfParams {
        self.params
    }

    /// The ledger held in memory.
    pub open spec fn spec_ledger(self) -> Ledger {
        self.spec_state().spec_ledger()
    }

    /// Whether the wallet is one that this module hands out.
    pub open spec fn wf(self) -> bool {
        self.spec_state().wf()
    }

    /// Whether the password is the wallet's: the key that it gives with the
    /// wallet's salt is the wallet's key.
    pub open spec fn unlocked_by(self, password: Seq<u8>) -> bool {
        &&& password.len() <= MAX_PASSWORD_LEN
        &&& self.spec_params().key_for(password, self.spec_salt()) == self.spec_key()
    }

    /// Whether store bytes are a store of this wallet as it stands: they
    /// begin with its salt and open under its key to its state.
    pub open spec fn stored_as(self, stored: Seq<u8>) -> bool {
        &&& stored.len() >= STORE_MIN_LEN
        &&& stored.subrange(0, SALT_SIZE as int) == self.spec_salt()
        &&& self.spec_state().model().wf()
        &&& opened(self.spec_key(), store_payload(stored)) == Some(
            self.spec_state().model().bytes(),
        )
    }

    /// A store of the wallet as it stands opens, under every password that
    /// is the wallet's, to the wallet's state.
    pub proof fn lemma_stored_opens(self, stored: Seq<u8>, password: Seq<u8>)
        requires
            self.stored_as(stored),
            self.unlocked_by(password),
        ensures
            opens_to(self.spec_params(), stored, password, self.spec_state().model()),
    {
    }

    /// Makes a wallet from a password and from the random values given: the
    /// salt, the secret key and the nonce that seals the first store.
    ///
    /// The wallet holds nothing, its nonce is zero, and the store bytes that
    /// come with it open under the password to that state. The one input
    /// refused is a password too long to derive a key from.
    pub fn create_with(
        params: &KdfParams,
        password: &[u8],
        salt: [u8; 32],
        secret: [u8; 32],
        nonce: [u8; 24],
    ) -> (res: Result<(Wallet, Vec<u8>), StoreError>)
        ensures
            match res {
                Ok((wallet, stored)) => {
                    &&& password@.len() <= MAX_PASSWORD_LEN
                    &&& wallet.wf()
                    &&& wallet.spec_params() == *params
                    &&& wallet.spec_salt() == salt@
                    &&& wallet.unlocked_by(password@)
                    &&& wallet.spec_state().spec_keypair().spec_secret() == secret@
                    &&& wallet.spec_ledger()@.balances == Map::<Seq<u8>, nat>::empty()
                    &&& wallet.spec_ledger()@.nonce == 0
                    &&& wallet.spec_ledger()@.history.len() == 0
                    &&& stored@ == salt@ + crate::cipher::sealed(
                        wallet.spec_key(),
                        nonce@,
                        wallet.spec_state().model().bytes(),
                    )
                    &&& opens_to(*params, stored@, password@, wallet.spec_state().model())
                },
                Err(e) => e == StoreError::PasswordTooLong && password@.len() > MAX_PASSWORD_LEN,
            },
    {
        let key = match crate::kdf::derive(params, password, &salt) {
            Ok(key) => key,
            Err(_) => {
                return Err(StoreError::PasswordTooLong);
            },
        };
        let state = WalletState::new(KeyPair::from_secret(secret));
        proof {
            let model = state.model();
            lemma_u64_bytes(model.nonce);
            lemma_u64_bytes(model.height);
            lemma_u64_bytes(0);
            assert(model.balances.len() == 0);
            assert(model.history.len() == 0);
            assert(concat_all(model.balances, holding_writer()).len() == 0);
            assert(concat_all(model.history, past_writer()).len() == 0);
            assert(model.bytes().len() == 64);
        }
        match write_store_with_nonce(&key, &salt, &nonce, &state) {
            Ok(stored) => Ok((Wallet { state, key, salt, params: *params }, stored)),
            Err(e) => Err(e),
        }
    }

    /// Makes a wallet under a name that is still free, with a salt, a secret
    /// key and a nonce drawn afresh.
    ///
    /// Whatever was drawn, the wallet holds nothing, its nonce is zero, and
    /// the store bytes that come with it open under the password to that
    /// state. A wallet is refused where a store already stands under the
    /// name, where the password is too long, and where the operating system
    /// gave no random bytes.
    pub fn create(params: &KdfParams, exists: bool, password: &[u8]) -> (res: Result<
        (Wallet, Vec<u8>),
        StoreError,
    >)
        ensures
            match res {
                Ok((wallet, stored)) => {
                    &&& !exists
                    &&& password@.len() <= MAX_PASSWORD_LEN
                    &&& wallet.wf()
                    &&& wallet.spec_params() == *params
                    &&& wallet.unlocked_by(password@)
                    &&& wallet.spec_ledger()@.balances == Map::<Seq<u8>, nat>::empty()
                    &&& wallet.spec_ledger()@.nonce == 0
                    &&& wallet.spec_ledger()@.history.len() == 0
                    &&& opens_to(*params, stored@, password@, wallet.spec_state().model())
                },
                Err(e) => {
                    &&& e == StoreError::AlreadyExists <==> exists
                    &&& e == StoreError::PasswordTooLong <==> !exists && password@.len()
                        > MAX_PASSWORD_LEN
                    &&& e == StoreError::AlreadyExists || e == StoreError::PasswordTooLong || e
                        == StoreError::NoRandomness
                },
            },
    {
        if exists {
            return Err(StoreError::AlreadyExists);
        }
        if password.len() as u64 > MAX_PASSWORD_LEN {
            return Err(StoreError::PasswordTooLong);
        }
        let salt = match random_array::<32>() {
            Some(salt) => salt,
            None => {
                return Err(StoreError::NoRandomness);
            },
        };
        let secret = match random_array::<32>() {
            Some(secret) => secret,
            None => {
                return Err(StoreError::NoRandomness);
            },
        };
        let nonce = match random_array::<24>() {
            Some(nonce) => nonce,
            None => {
                return Err(StoreError::NoRandomness);
            },
        };
        Wallet::create_with(params, password, salt, secret, nonce)
    }

    /// Opens the wallet that store bytes hold under a password.
    ///
    /// The wallet comes back exactly where the store opens under the
    /// password to a state; it holds that state and is unlocked by the
    /// password. Otherwise the error is the one that
    /// [`crate::store::refusal`] names.
    pub fn open(params: &KdfParams, stored: Option<&[u8]>, password: &[u8]) -> (res: Result<
        Wallet,
        StoreError,
    >)
        ensures
            match res {
                Ok(wallet) => {
                    &&& stored matches Some(bytes)
                    &&& wallet.wf()
                    &&& wallet.spec_params() == *params
                    &&& wallet.unlocked_by(password@)
                    &&& wallet.spec_salt() == bytes@.subrange(0, SALT_SIZE as int)
                    &&& opens_to(*params, bytes@, password@, wallet.spec_state().model())
                },
                Err(e) => {
                    &&& e == refusal(
                        *params,
                        match stored {
                            Some(bytes) => Some(bytes@),
                            None => None,
                        },
                        password@,
                    )
                    &&& stored matches Some(bytes) ==> forall|model: StateModel|
                        !#[trigger] opens_to(*params, bytes@, password@, model)
                },
            },
    {
        match read_store(params, stored, password) {
            Ok(unlocked) => {
                let Unlocked { state, key, salt } = unlocked;
                Ok(Wallet { state, key, salt, params: *params })
            },
            Err(e) => Err(e),
        }
    }

    /// The store bytes for the wallet as it stands, sealed with a fresh
    /// nonce. They are to replace the store on disk after every change.
    ///
    /// Whatever nonce was drawn, the bytes open under the wallet's password
    /// to the wallet's state.
    pub fn persist(&self) -> (res: Result<Vec<u8>, StoreError>)
        requires
            self.wf(),
        ensures
            match res {
                Ok(stored) => self.stored_as(stored@),
                Err(e) => {
                    &&& e == StoreError::StateTooLarge || e == StoreError::NoRandomness
                    &&& e == StoreError::StateTooLarge <==> self.spec_state().model().bytes().len()
                        >= MAX_PLAINTEXT_LEN
                },
            },
    {
        write_store(&self.key, &self.salt, &self.state)
    }

    /// Works out a change of password, with the random values given: the
    /// new salt and the nonce that seals the new store.
    ///
    /// The old password must open the store that stands on disk; if it does
    /// not, the error is the one with which that store is refused. A new
    /// password too long to derive a key from is refused next, and then a
    /// state too large to seal. Every other change is worked out: the
    /// wallet's state is sealed under the key of the new password and the
    /// new salt. The wallet itself does not change: the rotation that comes
    /// back holds the new store, to replace the old one in one step, and is
    /// taken up with [`Wallet::adopt`] once that has been done.
    pub fn set_password_with(
        &self,
        stored: &[u8],
        old_password: &[u8],
        new_password: &[u8],
        salt: [u8; 32],
        nonce: [u8; 24],
    ) -> (res: Result<Rotation, StoreError>)
        requires
            self.wf(),
        ensures
            match res {
                Ok(rotation) => {
                    &&& exists|model: StateModel| #[trigger]
                        opens_to(self.spec_params(), stored@, old_password@, model)
                    &&& new_password@.len() <= MAX_PASSWORD_LEN
                    &&& self.spec_state().model().bytes().len() < MAX_PLAINTEXT_LEN
                    &&& rotation.spec_salt() == salt@
                    &&& rotation.spec_key() == self.spec_params().key_for(new_password@, salt@)
                    &&& rotation.spec_store() == salt@ + crate::cipher::sealed(
                        rotation.spec_key(),
                        nonce@,
                        self.spec_state().model().bytes(),
                    )
                    &&& rotation.seals(self.spec_state().model())
                    &&& opens_to(
                        self.spec_params(),
                        rotation.spec_store(),
                        new_password@,
                        self.spec_state().model(),
                    )
                },
                Err(e) => if forall|model: StateModel|
                    !#[trigger] opens_to(self.spec_params(), stored@, old_password@, model) {
                    e == refusal(self.spec_params(), Some(stored@), old_password@)
                } else if new_password@.len() > MAX_PASSWORD_LEN {
                    e == StoreError::PasswordTooLong
                } else {
                    &&& e == StoreError::StateTooLarge
                    &&& self.spec_state().model().bytes().len() >= MAX_PLAINTEXT_LEN
                },
            },
    {
        match read_store(&self.params, Some(stored), old_password) {
            Ok(_) => {},
            Err(e) => {
                return Err(e);
            },
        }
        let plain = self.state.to_bytes();
        self.rotate(new_password, salt, nonce, plain.as_slice())
    }

    /// Works out a change of password, with a salt and a nonce drawn afresh.
    ///
    /// What does not hang on the draw is settled before it, in this order:
    /// an old password that does not open the store is refused with the
    /// error with which the store is refused under it, so that the right old
    /// password is never called wrong; a new password too long to derive a
    /// key from is refused; a state too large to seal is refused. Every
    /// other change fails only where the operating system gives no random
    /// bytes. Whatever was drawn, the new store begins with the new salt and
    /// opens under the new password to the wallet's state. The wallet itself
    /// does not change until the rotation is taken up with
    /// [`Wallet::adopt`].
    pub fn set_password(&self, stored: &[u8], old_password: &[u8], new_password: &[u8]) -> (res:
        Result<Rotation, StoreError>)
        requires
            self.wf(),
        ensures
            match res {
                Ok(rotation) => {
                    &&& exists|model: StateModel| #[trigger]
                        opens_to(self.spec_params(), stored@, old_password@, model)
                    &&& new_password@.len() <= MAX_PASSWORD_LEN
                    &&& self.spec_state().model().bytes().len() < MAX_PLAINTEXT_LEN
                    &&& rotation.spec_key() == self.spec_params().key_for(
                        new_password@,
                        rotation.spec_salt(),
                    )
                    &&& rotation.spec_store().subrange(0, SALT_SIZE as int) == rotation.spec_salt()
                    &&& rotation.seals(self.spec_state().model())
                    &&& opens_to(
                        self.spec_params(),
                        rotation.spec_store(),
                        new_password@,
                        self.spec_state().model(),
                    )
                },
                Err(e) => if forall|model: StateModel|
                    !#[trigger] opens_to(self.spec_params(), stored@, old_password@, model) {
                    e == refusal(self.spec_params(), Some(stored@), old_password@)
                } else if new_password@.len() > MAX_PASSWORD_LEN {
                    e == StoreError::PasswordTooLong
                } else if self.spec_state().model().bytes().len() >= MAX_PLAINTEXT_LEN {
                    e == StoreError::StateTooLarge
                } else {
                    e == StoreError::NoRandomness
                },
            },
    {
        match read_store(&self.params, Some(stored), old_password) {
            Ok(_) => {},
            Err(e) => {
                return Err(e);
            },
        }
        if new_password.len() as u64 > MAX_PASSWORD_LEN {
            return Err(StoreError::PasswordTooLong);
        }
        let plain = self.state.to_bytes();
        if plain.len() as u64 >= MAX_PLAINTEXT_LEN {
            return Err(StoreError::StateTooLarge);
        }
        let salt = match random_array::<32>() {
            Some(salt) => salt,
            None => {
                return Err(StoreError::NoRandomness);
            },
        };
        let nonce = match random_array::<24>() {
            Some(nonce) => nonce,
            None => {
                return Err(StoreError::NoRandomness);
            },
        };
        self.rotate(new_password, salt, nonce, plain.as_slice())
    }

    /// Seals the bytes of the wallet's state under the key that the new
    /// password gives with the salt.
    fn rotate(&self, new_password: &[u8], salt: [u8; 32], nonce: [u8; 24], plain: &[u8]) -> (res:
        Result<Rotation, StoreError>)
        requires
            self.spec_state().model().wf(),
            plain@ == self.spec_state().model().bytes(),
        ensures
            match res {
                Ok(rotation) => {
                    &&& new_password@.len() <= MAX_PASSWORD_LEN
                    &&& plain@.len() < MAX_PLAINTEXT_LEN
                    &&& rotation.spec_salt() == salt@
                    &&& rotation.spec_key() == self.spec_params().key_for(new_password@, salt@)
                    &&& rotation.spec_store() == salt@ + crate::cipher::sealed(
                        rotation.spec_key(),
                        nonce@,
                        plain@,
                    )
                    &&& rotation.seals(self.spec_state().model())
                    &&& opens_to(
                        self.spec_params(),
                        rotation.spec_store(),
                        new_password@,
                        self.spec_state().model(),
                    )
                },
                Err(e) => if new_password@.len() > MAX_PASSWORD_LEN {
                    e == StoreError::PasswordTooLong
                } else {
                    e == StoreError::StateTooLarge && plain@.len() >= MAX_PLAINTEXT_LEN
                },
            },
    {
        let key = match crate::kdf::derive(&self.params, new_password, &salt) {
            Ok(key) => key,
            Err(_) => {
                return Err(StoreError::PasswordTooLong);
            },
        };
        match seal_store(&key, &salt, &nonce, plain) {
            Ok(store) => Ok(Rotation { store, key, salt }),
            Err(e) => Err(e),
        }
    }

    /// Takes up a change of password, once its store has replaced the old
    /// one on disk: from now on the wallet seals with the new key and salt,
    /// and the new store is a store of the wallet as it stands. The state
    /// stays as it is. A rotation that is dropped instead leaves the wallet
    /// under its old password.
    pub fn adopt(&mut self, rotation: Rotation)
        requires
            old(self).wf(),
        ensures
            final(self).wf(),
            final(self).spec_state() == old(self).spec_state(),
            final(self).spec_params() == old(self).spec_params(),
            final(self).spec_key() == rotation.spec_key(),
            final(self).spec_salt() == rotation.spec_salt(),
            rotation.seals(old(self).spec_state().model()) ==> final(self).stored_as(
                rotation.spec_store(),
            ),
    {
        self.key = rotation.key;
        self.salt = rotation.salt;
    }

    /// Appends the summary of a transaction to the history. Balances, nonce
    /// and height stay, and so do the key, the salt and the keypair.
    pub fn record(&mut self, entry: HistoryEntry)
        requires
            old(self).wf(),
        ensures
            final(self).wf(),
            final(self).spec_key() == old(self).spec_key(),
            final(self).spec_salt() == old(self).spec_salt(),
            final(self).spec_params() == old(self).spec_params(),
            final(self).spec_state().spec_keypair() == old(self).spec_state().spec_keypair(),
            final(self).spec_ledger()@.history == old(self).spec_ledger()@.history.push(entry),
            final(self).spec_ledger()@.balances == old(self).spec_ledger()@.balances,
            final(self).spec_ledger()@.nonce == old(self).spec_ledger()@.nonce,
            final(self).spec_ledger()@.height == old(self).spec_ledger()@.height,
    {
        self.state.ledger_mut().record(entry);
    }

    /// The amount held of an asset: zero for one never touched.
    pub fn get_balance(&self, asset: &Hash256) -> (amount: u64)
        requires
            self.wf(),
        ensures
            amount == self.spec_ledger().spec_balance(asset@),
    {
        self.state.ledger().balance(asset)
    }

    /// The account nonce.
    pub fn get_nonce(&self) -> (nonce: u64)
        ensures
            nonce == self.spec_ledger()@.nonce,
    {
        self.state.ledger().nonce()
    }

    /// The public key that names the wallet on the ledger.
    pub fn get_address(&self) -> (address: PublicKey)
        ensures
            address@ == self.spec_state().spec_keypair().spec_public(),
            address@ == ed25519_public_key(self.spec_state().spec_keypair().spec_secret()),
    {
        self.state.keypair().public_key()
    }

    /// The state held in memory.
    pub fn state(&self) -> (state: &WalletState)
        ensures
            *state == self.spec_state(),
    {
        &self.state
    }

    /// Builds and signs a transaction that spends from this wallet, as
    /// [`crate::builder::create_transaction`] does with the wallet's ledger
    /// and keypair. The key, the salt and the keypair stay as they are.
    pub fn create_transaction(&mut self, transaction_type: TransactionType) -> (res: Result<
        Transaction,
        BuildError,
    >)
        requires
            old(self).wf(),
        ensures
            final(self).wf(),
            final(self).spec_key() == old(self).spec_key(),
            final(self).spec_salt() == old(self).spec_salt(),
            final(self).spec_params() == old(self).spec_params(),
            final(self).spec_state().spec_keypair() == old(self).spec_state().spec_keypair(),
            final(self).spec_ledger()@.height == old(self).spec_ledger()@.height,
            final(self).spec_ledger()@.history == old(self).spec_ledger()@.history,
            match res {
                Ok(transaction) => {
                    &&& covers(old(self).spec_ledger()@.balances, spends_of(transaction_type@))
                    &&& old(self).spec_ledger()@.nonce < u64::MAX
                    &&& transaction@ == (TransactionView {
                        transaction_type: transaction_type@,
                        nonce: (old(self).spec_ledger()@.nonce + 1) as u64,
                        signature: ed25519_signature(
                            old(self).spec_state().spec_keypair().spec_secret(),
                            body_bytes(
                                transaction_type@,
                                (old(self).spec_ledger()@.nonce + 1) as u64,
                            ),
                        ),
                    })
                    &&& final(self).spec_ledger()@.balances == spend_all(
                        old(self).spec_ledger()@.balances,
                        spends_of(transaction_type@),
                    )
                    &&& final(self).spec_ledger()@.nonce == old(self).spec_ledger()@.nonce + 1
                },
                Err(e) => {
                    &&& final(self).spec_ledger()@.balances == old(self).spec_ledger()@.balances
                    &&& final(self).spec_ledger()@.nonce == old(self).spec_ledger()@.nonce
                    &&& if covers(old(self).spec_ledger()@.balances, spends_of(transaction_type@)) {
                        old(self).spec_ledger()@.nonce == u64::MAX && e
                            == BuildError::NonceExhausted
                    } else {
                        e == BuildError::InsufficientBalance
                    }
                },
            },
    {
        let keypair = *self.state.keypair();
        crate::builder::create_transaction(self.state.ledger_mut(), &keypair, transaction_type)
    }

    /// Takes up what the remote node reports, as [`Ledger::merge_remote`]
    /// does: reported balances replace local ones, the nonce is raised to
    /// the remote one and never lowered.
    pub fn merge_remote(&mut self, reported: &Vec<Balance>, remote_nonce: u64, height: u64)
        requires
            old(self).wf(),
        ensures
            final(self).wf(),
            final(self).spec_key() == old(self).spec_key(),
            final(self).spec_salt() == old(self).spec_salt(),
            final(self).spec_params() == old(self).spec_params(),
            final(self).spec_state().spec_keypair() == old(self).spec_state().spec_keypair(),
            final(self).spec_ledger()@.balances == overwrite(
                old(self).spec_ledger()@.balances,
                reported@,
            ),
            final(self).spec_ledger()@.nonce == larger(
                old(self).spec_ledger()@.nonce,
                remote_nonce as nat,
            ),
            final(self).spec_ledger()@.height == height,
            final(self).spec_ledger()@.history == old(self).spec_ledger()@.history,
    {
        self.state.ledger_mut().merge_remote(reported, remote_nonce, height);
    }
}

} // verus!
