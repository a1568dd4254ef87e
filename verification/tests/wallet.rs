use xelis_wallet::builder::{create_transfer, BuildError};
use xelis_wallet::cipher::seal_with_nonce;
use xelis_wallet::config::{native_asset, Config};
use xelis_wallet::hash::Hash256;
use xelis_wallet::kdf::KdfParams;
use xelis_wallet::ledger::{Balance, Confirmation, Direction, HistoryEntry, LedgerError};
use xelis_wallet::signing::{KeyPair, PublicKey};
use xelis_wallet::store::{read_store, write_store, write_store_with_nonce, StoreError, STORE_MIN_LEN};
use xelis_wallet::transaction::TransactionType;
use xelis_wallet::wallet::Wallet;

fn cheap() -> KdfParams {
    KdfParams::new(8, 1, 1).unwrap()
}

fn fresh(password: &[u8]) -> (Wallet, Vec<u8>) {
    Wallet::create_with(&cheap(), password, [0x5A; 32], [0x11; 32], [0x77; 24]).unwrap()
}

#[test]
fn a_new_wallet_holds_nothing_and_cannot_spend() {
    let config = Config::new(String::from("w1"), String::from("pw1"));
    assert_eq!(config.wallet_dir(), "wallets/w1");
    let (mut wallet, stored) =
        Wallet::create(&KdfParams::standard(), false, config.password.as_bytes()).unwrap();
    assert!(stored.len() >= STORE_MIN_LEN);
    assert_eq!(wallet.get_balance(&native_asset()), 0);
    assert_eq!(wallet.get_nonce(), 0);
    let transfer = create_transfer(native_asset(), PublicKey::new([9; 32]), None, 100).unwrap();
    let res = wallet.create_transaction(TransactionType::Transfer(vec![transfer]));
    assert!(matches!(res, Err(BuildError::InsufficientBalance)));
    assert_eq!(wallet.get_balance(&native_asset()), 0);
    let reopened = Wallet::open(&KdfParams::standard(), Some(&stored), b"pw1").unwrap();
    assert_eq!(reopened.get_balance(&native_asset()), 0);
    assert_eq!(reopened.get_address(), wallet.get_address());
}

#[test]
fn a_new_ledger_refuses_to_reserve() {
    let (wallet, _) = fresh(b"pw1");
    let mut state = xelis_wallet::state::WalletState::from_bytes(&wallet.state().to_bytes()).unwrap();
    let res = state.ledger_mut().reserve_spend(&native_asset(), 100);
    assert!(matches!(res, Err(LedgerError::InsufficientBalance)));
    assert_eq!(state.ledger().balance(&native_asset()), 0);
}

#[test]
fn create_refuses_a_name_that_is_taken() {
    let res = Wallet::create(&cheap(), true, b"pw1");
    assert!(matches!(res, Err(StoreError::AlreadyExists)));
}

#[test]
fn create_draws_fresh_salt_and_key() {
    let (first, first_stored) = Wallet::create(&cheap(), false, b"pw1").unwrap();
    let (second, second_stored) = Wallet::create(&cheap(), false, b"pw1").unwrap();
    assert_ne!(first_stored[..32], second_stored[..32]);
    assert_ne!(first.get_address(), second.get_address());
}

#[test]
fn create_with_lays_the_store_out_as_salt_then_sealed_state() {
    let (wallet, stored) = fresh(b"pw1");
    let key = xelis_wallet::kdf::derive(&cheap(), b"pw1", &[0x5A; 32]).unwrap();
    let mut expected = vec![0x5Au8; 32];
    expected.extend_from_slice(
        &seal_with_nonce(&key, &[0x77; 24], &wallet.state().to_bytes()).unwrap(),
    );
    assert_eq!(stored, expected);
    assert_eq!(stored.len(), 32 + 40 + 64);
    assert_eq!(wallet.get_address(), KeyPair::from_secret([0x11; 32]).public_key());
}

#[test]
fn open_gives_the_state_back() {
    let (mut wallet, _) = fresh(b"pw1");
    wallet.merge_remote(&vec![Balance { asset: Hash256::new([0xAA; 32]), amount: 500 }], 3, 10);
    let stored = wallet.persist().unwrap();
    let reopened = Wallet::open(&cheap(), Some(&stored), b"pw1").unwrap();
    assert_eq!(reopened.get_balance(&Hash256::new([0xAA; 32])), 500);
    assert_eq!(reopened.get_nonce(), 3);
    assert_eq!(reopened.get_address(), wallet.get_address());
    assert_eq!(reopened.state().to_bytes(), wallet.state().to_bytes());
}

#[test]
fn open_with_a_wrong_password_fails() {
    let (_, stored) = fresh(b"pw1");
    assert!(matches!(Wallet::open(&cheap(), Some(&stored), b"pw2"), Err(StoreError::WrongPassword)));
    assert!(matches!(Wallet::open(&cheap(), Some(&stored), b""), Err(StoreError::WrongPassword)));
}

#[test]
fn open_without_a_store_fails() {
    assert!(matches!(Wallet::open(&cheap(), None, b"pw1"), Err(StoreError::NotFound)));
}

#[test]
fn open_of_a_short_store_fails() {
    let (_, stored) = fresh(b"pw1");
    assert!(matches!(Wallet::open(&cheap(), Some(&[]), b"pw1"), Err(StoreError::Corrupted)));
    assert!(matches!(
        Wallet::open(&cheap(), Some(&stored[..71]), b"pw1"),
        Err(StoreError::Corrupted)
    ));
}

#[test]
fn open_of_an_altered_store_fails_like_a_wrong_password() {
    let (_, stored) = fresh(b"pw1");
    let mut altered = stored.clone();
    let last = altered.len() - 1;
    altered[last] ^= 1;
    assert!(matches!(
        Wallet::open(&cheap(), Some(&altered), b"pw1"),
        Err(StoreError::WrongPassword)
    ));
    let mut other_salt = stored.clone();
    other_salt[0] ^= 1;
    assert!(matches!(
        Wallet::open(&cheap(), Some(&other_salt), b"pw1"),
        Err(StoreError::WrongPassword)
    ));
}

#[test]
fn open_of_a_store_that_seals_no_state_is_corrupted() {
    let salt = [0x5Au8; 32];
    let key = xelis_wallet::kdf::derive(&cheap(), b"pw1", &salt).unwrap();
    let mut stored = salt.to_vec();
    stored.extend_from_slice(&seal_with_nonce(&key, &[1; 24], b"not a wallet state").unwrap());
    assert!(matches!(Wallet::open(&cheap(), Some(&stored), b"pw1"), Err(StoreError::Corrupted)));
    assert!(matches!(read_store(&cheap(), Some(&stored), b"pw1"), Err(StoreError::Corrupted)));
}

#[test]
fn read_store_hands_out_key_and_salt() {
    let (wallet, stored) = fresh(b"pw1");
    let unlocked = read_store(&cheap(), Some(&stored), b"pw1").unwrap();
    assert_eq!(unlocked.salt, [0x5A; 32]);
    assert_eq!(unlocked.key, xelis_wallet::kdf::derive(&cheap(), b"pw1", &[0x5A; 32]).unwrap());
    assert_eq!(unlocked.state.to_bytes(), wallet.state().to_bytes());
}

#[test]
fn write_store_opens_under_its_key() {
    let (wallet, _) = fresh(b"pw1");
    let key = xelis_wallet::kdf::derive(&cheap(), b"pw1", &[0x5A; 32]).unwrap();
    let first = write_store(&key, &[0x5A; 32], wallet.state()).unwrap();
    let second = write_store(&key, &[0x5A; 32], wallet.state()).unwrap();
    assert_ne!(first, second);
    assert!(read_store(&cheap(), Some(&first), b"pw1").is_ok());
    assert!(read_store(&cheap(), Some(&second), b"pw1").is_ok());
    let fixed = write_store_with_nonce(&key, &[0x5A; 32], &[0x77; 24], wallet.state()).unwrap();
    assert_eq!(fixed, fresh(b"pw1").1);
}

#[test]
fn persist_draws_a_fresh_nonce() {
    let (wallet, stored) = fresh(b"pw1");
    let first = wallet.persist().unwrap();
    let second = wallet.persist().unwrap();
    assert_eq!(first[..32], stored[..32]);
    assert_ne!(first[32..56], second[32..56]);
    assert!(Wallet::open(&cheap(), Some(&first), b"pw1").is_ok());
    assert!(Wallet::open(&cheap(), Some(&second), b"pw1").is_ok());
}

#[test]
fn set_password_moves_the_store_to_the_new_password() {
    let (mut wallet, _) = fresh(b"pw1");
    wallet.merge_remote(&vec![Balance { asset: Hash256::new([0xAA; 32]), amount: 500 }], 3, 10);
    let stored = wallet.persist().unwrap();
    let before = wallet.state().to_bytes();
    let rotation = wallet.set_password(&stored, b"pw1", b"pw2").unwrap();
    let replacement = rotation.store().clone();
    wallet.adopt(rotation);
    assert!(matches!(
        Wallet::open(&cheap(), Some(&replacement), b"pw1"),
        Err(StoreError::WrongPassword)
    ));
    let reopened = Wallet::open(&cheap(), Some(&replacement), b"pw2").unwrap();
    assert_eq!(reopened.state().to_bytes(), before);
    assert_eq!(wallet.state().to_bytes(), before);
    assert_eq!(reopened.get_balance(&Hash256::new([0xAA; 32])), 500);
    assert_eq!(reopened.get_nonce(), 3);
    assert_ne!(replacement[..32], stored[..32]);
    let later = wallet.persist().unwrap();
    assert!(Wallet::open(&cheap(), Some(&later), b"pw2").is_ok());
    assert!(Wallet::open(&cheap(), Some(&later), b"pw1").is_err());
}

#[test]
fn a_rotation_that_is_not_adopted_leaves_the_old_password() {
    let (wallet, stored) = fresh(b"pw1");
    let rotation = wallet.set_password(&stored, b"pw1", b"pw2").unwrap();
    assert!(Wallet::open(&cheap(), Some(rotation.store()), b"pw2").is_ok());
    let _ = rotation;
    let later = wallet.persist().unwrap();
    assert!(Wallet::open(&cheap(), Some(&later), b"pw1").is_ok());
    assert!(Wallet::open(&cheap(), Some(&later), b"pw2").is_err());
    assert!(Wallet::open(&cheap(), Some(&stored), b"pw1").is_ok());
}

#[test]
fn set_password_with_a_wrong_old_password_changes_nothing() {
    let (wallet, stored) = fresh(b"pw1");
    let res = wallet.set_password(&stored, b"wrong", b"pw2");
    assert!(matches!(res, Err(StoreError::WrongPassword)));
    let later = wallet.persist().unwrap();
    assert!(Wallet::open(&cheap(), Some(&later), b"pw1").is_ok());
    assert!(Wallet::open(&cheap(), Some(&later), b"pw2").is_err());
    assert!(Wallet::open(&cheap(), Some(&stored), b"pw1").is_ok());
}

#[test]
fn set_password_with_is_laid_out_as_a_new_store() {
    let (wallet, stored) = fresh(b"pw1");
    let rotation =
        wallet.set_password_with(&stored, b"pw1", b"pw2", [0x6B; 32], [0x88; 24]).unwrap();
    let key = xelis_wallet::kdf::derive(&cheap(), b"pw2", &[0x6B; 32]).unwrap();
    let mut expected = vec![0x6Bu8; 32];
    expected.extend_from_slice(
        &seal_with_nonce(&key, &[0x88; 24], &wallet.state().to_bytes()).unwrap(),
    );
    assert_eq!(rotation.store(), &expected);
}

#[test]
fn set_password_against_a_corrupted_store_fails() {
    let (wallet, stored) = fresh(b"pw1");
    assert!(matches!(
        wallet.set_password(&stored[..40], b"pw1", b"pw2"),
        Err(StoreError::Corrupted)
    ));
}

#[test]
fn a_transaction_from_the_wallet_spends_and_raises_the_nonce() {
    let (mut wallet, _) = fresh(b"pw1");
    let asset = Hash256::new([0xAA; 32]);
    wallet.merge_remote(&vec![Balance { asset, amount: 500 }], 3, 10);
    let transfer = create_transfer(asset, PublicKey::new([0xDD; 32]), None, 100).unwrap();
    let transaction = wallet.create_transaction(TransactionType::Transfer(vec![transfer])).unwrap();
    assert_eq!(wallet.get_balance(&asset), 400);
    assert_eq!(wallet.get_nonce(), 4);
    assert_eq!(transaction.nonce(), 4);
    let stored = wallet.persist().unwrap();
    let reopened = Wallet::open(&cheap(), Some(&stored), b"pw1").unwrap();
    assert_eq!(reopened.get_balance(&asset), 400);
    assert_eq!(reopened.get_nonce(), 4);
}

#[test]
fn record_adds_to_the_history_of_an_open_wallet() {
    let (mut wallet, _) = fresh(b"pw1");
    let asset = Hash256::new([0xAA; 32]);
    wallet.merge_remote(&vec![Balance { asset, amount: 500 }], 3, 10);
    let first = HistoryEntry {
        hash: Hash256::new([1; 32]),
        asset,
        amount: 100,
        direction: Direction::Outgoing,
        status: Confirmation::Pending,
    };
    let second = HistoryEntry {
        hash: Hash256::new([2; 32]),
        asset,
        amount: 7,
        direction: Direction::Incoming,
        status: Confirmation::Confirmed { height: 9 },
    };
    wallet.record(first);
    wallet.record(second);
    assert_eq!(wallet.state().ledger().history(), &vec![first, second]);
    assert_eq!(wallet.get_balance(&asset), 500);
    assert_eq!(wallet.get_nonce(), 3);
    let stored = wallet.persist().unwrap();
    let reopened = Wallet::open(&cheap(), Some(&stored), b"pw1").unwrap();
    assert_eq!(reopened.state().ledger().history(), &vec![first, second]);
}

#[test]
fn the_right_old_password_is_never_called_wrong() {
    let (wallet, stored) = fresh(b"pw1");
    for new_password in [&b""[..], &b"pw1"[..], &b"another password"[..]] {
        let rotation = wallet.set_password(&stored, b"pw1", new_password).unwrap();
        assert_eq!(rotation.store()[..32].len(), 32);
        assert!(Wallet::open(&cheap(), Some(rotation.store()), new_password).is_ok());
    }
}

#[test]
fn a_rotation_that_is_adopted_is_the_store_of_the_wallet() {
    let (mut wallet, stored) = fresh(b"pw1");
    let rotation =
        wallet.set_password_with(&stored, b"pw1", b"pw2", [0x6B; 32], [0x88; 24]).unwrap();
    let replacement = rotation.store().clone();
    wallet.adopt(rotation);
    assert_eq!(replacement[..32], [0x6Bu8; 32]);
    let reopened = Wallet::open(&cheap(), Some(&replacement), b"pw2").unwrap();
    assert_eq!(reopened.state().to_bytes(), wallet.state().to_bytes());
    let later = wallet.persist().unwrap();
    assert_eq!(later[..32], replacement[..32]);
}
