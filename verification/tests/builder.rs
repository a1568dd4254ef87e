use ed25519_dalek::Verifier;
use xelis_wallet::builder::{
    complete_transaction, create_transaction, create_transfer, prepare_transaction, BuildError,
};
use xelis_wallet::hash::Hash256;
use xelis_wallet::ledger::{Balance, Ledger};
use xelis_wallet::signing::{KeyPair, PublicKey};
use xelis_wallet::transaction::{serialize_body, TransactionType, Transfer};

fn asset_a() -> Hash256 {
    Hash256::new([0xAA; 32])
}

fn asset_b() -> Hash256 {
    Hash256::new([0xBB; 32])
}

fn put(ledger: &mut Ledger, asset: Hash256, amount: u64) {
    let (nonce, height) = (ledger.nonce(), ledger.height());
    ledger.merge_remote(&vec![Balance { asset, amount }], nonce, height);
}

fn dest() -> PublicKey {
    PublicKey::new([0xDD; 32])
}

fn send(asset: Hash256, amount: u64) -> Transfer {
    create_transfer(asset, dest(), None, amount).unwrap()
}

fn ledger_with(a: u64, b: u64, nonce: u64) -> Ledger {
    let mut ledger = Ledger::new();
    put(&mut ledger, asset_a(), a);
    put(&mut ledger, asset_b(), b);
    ledger.merge_remote(&Vec::new(), nonce, 0);
    ledger
}

#[test]
fn create_transaction_spends_and_raises_the_nonce() {
    let mut ledger = ledger_with(500, 0, 3);
    let pair = KeyPair::from_secret([1; 32]);
    let transaction =
        create_transaction(&mut ledger, &pair, TransactionType::Transfer(vec![send(asset_a(), 100)]))
            .unwrap();
    assert_eq!(ledger.balance(&asset_a()), 400);
    assert_eq!(ledger.nonce(), 4);
    assert_eq!(transaction.nonce(), 4);
}

#[test]
fn create_transaction_gives_the_same_hash_for_the_same_inputs() {
    let pair = KeyPair::from_secret([1; 32]);
    let mut first_ledger = ledger_with(500, 0, 3);
    let mut second_ledger = ledger_with(500, 0, 3);
    let first = create_transaction(
        &mut first_ledger,
        &pair,
        TransactionType::Transfer(vec![send(asset_a(), 100)]),
    )
    .unwrap();
    let second = create_transaction(
        &mut second_ledger,
        &pair,
        TransactionType::Transfer(vec![send(asset_a(), 100)]),
    )
    .unwrap();
    assert_eq!(first.hash(), second.hash());
    assert_eq!(first.to_bytes(), second.to_bytes());
    let other_pair = KeyPair::from_secret([2; 32]);
    let mut third_ledger = ledger_with(500, 0, 3);
    let third = create_transaction(
        &mut third_ledger,
        &other_pair,
        TransactionType::Transfer(vec![send(asset_a(), 100)]),
    )
    .unwrap();
    assert_ne!(first.hash(), third.hash());
}

#[test]
fn create_transaction_signs_the_body() {
    let mut ledger = ledger_with(500, 0, 3);
    let pair = KeyPair::from_secret([1; 32]);
    let transaction =
        create_transaction(&mut ledger, &pair, TransactionType::Transfer(vec![send(asset_a(), 100)]))
            .unwrap();
    let body = serialize_body(transaction.transaction_type(), transaction.nonce());
    let key = ed25519_dalek::VerifyingKey::from_bytes(pair.public_key().as_bytes()).unwrap();
    let signature = ed25519_dalek::Signature::from_bytes(transaction.signature().as_bytes());
    assert!(key.verify(&body, &signature).is_ok());
}

#[test]
fn create_transaction_without_balance_changes_nothing() {
    let mut ledger = ledger_with(50, 0, 3);
    let pair = KeyPair::from_secret([1; 32]);
    let res =
        create_transaction(&mut ledger, &pair, TransactionType::Transfer(vec![send(asset_a(), 100)]));
    assert!(matches!(res, Err(BuildError::InsufficientBalance)));
    assert_eq!(ledger.balance(&asset_a()), 50);
    assert_eq!(ledger.nonce(), 3);
}

#[test]
fn create_transaction_is_all_or_nothing_across_outputs() {
    let mut ledger = ledger_with(500, 10, 3);
    let pair = KeyPair::from_secret([1; 32]);
    let outputs = vec![send(asset_a(), 100), send(asset_a(), 200), send(asset_b(), 11)];
    let res = create_transaction(&mut ledger, &pair, TransactionType::Transfer(outputs));
    assert!(matches!(res, Err(BuildError::InsufficientBalance)));
    assert_eq!(ledger.balance(&asset_a()), 500);
    assert_eq!(ledger.balance(&asset_b()), 10);
    assert_eq!(ledger.nonce(), 3);
}

#[test]
fn create_transaction_counts_outputs_of_one_asset_together() {
    let pair = KeyPair::from_secret([1; 32]);
    let mut ledger = ledger_with(500, 0, 0);
    let too_much = vec![send(asset_a(), 300), send(asset_a(), 201)];
    assert!(matches!(
        create_transaction(&mut ledger, &pair, TransactionType::Transfer(too_much)),
        Err(BuildError::InsufficientBalance)
    ));
    assert_eq!(ledger.balance(&asset_a()), 500);
    let just_enough = vec![send(asset_a(), 300), send(asset_a(), 200)];
    assert!(create_transaction(&mut ledger, &pair, TransactionType::Transfer(just_enough)).is_ok());
    assert_eq!(ledger.balance(&asset_a()), 0);
    assert_eq!(ledger.nonce(), 1);
}

#[test]
fn create_transaction_spends_several_assets() {
    let pair = KeyPair::from_secret([1; 32]);
    let mut ledger = ledger_with(500, 10, 7);
    let outputs = vec![send(asset_a(), 100), send(asset_b(), 10), send(asset_a(), 1)];
    let transaction =
        create_transaction(&mut ledger, &pair, TransactionType::Transfer(outputs)).unwrap();
    assert_eq!(ledger.balance(&asset_a()), 399);
    assert_eq!(ledger.balance(&asset_b()), 0);
    assert_eq!(transaction.nonce(), 8);
}

#[test]
fn create_transaction_burns() {
    let pair = KeyPair::from_secret([1; 32]);
    let mut ledger = ledger_with(500, 10, 0);
    let burn = TransactionType::Burn { asset: asset_b(), amount: 4 };
    assert!(create_transaction(&mut ledger, &pair, burn).is_ok());
    assert_eq!(ledger.balance(&asset_b()), 6);
    let burn = TransactionType::Burn { asset: asset_b(), amount: 7 };
    assert!(matches!(
        create_transaction(&mut ledger, &pair, burn),
        Err(BuildError::InsufficientBalance)
    ));
    assert_eq!(ledger.balance(&asset_b()), 6);
}

#[test]
fn create_transaction_at_the_last_nonce_is_refused() {
    let pair = KeyPair::from_secret([1; 32]);
    let mut ledger = ledger_with(500, 0, u64::MAX);
    let res =
        create_transaction(&mut ledger, &pair, TransactionType::Transfer(vec![send(asset_a(), 100)]));
    assert!(matches!(res, Err(BuildError::NonceExhausted)));
    assert_eq!(ledger.balance(&asset_a()), 500);
    assert_eq!(ledger.nonce(), u64::MAX);
}

#[test]
fn prepare_reserves_without_taking_the_nonce() {
    let mut ledger = ledger_with(500, 0, 3);
    let draft =
        match prepare_transaction(&mut ledger, TransactionType::Transfer(vec![send(asset_a(), 100)])) {
            Ok(draft) => draft,
            Err(e) => panic!("refused: {:?}", e),
        };
    assert_eq!(ledger.balance(&asset_a()), 400);
    assert_eq!(ledger.nonce(), 3);
    assert_eq!(draft.nonce(), 4);
    let outputs = TransactionType::Transfer(vec![send(asset_a(), 100)]);
    assert_eq!(draft.body(), &serialize_body(&outputs, 4));
}

#[test]
fn failed_signing_gives_everything_back() {
    let mut ledger = ledger_with(500, 10, 3);
    let outputs = vec![send(asset_a(), 100), send(asset_b(), 10), send(asset_a(), 50)];
    let draft = match prepare_transaction(&mut ledger, TransactionType::Transfer(outputs)) {
        Ok(draft) => draft,
        Err(e) => panic!("refused: {:?}", e),
    };
    assert_eq!(ledger.balance(&asset_a()), 350);
    assert_eq!(ledger.balance(&asset_b()), 0);
    let res = complete_transaction(&mut ledger, draft, None);
    assert!(matches!(res, Err(BuildError::SigningError)));
    assert_eq!(ledger.balance(&asset_a()), 500);
    assert_eq!(ledger.balance(&asset_b()), 10);
    assert_eq!(ledger.nonce(), 3);
}

#[test]
fn a_signature_commits_spend_and_nonce_together() {
    let pair = KeyPair::from_secret([1; 32]);
    let mut ledger = ledger_with(500, 0, 3);
    let draft =
        match prepare_transaction(&mut ledger, TransactionType::Transfer(vec![send(asset_a(), 100)])) {
            Ok(draft) => draft,
            Err(e) => panic!("refused: {:?}", e),
        };
    let signature = pair.sign(draft.body()).unwrap();
    let transaction = complete_transaction(&mut ledger, draft, Some(signature)).unwrap();
    assert_eq!(transaction.signature(), signature);
    assert_eq!(transaction.nonce(), 4);
    assert_eq!(ledger.nonce(), 4);
    assert_eq!(ledger.balance(&asset_a()), 400);
}
