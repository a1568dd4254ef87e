use sha3::Digest;
use xelis_wallet::builder::{create_transfer, BuildError};
use xelis_wallet::hash::Hash256;
use xelis_wallet::signing::{PublicKey, Signature};
use xelis_wallet::transaction::{serialize_body, Transaction, TransactionType};

fn le(x: u64) -> [u8; 8] {
    x.to_le_bytes()
}

#[test]
fn create_transfer_refuses_an_amount_of_zero() {
    let res = create_transfer(Hash256::zero(), PublicKey::new([1; 32]), None, 0);
    assert!(matches!(res, Err(BuildError::InvalidAmount)));
}

#[test]
fn create_transfer_keeps_its_parts() {
    let asset = Hash256::new([0xAA; 32]);
    let destination = PublicKey::new([0xDD; 32]);
    let transfer = create_transfer(asset, destination, Some(vec![1, 2, 3]), 1).unwrap();
    assert_eq!(transfer.asset(), asset);
    assert_eq!(transfer.destination(), destination);
    assert_eq!(transfer.amount(), 1);
    assert_eq!(transfer.extra_data(), &Some(vec![1, 2, 3]));
    let plain = create_transfer(asset, destination, None, u64::MAX).unwrap();
    assert_eq!(plain.amount(), u64::MAX);
    assert_eq!(plain.extra_data(), &None);
}

#[test]
fn body_of_a_single_transfer() {
    let transfer =
        create_transfer(Hash256::new([0xAA; 32]), PublicKey::new([0xDD; 32]), None, 100).unwrap();
    let body = serialize_body(&TransactionType::Transfer(vec![transfer]), 4);
    let mut expected = vec![1u8];
    expected.extend_from_slice(&le(1));
    expected.extend_from_slice(&[0xAA; 32]);
    expected.extend_from_slice(&[0xDD; 32]);
    expected.extend_from_slice(&le(100));
    expected.push(0);
    expected.extend_from_slice(&le(4));
    assert_eq!(body, expected);
    assert_eq!(body.len(), 90);
}

#[test]
fn body_of_transfers_with_and_without_payload() {
    let first = create_transfer(
        Hash256::new([1; 32]),
        PublicKey::new([2; 32]),
        Some(vec![9, 8, 7]),
        0x0102_0304_0506_0708,
    )
    .unwrap();
    let second = create_transfer(Hash256::new([3; 32]), PublicKey::new([4; 32]), None, 5).unwrap();
    let body = serialize_body(&TransactionType::Transfer(vec![first, second]), u64::MAX);
    let mut expected = vec![1u8];
    expected.extend_from_slice(&le(2));
    expected.extend_from_slice(&[1; 32]);
    expected.extend_from_slice(&[2; 32]);
    expected.extend_from_slice(&[8, 7, 6, 5, 4, 3, 2, 1]);
    expected.push(1);
    expected.extend_from_slice(&le(3));
    expected.extend_from_slice(&[9, 8, 7]);
    expected.extend_from_slice(&[3; 32]);
    expected.extend_from_slice(&[4; 32]);
    expected.extend_from_slice(&le(5));
    expected.push(0);
    expected.extend_from_slice(&[0xFF; 8]);
    assert_eq!(body, expected);
}

#[test]
fn body_of_no_transfers() {
    let body = serialize_body(&TransactionType::Transfer(Vec::new()), 0);
    let mut expected = vec![1u8];
    expected.extend_from_slice(&le(0));
    expected.extend_from_slice(&le(0));
    assert_eq!(body, expected);
}

#[test]
fn body_of_a_burn() {
    let body =
        serialize_body(&TransactionType::Burn { asset: Hash256::new([6; 32]), amount: 77 }, 1);
    let mut expected = vec![0u8];
    expected.extend_from_slice(&[6; 32]);
    expected.extend_from_slice(&le(77));
    expected.extend_from_slice(&le(1));
    assert_eq!(body, expected);
}

#[test]
fn transaction_bytes_end_in_the_signature() {
    let transaction_type = TransactionType::Burn { asset: Hash256::new([6; 32]), amount: 77 };
    let body = serialize_body(&transaction_type, 12);
    let transaction = Transaction::new(transaction_type, 12, Signature::new([0x5A; 64]));
    let bytes = transaction.to_bytes();
    assert_eq!(&bytes[..body.len()], &body[..]);
    assert_eq!(&bytes[body.len()..], &[0x5A; 64][..]);
    assert_eq!(transaction.nonce(), 12);
    assert_eq!(transaction.signature(), Signature::new([0x5A; 64]));
    assert!(matches!(
        transaction.transaction_type(),
        TransactionType::Burn { amount: 77, .. }
    ));
}

#[test]
fn transaction_hash_is_the_digest_of_its_bytes() {
    let transaction = Transaction::new(
        TransactionType::Burn { asset: Hash256::new([6; 32]), amount: 77 },
        12,
        Signature::new([0x5A; 64]),
    );
    let expected: [u8; 32] = sha3::Keccak256::digest(transaction.to_bytes()).into();
    assert_eq!(transaction.hash().as_bytes(), &expected);
    let other = Transaction::new(
        TransactionType::Burn { asset: Hash256::new([6; 32]), amount: 77 },
        13,
        Signature::new([0x5A; 64]),
    );
    assert_ne!(transaction.hash(), other.hash());
}
