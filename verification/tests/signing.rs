use ed25519_dalek::Verifier;
use xelis_wallet::signing::{KeyPair, PublicKey, Signature, KEY_LENGTH, SIGNATURE_LENGTH};

#[test]
fn key_and_signature_lengths() {
    assert_eq!(KEY_LENGTH, 32);
    assert_eq!(SIGNATURE_LENGTH, 64);
}

#[test]
fn public_key_belongs_to_the_secret() {
    let secret = [0x17u8; 32];
    let pair = KeyPair::from_secret(secret);
    let expected = ed25519_dalek::SigningKey::from_bytes(&secret).verifying_key().to_bytes();
    assert_eq!(pair.secret_bytes(), &secret);
    assert_eq!(pair.public_key().as_bytes(), &expected);
    assert_ne!(pair.public_key().as_bytes(), &secret);
}

#[test]
fn signature_verifies_under_the_public_key() {
    let pair = KeyPair::from_secret([0x33u8; 32]);
    let message = b"a message to sign";
    let signature = pair.sign(message).unwrap();
    let key = ed25519_dalek::VerifyingKey::from_bytes(pair.public_key().as_bytes()).unwrap();
    let parsed = ed25519_dalek::Signature::from_bytes(signature.as_bytes());
    assert!(key.verify(message, &parsed).is_ok());
    assert!(key.verify(b"another message", &parsed).is_err());
}

#[test]
fn signing_is_deterministic() {
    let pair = KeyPair::from_secret([0x33u8; 32]);
    assert_eq!(pair.sign(b"m").unwrap(), pair.sign(b"m").unwrap());
    assert_ne!(pair.sign(b"m").unwrap(), pair.sign(b"n").unwrap());
}

#[test]
fn generated_pairs_differ() {
    let first = KeyPair::generate().unwrap();
    let second = KeyPair::generate().unwrap();
    assert_ne!(first.secret_bytes(), second.secret_bytes());
    assert_eq!(first, KeyPair::from_secret(*first.secret_bytes()));
}

#[test]
fn public_keys_compare_by_their_bytes() {
    let a = PublicKey::new([1u8; 32]);
    let b = PublicKey::new([1u8; 32]);
    let mut other = [1u8; 32];
    other[31] = 2;
    assert!(a.equals(&b));
    assert!(!a.equals(&PublicKey::new(other)));
}

#[test]
fn signature_keeps_its_bytes() {
    let bytes = [0x5Au8; 64];
    assert_eq!(Signature::new(bytes).as_bytes(), &bytes);
}

#[test]
fn every_message_is_signed() {
    let pair = KeyPair::from_secret([0u8; 32]);
    let key = ed25519_dalek::VerifyingKey::from_bytes(pair.public_key().as_bytes()).unwrap();
    let long = vec![0xA5u8; 100_000];
    for message in [&b""[..], &b"\0"[..], &long[..]] {
        let signature = pair.sign(message).unwrap();
        let parsed = ed25519_dalek::Signature::from_bytes(signature.as_bytes());
        assert!(key.verify(message, &parsed).is_ok());
    }
}
