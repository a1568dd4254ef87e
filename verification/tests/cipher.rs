use chacha20poly1305::aead::Aead;
use chacha20poly1305::KeyInit;
use xelis_wallet::cipher::{
    open, seal, seal_with_nonce, CipherError, MAX_PLAINTEXT_LEN, NONCE_SIZE, SEAL_OVERHEAD,
    TAG_SIZE,
};

#[test]
fn seal_then_open_gives_the_message_back() {
    let key = [5u8; 32];
    let message = b"the quick brown fox".to_vec();
    let sealed = seal(&key, &message).unwrap();
    assert_eq!(open(&key, &sealed), Ok(message));
}

#[test]
fn seal_then_open_gives_the_empty_message_back() {
    let key = [0u8; 32];
    let sealed = seal(&key, b"").unwrap();
    assert_eq!(sealed.len(), SEAL_OVERHEAD);
    assert_eq!(open(&key, &sealed), Ok(Vec::new()));
}

#[test]
fn sealing_adds_nonce_and_tag() {
    assert_eq!(NONCE_SIZE, 24);
    assert_eq!(TAG_SIZE, 16);
    assert_eq!(SEAL_OVERHEAD, 40);
    let sealed = seal(&[1u8; 32], &[9u8; 100]).unwrap();
    assert_eq!(sealed.len(), 140);
}

#[test]
fn open_with_a_wrong_key_fails() {
    let sealed = seal(&[5u8; 32], b"secret").unwrap();
    assert_eq!(open(&[6u8; 32], &sealed), Err(CipherError::AuthenticationFailure));
}

#[test]
fn open_of_tampered_bytes_fails() {
    let key = [5u8; 32];
    let sealed = seal(&key, b"secret message").unwrap();
    for at in 0..sealed.len() {
        let mut altered = sealed.clone();
        altered[at] ^= 0x01;
        assert_eq!(open(&key, &altered), Err(CipherError::AuthenticationFailure));
    }
}

#[test]
fn open_of_short_bytes_fails() {
    let key = [5u8; 32];
    assert_eq!(open(&key, &[]), Err(CipherError::AuthenticationFailure));
    assert_eq!(open(&key, &[0u8; 39]), Err(CipherError::AuthenticationFailure));
    let sealed = seal(&key, b"abc").unwrap();
    assert_eq!(open(&key, &sealed[..sealed.len() - 1]), Err(CipherError::AuthenticationFailure));
}

#[test]
fn seal_draws_a_fresh_nonce_each_time() {
    let key = [5u8; 32];
    let first = seal(&key, b"same").unwrap();
    let second = seal(&key, b"same").unwrap();
    assert_ne!(first[..24], second[..24]);
    assert_ne!(first, second);
}

#[test]
fn seal_with_nonce_is_xchacha20poly1305() {
    let key = [0x42u8; 32];
    let nonce = [0x24u8; 24];
    let message = b"plaintext of some length";
    let sealed = seal_with_nonce(&key, &nonce, message).unwrap();
    let cipher = chacha20poly1305::XChaCha20Poly1305::new(chacha20poly1305::Key::from_slice(&key));
    let expected = cipher
        .encrypt(chacha20poly1305::XNonce::from_slice(&nonce), &message[..])
        .unwrap();
    assert_eq!(&sealed[..24], &nonce[..]);
    assert_eq!(&sealed[24..], &expected[..]);
    assert_ne!(&sealed[24..24 + message.len()], &message[..]);
}

#[test]
fn seal_with_nonce_is_deterministic() {
    let key = [1u8; 32];
    let nonce = [2u8; 24];
    assert_eq!(
        seal_with_nonce(&key, &nonce, b"m").unwrap(),
        seal_with_nonce(&key, &nonce, b"m").unwrap()
    );
}

#[test]
fn open_reads_what_the_cipher_wrote() {
    let key = [0x11u8; 32];
    let nonce = [0x22u8; 24];
    let cipher = chacha20poly1305::XChaCha20Poly1305::new(chacha20poly1305::Key::from_slice(&key));
    let body = cipher
        .encrypt(chacha20poly1305::XNonce::from_slice(&nonce), &b"from outside"[..])
        .unwrap();
    let mut sealed = nonce.to_vec();
    sealed.extend_from_slice(&body);
    assert_eq!(open(&key, &sealed), Ok(b"from outside".to_vec()));
}

#[test]
fn what_opens_is_the_sealed_form_of_its_payload() {
    let key = [0x33u8; 32];
    let sealed = seal(&key, b"payload").unwrap();
    let payload = open(&key, &sealed).unwrap();
    let mut nonce = [0u8; 24];
    nonce.copy_from_slice(&sealed[..24]);
    assert_eq!(seal_with_nonce(&key, &nonce, &payload).unwrap(), sealed);
}

#[test]
fn the_longest_payload_fills_the_keystream_that_is_left() {
    assert_eq!(MAX_PLAINTEXT_LEN - 1, (u32::MAX as u64 - 1) * 64);
    assert_eq!(MAX_PLAINTEXT_LEN, 274_877_906_817);
}
