use xelis_wallet::kdf::{
    KdfError, KdfParams, KDF_ITERATIONS, KDF_MEMORY_COST, KDF_PARALLELISM, KEY_SIZE,
    PASSWORD_HASH_SIZE, SALT_SIZE,
};

fn argon2id_directly(memory: u32, passes: u32, lanes: u32, password: &[u8], salt: &[u8]) -> [u8; 32] {
    let params = argon2::Params::new(memory, passes, lanes, Some(32)).unwrap();
    let hasher = argon2::Argon2::new(argon2::Algorithm::Argon2id, argon2::Version::V0x13, params);
    let mut out = [0u8; 32];
    hasher.hash_password_into(password, salt, &mut out).unwrap();
    out
}

#[test]
fn sizes_are_32_bytes() {
    assert_eq!(SALT_SIZE, 32);
    assert_eq!(KEY_SIZE, 32);
    assert_eq!(PASSWORD_HASH_SIZE, 32);
}

#[test]
fn standard_parameters_are_the_fixed_costs() {
    let params = KdfParams::standard();
    assert_eq!(params.memory_cost(), 15 * 1000);
    assert_eq!(params.iterations(), 16);
    assert_eq!(params.parallelism(), 1);
    assert_eq!(KDF_MEMORY_COST, 15000);
    assert_eq!(KDF_ITERATIONS, 16);
    assert_eq!(KDF_PARALLELISM, 1);
}

#[test]
fn parameters_that_argon2_refuses_are_refused() {
    assert!(KdfParams::new(8, 1, 1).is_some());
    assert!(KdfParams::new(7, 1, 1).is_none());
    assert!(KdfParams::new(15, 1, 2).is_none());
    assert!(KdfParams::new(16, 1, 2).is_some());
    assert!(KdfParams::new(64, 0, 1).is_none());
    assert!(KdfParams::new(64, 1, 0).is_none());
    assert!(KdfParams::new(u32::MAX, 1, 0x100_0000).is_none());
    assert!(KdfParams::new(u32::MAX, 1, u32::MAX).is_none());
}

#[test]
fn derive_is_deterministic() {
    let params = KdfParams::new(64, 2, 1).unwrap();
    let salt = [7u8; 32];
    let first = xelis_wallet::kdf::derive(&params, b"pw1", &salt).unwrap();
    let second = xelis_wallet::kdf::derive(&params, b"pw1", &salt).unwrap();
    assert_eq!(first, second);
}

#[test]
fn derive_differs_with_the_salt() {
    let params = KdfParams::new(64, 2, 1).unwrap();
    let first = xelis_wallet::kdf::derive(&params, b"pw1", &[1u8; 32]).unwrap();
    let second = xelis_wallet::kdf::derive(&params, b"pw1", &[2u8; 32]).unwrap();
    assert_ne!(first, second);
}

#[test]
fn derive_differs_with_the_password() {
    let params = KdfParams::new(64, 2, 1).unwrap();
    let first = xelis_wallet::kdf::derive(&params, b"pw1", &[1u8; 32]).unwrap();
    let second = xelis_wallet::kdf::derive(&params, b"pw2", &[1u8; 32]).unwrap();
    assert_ne!(first, second);
}

#[test]
fn derive_is_argon2id_with_the_costs_given() {
    let salt = [9u8; 32];
    let params = KdfParams::new(64, 3, 2).unwrap();
    let key = xelis_wallet::kdf::derive(&params, b"correct horse", &salt).unwrap();
    assert_eq!(key, argon2id_directly(64, 3, 2, b"correct horse", &salt));
    assert_ne!(key, argon2id_directly(64, 2, 2, b"correct horse", &salt));
    assert_ne!(key, argon2id_directly(128, 3, 2, b"correct horse", &salt));
    assert_ne!(key, salt);
}

#[test]
fn derive_with_the_standard_costs() {
    let salt = [3u8; 32];
    let key = xelis_wallet::kdf::derive(&KdfParams::standard(), b"pw1", &salt).unwrap();
    assert_eq!(key, argon2id_directly(15000, 16, 1, b"pw1", &salt));
}

#[test]
fn derive_accepts_an_empty_password() {
    let params = KdfParams::new(8, 1, 1).unwrap();
    let key = xelis_wallet::kdf::derive(&params, b"", &[0u8; 32]);
    assert!(key.is_ok());
}

#[test]
fn kdf_error_names_the_long_password() {
    assert_eq!(KdfError::PasswordTooLong, KdfError::PasswordTooLong);
    assert_eq!(xelis_wallet::kdf::MAX_PASSWORD_LEN, 0xFFFF_FFFF);
}
