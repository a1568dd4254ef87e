use xelis_wallet::builder::BuildError;
use xelis_wallet::commands::{asset_or_native, balance, transfer};
use xelis_wallet::config::{native_asset, Config, DEFAULT_DAEMON_ADDRESS, DEFAULT_LOG_FILENAME, DIR_PATH};
use xelis_wallet::hash::Hash256;
use xelis_wallet::kdf::KdfParams;
use xelis_wallet::ledger::Balance;
use xelis_wallet::signing::PublicKey;
use xelis_wallet::transaction::TransactionType;
use xelis_wallet::wallet::Wallet;

fn funded(asset: Hash256, amount: u64, nonce: u64) -> Wallet {
    let params = KdfParams::new(8, 1, 1).unwrap();
    let (mut wallet, _) =
        Wallet::create_with(&params, b"pw1", [1; 32], [2; 32], [3; 24]).unwrap();
    wallet.merge_remote(&vec![Balance { asset, amount }], nonce, 0);
    wallet
}

#[test]
fn config_defaults() {
    let config = Config::new(String::from("main"), String::from("secret"));
    assert_eq!(config.name, "main");
    assert_eq!(config.password, "secret");
    assert_eq!(config.daemon_address, DEFAULT_DAEMON_ADDRESS);
    assert_eq!(config.filename_log, "xelis-wallet.log");
    assert_eq!(DEFAULT_LOG_FILENAME, "xelis-wallet.log");
    assert!(!config.offline_mode);
    assert!(!config.debug);
    assert!(!config.disable_file_logging);
}

#[test]
fn wallet_dir_is_under_the_wallets_directory() {
    assert_eq!(DIR_PATH, "wallets/");
    let config = Config::new(String::from("main"), String::from("secret"));
    assert_eq!(config.wallet_dir(), "wallets/main");
    let empty = Config::new(String::new(), String::new());
    assert_eq!(empty.wallet_dir(), "wallets/");
}

#[test]
fn a_command_without_an_asset_means_the_native_one() {
    assert_eq!(asset_or_native(None), native_asset());
    assert_eq!(asset_or_native(Some(Hash256::new([4; 32]))), Hash256::new([4; 32]));
}

#[test]
fn balance_of_the_named_or_the_native_asset() {
    let asset = Hash256::new([0xAA; 32]);
    let mut wallet = funded(asset, 500, 0);
    assert_eq!(balance(&wallet, Some(asset)), (asset, 500));
    assert_eq!(balance(&wallet, None), (native_asset(), 0));
    wallet.merge_remote(&vec![Balance { asset: native_asset(), amount: 9 }], 0, 0);
    assert_eq!(balance(&wallet, None), (native_asset(), 9));
}

#[test]
fn transfer_builds_one_output_and_spends_it() {
    let asset = Hash256::new([0xAA; 32]);
    let mut wallet = funded(asset, 500, 3);
    let destination = PublicKey::new([0xDD; 32]);
    let (transaction, hash) =
        transfer(&mut wallet, destination, Some(vec![1, 2]), 100, Some(asset)).unwrap();
    assert_eq!(hash, transaction.hash());
    assert_eq!(transaction.nonce(), 4);
    assert_eq!(wallet.get_balance(&asset), 400);
    assert_eq!(wallet.get_nonce(), 4);
    match transaction.transaction_type() {
        TransactionType::Transfer(outputs) => {
            assert_eq!(outputs.len(), 1);
            assert_eq!(outputs[0].asset(), asset);
            assert_eq!(outputs[0].destination(), destination);
            assert_eq!(outputs[0].amount(), 100);
            assert_eq!(outputs[0].extra_data(), &Some(vec![1, 2]));
        },
        other => panic!("unexpected: {:?}", other),
    }
}

#[test]
fn transfer_of_the_native_asset_by_default() {
    let mut wallet = funded(native_asset(), 10, 0);
    let (transaction, _) = transfer(&mut wallet, PublicKey::new([1; 32]), None, 10, None).unwrap();
    assert_eq!(wallet.get_balance(&native_asset()), 0);
    match transaction.transaction_type() {
        TransactionType::Transfer(outputs) => assert_eq!(outputs[0].asset(), native_asset()),
        other => panic!("unexpected: {:?}", other),
    }
}

#[test]
fn transfer_refuses_nothing_and_too_much() {
    let asset = Hash256::new([0xAA; 32]);
    let mut wallet = funded(asset, 500, 3);
    let destination = PublicKey::new([0xDD; 32]);
    assert!(matches!(
        transfer(&mut wallet, destination, None, 0, Some(asset)),
        Err(BuildError::InvalidAmount)
    ));
    assert!(matches!(
        transfer(&mut wallet, destination, None, 501, Some(asset)),
        Err(BuildError::InsufficientBalance)
    ));
    assert!(matches!(
        transfer(&mut wallet, destination, None, 1, None),
        Err(BuildError::InsufficientBalance)
    ));
    assert_eq!(wallet.get_balance(&asset), 500);
    assert_eq!(wallet.get_nonce(), 3);
}
