use xelis_wallet::hash::Hash256;
use xelis_wallet::ledger::{Balance, Confirmation, Direction, HistoryEntry, Ledger};
use xelis_wallet::signing::KeyPair;
use xelis_wallet::state::{WalletState, BALANCE_WIDTH, ENTRY_WIDTH, STATE_MIN_LEN};

fn put(ledger: &mut Ledger, asset: Hash256, amount: u64) {
    let (nonce, height) = (ledger.nonce(), ledger.height());
    ledger.merge_remote(&vec![Balance { asset, amount }], nonce, height);
}

fn filled_state() -> WalletState {
    let mut state = WalletState::new(KeyPair::from_secret([0x11; 32]));
    let ledger = state.ledger_mut();
    put(ledger, Hash256::new([0xAA; 32]), 500);
    put(ledger, Hash256::new([0xBB; 32]), u64::MAX);
    ledger.merge_remote(&Vec::new(), 3, 99);
    ledger.record(HistoryEntry {
        hash: Hash256::new([1; 32]),
        asset: Hash256::new([0xAA; 32]),
        amount: 100,
        direction: Direction::Outgoing,
        status: Confirmation::Pending,
    });
    ledger.record(HistoryEntry {
        hash: Hash256::new([2; 32]),
        asset: Hash256::new([0xBB; 32]),
        amount: 7,
        direction: Direction::Incoming,
        status: Confirmation::Confirmed { height: 42 },
    });
    state
}

#[test]
fn widths_of_the_format() {
    assert_eq!(BALANCE_WIDTH, 40);
    assert_eq!(ENTRY_WIDTH, 82);
    assert_eq!(STATE_MIN_LEN, 64);
}

#[test]
fn bytes_of_a_new_state() {
    let state = WalletState::new(KeyPair::from_secret([0x11; 32]));
    let mut expected = vec![0x11u8; 32];
    expected.extend_from_slice(&[0u8; 32]);
    assert_eq!(state.to_bytes(), expected);
}

#[test]
fn bytes_of_a_filled_state() {
    let bytes = filled_state().to_bytes();
    let mut expected = vec![0x11u8; 32];
    expected.extend_from_slice(&3u64.to_le_bytes());
    expected.extend_from_slice(&99u64.to_le_bytes());
    expected.extend_from_slice(&2u64.to_le_bytes());
    expected.extend_from_slice(&[0xAA; 32]);
    expected.extend_from_slice(&500u64.to_le_bytes());
    expected.extend_from_slice(&[0xBB; 32]);
    expected.extend_from_slice(&u64::MAX.to_le_bytes());
    expected.extend_from_slice(&2u64.to_le_bytes());
    expected.extend_from_slice(&[1; 32]);
    expected.extend_from_slice(&[0xAA; 32]);
    expected.extend_from_slice(&100u64.to_le_bytes());
    expected.push(1);
    expected.push(0);
    expected.extend_from_slice(&0u64.to_le_bytes());
    expected.extend_from_slice(&[2; 32]);
    expected.extend_from_slice(&[0xBB; 32]);
    expected.extend_from_slice(&7u64.to_le_bytes());
    expected.push(0);
    expected.push(1);
    expected.extend_from_slice(&42u64.to_le_bytes());
    assert_eq!(bytes.len(), 64 + 2 * 40 + 2 * 82);
    assert_eq!(bytes, expected);
}

#[test]
fn reading_gives_the_state_back() {
    let state = filled_state();
    let bytes = state.to_bytes();
    let read = WalletState::from_bytes(&bytes).unwrap();
    assert_eq!(read.keypair(), state.keypair());
    assert_eq!(read.ledger().nonce(), 3);
    assert_eq!(read.ledger().height(), 99);
    assert_eq!(read.ledger().balances(), state.ledger().balances());
    assert_eq!(read.ledger().history(), state.ledger().history());
    assert_eq!(read.ledger().balance(&Hash256::new([0xAA; 32])), 500);
    assert_eq!(read.to_bytes(), bytes);
}

#[test]
fn reading_a_new_state_gives_it_back() {
    let state = WalletState::new(KeyPair::from_secret([0x22; 32]));
    let read = WalletState::from_bytes(&state.to_bytes()).unwrap();
    assert_eq!(read.keypair(), state.keypair());
    assert_eq!(read.ledger().nonce(), 0);
    assert!(read.ledger().balances().is_empty());
    assert!(read.ledger().history().is_empty());
}

#[test]
fn reading_refuses_bytes_cut_short_or_drawn_out() {
    let bytes = filled_state().to_bytes();
    for len in 0..bytes.len() {
        assert!(WalletState::from_bytes(&bytes[..len]).is_none());
    }
    let mut longer = bytes.clone();
    longer.push(0);
    assert!(WalletState::from_bytes(&longer).is_none());
}

#[test]
fn reading_refuses_an_asset_listed_twice() {
    let mut state = WalletState::new(KeyPair::from_secret([0x11; 32]));
    put(state.ledger_mut(), Hash256::new([0xAA; 32]), 1);
    put(state.ledger_mut(), Hash256::new([0xBB; 32]), 2);
    let mut bytes = state.to_bytes();
    assert!(WalletState::from_bytes(&bytes).is_some());
    for at in 96..128 {
        bytes[at] = 0xAA;
    }
    assert!(WalletState::from_bytes(&bytes).is_none());
}

#[test]
fn reading_refuses_an_unknown_direction_or_status() {
    let bytes = filled_state().to_bytes();
    let first_entry = 64 + 2 * 40;
    let mut bad_direction = bytes.clone();
    bad_direction[first_entry + 72] = 2;
    assert!(WalletState::from_bytes(&bad_direction).is_none());
    let mut bad_status = bytes.clone();
    bad_status[first_entry + 73] = 2;
    assert!(WalletState::from_bytes(&bad_status).is_none());
    let mut pending_with_height = bytes.clone();
    pending_with_height[first_entry + 74] = 1;
    assert!(WalletState::from_bytes(&pending_with_height).is_none());
}

#[test]
fn reading_refuses_a_count_that_does_not_fit() {
    let mut bytes = WalletState::new(KeyPair::from_secret([0x11; 32])).to_bytes();
    bytes[48] = 1;
    assert!(WalletState::from_bytes(&bytes).is_none());
    let mut bytes = WalletState::new(KeyPair::from_secret([0x11; 32])).to_bytes();
    for at in 48..56 {
        bytes[at] = 0xFF;
    }
    assert!(WalletState::from_bytes(&bytes).is_none());
    let mut bytes = WalletState::new(KeyPair::from_secret([0x11; 32])).to_bytes();
    bytes[56] = 1;
    assert!(WalletState::from_bytes(&bytes).is_none());
}

#[test]
fn reading_keeps_the_order_of_the_balances() {
    let mut state = WalletState::new(KeyPair::from_secret([0x11; 32]));
    put(state.ledger_mut(), Hash256::new([0xBB; 32]), 2);
    put(state.ledger_mut(), Hash256::new([0xAA; 32]), 1);
    let read = WalletState::from_bytes(&state.to_bytes()).unwrap();
    assert_eq!(
        read.ledger().balances(),
        &vec![
            Balance { asset: Hash256::new([0xBB; 32]), amount: 2 },
            Balance { asset: Hash256::new([0xAA; 32]), amount: 1 },
        ]
    );
}
