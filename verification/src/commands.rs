//! The wallet's commands as typed operations. Whatever reads the arguments
//! and prints the answers binds to these by name.

use vstd::prelude::*;

use crate::builder::{
    covers, create_transfer, spend_all, spends_of, total_spent, BuildError, Spend,
};
use crate::config::native_asset;
use crate::hash::Hash256;
use crate::ledger::amount_in;
use crate::signing::{ed25519_signature, PublicKey};
use crate::transaction::{
    body_bytes, Transaction, TransactionType, TransactionTypeView, TransferView,
};
use crate::wallet::Wallet;

verus! {

/// The asset that a command means: the one it names, or the native asset.
pub fn asset_or_native(asset: Option<Hash256>) -> (chosen: Hash256)
    ensures
        chosen@ == match asset {
            Some(named) => named@,
            None => Seq::new(32, |i: int| 0u8),
        },
{
    match asset {
        Some(named) => named,
        None => native_asset(),
    }
}

/// A list of one spend takes its amount of its asset and nothing of any
/// other.
pub proof fn lemma_total_spent_single(spend: Spend, asset: Seq<u8>)
    ensures
        total_spent(seq![spend], asset) == if spend.asset == asset {
            spend.amount
        } else {
            0
        },
{
    let spends = seq![spend];
    assert(spends.drop_last() =~= Seq::<Spend>::empty());
    assert(spends.last() == spend);
    assert(total_spent(spends.drop_last(), asset) == 0);
}

/// Sends `amount` of an asset, the native one if none is named, to a
/// destination: builds the transfer, builds and signs the transaction that
/// holds it, and hands the transaction back with its hash.
///
/// The transaction carries the keypair's signature of its body, so that the
/// same wallet, asked the same, gives the same transaction and the same
/// hash. An amount of zero is refused, and so is an amount larger than the
/// balance of the asset, and a transfer from a wallet whose nonce cannot be
/// raised; every other transfer is built. Where a transaction comes back,
/// the balance of the asset is lower by the amount, no other balance has
/// changed, and the nonce is higher by one. Where none does, the wallet is as
/// it was.
pub fn transfer(
    wallet: &mut Wallet,
    destination: PublicKey,
    extra_data: Option<Vec<u8>>,
    amount: u64,
    asset: Option<Hash256>,
) -> (res: Result<(Transaction, Hash256), BuildError>)
    requires
        old(wallet).wf(),
    ensures
        final(wallet).wf(),
        final(wallet).spec_key() == old(wallet).spec_key(),
        final(wallet).spec_salt() == old(wallet).spec_salt(),
        final(wallet).spec_params() == old(wallet).spec_params(),
        final(wallet).spec_state().spec_keypair() == old(wallet).spec_state().spec_keypair(),
        final(wallet).spec_ledger()@.height == old(wallet).spec_ledger()@.height,
        final(wallet).spec_ledger()@.history == old(wallet).spec_ledger()@.history,
        ({
            let chosen = match asset {
                Some(named) => named@,
                None => Seq::new(32, |i: int| 0u8),
            };
            let held = old(wallet).spec_ledger().spec_balance(chosen);
            match res {
                Ok((transaction, hash)) => {
                    &&& 0 < amount <= held
                    &&& old(wallet).spec_ledger()@.nonce < u64::MAX
                    &&& hash@ == transaction@.hash()
                    &&& transaction@.nonce == old(wallet).spec_ledger()@.nonce + 1
                    &&& transaction@.transaction_type == TransactionTypeView::Transfer(
                        seq![
                            TransferView {
                                asset: chosen,
                                destination: destination@,
                                amount,
                                extra_data: match extra_data {
                                    Some(data) => Some(data@),
                                    None => None,
                                },
                            },
                        ],
                    )
                    &&& transaction@.signature == ed25519_signature(
                        old(wallet).spec_state().spec_keypair().spec_secret(),
                        body_bytes(transaction@.transaction_type, transaction@.nonce),
                    )
                    &&& final(wallet).spec_ledger().spec_balance(chosen) == held - amount
                    &&& forall|other: Seq<u8>|
                        other != chosen ==> #[trigger] final(wallet).spec_ledger().spec_balance(other)
                            == old(wallet).spec_ledger().spec_balance(other)
                    &&& final(wallet).spec_ledger()@.nonce == old(wallet).spec_ledger()@.nonce + 1
                },
                Err(e) => {
                    &&& final(wallet).spec_ledger()@.balances == old(wallet).spec_ledger()@.balances
                    &&& final(wallet).spec_ledger()@.nonce == old(wallet).spec_ledger()@.nonce
                    &&& if amount == 0 {
                        e == BuildError::InvalidAmount
                    } else if amount > held {
                        e == BuildError::InsufficientBalance
                    } else {
                        old(wallet).spec_ledger()@.nonce == u64::MAX && e
                            == BuildError::NonceExhausted
                    }
                },
            }
        }),
{
    let chosen = asset_or_native(asset);
    let output = match create_transfer(chosen, destination, extra_data, amount) {
        Ok(output) => output,
        Err(e) => {
            return Err(e);
        },
    };
    let ghost output_view = output@;
    let mut outputs = Vec::new();
    outputs.push(output);
    let transaction_type = TransactionType::Transfer(outputs);
    let ghost spend = Spend { asset: chosen@, amount: amount as nat };
    let ghost before = wallet.spec_ledger()@.balances;
    proof {
        assert(transaction_type@ == TransactionTypeView::Transfer(seq![output_view])) by {
            assert(crate::transaction::views_of(outputs@) =~= seq![output_view]);
        }
        assert(spends_of(transaction_type@) =~= seq![spend]);
        assert forall|other: Seq<u8>|
            total_spent(seq![spend], other) == if other == chosen@ {
                amount as nat
            } else {
                0
            } by {
            lemma_total_spent_single(spend, other);
        }
        assert(covers(before, seq![spend]) <==> amount <= amount_in(before, chosen@)) by {
            if amount <= amount_in(before, chosen@) {
                assert forall|other: Seq<u8>| #[trigger]
                    total_spent(seq![spend], other) <= amount_in(before, other) by {
                    lemma_total_spent_single(spend, other);
                }
            }
            if covers(before, seq![spend]) {
                assert(total_spent(seq![spend], chosen@) <= amount_in(before, chosen@));
            }
        }
    }
    match wallet.create_transaction(transaction_type) {
        Ok(transaction) => {
            let hash = transaction.hash();
            proof {
                let after = wallet.spec_ledger()@.balances;
                assert(after == spend_all(before, seq![spend]));
                assert forall|other: Seq<u8>| amount_in(after, other) == amount_in(before, other)
                    - total_spent(seq![spend], other) by {
                    lemma_total_spent_single(spend, other);
                    assert(total_spent(seq![spend], other) <= amount_in(before, other));
                }
            }
            Ok((transaction, hash))
        },
        Err(e) => Err(e),
    }
}

/// The balance of an asset, the native one if none is named, together with
/// the asset that was meant.
pub fn balance(wallet: &Wallet, asset: Option<Hash256>) -> (answer: (Hash256, u64))
    requires
        wallet.wf(),
    ensures
        answer.0@ == match asset {
            Some(named) => named@,
            None => Seq::new(32, |i: int| 0u8),
        },
        answer.1 == wallet.spec_ledger().spec_balance(answer.0@),
{
    let chosen = asset_or_native(asset);
    let amount = wallet.get_balance(&chosen);
    (chosen, amount)
}

} // verus!
