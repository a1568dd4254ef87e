//! The transaction builder: it reserves what a transaction spends, gives the
//! transaction the next nonce, has its body signed, and either commits the
//! spend and the nonce together or gives everything back.

use vstd::prelude::*;

use crate::hash::Hash256;
use crate::ledger::{
    amount_in, credit, debit, lemma_balance_map_fits, lemma_rollback_restores, Ledger,
    Reservation,
};
use crate::signing::{ed25519_signature, KeyPair, PublicKey, Signature, SigningError};
use crate::transaction::{
    body_bytes, serialize_body, Transaction, TransactionType, TransactionTypeView, TransactionView,
    Transfer, TransferView,
};

verus! {

/// Why no transaction was built.
#[derive(Clone, Copy, Debug, PartialEq, Eq, Structural)]
pub enum BuildError {
    /// A transfer of nothing was asked for.
    InvalidAmount,
    /// The transaction spends more of some asset than the ledger holds.
    InsufficientBalance,
    /// The account nonce cannot be raised any further.
    NonceExhausted,
    /// The body could not be signed.
    SigningError,
}

/// An amount of an asset that a transaction spends.
pub struct Spend {
    pub asset: Seq<u8>,
    pub amount: nat,
}

/// What a transaction type spends, output by output.
pub open spec fn spends_of(transaction_type: TransactionTypeView) -> Seq<Spend> {
    match transaction_type {
        TransactionTypeView::Transfer(transfers) => Seq::new(
            transfers.len(),
            |i: int| Spend { asset: transfers[i].asset, amount: transfers[i].amount as nat },
        ),
        TransactionTypeView::Burn { asset, amount } => seq![Spend { asset, amount: amount as nat }],
    }
}

/// How much of one asset a list of spends takes in all.
pub open spec fn total_spent(spends: Seq<Spend>, asset: Seq<u8>) -> nat
    decreases spends.len(),
{
    if spends.len() == 0 {
        0
    } else {
        total_spent(spends.drop_last(), asset) + if spends.last().asset == asset {
            spends.last().amount
        } else {
            0
        }
    }
}

/// Whether the balances hold, of every asset, at least what the spends take
/// of it in all.
pub open spec fn covers(balances: Map<Seq<u8>, nat>, spends: Seq<Spend>) -> bool {
    forall|asset: Seq<u8>| #[trigger] total_spent(spends, asset) <= amount_in(balances, asset)
}

/// The balances after every spend was taken out: each asset holds what it
/// held less what the spends take of it in all.
pub open spec fn spend_all(balances: Map<Seq<u8>, nat>, spends: Seq<Spend>) -> Map<Seq<u8>, nat> {
    Map::new(
        |asset: Seq<u8>| balances.dom().contains(asset),
        |asset: Seq<u8>| (balances[asset] - total_spent(spends, asset)) as nat,
    )
}

/// The balances after the spends were taken out one by one, in order.
pub open spec fn debit_all(balances: Map<Seq<u8>, nat>, spends: Seq<Spend>) -> Map<Seq<u8>, nat>
    decreases spends.len(),
{
    if spends.len() == 0 {
        balances
    } else {
        debit(debit_all(balances, spends.drop_last()), spends.last().asset, spends.last().amount)
    }
}

/// Whether the spends can be reserved one by one, in order, each from what
/// the ones before it left.
pub open spec fn can_reserve_all(balances: Map<Seq<u8>, nat>, spends: Seq<Spend>) -> bool
    decreases spends.len(),
{
    spends.len() == 0 || (can_reserve_all(balances, spends.drop_last()) && amount_in(
        debit_all(balances, spends.drop_last()),
        spends.last().asset,
    ) >= spends.last().amount)
}

/// Reserving spends one by one takes from each asset exactly what the spends
/// take of it in all, and touches no other asset.
pub proof fn lemma_debit_all_totals(balances: Map<Seq<u8>, nat>, spends: Seq<Spend>)
    requires
        can_reserve_all(balances, spends),
    ensures
        forall|asset: Seq<u8>|
            amount_in(debit_all(balances, spends), asset) + #[trigger] total_spent(spends, asset)
                == amount_in(balances, asset),
        debit_all(balances, spends).dom() == balances.dom(),
        debit_all(balances, spends) == spend_all(balances, spends),
    decreases spends.len(),
{
    if spends.len() > 0 {
        let rest = spends.drop_last();
        let last = spends.last();
        lemma_debit_all_totals(balances, rest);
        let mid = debit_all(balances, rest);
        lemma_rollback_restores(mid, last.asset, last.amount);
        assert forall|asset: Seq<u8>|
            amount_in(debit_all(balances, spends), asset) + #[trigger] total_spent(spends, asset)
                == amount_in(balances, asset) by {
            assert(amount_in(mid, asset) + total_spent(rest, asset) == amount_in(balances, asset));
        }
        assert(debit_all(balances, spends).dom() =~= balances.dom());
    }
    assert forall|asset: Seq<u8>| #[trigger]
        debit_all(balances, spends).dom().contains(asset) implies debit_all(balances, spends)[asset]
        == spend_all(balances, spends)[asset] by {
        assert(amount_in(debit_all(balances, spends), asset) + total_spent(spends, asset)
            == amount_in(balances, asset));
    }
    assert(debit_all(balances, spends) =~= spend_all(balances, spends));
}

/// The balances after the spends were given back one by one, the last one
/// first.
pub open spec fn credit_all_back(balances: Map<Seq<u8>, nat>, spends: Seq<Spend>) -> Map<
    Seq<u8>,
    nat,
>
    decreases spends.len(),
{
    if spends.len() == 0 {
        balances
    } else {
        credit_all_back(
            credit(balances, spends.last().asset, spends.last().amount),
            spends.drop_last(),
        )
    }
}

/// Any run of reservations, rolled back in full, restores the balances
/// exactly; and while the reservations stand, no asset holds less than
/// nothing: each holds what it held less what was reserved of it.
pub proof fn lemma_reserve_all_then_rollback_all(balances: Map<Seq<u8>, nat>, spends: Seq<Spend>)
    requires
        can_reserve_all(balances, spends),
    ensures
        credit_all_back(debit_all(balances, spends), spends) == balances,
        forall|asset: Seq<u8>|
            amount_in(debit_all(balances, spends), asset) == amount_in(balances, asset)
                - #[trigger] total_spent(spends, asset),
    decreases spends.len(),
{
    lemma_debit_all_totals(balances, spends);
    if spends.len() > 0 {
        let rest = spends.drop_last();
        let last = spends.last();
        lemma_rollback_restores(debit_all(balances, rest), last.asset, last.amount);
        lemma_reserve_all_then_rollback_all(balances, rest);
    }
}

/// The balances together with the reservations that were made and not
/// rolled back since.
pub struct Books {
    pub balances: Map<Seq<u8>, nat>,
    pub reserved: Seq<Spend>,
}

/// One step on the books: a reservation that is asked for, or the rollback
/// of the reservation that stands at a place among those not rolled back.
pub enum BookStep {
    Reserve(Spend),
    Rollback { place: int },
}

/// The books after one step. A reservation that the balance does not cover
/// is refused and changes nothing, as [`Ledger::reserve_spend`] has it; one
/// that is covered is taken out of the balance. A rollback gives the amount
/// of its reservation back, as [`Ledger::rollback`] has it, and the
/// reservation is gone, so that none is rolled back twice.
pub open spec fn book_step(books: Books, step: BookStep) -> Books {
    match step {
        BookStep::Reserve(spend) => if amount_in(books.balances, spend.asset) >= spend.amount {
            Books {
                balances: debit(books.balances, spend.asset, spend.amount),
                reserved: books.reserved.push(spend),
            }
        } else {
            books
        },
        BookStep::Rollback { place } => if 0 <= place < books.reserved.len() {
            Books {
                balances: credit(
                    books.balances,
                    books.reserved[place].asset,
                    books.reserved[place].amount,
                ),
                reserved: books.reserved.remove(place),
            }
        } else {
            books
        },
    }
}

/// The books after a run of steps.
pub open spec fn book_run(books: Books, steps: Seq<BookStep>) -> Books
    decreases steps.len(),
{
    if steps.len() == 0 {
        books
    } else {
        book_step(book_run(books, steps.drop_last()), steps.last())
    }
}

/// A spend added at the end adds its amount to the total of its asset.
pub proof fn lemma_total_spent_push(spends: Seq<Spend>, spend: Spend, asset: Seq<u8>)
    ensures
        total_spent(spends.push(spend), asset) == total_spent(spends, asset) + if spend.asset
            == asset {
            spend.amount
        } else {
            0
        },
{
    assert(spends.push(spend).drop_last() =~= spends);
    assert(spends.push(spend).last() == spend);
}

/// A spend taken out of the list takes its amount out of the total of its
/// asset.
pub proof fn lemma_total_spent_remove(spends: Seq<Spend>, place: int, asset: Seq<u8>)
    requires
        0 <= place < spends.len(),
    ensures
        total_spent(spends.remove(place), asset) + if spends[place].asset == asset {
            spends[place].amount
        } else {
            0
        } == total_spent(spends, asset),
    decreases spends.len(),
{
    if place == spends.len() - 1 {
        assert(spends.remove(place) =~= spends.drop_last());
    } else {
        let rest = spends.drop_last();
        assert(spends.remove(place).drop_last() =~= rest.remove(place));
        assert(spends.remove(place).last() == spends.last());
        assert(rest[place] == spends[place]);
        lemma_total_spent_remove(rest, place, asset);
    }
}

/// Over every run of reservations and rollbacks, in any order and on any
/// assets, each asset holds what it held at the start less what is reserved
/// of it and not rolled back. No balance falls below nothing and none wraps;
/// a reservation that was rolled back has left no trace.
pub proof fn lemma_balance_over_any_run(start: Map<Seq<u8>, nat>, steps: Seq<BookStep>)
    ensures
        forall|asset: Seq<u8>|
            amount_in(
                book_run(Books { balances: start, reserved: Seq::empty() }, steps).balances,
                asset,
            ) + #[trigger] total_spent(
                book_run(Books { balances: start, reserved: Seq::empty() }, steps).reserved,
                asset,
            ) == amount_in(start, asset),
    decreases steps.len(),
{
    let first = Books { balances: start, reserved: Seq::empty() };
    if steps.len() > 0 {
        lemma_balance_over_any_run(start, steps.drop_last());
        let before = book_run(first, steps.drop_last());
        let after = book_run(first, steps);
        assert forall|asset: Seq<u8>|
            amount_in(after.balances, asset) + #[trigger] total_spent(after.reserved, asset)
                == amount_in(start, asset) by {
            assert(amount_in(before.balances, asset) + total_spent(before.reserved, asset)
                == amount_in(start, asset));
            match steps.last() {
                BookStep::Reserve(spend) => {
                    if amount_in(before.balances, spend.asset) >= spend.amount {
                        lemma_rollback_restores(before.balances, spend.asset, spend.amount);
                        lemma_total_spent_push(before.reserved, spend, asset);
                    }
                },
                BookStep::Rollback { place } => {
                    if 0 <= place < before.reserved.len() {
                        lemma_total_spent_remove(before.reserved, place, asset);
                    }
                },
            }
        }
    }
}

/// A longer list of spends takes at least as much of every asset as its
/// beginning does.
pub proof fn lemma_total_spent_grows(spends: Seq<Spend>, asset: Seq<u8>)
    requires
        spends.len() > 0,
    ensures
        total_spent(spends.drop_last(), asset) <= total_spent(spends, asset),
{
}

/// Spends can be reserved one by one exactly when the balances cover their
/// totals: the order of the outputs does not matter.
pub proof fn lemma_can_reserve_iff_covers(balances: Map<Seq<u8>, nat>, spends: Seq<Spend>)
    ensures
        can_reserve_all(balances, spends) <==> covers(balances, spends),
    decreases spends.len(),
{
    if spends.len() == 0 {
        assert forall|asset: Seq<u8>| #[trigger]
            total_spent(spends, asset) <= amount_in(balances, asset) by {}
    } else {
        let rest = spends.drop_last();
        let last = spends.last();
        lemma_can_reserve_iff_covers(balances, rest);
        if can_reserve_all(balances, spends) {
            lemma_debit_all_totals(balances, spends);
            assert forall|asset: Seq<u8>| #[trigger]
                total_spent(spends, asset) <= amount_in(balances, asset) by {
                assert(amount_in(debit_all(balances, spends), asset) + total_spent(spends, asset)
                    == amount_in(balances, asset));
            }
        }
        if covers(balances, spends) {
            assert forall|asset: Seq<u8>| #[trigger]
                total_spent(rest, asset) <= amount_in(balances, asset) by {
                lemma_total_spent_grows(spends, asset);
                assert(total_spent(spends, asset) <= amount_in(balances, asset));
            }
            assert(can_reserve_all(balances, rest));
            lemma_debit_all_totals(balances, rest);
            assert(amount_in(debit_all(balances, rest), last.asset) + total_spent(rest, last.asset)
                == amount_in(balances, last.asset));
            assert(total_spent(spends, last.asset) <= amount_in(balances, last.asset));
        }
    }
}

/// Spends that can be reserved one by one can be reserved up to any point.
pub proof fn lemma_can_reserve_prefix(balances: Map<Seq<u8>, nat>, spends: Seq<Spend>, upto: int)
    requires
        can_reserve_all(balances, spends),
        0 <= upto <= spends.len(),
    ensures
        can_reserve_all(balances, spends.subrange(0, upto)),
    decreases spends.len(),
{
    if upto == spends.len() {
        assert(spends.subrange(0, upto) =~= spends);
    } else {
        lemma_can_reserve_prefix(balances, spends.drop_last(), upto);
        assert(spends.drop_last().subrange(0, upto) =~= spends.subrange(0, upto));
    }
}

/// Whether every amount held fits in 64 bits.
pub open spec fn fits_u64(balances: Map<Seq<u8>, nat>) -> bool {
    forall|asset: Seq<u8>| #[trigger] amount_in(balances, asset) <= u64::MAX
}

/// Whether the reservations are the ones made for the spends, in order.
pub open spec fn stand_for(reservations: Seq<Reservation>, spends: Seq<Spend>) -> bool {
    &&& reservations.len() == spends.len()
    &&& forall|i: int|
        0 <= i < reservations.len() ==> (#[trigger] reservations[i]).spec_asset() == spends[i].asset
            && reservations[i].spec_amount() == spends[i].amount
}

/// A transfer of `amount` of `asset` to `destination`, with an optional
/// payload. An amount of zero is refused, and nothing else is.
pub fn create_transfer(
    asset: Hash256,
    destination: PublicKey,
    extra_data: Option<Vec<u8>>,
    amount: u64,
) -> (res: Result<Transfer, BuildError>)
    ensures
        match res {
            Ok(transfer) => amount > 0 && transfer@ == (TransferView {
                asset: asset@,
                destination: destination@,
                amount,
                extra_data: match extra_data {
                    Some(data) => Some(data@),
                    None => None,
                },
            }),
            Err(e) => amount == 0 && e == BuildError::InvalidAmount,
        },
{
    match Transfer::new(asset, destination, extra_data, amount) {
        Some(transfer) => Ok(transfer),
        None => Err(BuildError::InvalidAmount),
    }
}

/// How many outputs a transaction type has.
fn output_count(transaction_type: &TransactionType) -> (count: usize)
    ensures
        count == spends_of(transaction_type@).len(),
{
    match transaction_type {
        TransactionType::Transfer(transfers) => transfers.len(),
        TransactionType::Burn { .. } => 1,
    }
}

/// The asset and the amount of one output of a transaction type.
fn output_at(transaction_type: &TransactionType, i: usize) -> (output: (Hash256, u64))
    requires
        i < spends_of(transaction_type@).len(),
    ensures
        output.0@ == spends_of(transaction_type@)[i as int].asset,
        output.1 == spends_of(transaction_type@)[i as int].amount,
{
    match transaction_type {
        TransactionType::Transfer(transfers) => (transfers[i].asset(), transfers[i].amount()),
        TransactionType::Burn { asset, amount } => (*asset, *amount),
    }
}

/// Gives back every reservation, the last one first.
fn rollback_all(
    ledger: &mut Ledger,
    reservations: Vec<Reservation>,
    Ghost(before): Ghost<Map<Seq<u8>, nat>>,
    Ghost(spends): Ghost<Seq<Spend>>,
)
    requires
        old(ledger).wf(),
        stand_for(reservations@, spends),
        can_reserve_all(before, spends),
        fits_u64(before),
        old(ledger)@.balances == debit_all(before, spends),
    ensures
        final(ledger).wf(),
        final(ledger)@.balances == before,
        final(ledger)@.nonce == old(ledger)@.nonce,
        final(ledger)@.height == old(ledger)@.height,
        final(ledger)@.history == old(ledger)@.history,
{
    let mut reservations = reservations;
    let ghost start = ledger@;
    proof {
        assert(spends.subrange(0, reservations@.len() as int) =~= spends);
    }
    while reservations.len() > 0
        invariant
            ledger.wf(),
            reservations@.len() <= spends.len(),
            stand_for(reservations@, spends.subrange(0, reservations@.len() as int)),
            can_reserve_all(before, spends),
            fits_u64(before),
            ledger@.balances == debit_all(before, spends.subrange(0, reservations@.len() as int)),
            ledger@.nonce == start.nonce,
            ledger@.height == start.height,
            ledger@.history == start.history,
        decreases reservations.len(),
    {
        let ghost count = reservations@.len() as int;
        let ghost done = spends.subrange(0, count);
        let ghost rest = spends.subrange(0, count - 1);
        let ghost last = spends[count - 1];
        let ghost held = reservations@;
        let reservation = reservations.pop().unwrap();
        proof {
            assert(done.drop_last() =~= rest);
            assert(done.last() == last);
            assert(reservation.spec_asset() == last.asset);
            assert(reservation.spec_amount() == last.amount);
            lemma_can_reserve_prefix(before, spends, count);
            lemma_debit_all_totals(before, rest);
            let mid = debit_all(before, rest);
            lemma_rollback_restores(mid, last.asset, last.amount);
            assert(amount_in(mid, last.asset) + total_spent(rest, last.asset) == amount_in(
                before,
                last.asset,
            ));
            assert(amount_in(before, last.asset) <= u64::MAX);
            assert forall|i: int| 0 <= i < reservations@.len() implies (#[trigger] reservations@[i]).spec_asset()
                == rest[i].asset && reservations@[i].spec_amount() == rest[i].amount by {
                assert(reservations@[i] == held[i]);
            }
        }
        // Never refused: the amount goes back to the balance it came from.
        let _ = ledger.rollback(reservation);
    }
    proof {
        assert(spends.subrange(0, 0) =~= Seq::<Spend>::empty());
    }
}

/// A transaction whose spend is reserved and whose body awaits a signature.
pub struct Draft {
    transaction_type: TransactionType,
    nonce: u64,
    body: Vec<u8>,
    reservations: Vec<Reservation>,
    before: Ghost<Map<Seq<u8>, nat>>,
}

impl Draft {
    /// What the transaction does.
    pub closed spec fn spec_type(self) -> TransactionTypeView {
        self.transaction_type@
    }

    /// The nonce that the transaction was given.
    pub closed spec fn spec_nonce(self) -> u64 {
        self.nonce
    }

    /// The bytes to sign.
    pub closed spec fn spec_body(self) -> Seq<u8> {
        self.body@
    }

    /// The balances that the ledger held before the spend was reserved.
    pub closed spec fn spec_before(self) -> Map<Seq<u8>, nat> {
        self.before@
    }

    /// Whether the draft holds the reservations of its own spends.
    pub closed spec fn wf(self) -> bool {
        &&& stand_for(self.reservations@, spends_of(self.transaction_type@))
        &&& can_reserve_all(self.before@, spends_of(self.transaction_type@))
        &&& fits_u64(self.before@)
        &&& self.body@ == body_bytes(self.transaction_type@, self.nonce)
    }

    /// Whether the spend of this draft is what was last taken out of the
    /// ledger, and its nonce is the ledger's next.
    pub open spec fn reserved_in(self, ledger: Ledger) -> bool {
        &&& self.wf()
        &&& ledger.wf()
        &&& ledger@.balances == spend_all(self.spec_before(), spends_of(self.spec_type()))
        &&& ledger@.nonce + 1 == self.spec_nonce()
    }

    /// The bytes to sign.
    pub fn body(&self) -> (body: &Vec<u8>)
        ensures
            body@ == self.spec_body(),
    {
        &self.body
    }

    /// The nonce that the transaction was given.
    pub fn nonce(&self) -> (nonce: u64)
        ensures
            nonce == self.spec_nonce(),
    {
        self.nonce
    }
}

/// Reserves everything that a transaction spends and gives the transaction
/// the next nonce, which the ledger does not take up yet.
///
/// Either every output is reserved or none is: where the ledger does not
/// cover the spends, or the nonce cannot be raised, the ledger is left as it
/// was.
pub fn prepare_transaction(ledger: &mut Ledger, transaction_type: TransactionType) -> (res: Result<
    Draft,
    BuildError,
>)
    requires
        old(ledger).wf(),
    ensures
        final(ledger).wf(),
        final(ledger)@.nonce == old(ledger)@.nonce,
        final(ledger)@.height == old(ledger)@.height,
        final(ledger)@.history == old(ledger)@.history,
        match res {
            Ok(draft) => {
                &&& covers(old(ledger)@.balances, spends_of(transaction_type@))
                &&& old(ledger)@.nonce < u64::MAX
                &&& final(ledger)@.balances == spend_all(
                    old(ledger)@.balances,
                    spends_of(transaction_type@),
                )
                &&& draft.reserved_in(*final(ledger))
                &&& draft.spec_before() == old(ledger)@.balances
                &&& draft.spec_type() == transaction_type@
                &&& draft.spec_nonce() == old(ledger)@.nonce + 1
                &&& draft.spec_body() == body_bytes(transaction_type@, draft.spec_nonce())
            },
            Err(e) => {
                &&& final(ledger)@.balances == old(ledger)@.balances
                &&& if covers(old(ledger)@.balances, spends_of(transaction_type@)) {
                    old(ledger)@.nonce == u64::MAX && e == BuildError::NonceExhausted
                } else {
                    e == BuildError::InsufficientBalance
                }
            },
        },
{
    let ghost before = ledger@.balances;
    let ghost spends = spends_of(transaction_type@);
    proof {
        assert forall|asset: Seq<u8>| #[trigger] amount_in(before, asset) <= u64::MAX by {
            lemma_balance_map_fits(ledger.entries(), asset);
        }
        lemma_can_reserve_iff_covers(before, spends);
    }
    let count = output_count(&transaction_type);
    let mut reservations: Vec<Reservation> = Vec::new();
    let mut i: usize = 0;
    while i < count
        invariant
            i <= count,
            count == spends.len(),
            spends == spends_of(transaction_type@),
            before == old(ledger)@.balances,
            ledger.wf(),
            fits_u64(before),
            can_reserve_all(before, spends.subrange(0, i as int)),
            stand_for(reservations@, spends.subrange(0, i as int)),
            ledger@.balances == debit_all(before, spends.subrange(0, i as int)),
            ledger@.nonce == old(ledger)@.nonce,
            ledger@.height == old(ledger)@.height,
            ledger@.history == old(ledger)@.history,
            can_reserve_all(before, spends) <==> covers(before, spends),
        decreases count - i,
    {
        let (asset, amount) = output_at(&transaction_type, i);
        let ghost upto = spends.subrange(0, i + 1);
        proof {
            assert(upto.drop_last() =~= spends.subrange(0, i as int));
            assert(upto.last() == spends[i as int]);
        }
        match ledger.reserve_spend(&asset, amount) {
            Ok(reservation) => {
                let ghost held = reservations@;
                reservations.push(reservation);
                proof {
                    assert forall|k: int| 0 <= k < reservations@.len() implies (#[trigger] reservations@[k]).spec_asset()
                        == upto[k].asset && reservations@[k].spec_amount() == upto[k].amount by {
                        if k < held.len() {
                            assert(reservations@[k] == held[k]);
                        }
                    }
                }
            },
            Err(_) => {
                proof {
                    if can_reserve_all(before, spends) {
                        lemma_can_reserve_prefix(before, spends, i + 1);
                        assert(can_reserve_all(before, upto));
                        assert(amount_in(debit_all(before, upto.drop_last()), upto.last().asset)
                            >= upto.last().amount);
                        assert(false);
                    }
                }
                rollback_all(
                    ledger,
                    reservations,
                    Ghost(before),
                    Ghost(spends.subrange(0, i as int)),
                );
                return Err(BuildError::InsufficientBalance);
            },
        }
        i = i + 1;
    }
    proof {
        assert(spends.subrange(0, i as int) =~= spends);
        lemma_debit_all_totals(before, spends);
    }
    if ledger.nonce() == u64::MAX {
        rollback_all(ledger, reservations, Ghost(before), Ghost(spends));
        return Err(BuildError::NonceExhausted);
    }
    let nonce: u64 = ledger.nonce() + 1;
    let body = serialize_body(&transaction_type, nonce);
    Ok(Draft { transaction_type, nonce, body, reservations, before: Ghost(before) })
}

/// Ends what [`prepare_transaction`] began, with the signer's answer.
///
/// With a signature the spend and the nonce are committed together and the
/// signed transaction comes back. Without one every reservation is given
/// back, the nonce stays, and the ledger holds what it held before the draft
/// was made.
pub fn complete_transaction(ledger: &mut Ledger, draft: Draft, signature: Option<Signature>) -> (res:
    Result<Transaction, BuildError>)
    requires
        draft.reserved_in(*old(ledger)),
    ensures
        final(ledger).wf(),
        final(ledger)@.height == old(ledger)@.height,
        final(ledger)@.history == old(ledger)@.history,
        match signature {
            Some(signed) => {
                &&& res matches Ok(transaction)
                &&& transaction@ == (TransactionView {
                    transaction_type: draft.spec_type(),
                    nonce: draft.spec_nonce(),
                    signature: signed@,
                })
                &&& final(ledger)@.balances == old(ledger)@.balances
                &&& final(ledger)@.nonce == draft.spec_nonce()
            },
            None => {
                &&& res == Err::<Transaction, BuildError>(BuildError::SigningError)
                &&& final(ledger)@.balances == draft.spec_before()
                &&& final(ledger)@.nonce == old(ledger)@.nonce
            },
        },
{
    let Draft { transaction_type, nonce, body, reservations, before } = draft;
    match signature {
        Some(signed) => {
            let mut reservations = reservations;
            while reservations.len() > 0
                invariant
                    ledger.wf(),
                    ledger@ == old(ledger)@,
                decreases reservations.len(),
            {
                let reservation = reservations.pop().unwrap();
                ledger.commit(reservation);
            }
            ledger.advance_nonce();
            Ok(Transaction::new(transaction_type, nonce, signed))
        },
        None => {
            proof {
                lemma_debit_all_totals(before@, spends_of(transaction_type@));
            }
            rollback_all(ledger, reservations, before, Ghost(spends_of(transaction_type@)));
            Err(BuildError::SigningError)
        },
    }
}

/// Builds and signs a transaction of the given type, spending from the
/// ledger.
///
/// A transaction is refused with [`BuildError::InsufficientBalance`] exactly
/// when it spends more of some asset than the ledger holds, with all its
/// outputs taken together, and with [`BuildError::NonceExhausted`] exactly
/// when it is covered and the nonce cannot be raised. Every other
/// transaction is built: it gets the ledger's nonce plus one and the
/// keypair's signature of its body, every asset holds what the transaction
/// spends of it less, and the nonce is raised by one. A transaction that is
/// refused leaves the ledger as it was.
pub fn create_transaction(
    ledger: &mut Ledger,
    keypair: &KeyPair,
    transaction_type: TransactionType,
) -> (res: Result<Transaction, BuildError>)
    requires
        old(ledger).wf(),
    ensures
        final(ledger).wf(),
        final(ledger)@.height == old(ledger)@.height,
        final(ledger)@.history == old(ledger)@.history,
        match res {
            Ok(transaction) => {
                &&& covers(old(ledger)@.balances, spends_of(transaction_type@))
                &&& old(ledger)@.nonce < u64::MAX
                &&& transaction@ == (TransactionView {
                    transaction_type: transaction_type@,
                    nonce: (old(ledger)@.nonce + 1) as u64,
                    signature: ed25519_signature(
                        keypair.spec_secret(),
                        body_bytes(transaction_type@, (old(ledger)@.nonce + 1) as u64),
                    ),
                })
                &&& final(ledger)@.balances == spend_all(
                    old(ledger)@.balances,
                    spends_of(transaction_type@),
                )
                &&& final(ledger)@.nonce == old(ledger)@.nonce + 1
            },
            Err(e) => {
                &&& final(ledger)@.balances == old(ledger)@.balances
                &&& final(ledger)@.nonce == old(ledger)@.nonce
                &&& if covers(old(ledger)@.balances, spends_of(transaction_type@)) {
                    old(ledger)@.nonce == u64::MAX && e == BuildError::NonceExhausted
                } else {
                    e == BuildError::InsufficientBalance
                }
            },
        },
{
    let draft = match prepare_transaction(ledger, transaction_type) {
        Ok(draft) => draft,
        Err(e) => {
            return Err(e);
        },
    };
    let signature = match keypair.sign(draft.body().as_slice()) {
        Ok(signature) => Some(signature),
        Err(_) => None,
    };
    complete_transaction(ledger, draft, signature)
}

} // verus!
