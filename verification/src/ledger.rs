//! The ledger state: balances per asset, the account nonce, the height last
//! seen and the transaction history.
//!
//! Spending is accounted for at once: a reservation lowers the balance when
//! it is made, and either stays (commit) or is given back (rollback).

use vstd::prelude::*;

use crate::hash::Hash256;

verus! {

/// The amount held of one asset.
#[derive(Clone, Copy, Debug, PartialEq, Eq)]
pub struct Balance {
    pub asset: Hash256,
    pub amount: u64,
}

/// A balance as a mathematical value.
pub struct Holding {
    pub asset: Seq<u8>,
    pub amount: u64,
}

impl View for Balance {
    type V = Holding;

    open spec fn view(&self) -> Holding {
        Holding { asset: self.asset@, amount: self.amount }
    }
}

/// Whether a past transaction brought funds in or sent them out.
#[derive(Clone, Copy, Debug, PartialEq, Eq, Structural)]
pub enum Direction {
    Incoming,
    Outgoing,
}

/// Whether the remote ledger has taken a transaction up, and at which height.
#[derive(Clone, Copy, Debug, PartialEq, Eq, Structural)]
pub enum Confirmation {
    Pending,
    Confirmed { height: u64 },
}

/// The summary of one past transaction.
#[derive(Clone, Copy, Debug, PartialEq, Eq)]
pub struct HistoryEntry {
    pub hash: Hash256,
    pub asset: Hash256,
    pub amount: u64,
    pub direction: Direction,
    pub status: Confirmation,
}

/// The summary of a past transaction as a mathematical value.
pub struct Past {
    pub hash: Seq<u8>,
    pub asset: Seq<u8>,
    pub amount: u64,
    pub direction: Direction,
    pub status: Confirmation,
}

impl View for HistoryEntry {
    type V = Past;

    open spec fn view(&self) -> Past {
        Past {
            hash: self.hash@,
            asset: self.asset@,
            amount: self.amount,
            direction: self.direction,
            status: self.status,
        }
    }
}

/// Why the ledger refused a change.
#[derive(Clone, Copy, Debug, PartialEq, Eq, Structural)]
pub enum LedgerError {
    /// The spend is larger than the balance of the asset.
    InsufficientBalance,
    /// Giving the amount back would take the balance past `u64::MAX`.
    BalanceOverflow,
}

/// An amount taken out of a balance while a transaction is being built. It
/// is made by [`Ledger::reserve_spend`] alone and ends in
/// [`Ledger::commit`] or [`Ledger::rollback`].
#[derive(Debug)]
pub struct Reservation {
    asset: Hash256,
    amount: u64,
}

impl Reservation {
    /// The asset that the amount was taken from.
    pub closed spec fn spec_asset(self) -> Seq<u8> {
        self.asset@
    }

    /// The amount taken.
    pub closed spec fn spec_amount(self) -> nat {
        self.amount as nat
    }

    /// The asset that the amount was taken from.
    pub fn asset(&self) -> (asset: Hash256)
        ensures
            asset@ == self.spec_asset(),
    {
        self.asset
    }

    /// The amount taken.
    pub fn amount(&self) -> (amount: u64)
        ensures
            amount == self.spec_amount(),
    {
        self.amount
    }
}

/// The ledger as a mathematical value.
pub struct LedgerView {
    /// The amount held of each asset that was ever touched.
    pub balances: Map<Seq<u8>, nat>,
    pub nonce: nat,
    pub height: nat,
    pub history: Seq<HistoryEntry>,
}

/// The amount that a balance map holds of an asset: zero for one that it
/// does not mention.
pub open spec fn amount_in(balances: Map<Seq<u8>, nat>, asset: Seq<u8>) -> nat {
    if balances.dom().contains(asset) {
        balances[asset]
    } else {
        0
    }
}

/// The balance map after `amount` was taken out of `asset`. It is meant for
/// an amount that the asset holds.
pub open spec fn debit(balances: Map<Seq<u8>, nat>, asset: Seq<u8>, amount: nat) -> Map<
    Seq<u8>,
    nat,
> {
    if balances.dom().contains(asset) {
        balances.insert(asset, (balances[asset] - amount) as nat)
    } else {
        balances
    }
}

/// The balance map after `amount` was given to `asset`.
pub open spec fn credit(balances: Map<Seq<u8>, nat>, asset: Seq<u8>, amount: nat) -> Map<
    Seq<u8>,
    nat,
> {
    if balances.dom().contains(asset) || amount > 0 {
        balances.insert(asset, amount_in(balances, asset) + amount)
    } else {
        balances
    }
}

/// The balance map after each reported balance, in the order given, replaced
/// what the map held of its asset.
pub open spec fn overwrite(balances: Map<Seq<u8>, nat>, reported: Seq<Balance>) -> Map<
    Seq<u8>,
    nat,
>
    decreases reported.len(),
{
    if reported.len() == 0 {
        balances
    } else {
        overwrite(balances, reported.drop_last()).insert(
            reported.last().asset@,
            reported.last().amount as nat,
        )
    }
}

/// The larger of two numbers.
pub open spec fn larger(a: nat, b: nat) -> nat {
    if a >= b {
        a
    } else {
        b
    }
}

/// No asset is listed twice.
pub open spec fn distinct_assets(entries: Seq<Balance>) -> bool {
    forall|i: int, j: int|
        #![trigger entries[i], entries[j]]
        0 <= i < j < entries.len() ==> entries[i].asset@ != entries[j].asset@
}

/// Whether an asset is listed.
pub open spec fn listed(entries: Seq<Balance>, asset: Seq<u8>) -> bool {
    exists|i: int| 0 <= i < entries.len() && (#[trigger] entries[i]).asset@ == asset
}

/// The balance map that a list of balances stands for.
pub open spec fn balance_map(entries: Seq<Balance>) -> Map<Seq<u8>, nat> {
    Map::new(
        |asset: Seq<u8>| listed(entries, asset),
        |asset: Seq<u8>|
            entries[choose|i: int|
                0 <= i < entries.len() && (#[trigger] entries[i]).asset@ == asset].amount as nat,
    )
}

/// In a list without repeats, an entry's asset maps to the entry's amount.
pub proof fn lemma_balance_map_entry(entries: Seq<Balance>, i: int)
    requires
        distinct_assets(entries),
        0 <= i < entries.len(),
    ensures
        balance_map(entries).dom().contains(entries[i].asset@),
        balance_map(entries)[entries[i].asset@] == entries[i].amount,
{
    let asset = entries[i].asset@;
    assert(listed(entries, asset));
    let k = choose|k: int| 0 <= k < entries.len() && (#[trigger] entries[k]).asset@ == asset;
    assert(k == i) by {
        if k < i {
            assert(entries[k].asset@ != entries[i].asset@);
        } else if i < k {
            assert(entries[i].asset@ != entries[k].asset@);
        }
    }
}

/// Every amount that a list of balances stands for fits in 64 bits.
pub proof fn lemma_balance_map_fits(entries: Seq<Balance>, asset: Seq<u8>)
    ensures
        amount_in(balance_map(entries), asset) <= u64::MAX,
{
}

/// Replacing the amount of one entry replaces what its asset maps to.
pub proof fn lemma_balance_map_update(entries: Seq<Balance>, i: int, amount: u64)
    requires
        distinct_assets(entries),
        0 <= i < entries.len(),
    ensures
        distinct_assets(entries.update(i, Balance { asset: entries[i].asset, amount })),
        balance_map(entries.update(i, Balance { asset: entries[i].asset, amount }))
            == balance_map(entries).insert(entries[i].asset@, amount as nat),
{
    let after = entries.update(i, Balance { asset: entries[i].asset, amount });
    assert forall|a: int, b: int| 0 <= a < b < after.len() implies after[a].asset@
        != after[b].asset@ by {
        assert(after[a].asset@ == entries[a].asset@);
        assert(after[b].asset@ == entries[b].asset@);
    }
    let want = balance_map(entries).insert(entries[i].asset@, amount as nat);
    assert forall|asset: Seq<u8>| #[trigger]
        balance_map(after).dom().contains(asset) == want.dom().contains(asset) && (want.dom().contains(
            asset,
        ) ==> balance_map(after)[asset] == want[asset]) by {
        if listed(after, asset) {
            let k = choose|k: int| 0 <= k < after.len() && (#[trigger] after[k]).asset@ == asset;
            assert(entries[k].asset@ == asset);
        }
        if asset == entries[i].asset@ {
            assert(after[i].asset@ == asset);
            lemma_balance_map_entry(after, i);
        } else if listed(entries, asset) {
            let k = choose|k: int| 0 <= k < entries.len() && (#[trigger] entries[k]).asset@ == asset;
            assert(after[k].asset@ == asset);
            lemma_balance_map_entry(after, k);
            lemma_balance_map_entry(entries, k);
        }
    }
    assert(balance_map(after) =~= want);
}

/// Listing a new asset at the end adds it to the map.
pub proof fn lemma_balance_map_push(entries: Seq<Balance>, entry: Balance)
    requires
        distinct_assets(entries),
        !listed(entries, entry.asset@),
    ensures
        distinct_assets(entries.push(entry)),
        balance_map(entries.push(entry)) == balance_map(entries).insert(
            entry.asset@,
            entry.amount as nat,
        ),
{
    let after = entries.push(entry);
    let last = entries.len() as int;
    assert forall|a: int, b: int| 0 <= a < b < after.len() implies after[a].asset@
        != after[b].asset@ by {
        assert(after[a] == entries[a]);
        if b < last {
            assert(after[b] == entries[b]);
        } else {
            assert(after[b] == entry);
        }
    }
    let want = balance_map(entries).insert(entry.asset@, entry.amount as nat);
    assert forall|asset: Seq<u8>| #[trigger]
        balance_map(after).dom().contains(asset) == want.dom().contains(asset) && (want.dom().contains(
            asset,
        ) ==> balance_map(after)[asset] == want[asset]) by {
        if listed(after, asset) {
            let k = choose|k: int| 0 <= k < after.len() && (#[trigger] after[k]).asset@ == asset;
            if k < last {
                assert(entries[k].asset@ == asset);
            }
        }
        if asset == entry.asset@ {
            assert(after[last].asset@ == asset);
            lemma_balance_map_entry(after, last);
        } else if listed(entries, asset) {
            let k = choose|k: int| 0 <= k < entries.len() && (#[trigger] entries[k]).asset@ == asset;
            assert(after[k] == entries[k]);
            lemma_balance_map_entry(after, k);
            lemma_balance_map_entry(entries, k);
        }
    }
    assert(balance_map(after) =~= want);
}

/// Giving back what was taken restores the balances exactly: after a
/// reservation and its rollback every asset holds what it held before.
pub proof fn lemma_rollback_restores(balances: Map<Seq<u8>, nat>, asset: Seq<u8>, amount: nat)
    requires
        amount_in(balances, asset) >= amount,
    ensures
        credit(debit(balances, asset, amount), asset, amount) == balances,
        amount_in(debit(balances, asset, amount), asset) + amount == amount_in(balances, asset),
        forall|other: Seq<u8>|
            other != asset ==> amount_in(debit(balances, asset, amount), other) == amount_in(
                balances,
                other,
            ),
{
    assert(credit(debit(balances, asset, amount), asset, amount) =~= balances);
}

/// A merge leaves alone every asset that the remote node did not report.
pub proof fn lemma_overwrite_unreported(
    balances: Map<Seq<u8>, nat>,
    reported: Seq<Balance>,
    asset: Seq<u8>,
)
    requires
        !listed(reported, asset),
    ensures
        overwrite(balances, reported).dom().contains(asset) == balances.dom().contains(asset),
        amount_in(overwrite(balances, reported), asset) == amount_in(balances, asset),
    decreases reported.len(),
{
    if reported.len() > 0 {
        let rest = reported.drop_last();
        let last = reported.len() - 1;
        assert(reported[last].asset@ != asset);
        assert forall|i: int| 0 <= i < rest.len() implies (#[trigger] rest[i]).asset@ != asset by {
            assert(rest[i] == reported[i]);
        }
        lemma_overwrite_unreported(balances, rest, asset);
    }
}

/// After a merge a reported asset holds what the remote node reported of it
/// last: the remote view wins.
pub proof fn lemma_overwrite_reported(balances: Map<Seq<u8>, nat>, reported: Seq<Balance>, at: int)
    requires
        0 <= at < reported.len(),
        forall|later: int|
            at < later < reported.len() ==> (#[trigger] reported[later]).asset@
                != reported[at].asset@,
    ensures
        overwrite(balances, reported).dom().contains(reported[at].asset@),
        amount_in(overwrite(balances, reported), reported[at].asset@) == reported[at].amount,
    decreases reported.len(),
{
    let rest = reported.drop_last();
    let last = reported.len() - 1;
    if at < last {
        assert(reported[last].asset@ != reported[at].asset@);
        assert(rest[at] == reported[at]);
        assert forall|later: int| at < later < rest.len() implies (#[trigger] rest[later]).asset@
            != rest[at].asset@ by {
            assert(rest[later] == reported[later]);
        }
        lemma_overwrite_reported(balances, rest, at);
    }
}

/// Balances per asset, the account nonce, the height last seen and the
/// history of past transactions.
#[derive(Debug)]
pub struct Ledger {
    balances: Vec<Balance>,
    nonce: u64,
    height: u64,
    history: Vec<HistoryEntry>,
}

impl View for Ledger {
    type V = LedgerView;

    open spec fn view(&self) -> LedgerView {
        LedgerView {
            balances: balance_map(self.entries()),
            nonce: self.spec_nonce() as nat,
            height: self.spec_height() as nat,
            history: self.spec_history(),
        }
    }
}

impl Ledger {
    /// Whether the ledger lists no asset twice. Every ledger that this
    /// module hands out does, and every operation keeps it so.
    pub closed spec fn wf(self) -> bool {
        distinct_assets(self.balances@)
    }

    /// The balances in the order in which their assets were first touched.
    pub closed spec fn entries(self) -> Seq<Balance> {
        self.balances@
    }

    /// The account nonce.
    pub closed spec fn spec_nonce(self) -> u64 {
        self.nonce
    }

    /// The height that the remote node last reported.
    pub closed spec fn spec_height(self) -> u64 {
        self.height
    }

    /// The past transactions, oldest first.
    pub closed spec fn spec_history(self) -> Seq<HistoryEntry> {
        self.history@
    }

    /// The amount held of an asset.
    pub open spec fn spec_balance(self, asset: Seq<u8>) -> nat {
        amount_in(self@.balances, asset)
    }

    /// A ledger that has touched no asset, with nonce and height zero and no
    /// history.
    pub fn new() -> (ledger: Ledger)
        ensures
            ledger@.balances == Map::<Seq<u8>, nat>::empty(),
            ledger@.nonce == 0,
            ledger@.height == 0,
            ledger@.history == Seq::<HistoryEntry>::empty(),
            ledger.entries() == Seq::<Balance>::empty(),
            ledger.wf(),
    {
        let ledger = Ledger { balances: Vec::new(), nonce: 0, height: 0, history: Vec::new() };
        assert(ledger@.balances =~= Map::<Seq<u8>, nat>::empty());
        ledger
    }

    /// The ledger that holds the given balances, nonce, height and history.
    pub(crate) fn from_parts(
        balances: Vec<Balance>,
        nonce: u64,
        height: u64,
        history: Vec<HistoryEntry>,
    ) -> (ledger: Ledger)
        requires
            distinct_assets(balances@),
        ensures
            ledger.wf(),
            ledger.entries() == balances@,
            ledger.spec_nonce() == nonce,
            ledger.spec_height() == height,
            ledger.spec_history() == history@,
    {
        Ledger { balances, nonce, height, history }
    }

    /// The balances in the order in which their assets were first touched.
    pub fn balances(&self) -> (balances: &Vec<Balance>)
        ensures
            balances@ == self.entries(),
    {
        &self.balances
    }

    /// A well-formed ledger lists no asset twice.
    pub proof fn lemma_wf(self)
        ensures
            self.wf() == distinct_assets(self.entries()),
    {
    }

    /// Where an asset is listed.
    fn find(&self, asset: &Hash256) -> (at: Option<usize>)
        ensures
            match at {
                Some(i) => i < self.entries().len() && self.entries()[i as int].asset@ == asset@,
                None => !listed(self.entries(), asset@),
            },
    {
        let mut i: usize = 0;
        while i < self.balances.len()
            invariant
                i <= self.balances.len(),
                forall|j: int| 0 <= j < i ==> (#[trigger] self.balances@[j]).asset@ != asset@,
            decreases self.balances.len() - i,
        {
            if self.balances[i].asset.equals(asset) {
                return Some(i);
            }
            i = i + 1;
        }
        None
    }

    /// The amount held of an asset: zero for one never touched.
    pub fn balance(&self, asset: &Hash256) -> (amount: u64)
        requires
            self.wf(),
        ensures
            amount == self.spec_balance(asset@),
    {
        match self.find(asset) {
            Some(i) => {
                proof {
                    lemma_balance_map_entry(self.balances@, i as int);
                }
                self.balances[i].amount
            },
            None => 0,
        }
    }

    /// The account nonce.
    pub fn nonce(&self) -> (nonce: u64)
        ensures
            nonce == self@.nonce,
    {
        self.nonce
    }

    /// The height that the remote node last reported.
    pub fn height(&self) -> (height: u64)
        ensures
            height == self@.height,
    {
        self.height
    }

    /// Every asset that the ledger has touched, in the order of their first
    /// touch. These are the assets to ask the remote node about.
    pub fn assets(&self) -> (assets: Vec<Hash256>)
        ensures
            assets@.len() == self.entries().len(),
            forall|i: int|
                0 <= i < assets@.len() ==> (#[trigger] assets@[i])@ == self.entries()[i].asset@,
    {
        let mut assets: Vec<Hash256> = Vec::new();
        let mut i: usize = 0;
        while i < self.balances.len()
            invariant
                i <= self.balances.len(),
                assets@.len() == i,
                forall|j: int| 0 <= j < i ==> (#[trigger] assets@[j])@ == self.balances@[j].asset@,
            decreases self.balances.len() - i,
        {
            assets.push(self.balances[i].asset);
            i = i + 1;
        }
        assets
    }

    /// The past transactions, oldest first.
    pub fn history(&self) -> (history: &Vec<HistoryEntry>)
        ensures
            history@ == self@.history,
    {
        &self.history
    }

    /// Replaces what the ledger holds of an asset, listing the asset if it
    /// was not yet touched.
    pub(crate) fn set_balance(&mut self, asset: &Hash256, amount: u64)
        requires
            old(self).wf(),
        ensures
            final(self).wf(),
            final(self)@.balances == old(self)@.balances.insert(asset@, amount as nat),
            final(self)@.nonce == old(self)@.nonce,
            final(self)@.height == old(self)@.height,
            final(self)@.history == old(self)@.history,
    {
        match self.find(asset) {
            Some(i) => {
                let entry = self.balances[i];
                proof {
                    lemma_balance_map_update(self.balances@, i as int, amount);
                }
                self.balances[i] = Balance { asset: entry.asset, amount };
            },
            None => {
                let entry = Balance { asset: *asset, amount };
                proof {
                    lemma_balance_map_push(self.balances@, entry);
                }
                self.balances.push(entry);
            },
        }
    }

    /// Takes `amount` out of the balance of `asset`, if the asset holds that
    /// much, and hands back the reservation that stands for it. Nothing
    /// changes where the balance is too small.
    pub fn reserve_spend(&mut self, asset: &Hash256, amount: u64) -> (res: Result<
        Reservation,
        LedgerError,
    >)
        requires
            old(self).wf(),
        ensures
            final(self).wf(),
            match res {
                Ok(reservation) => {
                    &&& old(self).spec_balance(asset@) >= amount
                    &&& reservation.spec_asset() == asset@
                    &&& reservation.spec_amount() == amount
                    &&& final(self)@.balances == debit(old(self)@.balances, asset@, amount as nat)
                    &&& final(self).spec_balance(asset@) == old(self).spec_balance(asset@) - amount
                },
                Err(e) => {
                    &&& e == LedgerError::InsufficientBalance
                    &&& old(self).spec_balance(asset@) < amount
                    &&& final(self)@.balances == old(self)@.balances
                },
            },
            final(self)@.nonce == old(self)@.nonce,
            final(self)@.height == old(self)@.height,
            final(self)@.history == old(self)@.history,
    {
        match self.find(asset) {
            Some(i) => {
                let entry = self.balances[i];
                proof {
                    lemma_balance_map_entry(self.balances@, i as int);
                }
                if entry.amount < amount {
                    return Err(LedgerError::InsufficientBalance);
                }
                let left: u64 = entry.amount - amount;
                proof {
                    lemma_balance_map_update(self.balances@, i as int, left);
                }
                self.balances[i] = Balance { asset: entry.asset, amount: left };
                Ok(Reservation { asset: *asset, amount })
            },
            None => {
                if amount > 0 {
                    return Err(LedgerError::InsufficientBalance);
                }
                Ok(Reservation { asset: *asset, amount })
            },
        }
    }

    /// Ends a reservation for good: the amount stays spent.
    pub fn commit(&mut self, reservation: Reservation)
        requires
            old(self).wf(),
        ensures
            final(self).wf(),
            final(self)@ == old(self)@,
            final(self).entries() == old(self).entries(),
    {
        let _spent = reservation;
    }

    /// Gives the amount of a reservation back to its asset. Nothing changes
    /// where the balance would no longer fit in 64 bits, which cannot happen
    /// to a reservation that this ledger made and that is given back before
    /// anything else raised the balance.
    pub fn rollback(&mut self, reservation: Reservation) -> (res: Result<(), LedgerError>)
        requires
            old(self).wf(),
        ensures
            final(self).wf(),
            match res {
                Ok(()) => {
                    &&& old(self).spec_balance(reservation.spec_asset()) + reservation.spec_amount()
                        <= u64::MAX
                    &&& final(self)@.balances == credit(
                        old(self)@.balances,
                        reservation.spec_asset(),
                        reservation.spec_amount(),
                    )
                },
                Err(e) => {
                    &&& e == LedgerError::BalanceOverflow
                    &&& old(self).spec_balance(reservation.spec_asset()) + reservation.spec_amount()
                        > u64::MAX
                    &&& final(self)@.balances == old(self)@.balances
                },
            },
            final(self)@.nonce == old(self)@.nonce,
            final(self)@.height == old(self)@.height,
            final(self)@.history == old(self)@.history,
    {
        match self.find(&reservation.asset) {
            Some(i) => {
                let entry = self.balances[i];
                proof {
                    lemma_balance_map_entry(self.balances@, i as int);
                }
                if entry.amount > u64::MAX - reservation.amount {
                    return Err(LedgerError::BalanceOverflow);
                }
                let sum: u64 = entry.amount + reservation.amount;
                proof {
                    lemma_balance_map_update(self.balances@, i as int, sum);
                }
                self.balances[i] = Balance { asset: entry.asset, amount: sum };
                Ok(())
            },
            None => {
                if reservation.amount > 0 {
                    let entry = Balance { asset: reservation.asset, amount: reservation.amount };
                    proof {
                        lemma_balance_map_push(self.balances@, entry);
                    }
                    self.balances.push(entry);
                }
                Ok(())
            },
        }
    }

    /// Takes up what the remote node reports. Each reported balance replaces
    /// the local one of its asset; the nonce is raised to the remote one and
    /// never lowered; the height is the one reported.
    pub fn merge_remote(&mut self, reported: &Vec<Balance>, remote_nonce: u64, height: u64)
        requires
            old(self).wf(),
        ensures
            final(self).wf(),
            final(self)@.balances == overwrite(old(self)@.balances, reported@),
            final(self)@.nonce == larger(old(self)@.nonce, remote_nonce as nat),
            final(self)@.nonce >= old(self)@.nonce,
            final(self)@.height == height,
            final(self)@.history == old(self)@.history,
    {
        let ghost before = self@;
        let mut i: usize = 0;
        while i < reported.len()
            invariant
                i <= reported.len(),
                self.wf(),
                self@.balances == overwrite(before.balances, reported@.subrange(0, i as int)),
                self@.nonce == before.nonce,
                self@.history == before.history,
            decreases reported.len() - i,
        {
            let entry = reported[i];
            self.set_balance(&entry.asset, entry.amount);
            proof {
                let upto = reported@.subrange(0, i + 1);
                assert(upto.drop_last() =~= reported@.subrange(0, i as int));
                assert(upto.last() == reported@[i as int]);
            }
            i = i + 1;
        }
        assert(reported@.subrange(0, i as int) =~= reported@);
        if remote_nonce > self.nonce {
            self.nonce = remote_nonce;
        }
        self.height = height;
    }

    /// Appends the summary of a transaction to the history.
    pub fn record(&mut self, entry: HistoryEntry)
        requires
            old(self).wf(),
        ensures
            final(self).wf(),
            final(self)@.history == old(self)@.history.push(entry),
            final(self)@.balances == old(self)@.balances,
            final(self)@.nonce == old(self)@.nonce,
            final(self)@.height == old(self)@.height,
    {
        self.history.push(entry);
    }

    /// Raises the nonce by one, for a transaction that this wallet made.
    pub(crate) fn advance_nonce(&mut self)
        requires
            old(self).wf(),
            old(self)@.nonce < u64::MAX,
        ensures
            final(self).wf(),
            final(self)@.nonce == old(self)@.nonce + 1,
            final(self)@.balances == old(self)@.balances,
            final(self).entries() == old(self).entries(),
            final(self)@.height == old(self)@.height,
            final(self)@.history == old(self)@.history,
    {
        self.nonce = self.nonce + 1;
    }
}

} // verus!
