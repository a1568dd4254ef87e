//! The wallet state that the store protects, and its byte format.
//!
//! The state is written as the secret key (32 bytes), the nonce, the height,
//! the number of balances, the balances (asset and amount, 40 bytes each),
//! the number of history entries and the entries (82 bytes each: hash,
//! asset, amount, one byte for the direction, one byte that says whether the
//! transaction is confirmed, and the height of confirmation, zero while it
//! is pending). Reading accepts exactly the bytes that writing produces.

use vstd::prelude::*;

use crate::codec::{
    concat_all, get_array32, get_u64, lemma_chunks_concat_all, lemma_concat_all_chunks,
    lemma_u64_bytes, lemma_u64_bytes_onto, put_bytes, put_u64, put_u8, u64_at, u64_bytes,
};
use crate::hash::Hash256;
use crate::ledger::{
    distinct_assets, Balance, Confirmation, Direction, HistoryEntry, Holding, Ledger, Past,
};
use crate::signing::KeyPair;

verus! {

/// Number of bytes that a balance is written with.
pub const BALANCE_WIDTH: usize = 40;

/// Number of bytes that a history entry is written with.
pub const ENTRY_WIDTH: usize = 82;

/// Number of bytes of the shortest state: the secret and four numbers.
pub const STATE_MIN_LEN: usize = 64;

/// The wallet state as a mathematical value.
pub struct StateModel {
    pub secret: Seq<u8>,
    pub nonce: u64,
    pub height: u64,
    pub balances: Seq<Holding>,
    pub history: Seq<Past>,
}

/// No asset is held twice.
pub open spec fn distinct_holdings(balances: Seq<Holding>) -> bool {
    forall|i: int, j: int|
        #![trigger balances[i], balances[j]]
        0 <= i < j < balances.len() ==> balances[i].asset != balances[j].asset
}

/// The byte that stands for a direction.
pub open spec fn direction_byte(direction: Direction) -> u8 {
    match direction {
        Direction::Incoming => 0,
        Direction::Outgoing => 1,
    }
}

/// The nine bytes that stand for a confirmation status.
pub open spec fn status_bytes(status: Confirmation) -> Seq<u8> {
    match status {
        Confirmation::Pending => seq![0u8] + u64_bytes(0),
        Confirmation::Confirmed { height } => seq![1u8] + u64_bytes(height),
    }
}

/// The bytes of a balance.
pub open spec fn holding_bytes(holding: Holding) -> Seq<u8> {
    holding.asset + u64_bytes(holding.amount)
}

/// The bytes of a history entry.
pub open spec fn past_bytes(past: Past) -> Seq<u8> {
    past.hash + past.asset + u64_bytes(past.amount) + seq![direction_byte(past.direction)]
        + status_bytes(past.status)
}

/// The writing of balances, as a function.
pub open spec fn holding_writer() -> spec_fn(Holding) -> Seq<u8> {
    |h: Holding| holding_bytes(h)
}

/// The writing of history entries, as a function.
pub open spec fn past_writer() -> spec_fn(Past) -> Seq<u8> {
    |p: Past| past_bytes(p)
}

impl StateModel {
    /// Whether the value is one that a wallet can hold: keys and hashes of
    /// 32 bytes, no asset held twice, and lists short enough to count in 64
    /// bits.
    pub open spec fn wf(self) -> bool {
        &&& self.secret.len() == 32
        &&& self.balances.len() <= u64::MAX
        &&& self.history.len() <= u64::MAX
        &&& forall|k: int| 0 <= k < self.balances.len() ==> (#[trigger] self.balances[k]).asset.len() == 32
        &&& forall|k: int|
            0 <= k < self.history.len() ==> (#[trigger] self.history[k]).hash.len() == 32
                && self.history[k].asset.len() == 32
        &&& distinct_holdings(self.balances)
    }

    /// The bytes of the state.
    pub open spec fn bytes(self) -> Seq<u8> {
        self.secret + u64_bytes(self.nonce) + u64_bytes(self.height) + u64_bytes(
            self.balances.len() as u64,
        ) + concat_all(self.balances, holding_writer()) + u64_bytes(
            self.history.len() as u64,
        ) + concat_all(self.history, past_writer())
    }
}

/// The balance that stands at a position.
spec fn holding_at(bytes: Seq<u8>, at: int) -> Holding {
    Holding { asset: bytes.subrange(at, at + 32), amount: u64_at(bytes, at + 32) }
}

/// The history entry that stands at a position, if the bytes there are the
/// writing of one.
spec fn past_at(bytes: Seq<u8>, at: int) -> Option<Past> {
    let direction = bytes[at + 72];
    let confirmed = bytes[at + 73];
    let height = u64_at(bytes, at + 74);
    if direction > 1 || confirmed > 1 || (confirmed == 0 && height != 0) {
        None
    } else {
        Some(
            Past {
                hash: bytes.subrange(at, at + 32),
                asset: bytes.subrange(at + 32, at + 64),
                amount: u64_at(bytes, at + 64),
                direction: if direction == 0 {
                    Direction::Incoming
                } else {
                    Direction::Outgoing
                },
                status: if confirmed == 0 {
                    Confirmation::Pending
                } else {
                    Confirmation::Confirmed { height }
                },
            },
        )
    }
}

/// The state that bytes stand for, read field by field.
spec fn read_state(bytes: Seq<u8>) -> Option<StateModel> {
    if bytes.len() < 64 {
        None
    } else {
        let held = u64_at(bytes, 48) as int;
        if bytes.len() < 64 + 40 * held {
            None
        } else {
            let past = u64_at(bytes, 56 + 40 * held) as int;
            let model = StateModel {
                secret: bytes.subrange(0, 32),
                nonce: u64_at(bytes, 32),
                height: u64_at(bytes, 40),
                balances: Seq::new(held as nat, |k: int| holding_at(bytes, 56 + 40 * k)),
                history: Seq::new(
                    past as nat,
                    |k: int| past_at(bytes, 64 + 40 * held + 82 * k).unwrap(),
                ),
            };
            if bytes.len() == 64 + 40 * held + 82 * past && distinct_holdings(model.balances) && (
            forall|k: int| 0 <= k < past ==> (#[trigger] past_at(bytes, 64 + 40 * held + 82 * k)) is Some) {
                Some(model)
            } else {
                None
            }
        }
    }
}

/// A part of a piece that stands in longer bytes stands there too.
proof fn lemma_part(bytes: Seq<u8>, at: int, piece: Seq<u8>, from: int, to: int)
    requires
        0 <= at,
        at + piece.len() <= bytes.len(),
        bytes.subrange(at, at + piece.len()) == piece,
        0 <= from <= to <= piece.len(),
    ensures
        bytes.subrange(at + from, at + to) == piece.subrange(from, to),
{
    assert(bytes.subrange(at + from, at + to) =~= bytes.subrange(at, at + piece.len()).subrange(
        from,
        to,
    ));
}

/// What reading makes of the bytes of a history entry is that entry.
proof fn lemma_past_at(bytes: Seq<u8>, at: int, past: Past)
    requires
        0 <= at,
        at + 82 <= bytes.len(),
        bytes.subrange(at, at + 82) == past_bytes(past),
        past.hash.len() == 32,
        past.asset.len() == 32,
    ensures
        past_at(bytes, at) == Some(past),
{
    let chunk = past_bytes(past);
    lemma_u64_bytes(past.amount);
    let height_bytes = match past.status {
        Confirmation::Pending => u64_bytes(0),
        Confirmation::Confirmed { height } => u64_bytes(height),
    };
    match past.status {
        Confirmation::Pending => lemma_u64_bytes(0),
        Confirmation::Confirmed { height } => lemma_u64_bytes(height),
    }
    assert(chunk.len() == 82);
    lemma_part(bytes, at, chunk, 0, 32);
    lemma_part(bytes, at, chunk, 32, 64);
    lemma_part(bytes, at, chunk, 64, 72);
    lemma_part(bytes, at, chunk, 72, 74);
    lemma_part(bytes, at, chunk, 74, 82);
    assert(chunk.subrange(0, 32) =~= past.hash);
    assert(chunk.subrange(32, 64) =~= past.asset);
    assert(chunk.subrange(64, 72) =~= u64_bytes(past.amount));
    assert(chunk.subrange(74, 82) =~= height_bytes);
    assert(bytes[at + 72] == bytes.subrange(at + 72, at + 74)[0]);
    assert(bytes[at + 73] == bytes.subrange(at + 72, at + 74)[1]);
    assert(chunk.subrange(72, 74)[0] == chunk[72]);
    assert(chunk.subrange(72, 74)[1] == chunk[73]);
}

/// The bytes at a position where reading finds a history entry are the
/// writing of that entry.
proof fn lemma_past_bytes(bytes: Seq<u8>, at: int)
    requires
        0 <= at,
        at + 82 <= bytes.len(),
        past_at(bytes, at) is Some,
    ensures
        bytes.subrange(at, at + 82) == past_bytes(past_at(bytes, at).unwrap()),
        past_at(bytes, at).unwrap().hash.len() == 32,
        past_at(bytes, at).unwrap().asset.len() == 32,
{
    let past = past_at(bytes, at).unwrap();
    lemma_u64_bytes_onto(bytes.subrange(at + 64, at + 72));
    lemma_u64_bytes_onto(bytes.subrange(at + 74, at + 82));
    assert(bytes.subrange(at, at + 82) =~= past_bytes(past));
}

/// What reading makes of the bytes of a balance is that balance.
proof fn lemma_holding_at(bytes: Seq<u8>, at: int, holding: Holding)
    requires
        0 <= at,
        at + 40 <= bytes.len(),
        bytes.subrange(at, at + 40) == holding_bytes(holding),
        holding.asset.len() == 32,
    ensures
        holding_at(bytes, at) == holding,
{
    let chunk = holding_bytes(holding);
    lemma_u64_bytes(holding.amount);
    lemma_part(bytes, at, chunk, 0, 32);
    lemma_part(bytes, at, chunk, 32, 40);
    assert(chunk.subrange(0, 32) =~= holding.asset);
    assert(chunk.subrange(32, 40) =~= u64_bytes(holding.amount));
}

/// The bytes at a position are the writing of the balance that reading
/// finds there.
proof fn lemma_holding_bytes(bytes: Seq<u8>, at: int)
    requires
        0 <= at,
        at + 40 <= bytes.len(),
    ensures
        bytes.subrange(at, at + 40) == holding_bytes(holding_at(bytes, at)),
        holding_at(bytes, at).asset.len() == 32,
{
    lemma_u64_bytes_onto(bytes.subrange(at + 32, at + 40));
    assert(bytes.subrange(at, at + 40) =~= holding_bytes(holding_at(bytes, at)));
}

/// Bytes that reading accepts are the writing of the state read, and that
/// state is one that a wallet can hold.
proof fn lemma_read_is_written(bytes: Seq<u8>)
    requires
        read_state(bytes) is Some,
    ensures
        read_state(bytes).unwrap().wf(),
        read_state(bytes).unwrap().bytes() == bytes,
{
    let model = read_state(bytes).unwrap();
    let held = u64_at(bytes, 48) as int;
    let past = u64_at(bytes, 56 + 40 * held) as int;
    let history_at = 64 + 40 * held;
    let held_bytes = bytes.subrange(56, 56 + 40 * held);
    let past_bytes_all = bytes.subrange(history_at, bytes.len() as int);
    assert forall|k: int| 0 <= k < held implies holding_writer()(
        #[trigger] model.balances[k],
    ).len() == 40 && model.balances[k].asset.len() == 32 by {
        lemma_holding_bytes(bytes, 56 + 40 * k);
    }
    assert forall|k: int| 0 <= k < held implies #[trigger] held_bytes.subrange(
        40 * k,
        40 * k + 40,
    ) == holding_writer()(model.balances[k]) by {
        lemma_holding_bytes(bytes, 56 + 40 * k);
        assert(held_bytes.subrange(40 * k, 40 * k + 40) =~= bytes.subrange(
            56 + 40 * k,
            56 + 40 * k + 40,
        ));
    }
    lemma_chunks_concat_all(held_bytes, model.balances, holding_writer(), 40);
    assert forall|k: int| 0 <= k < past implies past_writer()(#[trigger] model.history[k]).len()
        == 82 && model.history[k].hash.len() == 32 && model.history[k].asset.len() == 32 by {
        assert(past_at(bytes, 64 + 40 * held + 82 * k) is Some);
        lemma_past_bytes(bytes, history_at + 82 * k);
    }
    assert forall|k: int| 0 <= k < past implies #[trigger] past_bytes_all.subrange(
        82 * k,
        82 * k + 82,
    ) == past_writer()(model.history[k]) by {
        assert(past_at(bytes, 64 + 40 * held + 82 * k) is Some);
        lemma_past_bytes(bytes, history_at + 82 * k);
        assert(past_bytes_all.subrange(82 * k, 82 * k + 82) =~= bytes.subrange(
            history_at + 82 * k,
            history_at + 82 * k + 82,
        ));
    }
    lemma_chunks_concat_all(past_bytes_all, model.history, past_writer(), 82);
    lemma_u64_bytes_onto(bytes.subrange(32, 40));
    lemma_u64_bytes_onto(bytes.subrange(40, 48));
    lemma_u64_bytes_onto(bytes.subrange(48, 56));
    lemma_u64_bytes_onto(bytes.subrange(56 + 40 * held, 64 + 40 * held));
    assert(model.balances.len() as u64 == u64_at(bytes, 48));
    assert(model.history.len() as u64 == u64_at(bytes, 56 + 40 * held));
    assert(model.bytes() =~= bytes);
}

/// Reading the writing of a state gives the state back.
proof fn lemma_written_is_read(model: StateModel)
    requires
        model.wf(),
    ensures
        read_state(model.bytes()) == Some(model),
{
    let bytes = model.bytes();
    let held = model.balances.len() as int;
    let past = model.history.len() as int;
    let held_bytes = concat_all(model.balances, holding_writer());
    let past_bytes_all = concat_all(model.history, past_writer());
    lemma_u64_bytes(model.nonce);
    lemma_u64_bytes(model.height);
    lemma_u64_bytes(held as u64);
    lemma_u64_bytes(past as u64);
    assert forall|k: int| 0 <= k < held implies holding_writer()(
        #[trigger] model.balances[k],
    ).len() == 40 by {
        lemma_u64_bytes(model.balances[k].amount);
    }
    assert forall|k: int| 0 <= k < past implies past_writer()(#[trigger] model.history[k]).len()
        == 82 by {
        lemma_u64_bytes(model.history[k].amount);
        match model.history[k].status {
            Confirmation::Pending => lemma_u64_bytes(0),
            Confirmation::Confirmed { height } => lemma_u64_bytes(height),
        }
    }
    lemma_concat_all_chunks(model.balances, holding_writer(), 40);
    lemma_concat_all_chunks(model.history, past_writer(), 82);
    assert(bytes.len() == 64 + 40 * held + 82 * past);
    assert(bytes.subrange(0, 32) =~= model.secret);
    assert(bytes.subrange(32, 40) =~= u64_bytes(model.nonce));
    assert(bytes.subrange(40, 48) =~= u64_bytes(model.height));
    assert(bytes.subrange(48, 56) =~= u64_bytes(held as u64));
    assert(bytes.subrange(56 + 40 * held, 64 + 40 * held) =~= u64_bytes(past as u64));
    assert(bytes.subrange(56, 56 + 40 * held) =~= held_bytes);
    assert(bytes.subrange(64 + 40 * held, bytes.len() as int) =~= past_bytes_all);
    let read = read_state(bytes).unwrap();
    assert forall|k: int| 0 <= k < held implies holding_at(bytes, 56 + 40 * k)
        == model.balances[k] by {
        assert(held_bytes.subrange(40 * k, 40 * k + 40) == holding_bytes(model.balances[k]));
        lemma_part(bytes, 56, held_bytes, 40 * k, 40 * k + 40);
        lemma_holding_at(bytes, 56 + 40 * k, model.balances[k]);
    }
    assert forall|k: int| 0 <= k < past implies #[trigger] past_at(bytes, 64 + 40 * held + 82 * k)
        == Some(model.history[k]) by {
        assert(past_bytes_all.subrange(82 * k, 82 * k + 82) == past_bytes(model.history[k]));
        lemma_part(bytes, 64 + 40 * held, past_bytes_all, 82 * k, 82 * k + 82);
        lemma_past_at(bytes, 64 + 40 * held + 82 * k, model.history[k]);
    }
    let balances = Seq::new(held as nat, |k: int| holding_at(bytes, 56 + 40 * k));
    let history = Seq::new(past as nat, |k: int| past_at(bytes, 64 + 40 * held + 82 * k).unwrap());
    assert(balances =~= model.balances);
    assert(history =~= model.history);
}

/// Writing is one-to-one: two states that a wallet can hold and that are
/// written with the same bytes are the same state.
pub proof fn lemma_bytes_injective(a: StateModel, b: StateModel)
    requires
        a.wf(),
        b.wf(),
        a.bytes() == b.bytes(),
    ensures
        a == b,
{
    lemma_written_is_read(a);
    lemma_written_is_read(b);
}

/// The values of a list of balances.
pub open spec fn holdings(entries: Seq<Balance>) -> Seq<Holding> {
    Seq::new(entries.len(), |k: int| entries[k]@)
}

/// The values of a list of history entries.
pub open spec fn pasts(history: Seq<HistoryEntry>) -> Seq<Past> {
    Seq::new(history.len(), |k: int| history[k]@)
}

/// The wallet state: the long-term keypair and the ledger. This is what the
/// store seals.
#[derive(Debug)]
pub struct WalletState {
    keypair: KeyPair,
    ledger: Ledger,
}

/// Where a list of balances names an asset.
fn position_of(balances: &Vec<Balance>, asset: &Hash256) -> (at: Option<usize>)
    ensures
        match at {
            Some(i) => i < balances@.len() && balances@[i as int].asset@ == asset@,
            None => forall|j: int| 0 <= j < balances@.len() ==> (#[trigger] balances@[j]).asset@ != asset@,
        },
{
    let mut i: usize = 0;
    while i < balances.len()
        invariant
            i <= balances.len(),
            forall|j: int| 0 <= j < i ==> (#[trigger] balances@[j]).asset@ != asset@,
        decreases balances.len() - i,
    {
        if balances[i].asset.equals(asset) {
            return Some(i);
        }
        i = i + 1;
    }
    None
}

impl WalletState {
    /// The keypair of the wallet.
    pub closed spec fn spec_keypair(self) -> KeyPair {
        self.keypair
    }

    /// The ledger of the wallet.
    pub closed spec fn spec_ledger(self) -> Ledger {
        self.ledger
    }

    /// Whether the state is one that this module hands out: its ledger is
    /// well formed.
    pub open spec fn wf(self) -> bool {
        self.spec_ledger().wf()
    }

    /// The state as a mathematical value.
    pub open spec fn model(self) -> StateModel {
        StateModel {
            secret: self.spec_keypair().spec_secret(),
            nonce: self.spec_ledger().spec_nonce(),
            height: self.spec_ledger().spec_height(),
            balances: holdings(self.spec_ledger().entries()),
            history: pasts(self.spec_ledger().spec_history()),
        }
    }

    /// The state of a wallet that was just made: the keypair, and a ledger
    /// that holds nothing.
    pub fn new(keypair: KeyPair) -> (state: WalletState)
        ensures
            state.wf(),
            state.spec_keypair() == keypair,
            state.spec_ledger()@.balances == Map::<Seq<u8>, nat>::empty(),
            state.spec_ledger()@.nonce == 0,
            state.spec_ledger()@.height == 0,
            state.spec_ledger()@.history == Seq::<HistoryEntry>::empty(),
            state.spec_ledger().entries() == Seq::<Balance>::empty(),
    {
        WalletState { keypair, ledger: Ledger::new() }
    }

    /// The ledger of the wallet.
    pub fn ledger(&self) -> (ledger: &Ledger)
        ensures
            *ledger == self.spec_ledger(),
    {
        &self.ledger
    }

    /// The ledger of the wallet, to be changed in place. The keypair stays.
    pub fn ledger_mut(&mut self) -> (ledger: &mut Ledger)
        ensures
            *ledger == old(self).spec_ledger(),
            final(self).spec_ledger() == *final(ledger),
            final(self).spec_keypair() == old(self).spec_keypair(),
    {
        &mut self.ledger
    }

    /// The keypair of the wallet.
    pub fn keypair(&self) -> (keypair: &KeyPair)
        ensures
            *keypair == self.spec_keypair(),
    {
        &self.keypair
    }

    /// Writes the state. The bytes are those of the state's value, which is
    /// one that a wallet can hold.
    pub fn to_bytes(&self) -> (bytes: Vec<u8>)
        requires
            self.wf(),
        ensures
            self.model().wf(),
            bytes@ == self.model().bytes(),
    {
        let balances = self.ledger.balances();
        let history = self.ledger.history();
        let ghost model = self.model();
        proof {
            self.ledger.lemma_wf();
            assert forall|k: int| 0 <= k < model.balances.len() implies (#[trigger] model.balances[k]).asset.len()
                == 32 by {
                balances@[k].asset.lemma_len();
            }
            assert forall|k: int| 0 <= k < model.history.len() implies (#[trigger] model.history[k]).hash.len()
                == 32 && model.history[k].asset.len() == 32 by {
                history@[k].hash.lemma_len();
                history@[k].asset.lemma_len();
            }
            assert forall|i: int, j: int| 0 <= i < j < model.balances.len() implies model.balances[i].asset
                != model.balances[j].asset by {
                assert(balances@[i].asset@ != balances@[j].asset@);
            }
        }
        let mut out: Vec<u8> = Vec::new();
        put_bytes(&mut out, self.keypair.secret_bytes().as_slice());
        put_u64(&mut out, self.ledger.nonce());
        put_u64(&mut out, self.ledger.height());
        put_u64(&mut out, balances.len() as u64);
        let ghost head = out@;
        let mut i: usize = 0;
        while i < balances.len()
            invariant
                i <= balances.len(),
                model.balances == holdings(balances@),
                out@ == head + concat_all(model.balances.subrange(0, i as int), holding_writer()),
            decreases balances.len() - i,
        {
            let entry = &balances[i];
            put_bytes(&mut out, entry.asset.as_bytes().as_slice());
            put_u64(&mut out, entry.amount);
            proof {
                let upto = model.balances.subrange(0, i + 1);
                assert(upto.drop_last() =~= model.balances.subrange(0, i as int));
                assert(upto.last() == balances@[i as int]@);
                assert(holding_writer()(upto.last()) == holding_bytes(upto.last()));
                assert(out@ =~= head + concat_all(upto, holding_writer()));
            }
            i = i + 1;
        }
        proof {
            assert(model.balances.subrange(0, i as int) =~= model.balances);
        }
        put_u64(&mut out, history.len() as u64);
        let ghost middle = out@;
        let mut k: usize = 0;
        while k < history.len()
            invariant
                k <= history.len(),
                model.history == pasts(history@),
                out@ == middle + concat_all(model.history.subrange(0, k as int), past_writer()),
            decreases history.len() - k,
        {
            let entry = &history[k];
            put_bytes(&mut out, entry.hash.as_bytes().as_slice());
            put_bytes(&mut out, entry.asset.as_bytes().as_slice());
            put_u64(&mut out, entry.amount);
            match entry.direction {
                Direction::Incoming => put_u8(&mut out, 0),
                Direction::Outgoing => put_u8(&mut out, 1),
            }
            match entry.status {
                Confirmation::Pending => {
                    put_u8(&mut out, 0);
                    put_u64(&mut out, 0);
                },
                Confirmation::Confirmed { height } => {
                    put_u8(&mut out, 1);
                    put_u64(&mut out, height);
                },
            }
            proof {
                let upto = model.history.subrange(0, k + 1);
                assert(upto.drop_last() =~= model.history.subrange(0, k as int));
                assert(upto.last() == history@[k as int]@);
                assert(past_writer()(upto.last()) == past_bytes(upto.last()));
                assert(out@ =~= middle + concat_all(upto, past_writer()));
            }
            k = k + 1;
        }
        proof {
            assert(model.history.subrange(0, k as int) =~= model.history);
            assert(out@ =~= model.bytes());
        }
        out
    }

    /// Reads a state. It comes back exactly for the bytes that
    /// [`WalletState::to_bytes`] writes: bytes that are the writing of no
    /// state give `None`.
    pub fn from_bytes(bytes: &[u8]) -> (res: Option<WalletState>)
        ensures
            match res {
                Some(state) => state.wf() && state.model().wf() && state.model().bytes() == bytes@,
                None => forall|model: StateModel| model.wf() ==> #[trigger] model.bytes() != bytes@,
            },
    {
        let res = Self::read(bytes);
        proof {
            if res is Some {
                lemma_read_is_written(bytes@);
            } else {
                assert forall|model: StateModel| model.wf() implies #[trigger] model.bytes()
                    != bytes@ by {
                    lemma_written_is_read(model);
                }
            }
        }
        res
    }

    /// Reads a state field by field.
    fn read(bytes: &[u8]) -> (res: Option<WalletState>)
        ensures
            match res {
                Some(state) => state.wf() && read_state(bytes@) == Some(state.model()),
                None => read_state(bytes@) is None,
            },
    {
        let len = bytes.len();
        if len < 64 {
            return None;
        }
        let held_count = get_u64(bytes, 48);
        let room = (len - 64) / 40;
        if held_count > room as u64 {
            return None;
        }
        let held = held_count as usize;
        let history_at: usize = 64 + 40 * held;
        let past_count = get_u64(bytes, history_at - 8);
        let rest = len - history_at;
        if rest % 82 != 0 || past_count != (rest / 82) as u64 {
            return None;
        }
        let past = past_count as usize;
        let ghost want = read_state(bytes@);
        let ghost want_balances = Seq::new(held as nat, |j: int| holding_at(bytes@, 56 + 40 * j));
        let ghost want_history = Seq::new(
            past as nat,
            |j: int| past_at(bytes@, 64 + 40 * held + 82 * j).unwrap(),
        );
        let mut balances: Vec<Balance> = Vec::new();
        let mut i: usize = 0;
        while i < held
            invariant
                i <= held,
                len == bytes@.len(),
                64 + 40 * held <= len,
                balances@.len() == i,
                held == u64_at(bytes@, 48),
                want_balances == Seq::new(held as nat, |j: int| holding_at(bytes@, 56 + 40 * j)),
                forall|j: int| 0 <= j < i ==> (#[trigger] balances@[j])@ == want_balances[j],
                distinct_assets(balances@),
            decreases held - i,
        {
            let at: usize = 56 + 40 * i;
            let asset = Hash256::new(get_array32(bytes, at));
            let amount = get_u64(bytes, at + 32);
            match position_of(&balances, &asset) {
                Some(twin) => {
                    proof {
                        assert(balances@[twin as int]@ == want_balances[twin as int]);
                        assert(want_balances[twin as int].asset == want_balances[i as int].asset);
                        assert(!distinct_holdings(want_balances));
                    }
                    return None;
                },
                None => {},
            }
            let ghost before = balances@;
            balances.push(Balance { asset, amount });
            proof {
                assert forall|a: int, b: int| 0 <= a < b < balances@.len() implies balances@[a].asset@
                    != balances@[b].asset@ by {
                    assert(balances@[a] == before[a]);
                    if b < i {
                        assert(balances@[b] == before[b]);
                    }
                }
                assert forall|j: int| 0 <= j < i + 1 implies (#[trigger] balances@[j])@
                    == want_balances[j] by {
                    if j < i {
                        assert(balances@[j] == before[j]);
                    }
                }
            }
            i = i + 1;
        }
        let mut history: Vec<HistoryEntry> = Vec::new();
        let mut k: usize = 0;
        while k < past
            invariant
                k <= past,
                len == bytes@.len(),
                len == 64 + 40 * held + 82 * past,
                history_at == 64 + 40 * held,
                history@.len() == k,
                forall|j: int|
                    0 <= j < k ==> #[trigger] past_at(bytes@, 64 + 40 * held + 82 * j) == Some(
                        history@[j]@,
                    ),
                want == read_state(bytes@),
                held == u64_at(bytes@, 48),
                past == u64_at(bytes@, 56 + 40 * held),
            decreases past - k,
        {
            let at: usize = history_at + 82 * k;
            let direction_tag = bytes[at + 72];
            let confirmed = bytes[at + 73];
            let height = get_u64(bytes, at + 74);
            if direction_tag > 1 || confirmed > 1 || (confirmed == 0 && height != 0) {
                proof {
                    assert(past_at(bytes@, 64 + 40 * held + 82 * k) is None);
                }
                return None;
            }
            let entry = HistoryEntry {
                hash: Hash256::new(get_array32(bytes, at)),
                asset: Hash256::new(get_array32(bytes, at + 32)),
                amount: get_u64(bytes, at + 64),
                direction: if direction_tag == 0 {
                    Direction::Incoming
                } else {
                    Direction::Outgoing
                },
                status: if confirmed == 0 {
                    Confirmation::Pending
                } else {
                    Confirmation::Confirmed { height }
                },
            };
            let ghost before = history@;
            history.push(entry);
            proof {
                assert forall|j: int| 0 <= j < k + 1 implies #[trigger] past_at(
                    bytes@,
                    64 + 40 * held + 82 * j,
                ) == Some(history@[j]@) by {
                    if j < k {
                        assert(history@[j] == before[j]);
                    }
                }
            }
            k = k + 1;
        }
        let keypair = KeyPair::from_secret(get_array32(bytes, 0));
        let nonce = get_u64(bytes, 32);
        let height = get_u64(bytes, 40);
        let ledger = Ledger::from_parts(balances, nonce, height, history);
        let state = WalletState { keypair, ledger };
        proof {
            let model = state.model();
            assert(model.balances =~= want_balances);
            assert(model.history =~= want_history);
            assert forall|a: int, b: int| 0 <= a < b < want_balances.len() implies want_balances[a].asset
                != want_balances[b].asset by {
                assert(balances@[a]@ == want_balances[a]);
                assert(balances@[b]@ == want_balances[b]);
            }
        }
        Some(state)
    }
}

} // verus!
