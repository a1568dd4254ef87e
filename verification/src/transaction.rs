//! Transfers, transaction types and signed transactions, and the bytes that
//! are signed and hashed.
//!
//! A transfer is written as its asset, its destination and its amount,
//! followed by one byte that says whether a payload follows and, if so, the
//! payload's length and bytes. A burn is the byte 0, the asset and the
//! amount; a list of transfers is the byte 1, their number and the transfers
//! one after another. The body of a transaction is its type followed by its
//! nonce; the transaction is the body followed by the signature.

use vstd::prelude::*;

use crate::codec::{put_bytes, put_u64, put_u8, u64_bytes};
use crate::hash::{hash, keccak256, Hash256};
use crate::signing::{PublicKey, Signature};

verus! {

/// One output of a transaction: an amount of an asset for a destination,
/// with an optional opaque payload.
#[derive(Debug)]
pub struct Transfer {
    asset: Hash256,
    destination: PublicKey,
    amount: u64,
    extra_data: Option<Vec<u8>>,
}

/// A transfer as a mathematical value.
pub struct TransferView {
    pub asset: Seq<u8>,
    pub destination: Seq<u8>,
    pub amount: u64,
    pub extra_data: Option<Seq<u8>>,
}

impl View for Transfer {
    type V = TransferView;

    closed spec fn view(&self) -> TransferView {
        TransferView {
            asset: self.asset@,
            destination: self.destination@,
            amount: self.amount,
            extra_data: match self.extra_data {
                Some(data) => Some(data@),
                None => None,
            },
        }
    }
}

impl Transfer {
    /// A transfer always moves more than nothing.
    #[verifier::type_invariant]
    spec fn positive(self) -> bool {
        self.amount > 0
    }

    /// A transfer of `amount` of `asset` to `destination`, or `None` for an
    /// amount of zero.
    pub(crate) fn new(
        asset: Hash256,
        destination: PublicKey,
        extra_data: Option<Vec<u8>>,
        amount: u64,
    ) -> (res: Option<Transfer>)
        ensures
            res is Some <==> amount > 0,
            res matches Some(transfer) ==> transfer@ == (TransferView {
                asset: asset@,
                destination: destination@,
                amount,
                extra_data: match extra_data {
                    Some(data) => Some(data@),
                    None => None,
                },
            }),
    {
        if amount == 0 {
            return None;
        }
        Some(Transfer { asset, destination, amount, extra_data })
    }

    /// The asset moved.
    pub fn asset(&self) -> (asset: Hash256)
        ensures
            asset@ == self@.asset,
    {
        self.asset
    }

    /// The key that receives the amount.
    pub fn destination(&self) -> (destination: PublicKey)
        ensures
            destination@ == self@.destination,
    {
        self.destination
    }

    /// The amount moved, which is never zero.
    pub fn amount(&self) -> (amount: u64)
        ensures
            amount == self@.amount,
            amount > 0,
    {
        proof {
            use_type_invariant(self);
        }
        self.amount
    }

    /// The payload that travels with the transfer.
    pub fn extra_data(&self) -> (data: &Option<Vec<u8>>)
        ensures
            match *data {
                Some(bytes) => self@.extra_data == Some(bytes@),
                None => self@.extra_data is None,
            },
    {
        &self.extra_data
    }
}

/// What a transaction does.
#[derive(Debug)]
pub enum TransactionType {
    /// Moves amounts to destinations, one transfer each.
    Transfer(Vec<Transfer>),
    /// Destroys an amount of an asset.
    Burn { asset: Hash256, amount: u64 },
}

/// A transaction type as a mathematical value.
pub enum TransactionTypeView {
    Transfer(Seq<TransferView>),
    Burn { asset: Seq<u8>, amount: u64 },
}

/// The values of a list of transfers.
pub open spec fn views_of(transfers: Seq<Transfer>) -> Seq<TransferView> {
    Seq::new(transfers.len(), |i: int| transfers[i]@)
}

impl View for TransactionType {
    type V = TransactionTypeView;

    open spec fn view(&self) -> TransactionTypeView {
        match *self {
            TransactionType::Transfer(transfers) => TransactionTypeView::Transfer(
                views_of(transfers@),
            ),
            TransactionType::Burn { asset, amount } => TransactionTypeView::Burn {
                asset: asset@,
                amount,
            },
        }
    }
}

/// The bytes of one transfer.
pub open spec fn transfer_bytes(transfer: TransferView) -> Seq<u8> {
    transfer.asset + transfer.destination + u64_bytes(transfer.amount) + match transfer.extra_data {
        Some(data) => seq![1u8] + u64_bytes(data.len() as u64) + data,
        None => seq![0u8],
    }
}

/// The bytes of a list of transfers, one after another.
pub open spec fn transfers_bytes(transfers: Seq<TransferView>) -> Seq<u8>
    decreases transfers.len(),
{
    if transfers.len() == 0 {
        Seq::empty()
    } else {
        transfers_bytes(transfers.drop_last()) + transfer_bytes(transfers.last())
    }
}

/// The bytes of a transaction type.
pub open spec fn type_bytes(transaction_type: TransactionTypeView) -> Seq<u8> {
    match transaction_type {
        TransactionTypeView::Burn { asset, amount } => seq![0u8] + asset + u64_bytes(amount),
        TransactionTypeView::Transfer(transfers) => seq![1u8] + u64_bytes(transfers.len() as u64)
            + transfers_bytes(transfers),
    }
}

/// The bytes that are signed: the type, then the nonce.
pub open spec fn body_bytes(transaction_type: TransactionTypeView, nonce: u64) -> Seq<u8> {
    type_bytes(transaction_type) + u64_bytes(nonce)
}

/// The bytes that are hashed: the body, then the signature.
pub open spec fn transaction_bytes(
    transaction_type: TransactionTypeView,
    nonce: u64,
    signature: Seq<u8>,
) -> Seq<u8> {
    body_bytes(transaction_type, nonce) + signature
}

/// Appends the bytes of a transfer.
fn write_transfer(out: &mut Vec<u8>, transfer: &Transfer)
    ensures
        final(out)@ == old(out)@ + transfer_bytes(transfer@),
{
    put_bytes(out, transfer.asset.as_bytes().as_slice());
    put_bytes(out, transfer.destination.as_bytes().as_slice());
    put_u64(out, transfer.amount);
    match &transfer.extra_data {
        Some(data) => {
            put_u8(out, 1);
            put_u64(out, data.len() as u64);
            put_bytes(out, data.as_slice());
            assert(out@ =~= old(out)@ + transfer_bytes(transfer@));
        },
        None => {
            put_u8(out, 0);
            assert(out@ =~= old(out)@ + transfer_bytes(transfer@));
        },
    }
}

/// Appends the bytes of a transaction type.
fn write_type(out: &mut Vec<u8>, transaction_type: &TransactionType)
    ensures
        final(out)@ == old(out)@ + type_bytes(transaction_type@),
{
    match transaction_type {
        TransactionType::Burn { asset, amount } => {
            put_u8(out, 0);
            put_bytes(out, asset.as_bytes().as_slice());
            put_u64(out, *amount);
            assert(out@ =~= old(out)@ + type_bytes(transaction_type@));
        },
        TransactionType::Transfer(transfers) => {
            put_u8(out, 1);
            put_u64(out, transfers.len() as u64);
            let ghost start = out@;
            let ghost views = views_of(transfers@);
            let mut i: usize = 0;
            while i < transfers.len()
                invariant
                    i <= transfers.len(),
                    views == views_of(transfers@),
                    out@ == start + transfers_bytes(views.subrange(0, i as int)),
                decreases transfers.len() - i,
            {
                write_transfer(out, &transfers[i]);
                proof {
                    let upto = views.subrange(0, i + 1);
                    assert(upto.drop_last() =~= views.subrange(0, i as int));
                    assert(upto.last() == transfers@[i as int]@);
                    assert(out@ =~= start + transfers_bytes(upto));
                }
                i = i + 1;
            }
            assert(views.subrange(0, i as int) =~= views);
            assert(out@ =~= old(out)@ + type_bytes(transaction_type@));
        },
    }
}

/// The bytes of a transaction that are signed.
pub fn serialize_body(transaction_type: &TransactionType, nonce: u64) -> (bytes: Vec<u8>)
    ensures
        bytes@ == body_bytes(transaction_type@, nonce),
{
    let mut out: Vec<u8> = Vec::new();
    write_type(&mut out, transaction_type);
    put_u64(&mut out, nonce);
    assert(out@ =~= body_bytes(transaction_type@, nonce));
    out
}

/// A signed transaction.
#[derive(Debug)]
pub struct Transaction {
    transaction_type: TransactionType,
    nonce: u64,
    signature: Signature,
}

/// A transaction as a mathematical value.
pub struct TransactionView {
    pub transaction_type: TransactionTypeView,
    pub nonce: u64,
    pub signature: Seq<u8>,
}

impl View for Transaction {
    type V = TransactionView;

    closed spec fn view(&self) -> TransactionView {
        TransactionView {
            transaction_type: self.transaction_type@,
            nonce: self.nonce,
            signature: self.signature@,
        }
    }
}

impl TransactionView {
    /// The bytes of the transaction.
    pub open spec fn bytes(self) -> Seq<u8> {
        transaction_bytes(self.transaction_type, self.nonce, self.signature)
    }

    /// The hash that names the transaction: the digest of its bytes.
    pub open spec fn hash(self) -> Seq<u8> {
        keccak256(self.bytes())
    }
}

impl Transaction {
    /// Puts a transaction together from its parts.
    pub fn new(transaction_type: TransactionType, nonce: u64, signature: Signature) -> (tx:
        Transaction)
        ensures
            tx@ == (TransactionView {
                transaction_type: transaction_type@,
                nonce,
                signature: signature@,
            }),
    {
        Transaction { transaction_type, nonce, signature }
    }

    /// What the transaction does.
    pub fn transaction_type(&self) -> (transaction_type: &TransactionType)
        ensures
            transaction_type@ == self@.transaction_type,
    {
        &self.transaction_type
    }

    /// The nonce that the transaction was given.
    pub fn nonce(&self) -> (nonce: u64)
        ensures
            nonce == self@.nonce,
    {
        self.nonce
    }

    /// The signature over the body.
    pub fn signature(&self) -> (signature: Signature)
        ensures
            signature@ == self@.signature,
    {
        self.signature
    }

    /// The bytes of the transaction: body, then signature.
    pub fn to_bytes(&self) -> (bytes: Vec<u8>)
        ensures
            bytes@ == self@.bytes(),
    {
        let mut out = serialize_body(&self.transaction_type, self.nonce);
        put_bytes(&mut out, self.signature.as_bytes().as_slice());
        out
    }

    /// The hash that names the transaction. It depends on the type, the
    /// nonce and the signature alone.
    pub fn hash(&self) -> (h: Hash256)
        ensures
            h@ == self@.hash(),
    {
        let bytes = self.to_bytes();
        hash(bytes.as_slice())
    }
}

} // verus!
