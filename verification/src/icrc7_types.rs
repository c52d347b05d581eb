//! Arguments, results and log entries of the modern ledger protocol.

use crate::account::{Account, Subaccount};
use crate::errors::{ApprovalError, BurnError, InsertTransactionError, MintError, TransferError};
use vstd::prelude::*;

verus! {

/// `candid::Nat`, an unsigned integer of any size, carried through unread.
#[verifier::external_type_specification]
#[verifier::external_body]
pub struct ExNat(candid::Nat);

/// `candid::Int`, a signed integer of any size, carried through unread.
#[verifier::external_type_specification]
#[verifier::external_body]
pub struct ExInt(candid::Int);

/// `candid::Nat::clone`, which `derive` wrote: the copy equals the number.
pub assume_specification[ <candid::Nat as Clone>::clone ](n: &candid::Nat) -> (r: candid::Nat)
    ensures
        r == *n,
;

/// `candid::Int::clone`, which `derive` wrote: the copy equals the number.
pub assume_specification[ <candid::Int as Clone>::clone ](n: &candid::Int) -> (r: candid::Int)
    ensures
        r == *n,
;

/// The characters of an optional text.
pub open spec fn opt_text(o: Option<String>) -> Option<Seq<char>> {
    match o {
        Some(s) => Some(s@),
        None => None,
    }
}

/// The bytes of an optional byte string.
pub open spec fn opt_bytes(o: Option<Vec<u8>>) -> Option<Seq<u8>> {
    match o {
        Some(v) => Some(v@),
        None => None,
    }
}

/// Copies a byte string.
pub fn copy_bytes(v: &Vec<u8>) -> (r: Vec<u8>)
    ensures
        r@ == v@,
{
    let r = v.clone();
    assert(r@ =~= v@);
    r
}

/// Copies an optional byte string.
pub fn copy_opt_bytes(o: &Option<Vec<u8>>) -> (r: Option<Vec<u8>>)
    ensures
        opt_bytes(r) == opt_bytes(*o),
{
    match o {
        Some(v) => Some(copy_bytes(v)),
        None => None,
    }
}

/// Copies an optional text.
pub fn copy_opt_text(o: &Option<String>) -> (r: Option<String>)
    ensures
        opt_text(r) == opt_text(*o),
        r == *o,
{
    match o {
        Some(s) => Some(s.clone()),
        None => None,
    }
}

/// A value of a metadata entry.
#[derive(Debug, PartialEq, Eq)]
pub enum MetadataValue {
    Nat(candid::Nat),
    Int(candid::Int),
    Text(String),
    Blob(Vec<u8>),
}

#[verifier::ext_equal]
pub enum MetadataValueView {
    Nat(candid::Nat),
    Int(candid::Int),
    Text(Seq<char>),
    Blob(Seq<u8>),
}

impl View for MetadataValue {
    type V = MetadataValueView;

    open spec fn view(&self) -> MetadataValueView {
        match *self {
            MetadataValue::Nat(n) => MetadataValueView::Nat(n),
            MetadataValue::Int(n) => MetadataValueView::Int(n),
            MetadataValue::Text(s) => MetadataValueView::Text(s@),
            MetadataValue::Blob(b) => MetadataValueView::Blob(b@),
        }
    }
}

impl DeepView for MetadataValue {
    type V = MetadataValueView;

    open spec fn deep_view(&self) -> MetadataValueView {
        self@
    }
}

impl Clone for MetadataValue {
    fn clone(&self) -> (r: MetadataValue)
        ensures
            r@ == self@,
    {
        match self {
            MetadataValue::Nat(n) => MetadataValue::Nat(n.clone()),
            MetadataValue::Int(n) => MetadataValue::Int(n.clone()),
            MetadataValue::Text(s) => MetadataValue::Text(s.clone()),
            MetadataValue::Blob(b) => MetadataValue::Blob(copy_bytes(b)),
        }
    }
}

/// The metadata of one token: entries in a fixed order, each key once.
pub type Icrc7TokenMetadata = Vec<(String, MetadataValue)>;

/// The view of a list of metadata entries.
pub open spec fn metadata_view(m: Seq<(String, MetadataValue)>) -> Seq<
    (Seq<char>, MetadataValueView),
> {
    Seq::new(m.len(), |i: int| (m[i].0@, m[i].1@))
}

/// A standard that a ledger supports.
#[derive(Debug, PartialEq, Eq)]
pub struct Standard {
    pub name: String,
    pub url: String,
}

#[derive(Debug, PartialEq, Eq)]
pub struct TransferArg {
    pub from_subaccount: Option<Subaccount>,
    pub to: Account,
    pub token_id: u128,
    pub memo: Option<Vec<u8>>,
    pub created_at_time: Option<u64>,
}

#[verifier::ext_equal]
pub struct TransferArgView {
    pub from_subaccount: Option<Subaccount>,
    pub to: Account,
    pub token_id: u128,
    pub memo: Option<Seq<u8>>,
    pub created_at_time: Option<u64>,
}

impl View for TransferArg {
    type V = TransferArgView;

    open spec fn view(&self) -> TransferArgView {
        TransferArgView {
            from_subaccount: self.from_subaccount,
            to: self.to,
            token_id: self.token_id,
            memo: opt_bytes(self.memo),
            created_at_time: self.created_at_time,
        }
    }
}

impl DeepView for TransferArg {
    type V = TransferArgView;

    open spec fn deep_view(&self) -> TransferArgView {
        self@
    }
}

impl Clone for TransferArg {
    fn clone(&self) -> (r: TransferArg)
        ensures
            r@ == self@,
    {
        TransferArg {
            from_subaccount: self.from_subaccount,
            to: self.to,
            token_id: self.token_id,
            memo: copy_opt_bytes(&self.memo),
            created_at_time: self.created_at_time,
        }
    }
}

#[derive(Debug, PartialEq, Eq)]
pub struct MintArg {
    pub from_subaccount: Option<Subaccount>,
    pub to: Account,
    pub token_id: u128,
    pub memo: Option<Vec<u8>>,
    /// Where absent, the ledger's symbol, a space and the token id.
    pub token_name: Option<String>,
    pub token_description: Option<String>,
    pub token_logo: Option<String>,
}

#[verifier::ext_equal]
pub struct MintArgView {
    pub from_subaccount: Option<Subaccount>,
    pub to: Account,
    pub token_id: u128,
    pub memo: Option<Seq<u8>>,
    pub token_name: Option<Seq<char>>,
    pub token_description: Option<Seq<char>>,
    pub token_logo: Option<Seq<char>>,
}

impl View for MintArg {
    type V = MintArgView;

    open spec fn view(&self) -> MintArgView {
        MintArgView {
            from_subaccount: self.from_subaccount,
            to: self.to,
            token_id: self.token_id,
            memo: opt_bytes(self.memo),
            token_name: opt_text(self.token_name),
            token_description: opt_text(self.token_description),
            token_logo: opt_text(self.token_logo),
        }
    }
}

impl Clone for MintArg {
    fn clone(&self) -> (r: MintArg)
        ensures
            r@ == self@,
    {
        MintArg {
            from_subaccount: self.from_subaccount,
            to: self.to,
            token_id: self.token_id,
            memo: copy_opt_bytes(&self.memo),
            token_name: copy_opt_text(&self.token_name),
            token_description: copy_opt_text(&self.token_description),
            token_logo: copy_opt_text(&self.token_logo),
        }
    }
}

#[derive(Debug, PartialEq, Eq)]
pub struct BurnArg {
    pub from_subaccount: Option<Subaccount>,
    pub token_id: u128,
    pub memo: Option<Vec<u8>>,
}

#[verifier::ext_equal]
pub struct BurnArgView {
    pub from_subaccount: Option<Subaccount>,
    pub token_id: u128,
    pub memo: Option<Seq<u8>>,
}

impl View for BurnArg {
    type V = BurnArgView;

    open spec fn view(&self) -> BurnArgView {
        BurnArgView {
            from_subaccount: self.from_subaccount,
            token_id: self.token_id,
            memo: opt_bytes(self.memo),
        }
    }
}

impl DeepView for BurnArg {
    type V = BurnArgView;

    open spec fn deep_view(&self) -> BurnArgView {
        self@
    }
}

impl Clone for BurnArg {
    fn clone(&self) -> (r: BurnArg)
        ensures
            r@ == self@,
    {
        BurnArg {
            from_subaccount: self.from_subaccount,
            token_id: self.token_id,
            memo: copy_opt_bytes(&self.memo),
        }
    }
}

#[derive(Debug, PartialEq, Eq)]
pub struct ApprovalArg {
    pub from_subaccount: Option<Subaccount>,
    pub spender: Account,
    pub token_id: u128,
    pub expires_at: Option<u64>,
    pub memo: Option<Vec<u8>>,
}

#[verifier::ext_equal]
pub struct ApprovalArgView {
    pub from_subaccount: Option<Subaccount>,
    pub spender: Account,
    pub token_id: u128,
    pub expires_at: Option<u64>,
    pub memo: Option<Seq<u8>>,
}

impl View for ApprovalArg {
    type V = ApprovalArgView;

    open spec fn view(&self) -> ApprovalArgView {
        ApprovalArgView {
            from_subaccount: self.from_subaccount,
            spender: self.spender,
            token_id: self.token_id,
            expires_at: self.expires_at,
            memo: opt_bytes(self.memo),
        }
    }
}

impl DeepView for ApprovalArg {
    type V = ApprovalArgView;

    open spec fn deep_view(&self) -> ApprovalArgView {
        self@
    }
}

impl Clone for ApprovalArg {
    fn clone(&self) -> (r: ApprovalArg)
        ensures
            r@ == self@,
    {
        ApprovalArg {
            from_subaccount: self.from_subaccount,
            spender: self.spender,
            token_id: self.token_id,
            expires_at: self.expires_at,
            memo: copy_opt_bytes(&self.memo),
        }
    }
}

/// A permission to transfer a token, given by its owner to a spender.
#[derive(Clone, Copy, Debug, PartialEq, Eq)]
pub struct Approval {
    pub account: Account,
    pub expires_at: Option<u64>,
}

/// What a log entry records, with the token and the two accounts concerned.
#[derive(Clone, Copy, Debug, PartialEq, Eq)]
pub enum TransactionType {
    Transfer { tid: u128, from: Account, to: Account },
    Mint { tid: u128, from: Account, to: Account },
    Burn { tid: u128, from: Account, to: Account },
    Approval { tid: u128, from: Account, to: Account },
}

/// An entry of the transaction log.
#[derive(Debug, PartialEq, Eq)]
pub struct Transaction {
    pub txn_id: u128,
    pub txn_type: TransactionType,
    pub at: u64,
    pub memo: Option<Vec<u8>>,
}

#[verifier::ext_equal]
pub struct TransactionView {
    pub txn_id: u128,
    pub txn_type: TransactionType,
    pub at: u64,
    pub memo: Option<Seq<u8>>,
}

impl View for Transaction {
    type V = TransactionView;

    open spec fn view(&self) -> TransactionView {
        TransactionView {
            txn_id: self.txn_id,
            txn_type: self.txn_type,
            at: self.at,
            memo: opt_bytes(self.memo),
        }
    }
}

impl DeepView for Transaction {
    type V = TransactionView;

    open spec fn deep_view(&self) -> TransactionView {
        self@
    }
}

impl Clone for Transaction {
    fn clone(&self) -> (r: Transaction)
        ensures
            r@ == self@,
    {
        Transaction {
            txn_id: self.txn_id,
            txn_type: self.txn_type,
            at: self.at,
            memo: copy_opt_bytes(&self.memo),
        }
    }
}

impl Transaction {
    pub fn new(txn_id: u128, txn_type: TransactionType, at: u64, memo: Option<Vec<u8>>) -> (r:
        Transaction)
        ensures
            r.txn_id == txn_id,
            r.txn_type == txn_type,
            r.at == at,
            r.memo == memo,
    {
        Transaction { txn_id, txn_type, at, memo }
    }
}

pub type TransferResult = Result<u128, TransferError>;

pub type MintResult = Result<u128, MintError>;

pub type BurnResult = Result<u128, BurnError>;

pub type ApproveResult = Result<u128, ApprovalError>;

pub type SyncReceipt = Result<u32, InsertTransactionError>;

/// The outcomes of a batch, each error by its view. An item is `None`
/// where nothing was written for it.
pub open spec fn outcomes<E: View>(v: Seq<Option<Result<u128, E>>>) -> Seq<
    Option<Result<u128, E::V>>,
> {
    Seq::new(v.len(), |i: int| outcome(v[i]))
}

/// One outcome of a batch, the error by its view.
pub open spec fn outcome<E: View>(o: Option<Result<u128, E>>) -> Option<Result<u128, E::V>> {
    match o {
        None => None,
        Some(Ok(id)) => Some(Ok(id)),
        Some(Err(e)) => Some(Err(e@)),
    }
}

} // verus!
