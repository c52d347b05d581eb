//! Moving the oldest log entries to an archive service, and the ledger's
//! administrative settings. An archival is in two parts, with the call to
//! the archive between them; while one is under way no other starts.

use crate::account::Account;
use crate::errors::InsertTransactionError;
use crate::icrc7_types::{SyncReceipt, Transaction, TransactionView};
use crate::identity::Principal;
use crate::queries::{log_page, without_ids};
use crate::state::{log_view, State, StateView};
use vstd::prelude::*;

verus! {

/// How many log entries one archival moves at most.
pub const ARCHIVE_BATCH: usize = 200;

/// What is to be sent to the archive.
#[derive(Debug)]
pub struct ArchiveRequest {
    /// The identity of the archive service.
    pub target: Principal,
    /// The entries to insert there.
    pub logs: Vec<Transaction>,
    /// Their ids.
    pub ids: Vec<u128>,
}

/// The ids of log entries.
pub open spec fn ids_of(log: Seq<TransactionView>) -> Seq<u128> {
    Seq::new(log.len(), |i: int| log[i].txn_id)
}

/// The entries that an archival takes: the oldest 200, or all where there
/// are fewer.
pub open spec fn archive_batch(s: StateView) -> Seq<TransactionView> {
    log_page(s.txn_log, 0, ARCHIVE_BATCH as int)
}

/// The guard on administrative operations: only a controller of the
/// service may call them.
pub fn owner_guard(caller_is_controller: bool) -> (r: Result<(), String>)
    ensures
        r is Ok <==> caller_is_controller,
        r is Err ==> r->Err_0@ == "Caller is not a controller."@,
{
    if caller_is_controller {
        Ok(())
    } else {
        Err("Caller is not a controller.".to_string())
    }
}

/// Makes an account, in its canonical form, the minting authority.
pub fn icrc7_set_minting_authority(state: &mut State, minting_account: Account) -> (r: bool)
    ensures
        r,
        final(state)@ == (StateView {
            minting_authority: Some(minting_account.canonical()),
            ..old(state)@
        }),
{
    state.minting_authority = Some(crate::account::account_transformer(minting_account));
    true
}

/// Makes a service the archive of the log.
pub fn icrc7_set_archive_log_canister(state: &mut State, arg: Principal) -> (r: bool)
    ensures
        r,
        final(state)@ == (StateView { archive_log_canister: Some(arg), ..old(state)@ }),
{
    state.archive_log_canister = Some(arg);
    true
}

/// Starts an archival. Without an archive there is nothing to start; while
/// an archival is under way no other starts. Otherwise the oldest entries
/// are picked, their ids are noted as under way, and they are handed out to
/// be sent to the archive.
pub fn begin_archive(state: &mut State) -> (r: Result<ArchiveRequest, InsertTransactionError>)
    ensures
        old(state)@.archive_log_canister is None ==> r == Err::<
            ArchiveRequest,
            InsertTransactionError,
        >(InsertTransactionError::NotSetArchiveCanister) && final(state)@ == old(state)@,
        old(state)@.archive_log_canister is Some && old(state)@.sync_pending_txn_ids is Some ==> r
            == Err::<ArchiveRequest, InsertTransactionError>(InsertTransactionError::SyncPending)
            && final(state)@ == old(state)@,
        old(state)@.archive_log_canister is Some && old(state)@.sync_pending_txn_ids is None ==> {
            &&& r is Ok
            &&& r->Ok_0.target == old(state)@.archive_log_canister->0
            &&& log_view(r->Ok_0.logs@) == archive_batch(old(state)@)
            &&& r->Ok_0.ids@ == ids_of(archive_batch(old(state)@))
            &&& final(state)@ == (StateView {
                sync_pending_txn_ids: Some(ids_of(archive_batch(old(state)@))),
                ..old(state)@
            })
        },
{
    let target = match state.get_archive_log_canister() {
        Some(p) => p,
        None => {
            return Err(InsertTransactionError::NotSetArchiveCanister);
        },
    };
    if state.sync_pending_txn_ids.is_some() {
        return Err(InsertTransactionError::SyncPending);
    }
    let logs = state.get_txn_logs(ARCHIVE_BATCH);
    let mut ids: Vec<u128> = Vec::new();
    let mut pending: Vec<u128> = Vec::new();
    let mut i: usize = 0;
    while i < logs.len()
        invariant
            i <= logs@.len(),
            ids@.len() == i,
            pending@ == ids@,
            forall|j: int| 0 <= j < i ==> ids@[j] == logs@[j].txn_id,
        decreases logs@.len() - i,
    {
        ids.push(logs[i].txn_id);
        pending.push(logs[i].txn_id);
        i += 1;
    }
    assert(ids@ =~= ids_of(log_view(logs@)));
    state.set_sync_pending_txn_ids(Some(pending));
    Ok(ArchiveRequest { target, logs, ids })
}

/// What the end of an archival does to the state, and its receipt. Entries
/// that the archive took leave the log and are counted; entries that it did
/// not take stay, so that the archival can be tried again. Either way
/// nothing is under way any more.
pub open spec fn archive_finished(s: StateView, ids: Seq<u128>, delivered: bool) -> (
    StateView,
    Result<u32, InsertTransactionError>,
) {
    if delivered {
        (
            StateView {
                txn_log: without_ids(s.txn_log, ids),
                sync_pending_txn_ids: None,
                archive_txn_count: (s.archive_txn_count + ids.len()) as u128,
                ..s
            },
            Ok(ids.len() as u32),
        )
    } else {
        (StateView { sync_pending_txn_ids: None, ..s }, Err(InsertTransactionError::RemoteError))
    }
}

/// Ends an archival, given whether the archive took the entries.
pub fn finish_archive(state: &mut State, txn_ids: &Vec<u128>, delivered: bool) -> (r: SyncReceipt)
    requires
        delivered ==> txn_ids@.len() <= u32::MAX && old(state).archive_txn_count + txn_ids@.len()
            <= u128::MAX,
    ensures
        (final(state)@, r) == archive_finished(old(state)@, txn_ids@, delivered),
{
    if delivered {
        state.remove_txn_logs(txn_ids);
        Ok(txn_ids.len() as u32)
    } else {
        state.set_sync_pending_txn_ids(None);
        Err(InsertTransactionError::RemoteError)
    }
}

/// The receipt of a call to the archive: the number of entries sent where
/// the call went through, else a remote error.
pub fn sync_receipt(sent: usize, delivered: bool) -> (r: SyncReceipt)
    requires
        delivered ==> sent <= u32::MAX,
    ensures
        r == if delivered {
            Ok::<u32, InsertTransactionError>(sent as u32)
        } else {
            Err::<u32, InsertTransactionError>(InsertTransactionError::RemoteError)
        },
{
    if delivered {
        Ok(sent as u32)
    } else {
        Err(InsertTransactionError::RemoteError)
    }
}

} // verus!
