//! Transfers: each item of a batch is checked against the state as it was,
//! then the items that passed are applied in their order.

use crate::account::{account_transformer, Account};
use crate::errors::{TransferError, TransferErrorView};
use crate::icrc7_types::{
    copy_opt_bytes, opt_bytes, outcome, outcomes, TransactionType, TransactionView, TransferArg,
    TransferArgView, TransferResult,
};
use crate::identity::{anonymous_bytes, Principal};
use crate::state::{
    memo_exceeds, memo_too_long, State, StateView, DEFAULT_MAX_MEMO_SIZE,
    DEFAULT_MAX_UPDATE_BATCH_SIZE, DEFAULT_PERMITTED_DRIFT, DEFAULT_TX_WINDOW,
};
use crate::token::{
    has_live_approval, has_token, lemma_put, lookup, ordered, put, transferred, };
use vstd::prelude::*;

verus! {

/// The views of the arguments of a batch.
pub open spec fn transfer_args(args: Seq<TransferArg>) -> Seq<TransferArgView> {
    Seq::new(args.len(), |i: int| args[i]@)
}

/// Whether a log entry records the very transfer that is asked for: the same
/// token, sender, recipient, memo and timestamp.
pub open spec fn is_same_transfer(t: TransactionView, caller: Account, arg: TransferArgView)
    -> bool {
    match t.txn_type {
        TransactionType::Transfer { tid, from, to } => tid == arg.token_id && caller.same_as(&from)
            && arg.to.same_as(&to) && arg.memo == t.memo && arg.created_at_time == Some(t.at),
        _ => false,
    }
}

/// The earliest timestamp that is not too old: the current time less the
/// window and the drift.
pub open spec fn earliest_accepted(s: StateView, now: u64) -> int {
    now - s.window() - s.drift()
}

/// The latest timestamp that is not in the future: the current time plus
/// the drift.
pub open spec fn latest_accepted(s: StateView, now: u64) -> int {
    now + s.drift()
}

/// Scans the first `n` log entries from the newest back, as long as they
/// are not older than `cutoff`, for one that records the same transfer.
pub open spec fn find_duplicate(
    log: Seq<TransactionView>,
    n: int,
    cutoff: int,
    caller: Account,
    arg: TransferArgView,
) -> Option<u128>
    decreases n,
{
    if n <= 0 {
        None
    } else if log[n - 1].at < cutoff {
        None
    } else if is_same_transfer(log[n - 1], caller, arg) {
        Some(log[n - 1].txn_id)
    } else {
        find_duplicate(log, n - 1, cutoff, caller, arg)
    }
}

/// Why a transfer is refused, once its timestamp has been accepted; `None`
/// where it is accepted.
pub open spec fn ownership_fault(s: StateView, now: u64, caller: Account, arg: TransferArgView)
    -> Option<TransferErrorView> {
    if !has_token(s.tokens, arg.token_id) {
        Some(TransferErrorView::NonExistingTokenId)
    } else if memo_too_long(arg.memo, s.memo_limit()) {
        Some(TransferErrorView::GenericError { error_code: 3, message: "Exceeds Max Memo Size"@ })
    } else if arg.to.same_as(&caller) {
        Some(TransferErrorView::InvalidRecipient)
    } else {
        let token = lookup(s.tokens, arg.token_id)->0;
        if !token.token_owner.same_as(&caller) && !has_live_approval(
            token.approvals,
            now,
            caller,
        ) {
            Some(TransferErrorView::Unauthorized)
        } else {
            None
        }
    }
}

/// Why a transfer is refused; `None` where it is accepted. A timestamp, where
/// one is given, is checked first: against the window, then against the log.
pub open spec fn transfer_fault(s: StateView, now: u64, caller: Account, arg: TransferArgView)
    -> Option<TransferErrorView> {
    match arg.created_at_time {
        Some(time) => {
            if time < earliest_accepted(s, now) {
                Some(TransferErrorView::TooOld)
            } else if time > latest_accepted(s, now) {
                Some(TransferErrorView::CreatedInFuture { ledger_time: now })
            } else {
                match find_duplicate(
                    s.txn_log,
                    s.txn_log.len() as int,
                    earliest_accepted(s, now),
                    caller,
                    arg,
                ) {
                    Some(id) => Some(TransferErrorView::Duplicate { duplicate_of: id }),
                    None => ownership_fault(s, now, caller, arg),
                }
            }
        },
        None => ownership_fault(s, now, caller, arg),
    }
}

/// The account that a caller acts from in one item of a batch.
pub open spec fn acting_account(caller: Principal, from_subaccount: Option<[u8; 32]>) -> Account {
    (Account { owner: caller, subaccount: from_subaccount }).canonical()
}

/// An item as it is checked and applied: with its recipient in canonical form.
pub open spec fn canonical_arg(arg: TransferArgView) -> TransferArgView {
    TransferArgView { to: arg.to.canonical(), ..arg }
}

/// The state after an accepted transfer was applied: the token has its new
/// owner and no approvals, and the log has one more entry.
pub open spec fn apply_transfer(s: StateView, from: Account, arg: TransferArgView, now: u64)
    -> StateView {
    let token = lookup(s.tokens, arg.token_id)->0;
    let at = match arg.created_at_time {
        Some(t) => t,
        None => now,
    };
    (StateView { tokens: put(s.tokens, transferred(token, arg.to)), ..s }).logged(
        TransactionType::Transfer { tid: arg.token_id, from, to: arg.to },
        at,
        arg.memo,
    )
}

/// The fault of each item of a batch, each judged against the same state.
pub open spec fn transfer_faults(
    s: StateView,
    now: u64,
    caller: Principal,
    args: Seq<TransferArgView>,
) -> Seq<Option<TransferErrorView>> {
    Seq::new(
        args.len(),
        |i: int|
            transfer_fault(
                s,
                now,
                acting_account(caller, args[i].from_subaccount),
                canonical_arg(args[i]),
            ),
    )
}

/// The outcomes of a batch of which nothing was applied: the fault of each
/// item that has one.
pub open spec fn unapplied<E>(faults: Seq<Option<E>>) -> Seq<Option<Result<u128, E>>> {
    Seq::new(
        faults.len(),
        |i: int|
            match faults[i] {
                Some(e) => Some(Err(e)),
                None => None,
            },
    )
}

/// Whether some item of a batch has a fault.
pub open spec fn any_fault<E>(faults: Seq<Option<E>>) -> bool {
    exists|i: int| 0 <= i < faults.len() && (#[trigger] faults[i]) is Some
}

/// The state and the outcomes after the first `k` items of a batch were gone
/// through: those without a fault were applied, in their order.
pub open spec fn transfers_applied(
    s: StateView,
    now: u64,
    caller: Principal,
    args: Seq<TransferArgView>,
    faults: Seq<Option<TransferErrorView>>,
    k: nat,
) -> (StateView, Seq<Option<Result<u128, TransferErrorView>>>)
    decreases k,
{
    if k == 0 {
        (s, unapplied(faults))
    } else {
        let (before, results) = transfers_applied(s, now, caller, args, faults, (k - 1) as nat);
        if faults[k - 1] is Some {
            (before, results)
        } else {
            (
                apply_transfer(
                    before,
                    acting_account(caller, args[k - 1].from_subaccount),
                    canonical_arg(args[k - 1]),
                    now,
                ),
                results.update(k - 1, Some(Ok(before.next_txn_id()))),
            )
        }
    }
}

/// The outcomes of a batch that is refused as a whole: the reason at the
/// first item, nothing at the others.
pub open spec fn batch_refused<E>(n: nat, reason: E) -> Seq<Option<Result<u128, E>>> {
    Seq::new(
        n,
        |i: int|
            if i == 0 {
                Some(Err(reason))
            } else {
                None
            },
    )
}

/// The largest batch that is taken: the configured update batch size, else
/// the default.
pub open spec fn batch_limit(s: StateView) -> u128 {
    match s.icrc7_max_update_batch_size {
        Some(n) => n,
        None => DEFAULT_MAX_UPDATE_BATCH_SIZE,
    }
}

/// What a batch of transfers does to the state, and its outcomes.
pub open spec fn transfer_batch(
    s: StateView,
    caller: Principal,
    args: Seq<TransferArgView>,
    now: u64,
) -> (StateView, Seq<Option<Result<u128, TransferErrorView>>>) {
    if args.len() == 0 {
        (
            s,
            seq![
                Some(
                    Err(
                        TransferErrorView::GenericBatchError {
                            error_code: 1,
                            message: "No Arguments Provided"@,
                        },
                    ),
                ),
            ],
        )
    } else if args.len() > batch_limit(s) {
        (
            s,
            batch_refused(
                args.len(),
                TransferErrorView::GenericBatchError {
                    error_code: 2,
                    message: "Exceed Max allowed Update Batch Size"@,
                },
            ),
        )
    } else if caller@ == anonymous_bytes() {
        (
            s,
            batch_refused(
                args.len(),
                TransferErrorView::GenericBatchError {
                    error_code: 100,
                    message: "Anonymous Identity"@,
                },
            ),
        )
    } else {
        let faults = transfer_faults(s, now, caller, args);
        if s.atomic() && any_fault(faults) {
            (s, unapplied(faults))
        } else {
            transfers_applied(s, now, caller, args, faults, args.len())
        }
    }
}

/// How many of the first `k` items of a batch have no fault.
pub open spec fn passed<E>(faults: Seq<Option<E>>, k: nat) -> nat
    decreases k,
{
    if k == 0 {
        0
    } else {
        passed(faults, (k - 1) as nat) + if faults[k - 1] is None {
            1nat
        } else {
            0nat
        }
    }
}

/// The count of items without a fault grows with the items counted.
pub proof fn lemma_passed_grows<E>(faults: Seq<Option<E>>, k: nat, n: nat)
    requires
        k <= n,
    ensures
        passed(faults, k) <= passed(faults, n) <= passed(faults, k) + (n - k),
    decreases n,
{
    if k < n {
        lemma_passed_grows(faults, k, (n - 1) as nat);
    }
}

/// How many log entries a batch of transfers adds: none where the batch is
/// refused as a whole or not applied, else one for every item that passed.
pub open spec fn transfers_logged(
    s: StateView,
    caller: Principal,
    args: Seq<TransferArgView>,
    now: u64,
) -> nat {
    if args.len() == 0 || args.len() > batch_limit(s) || caller@ == anonymous_bytes() {
        0
    } else {
        let faults = transfer_faults(s, now, caller, args);
        if s.atomic() && any_fault(faults) {
            0
        } else {
            passed(faults, args.len())
        }
    }
}

/// Going through a batch changes neither which tokens exist nor the
/// settings. Every item that passed gets the next transaction id: the count
/// before the batch plus the number of items that passed up to it.
pub proof fn lemma_transfers_applied(
    s: StateView,
    now: u64,
    caller: Principal,
    args: Seq<TransferArgView>,
    faults: Seq<Option<TransferErrorView>>,
    k: nat,
)
    requires
        ordered(s.tokens),
        faults == transfer_faults(s, now, caller, args),
        k <= args.len(),
        s.txn_count + passed(faults, k) <= u128::MAX,
    ensures
        ({
            let (after, results) = transfers_applied(s, now, caller, args, faults, k);
            &&& ordered(after.tokens)
            &&& forall|id: u128| has_token(after.tokens, id) == has_token(s.tokens, id)
            &&& after.tokens.len() == s.tokens.len()
            &&& after.txn_count == s.txn_count + passed(faults, k)
            &&& after.txn_log.len() == s.txn_log.len() + passed(faults, k)
            &&& results.len() == args.len()
            &&& forall|i: int|
                0 <= i < k && faults[i] is None ==> (#[trigger] results[i]) == Some(
                    Ok::<u128, TransferErrorView>(
                        (s.txn_count + passed(faults, (i + 1) as nat)) as u128,
                    ),
                )
            &&& forall|i: int|
                0 <= i < args.len() && faults[i] is Some ==> (#[trigger] results[i]) == Some(
                    Err::<u128, TransferErrorView>(faults[i]->0),
                )
            &&& after == (StateView {
                tokens: after.tokens,
                txn_log: after.txn_log,
                txn_count: after.txn_count,
                ..s
            })
        }),
    decreases k,
{
    if k > 0 {
        lemma_transfers_applied(s, now, caller, args, faults, (k - 1) as nat);
        let (before, results) = transfers_applied(s, now, caller, args, faults, (k - 1) as nat);
        if faults[k - 1] is None {
            let arg = canonical_arg(args[k - 1]);
            let token = lookup(before.tokens, arg.token_id)->0;
            assert(has_token(s.tokens, arg.token_id));
            lemma_put(before.tokens, transferred(token, arg.to));
            let after = transfers_applied(s, now, caller, args, faults, k).0;
            assert forall|id: u128| has_token(after.tokens, id) == has_token(s.tokens, id) by {
                if id != arg.token_id {
                    assert(lookup(after.tokens, id) == lookup(before.tokens, id));
                }
            }
        }
    }
}

impl State {
    /// Looks in the log, from the newest entry back, for an entry that records
    /// the same transfer; entries older than `allowed_past_time` and all
    /// before them are not looked at.
    pub fn txn_deduplication_check(
        &self,
        allowed_past_time: u64,
        caller: &Account,
        arg: &TransferArg,
    ) -> (r: Result<(), TransferError>)
        ensures
            match find_duplicate(
                self@.txn_log,
                self@.txn_log.len() as int,
                allowed_past_time as int,
                *caller,
                arg@,
            ) {
                Some(id) => r is Err && r->Err_0@ == (TransferErrorView::Duplicate {
                    duplicate_of: id,
                }),
                None => r is Ok,
            },
    {
        let mut count: usize = self.txn_log.len();
        while count != 0
            invariant
                count <= self.txn_log@.len(),
                self@.txn_log.len() == self.txn_log@.len(),
                find_duplicate(
                    self@.txn_log,
                    self@.txn_log.len() as int,
                    allowed_past_time as int,
                    *caller,
                    arg@,
                ) == find_duplicate(
                    self@.txn_log,
                    count as int,
                    allowed_past_time as int,
                    *caller,
                    arg@,
                ),
            decreases count,
        {
            let txn = &self.txn_log[count - 1];
            assert(self@.txn_log[count - 1] == txn@);
            if txn.at < allowed_past_time {
                return Ok(());
            }
            let same = match txn.txn_type {
                TransactionType::Transfer { tid, from, to } => {
                    arg.token_id == tid && *caller == from && arg.to == to && same_memo(
                        &arg.memo,
                        &txn.memo,
                    ) && same_moment(arg.created_at_time, txn.at)
                },
                _ => false,
            };
            if same {
                return Err(TransferError::Duplicate { duplicate_of: txn.txn_id });
            }
            count -= 1;
        }
        Ok(())
    }

    /// Checks one transfer against the state, without changing anything.
    pub fn mock_transfer(&self, current_time: u64, caller: &Account, arg: &TransferArg) -> (r:
        Result<(), TransferError>)
        ensures
            match transfer_fault(self@, current_time, *caller, arg@) {
                Some(e) => r is Err && r->Err_0@ == e,
                None => r is Ok,
            },
    {
        let window: u64 = match self.tx_window {
            Some(n) => n,
            None => DEFAULT_TX_WINDOW,
        };
        let drift: u64 = match self.permitted_drift {
            Some(n) => n,
            None => DEFAULT_PERMITTED_DRIFT,
        };
        if let Some(time) = arg.created_at_time {
            let span: u128 = window as u128 + drift as u128;
            if (time as u128) + span < current_time as u128 {
                return Err(TransferError::TooOld);
            }
            if time as u128 > current_time as u128 + drift as u128 {
                return Err(TransferError::CreatedInFuture { ledger_time: current_time });
            }
            let allowed_past_time: u64 = if current_time as u128 >= span {
                (current_time as u128 - span) as u64
            } else {
                0
            };
            proof {
                lemma_cutoff(
                    self@.txn_log,
                    self@.txn_log.len() as int,
                    earliest_accepted(self@, current_time),
                    *caller,
                    arg@,
                );
            }
            match self.txn_deduplication_check(allowed_past_time, caller, arg) {
                Err(e) => {
                    return Err(e);
                },
                Ok(()) => {},
            }
        }
        let token = match self.tokens.get(arg.token_id) {
            None => {
                return Err(TransferError::NonExistingTokenId);
            },
            Some(token) => token,
        };
        let max_memo_size: u128 = match self.icrc7_max_memo_size {
            Some(n) => n,
            None => DEFAULT_MAX_MEMO_SIZE,
        };
        if memo_exceeds(&arg.memo, max_memo_size) {
            return Err(
                TransferError::GenericError {
                    error_code: 3,
                    message: "Exceeds Max Memo Size".to_string(),
                },
            );
        }
        if arg.to == *caller {
            return Err(TransferError::InvalidRecipient);
        }
        if !(token.token_owner == *caller) && !token.approval_check(current_time, caller) {
            return Err(TransferError::Unauthorized);
        }
        Ok(())
    }

    /// Transfers a batch of tokens on behalf of `caller` at the time `now`.
    ///
    /// An empty batch, one above the limit and one from the anonymous
    /// identity are refused as a whole. Otherwise every item is checked
    /// against the state as it is; where batches are atomic and an item
    /// failed, nothing is applied; else each item that passed is applied.
    pub fn icrc7_transfer(&mut self, caller: &Principal, args: Vec<TransferArg>, now: u64) -> (r:
        Vec<Option<TransferResult>>)
        requires
            old(self).txn_count + transfers_logged(
                old(self)@,
                *caller,
                transfer_args(args@),
                now,
            ) <= u128::MAX,
        ensures
            (final(self)@, outcomes(r@)) == transfer_batch(
                old(self)@,
                *caller,
                transfer_args(args@),
                now,
            ),
            r@.len() == if args@.len() == 0 {
                1
            } else {
                args@.len()
            },
    {
        let ghost s0 = self@;
        let ghost views = transfer_args(args@);
        if args.len() == 0 {
            let mut results: Vec<Option<TransferResult>> = Vec::new();
            results.push(
                Some(
                    Err(
                        TransferError::GenericBatchError {
                            error_code: 1,
                            message: "No Arguments Provided".to_string(),
                        },
                    ),
                ),
            );
            assert(outcomes(results@) =~= transfer_batch(s0, *caller, views, now).1);
            return results;
        }
        let max_update_batch_size: u128 = match self.icrc7_max_update_batch_size {
            Some(n) => n,
            None => DEFAULT_MAX_UPDATE_BATCH_SIZE,
        };
        if args.len() as u128 > max_update_batch_size {
            let results = refuse_batch(
                args.len(),
                TransferError::GenericBatchError {
                    error_code: 2,
                    message: "Exceed Max allowed Update Batch Size".to_string(),
                },
            );
            return results;
        }
        if caller.is_anonymous() {
            let results = refuse_batch(
                args.len(),
                TransferError::GenericBatchError {
                    error_code: 100,
                    message: "Anonymous Identity".to_string(),
                },
            );
            return results;
        }
        let ghost faults = transfer_faults(s0, now, *caller, views);
        let mut canon: Vec<TransferArg> = Vec::new();
        let mut results: Vec<Option<TransferResult>> = Vec::new();
        let mut failed = false;
        let mut index: usize = 0;
        while index < args.len()
            invariant
                index <= args@.len(),
                self@ == s0,
                views == transfer_args(args@),
                faults == transfer_faults(s0, now, *caller, views),
                canon@.len() == index,
                results@.len() == index,
                forall|j: int| 0 <= j < index ==> (#[trigger] canon@[j])@ == canonical_arg(views[j]),
                forall|j: int|
                    0 <= j < index ==> outcome(#[trigger] results@[j]) == unapplied(faults)[j],
                failed <==> exists|j: int| 0 <= j < index && (#[trigger] faults[j]) is Some,
            decreases args@.len() - index,
        {
            let arg = &args[index];
            let caller_account = account_transformer(
                Account { owner: *caller, subaccount: arg.from_subaccount },
            );
            let item = TransferArg {
                from_subaccount: arg.from_subaccount,
                to: account_transformer(arg.to),
                token_id: arg.token_id,
                memo: copy_opt_bytes(&arg.memo),
                created_at_time: arg.created_at_time,
            };
            assert(item@ == canonical_arg(views[index as int]));
            assert(faults[index as int] == transfer_fault(
                s0,
                now,
                caller_account,
                canonical_arg(views[index as int]),
            ));
            match self.mock_transfer(now, &caller_account, &item) {
                Err(e) => {
                    results.push(Some(Err(e)));
                    failed = true;
                    assert(faults[index as int] is Some);
                },
                Ok(()) => {
                    results.push(None);
                    assert(faults[index as int] is None);
                },
            }
            canon.push(item);
            index += 1;
        }
        assert(outcomes(results@) =~= unapplied(faults));
        assert(failed == any_fault(faults));
        if failed {
            if let Some(true) = self.icrc7_atomic_batch_transfers {
                return results;
            }
        }
        let mut index: usize = 0;
        proof {
            use_type_invariant(&self.tokens);
        }
        while index < args.len()
            invariant
                index <= args@.len(),
                ordered(s0.tokens),
                s0.txn_count + passed(faults, args@.len()) <= u128::MAX,
                views == transfer_args(args@),
                faults == transfer_faults(s0, now, *caller, views),
                canon@.len() == args@.len(),
                results@.len() == args@.len(),
                forall|j: int|
                    0 <= j < args@.len() ==> (#[trigger] canon@[j])@ == canonical_arg(views[j]),
                (self@, outcomes(results@)) == transfers_applied(
                    s0,
                    now,
                    *caller,
                    views,
                    faults,
                    index as nat,
                ),
            decreases args@.len() - index,
        {
            proof {
                lemma_passed_grows(faults, index as nat, args@.len());
                lemma_passed_grows(faults, (index + 1) as nat, args@.len());
                lemma_transfers_applied(s0, now, *caller, views, faults, index as nat);
            }
            let ghost before = self@;
            let ghost before_results = outcomes(results@);
            let passed = results[index].is_none();
            assert(before_results[index as int] == outcome(results@[index as int]));
            assert(passed == (faults[index as int] is None)) by {
                lemma_outcome_kept(s0, now, *caller, views, faults, index as nat, index as int);
            }
            if passed {
                let item = &canon[index];
                let caller_account = account_transformer(
                    Account { owner: *caller, subaccount: item.from_subaccount },
                );
                let time: u64 = match item.created_at_time {
                    Some(t) => t,
                    None => now,
                };
                assert(has_token(s0.tokens, item.token_id));
                let mut token = match self.tokens.get(item.token_id) {
                    Some(token) => token.clone(),
                    None => {
                        index += 1;
                        continue ;
                    },
                };
                token.transfer(item.to);
                self.tokens.insert(token);
                let txn_id = self.log_transaction(
                    TransactionType::Transfer {
                        tid: item.token_id,
                        from: caller_account,
                        to: item.to,
                    },
                    time,
                    copy_opt_bytes(&item.memo),
                );
                results[index] = Some(Ok(txn_id));
                assert(self@ == apply_transfer(
                    before,
                    acting_account(*caller, views[index as int].from_subaccount),
                    canonical_arg(views[index as int]),
                    now,
                ));
                assert(outcomes(results@) =~= before_results.update(
                    index as int,
                    Some(Ok(before.next_txn_id())),
                ));
            }
            index += 1;
        }
        results
    }
}

/// Until the first `k` items were gone through, the outcome of a later item
/// is its fault.
pub proof fn lemma_outcome_kept(
    s: StateView,
    now: u64,
    caller: Principal,
    args: Seq<TransferArgView>,
    faults: Seq<Option<TransferErrorView>>,
    k: nat,
    j: int,
)
    requires
        k <= j < args.len(),
        faults.len() == args.len(),
    ensures
        transfers_applied(s, now, caller, args, faults, k).1.len() == args.len(),
        transfers_applied(s, now, caller, args, faults, k).1[j] == unapplied(faults)[j],
    decreases k,
{
    if k > 0 {
        lemma_outcome_kept(s, now, caller, args, faults, (k - 1) as nat, j);
        lemma_outcome_kept(s, now, caller, args, faults, (k - 1) as nat, k - 1);
    }
}

/// A cutoff below zero excludes no entry, as zero does.
pub proof fn lemma_cutoff(
    log: Seq<TransactionView>,
    n: int,
    cutoff: int,
    caller: Account,
    arg: TransferArgView,
)
    requires
        n <= log.len(),
    ensures
        find_duplicate(log, n, cutoff, caller, arg) == find_duplicate(
            log,
            n,
            if cutoff < 0 {
                0
            } else {
                cutoff
            },
            caller,
            arg,
        ),
    decreases n,
{
    if n > 0 {
        lemma_cutoff(log, n - 1, cutoff, caller, arg);
    }
}

/// Whether two optional memos hold the same bytes.
pub fn same_memo(a: &Option<Vec<u8>>, b: &Option<Vec<u8>>) -> (r: bool)
    ensures
        r == (opt_bytes(*a) == opt_bytes(*b)),
{
    match (a, b) {
        (None, None) => true,
        (Some(x), Some(y)) => {
            if x.len() != y.len() {
                return false;
            }
            let mut i: usize = 0;
            while i < x.len()
                invariant
                    i <= x@.len(),
                    x@.len() == y@.len(),
                    opt_bytes(*a) == Some(x@),
                    opt_bytes(*b) == Some(y@),
                    forall|j: int| 0 <= j < i ==> x@[j] == y@[j],
                decreases x@.len() - i,
            {
                if x[i] != y[i] {
                    return false;
                }
                i += 1;
            }
            assert(x@ =~= y@);
            true
        },
        _ => false,
    }
}

/// Whether a timestamp was given and is this moment.
pub fn same_moment(given: Option<u64>, at: u64) -> (r: bool)
    ensures
        r == (given == Some(at)),
{
    match given {
        Some(t) => t == at,
        None => false,
    }
}

/// The outcomes of a batch that is refused as a whole.
pub fn refuse_batch<E: View>(n: usize, reason: E) -> (r: Vec<Option<Result<u128, E>>>)
    requires
        n > 0,
    ensures
        outcomes(r@) == batch_refused(n as nat, reason@),
        r@.len() == n,
{
    let mut results: Vec<Option<Result<u128, E>>> = Vec::new();
    results.push(Some(Err(reason)));
    let mut i: usize = 1;
    while i < n
        invariant
            1 <= i <= n,
            results@.len() == i,
            outcome(results@[0]) == Some(Err::<u128, E::V>(reason@)),
            forall|j: int| 1 <= j < i ==> results@[j] is None,
        decreases n - i,
    {
        results.push(None);
        i += 1;
    }
    assert(outcomes(results@) =~= batch_refused(n as nat, reason@));
    results
}

} // verus!
