//! Burns: a burnt token stays in the store, owned by the reserved burn
//! account. Its approvals are left as they are.

use crate::account::{account_transformer, burn_account, burn_account_spec, Account};
use crate::errors::{BurnError, BurnErrorView};
use crate::icrc7_types::{
    copy_opt_bytes, outcome, outcomes, BurnArg, BurnArgView, BurnResult, TransactionType,
};
use crate::identity::{anonymous_bytes, Principal};
use crate::state::{memo_exceeds, memo_too_long, State, StateView, DEFAULT_MAX_MEMO_SIZE};
use crate::token::{burnt, has_token, lemma_put, lookup, ordered, put};
use crate::transfer::{
    acting_account, any_fault, batch_refused, lemma_passed_grows, passed, refuse_batch, unapplied,
};
use vstd::prelude::*;

verus! {

/// The views of the arguments of a batch.
pub open spec fn burn_args(args: Seq<BurnArg>) -> Seq<BurnArgView> {
    Seq::new(args.len(), |i: int| args[i]@)
}

/// Why a burn is refused; `None` where it is accepted.
pub open spec fn burn_fault(s: StateView, caller: Account, arg: BurnArgView) -> Option<
    BurnErrorView,
> {
    if memo_too_long(arg.memo, s.memo_limit()) {
        Some(BurnErrorView::GenericError { error_code: 3, message: "Exceeds Max Memo Length"@ })
    } else if !has_token(s.tokens, arg.token_id) {
        Some(BurnErrorView::NonExistingTokenId)
    } else if !lookup(s.tokens, arg.token_id)->0.token_owner.same_as(&caller) {
        Some(BurnErrorView::Unauthorized)
    } else {
        None
    }
}

/// The fault of each item of a batch, each judged against the same state.
pub open spec fn burn_faults(s: StateView, caller: Principal, args: Seq<BurnArgView>) -> Seq<
    Option<BurnErrorView>,
> {
    Seq::new(
        args.len(),
        |i: int| burn_fault(s, acting_account(caller, args[i].from_subaccount), args[i]),
    )
}

/// The state after an accepted burn was applied: the token belongs to the
/// burn account, and the log has one more entry.
pub open spec fn apply_burn(s: StateView, from: Account, arg: BurnArgView, now: u64) -> StateView {
    let token = lookup(s.tokens, arg.token_id)->0;
    (StateView { tokens: put(s.tokens, burnt(token, burn_account_spec())), ..s }).logged(
        TransactionType::Burn { tid: arg.token_id, from, to: burn_account_spec() },
        now,
        arg.memo,
    )
}

/// The state and the outcomes after the first `k` items of a batch were gone
/// through: those without a fault were applied, in their order.
pub open spec fn burns_applied(
    s: StateView,
    now: u64,
    caller: Principal,
    args: Seq<BurnArgView>,
    faults: Seq<Option<BurnErrorView>>,
    k: nat,
) -> (StateView, Seq<Option<Result<u128, BurnErrorView>>>)
    decreases k,
{
    if k == 0 {
        (s, unapplied(faults))
    } else {
        let (before, results) = burns_applied(s, now, caller, args, faults, (k - 1) as nat);
        if faults[k - 1] is Some {
            (before, results)
        } else {
            (
                apply_burn(
                    before,
                    acting_account(caller, args[k - 1].from_subaccount),
                    args[k - 1],
                    now,
                ),
                results.update(k - 1, Some(Ok(before.next_txn_id()))),
            )
        }
    }
}

/// What a batch of burns does to the state, and its outcomes.
pub open spec fn burn_batch(s: StateView, caller: Principal, args: Seq<BurnArgView>, now: u64) -> (
    StateView,
    Seq<Option<Result<u128, BurnErrorView>>>,
) {
    if args.len() == 0 {
        (
            s,
            seq![
                Some(
                    Err(
                        BurnErrorView::GenericBatchError {
                            error_code: 1,
                            message: "No Arguments Provided"@,
                        },
                    ),
                ),
            ],
        )
    } else if caller@ == anonymous_bytes() {
        (
            s,
            batch_refused(
                args.len(),
                BurnErrorView::GenericBatchError { error_code: 100, message: "Anonymous Identity"@ },
            ),
        )
    } else {
        let faults = burn_faults(s, caller, args);
        if s.atomic() && any_fault(faults) {
            (s, unapplied(faults))
        } else {
            burns_applied(s, now, caller, args, faults, args.len())
        }
    }
}

/// How many log entries a batch adds: none where the batch is refused as a
/// whole or not applied, else one for every item that passed.
pub open spec fn burns_logged(s: StateView, caller: Principal, args: Seq<BurnArgView>) -> nat {
    if args.len() == 0 || caller@ == anonymous_bytes() {
        0
    } else {
        let faults = burn_faults(s, caller, args);
        if s.atomic() && any_fault(faults) {
            0
        } else {
            passed(faults, args.len())
        }
    }
}

/// Going through a batch changes neither which tokens exist nor the
/// settings. Every item that passed gets the next transaction id: the count
/// before the batch plus the number of items that passed up to it.
pub proof fn lemma_burns_applied(
    s: StateView,
    now: u64,
    caller: Principal,
    args: Seq<BurnArgView>,
    faults: Seq<Option<BurnErrorView>>,
    k: nat,
)
    requires
        ordered(s.tokens),
        faults == burn_faults(s, caller, args),
        k <= args.len(),
        s.txn_count + passed(faults, k) <= u128::MAX,
    ensures
        ({
            let (after, results) = burns_applied(s, now, caller, args, faults, k);
            &&& ordered(after.tokens)
            &&& forall|id: u128| has_token(after.tokens, id) == has_token(s.tokens, id)
            &&& after.tokens.len() == s.tokens.len()
            &&& after.txn_count == s.txn_count + passed(faults, k)
            &&& after.txn_log.len() == s.txn_log.len() + passed(faults, k)
            &&& results.len() == args.len()
            &&& forall|i: int|
                0 <= i < k && faults[i] is None ==> (#[trigger] results[i]) == Some(
                    Ok::<u128, BurnErrorView>((s.txn_count + passed(faults, (i + 1) as nat)) as u128),
                )
            &&& forall|i: int|
                0 <= i < args.len() && faults[i] is Some ==> (#[trigger] results[i]) == Some(
                    Err::<u128, BurnErrorView>(faults[i]->0),
                )
            &&& forall|j: int| k <= j < args.len() ==> results[j] == unapplied(faults)[j]
            &&& after == (StateView {
                tokens: after.tokens,
                txn_log: after.txn_log,
                txn_count: after.txn_count,
                ..s
            })
        }),
    decreases k,
{
    if k > 0 {
        lemma_burns_applied(s, now, caller, args, faults, (k - 1) as nat);
        let (before, results) = burns_applied(s, now, caller, args, faults, (k - 1) as nat);
        if faults[k - 1] is None {
            let arg = args[k - 1];
            let token = lookup(before.tokens, arg.token_id)->0;
            assert(has_token(s.tokens, arg.token_id));
            lemma_put(before.tokens, burnt(token, burn_account_spec()));
            let after = burns_applied(s, now, caller, args, faults, k).0;
            assert forall|id: u128| has_token(after.tokens, id) == has_token(s.tokens, id) by {
                if id != arg.token_id {
                    assert(lookup(after.tokens, id) == lookup(before.tokens, id));
                }
            }
        }
    }
}

impl State {
    /// Checks one burn against the state, without changing anything.
    pub fn mock_burn(&self, caller: &Account, arg: &BurnArg) -> (r: Result<(), BurnError>)
        ensures
            match burn_fault(self@, *caller, arg@) {
                Some(e) => r is Err && r->Err_0@ == e,
                None => r is Ok,
            },
    {
        let max_memo_size: u128 = match self.icrc7_max_memo_size {
            Some(n) => n,
            None => DEFAULT_MAX_MEMO_SIZE,
        };
        if memo_exceeds(&arg.memo, max_memo_size) {
            return Err(
                BurnError::GenericError {
                    error_code: 3,
                    message: "Exceeds Max Memo Length".to_string(),
                },
            );
        }
        match self.tokens.get(arg.token_id) {
            None => Err(BurnError::NonExistingTokenId),
            Some(token) => {
                if !(token.token_owner == *caller) {
                    return Err(BurnError::Unauthorized);
                }
                Ok(())
            },
        }
    }

    /// Burns a batch of tokens on behalf of `caller` at the time `now`.
    ///
    /// An empty batch and one from the anonymous identity are refused as a
    /// whole. Otherwise every item is checked against the state as it is;
    /// where batches are atomic and an item failed, nothing is applied; else
    /// each item that passed is applied.
    pub fn burn(&mut self, caller: &Principal, args: Vec<BurnArg>, now: u64) -> (r: Vec<
        Option<BurnResult>,
    >)
        requires
            old(self).txn_count + burns_logged(old(self)@, *caller, burn_args(args@)) <= u128::MAX,
        ensures
            (final(self)@, outcomes(r@)) == burn_batch(old(self)@, *caller, burn_args(args@), now),
            r@.len() == if args@.len() == 0 {
                1
            } else {
                args@.len()
            },
    {
        let ghost s0 = self@;
        let ghost views = burn_args(args@);
        if args.len() == 0 {
            let mut results: Vec<Option<BurnResult>> = Vec::new();
            results.push(
                Some(
                    Err(
                        BurnError::GenericBatchError {
                            error_code: 1,
                            message: "No Arguments Provided".to_string(),
                        },
                    ),
                ),
            );
            assert(outcomes(results@) =~= burn_batch(s0, *caller, views, now).1);
            return results;
        }
        if caller.is_anonymous() {
            let results = refuse_batch(
                args.len(),
                BurnError::GenericBatchError {
                    error_code: 100,
                    message: "Anonymous Identity".to_string(),
                },
            );
            return results;
        }
        let ghost faults = burn_faults(s0, *caller, views);
        let mut results: Vec<Option<BurnResult>> = Vec::new();
        let mut failed = false;
        let mut index: usize = 0;
        while index < args.len()
            invariant
                index <= args@.len(),
                self@ == s0,
                views == burn_args(args@),
                faults == burn_faults(s0, *caller, views),
                results@.len() == index,
                forall|j: int|
                    0 <= j < index ==> outcome(#[trigger] results@[j]) == unapplied(faults)[j],
                failed <==> exists|j: int| 0 <= j < index && (#[trigger] faults[j]) is Some,
            decreases args@.len() - index,
        {
            let arg = &args[index];
            let caller_account = account_transformer(
                Account { owner: *caller, subaccount: arg.from_subaccount },
            );
            assert(faults[index as int] == burn_fault(s0, caller_account, views[index as int]));
            match self.mock_burn(&caller_account, arg) {
                Err(e) => {
                    results.push(Some(Err(e)));
                    failed = true;
                    assert(faults[index as int] is Some);
                },
                Ok(()) => {
                    results.push(None);
                    assert(faults[index as int] is None);
                },
            }
            index += 1;
        }
        assert(outcomes(results@) =~= unapplied(faults));
        assert(failed == any_fault(faults));
        if failed {
            if let Some(true) = self.icrc7_atomic_batch_transfers {
                return results;
            }
        }
        let mut index: usize = 0;
        proof {
            use_type_invariant(&self.tokens);
        }
        while index < args.len()
            invariant
                index <= args@.len(),
                ordered(s0.tokens),
                s0.txn_count + passed(faults, args@.len()) <= u128::MAX,
                views == burn_args(args@),
                faults == burn_faults(s0, *caller, views),
                results@.len() == args@.len(),
                (self@, outcomes(results@)) == burns_applied(
                    s0,
                    now,
                    *caller,
                    views,
                    faults,
                    index as nat,
                ),
            decreases args@.len() - index,
        {
            proof {
                lemma_passed_grows(faults, index as nat, args@.len());
                lemma_passed_grows(faults, (index + 1) as nat, args@.len());
                lemma_burns_applied(s0, now, *caller, views, faults, index as nat);
            }
            let ghost before = self@;
            let ghost before_results = outcomes(results@);
            let passed = results[index].is_none();
            assert(before_results[index as int] == outcome(results@[index as int]));
            assert(passed == (faults[index as int] is None));
            if passed {
                let arg = &args[index];
                let caller_account = account_transformer(
                    Account { owner: *caller, subaccount: arg.from_subaccount },
                );
                let burn_address = burn_account();
                assert(has_token(s0.tokens, arg.token_id));
                let mut token = match self.tokens.get(arg.token_id) {
                    Some(token) => token.clone(),
                    None => {
                        index += 1;
                        continue ;
                    },
                };
                token.burn(burn_address);
                self.tokens.insert(token);
                let txn_id = self.log_transaction(
                    TransactionType::Burn { tid: arg.token_id, from: caller_account, to: burn_address },
                    now,
                    copy_opt_bytes(&arg.memo),
                );
                results[index] = Some(Ok(txn_id));
                assert(self@ == apply_burn(
                    before,
                    acting_account(*caller, views[index as int].from_subaccount),
                    views[index as int],
                    now,
                ));
                assert(outcomes(results@) =~= before_results.update(
                    index as int,
                    Some(Ok(before.next_txn_id())),
                ));
            }
            index += 1;
        }
        results
    }
}

} // verus!
