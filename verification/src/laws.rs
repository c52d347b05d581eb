//! What holds of the ledger's operations on every state.

use crate::account::{burn_account_spec, Account};
use crate::approve::{apply_approval, approval_fault, granted};
use crate::burn::{apply_burn, burn_batch, burn_fault, burn_faults, burns_applied};
use crate::errors::{MintErrorView, TransferErrorView};
use crate::errors::BurnErrorView;
use crate::icrc7_types::{
    ApprovalArgView, BurnArgView, MintArgView, TransactionType, TransactionView, TransferArgView,
};
use crate::identity::{anonymous_bytes, Principal};
use crate::mint::{apply_mint, mint_fault, mint_outcome};
use crate::queries::{after, first, page};
use crate::state::{memo_too_long, StateView};
use crate::token::{
    approved, burnt, has_live_approval, has_token, lemma_put, lookup, ordered, put, transferred,
    TokenView,
};
use crate::transfer::{
    acting_account, any_fault, apply_transfer, batch_limit, batch_refused, canonical_arg,
    is_same_transfer, lemma_transfers_applied, passed, transfer_batch, transfer_fault,
    transfer_faults, transfers_applied, unapplied,
};
use vstd::prelude::*;

verus! {

/// A mint that goes through sets the counter behind its id, and stores the
/// token for the recipient.
pub proof fn lemma_mint_advances_counter(s: StateView, from: Account, arg: MintArgView, now: u64)
    requires
        ordered(s.tokens),
        mint_fault(s, from, arg) is None,
        arg.token_id < u128::MAX,
    ensures
        apply_mint(s, from, arg, now).next_token_id == arg.token_id + 1,
        has_token(apply_mint(s, from, arg, now).tokens, arg.token_id),
        lookup(apply_mint(s, from, arg, now).tokens, arg.token_id)->0.token_owner
            == arg.to.canonical(),
        apply_mint(s, from, arg, now).txn_log.len() == s.txn_log.len() + 1,
{
    lemma_put(s.tokens, crate::mint::minted_token(s, arg));
}

/// After a mint that went through, the minting authority cannot mint that
/// id again, nor any id below it: the id is under the counter.
pub proof fn lemma_mint_ids_only_grow(
    s: StateView,
    from: Account,
    arg: MintArgView,
    now: u64,
    again: MintArgView,
)
    requires
        mint_fault(s, from, arg) is None,
        arg.token_id < u128::MAX,
        again.token_id <= arg.token_id,
        !memo_too_long(again.memo, s.memo_limit()),
    ensures
        mint_fault(apply_mint(s, from, arg, now), from, again) == Some(
            MintErrorView::TokenIdMinimumLimit,
        ),
{
}

/// An id under the counter is refused as under the limit; an id at or over
/// the counter that is taken is refused as existing.
pub proof fn lemma_mint_id_checks(s: StateView, from: Account, arg: MintArgView)
    requires
        s.icrc7_supply_cap != Some(s.icrc7_total_supply),
        s.minting_authority is Some,
        from.same_as(&s.minting_authority->0),
        !memo_too_long(arg.memo, s.memo_limit()),
    ensures
        arg.token_id < s.next_token_id ==> mint_fault(s, from, arg) == Some(
            MintErrorView::TokenIdMinimumLimit,
        ),
        arg.token_id >= s.next_token_id && has_token(s.tokens, arg.token_id) ==> mint_fault(
            s,
            from,
            arg,
        ) == Some(MintErrorView::TokenIdAlreadyExist),
        arg.token_id >= s.next_token_id && !has_token(s.tokens, arg.token_id) ==> mint_fault(
            s,
            from,
            arg,
        ) is None,
{
}

/// Once the total supply stands at the cap, every mint is refused for that
/// reason, whoever asks and whatever is asked, and changes nothing.
pub proof fn lemma_supply_cap(s: StateView, caller: Principal, arg: MintArgView, now: u64)
    requires
        s.icrc7_supply_cap == Some(s.icrc7_total_supply),
    ensures
        mint_outcome(s, caller, arg, now) == (
            s,
            Err::<u128, MintErrorView>(MintErrorView::SupplyCapReached),
        ),
{
}

/// A timestamp before the earliest accepted is too old; one after the
/// latest accepted is in the future; one at either bound or between them is
/// refused for neither reason.
pub proof fn lemma_time_window(s: StateView, now: u64, caller: Account, arg: TransferArgView)
    requires
        arg.created_at_time is Some,
    ensures
        arg.created_at_time->0 < now - s.window() - s.drift() ==> transfer_fault(
            s,
            now,
            caller,
            arg,
        ) == Some(TransferErrorView::TooOld),
        arg.created_at_time->0 >= now - s.window() - s.drift() && arg.created_at_time->0 > now
            + s.drift() ==> transfer_fault(s, now, caller, arg) == Some(
            TransferErrorView::CreatedInFuture { ledger_time: now },
        ),
        now - s.window() - s.drift() <= arg.created_at_time->0 <= now + s.drift()
            ==> transfer_fault(s, now, caller, arg) != Some(TransferErrorView::TooOld)
            && !(transfer_fault(s, now, caller, arg) is Some && transfer_fault(
            s,
            now,
            caller,
            arg,
        )->0 is CreatedInFuture),
{
}

/// A transfer with a timestamp that was applied is found again: the same
/// transfer, asked once more while its timestamp is still accepted, is
/// refused as a duplicate of the entry that recorded it.
pub proof fn lemma_replay_is_duplicate(
    s: StateView,
    from: Account,
    arg: TransferArgView,
    now: u64,
    later: u64,
)
    requires
        arg.created_at_time is Some,
        later - s.window() - s.drift() <= arg.created_at_time->0 <= later + s.drift(),
    ensures
        transfer_fault(apply_transfer(s, from, arg, now), later, from, arg) == Some(
            TransferErrorView::Duplicate { duplicate_of: s.next_txn_id() },
        ),
{
    let after = apply_transfer(s, from, arg, now);
    let n = after.txn_log.len() as int;
    assert(after.txn_log[n - 1].txn_id == s.next_txn_id());
    assert(is_same_transfer(after.txn_log[n - 1], from, arg));
}

/// Once the window has passed over the timestamp of a transfer, asking the
/// same transfer again is refused as too old.
pub proof fn lemma_replay_after_window(
    s: StateView,
    from: Account,
    arg: TransferArgView,
    now: u64,
    later: u64,
)
    requires
        arg.created_at_time is Some,
        arg.created_at_time->0 < later - s.window() - s.drift(),
    ensures
        transfer_fault(apply_transfer(s, from, arg, now), later, from, arg) == Some(
            TransferErrorView::TooOld,
        ),
{
}

/// A spender whom the owner approved without expiry may transfer the
/// token; afterwards the recipient owns it and no approval is left.
pub proof fn lemma_approved_spender_transfers(
    s: StateView,
    owner: Account,
    approval: ApprovalArgView,
    transfer: TransferArgView,
    now: u64,
    later: u64,
)
    requires
        ordered(s.tokens),
        approval_fault(s, owner, approval) is None,
        approval.expires_at is None,
        transfer.token_id == approval.token_id,
        transfer.created_at_time is None,
        !memo_too_long(transfer.memo, s.memo_limit()),
        !transfer.to.same_as(&approval.spender),
    ensures
        ({
            let spender = approval.spender.canonical();
            let approved_state = apply_approval(s, owner, approval, now);
            let moved = apply_transfer(approved_state, spender, transfer, later);
            &&& transfer_fault(approved_state, later, spender, transfer) is None
            &&& lookup(moved.tokens, transfer.token_id) is Some
            &&& lookup(moved.tokens, transfer.token_id)->0.token_owner == transfer.to
            &&& lookup(moved.tokens, transfer.token_id)->0.approvals.len() == 0
        }),
{
    let spender = approval.spender.canonical();
    let token = lookup(s.tokens, approval.token_id)->0;
    let with_approval = approved(token, granted(approval));
    lemma_put(s.tokens, with_approval);
    let approved_state = apply_approval(s, owner, approval, now);
    let n = with_approval.approvals.len() as int;
    assert(with_approval.approvals[n - 1] == granted(approval));
    assert(with_approval.approvals[n - 1].account.same_as(&spender));
    assert(has_live_approval(with_approval.approvals, later, spender));
    lemma_put(approved_state.tokens, transferred(with_approval, transfer.to));
}

/// After its owner burnt a token, the token belongs to the burn account,
/// and the former owner, unless it is the burn account or holds a live
/// approval, is not authorised to transfer it.
pub proof fn lemma_burnt_token_is_out_of_reach(
    s: StateView,
    owner: Account,
    burn: BurnArgView,
    transfer: TransferArgView,
    now: u64,
    later: u64,
)
    requires
        ordered(s.tokens),
        burn_fault(s, owner, burn) is None,
        !owner.same_as(&burn_account_spec()),
        transfer.token_id == burn.token_id,
        transfer.created_at_time is None,
        !memo_too_long(transfer.memo, s.memo_limit()),
        !transfer.to.same_as(&owner),
        !has_live_approval(lookup(s.tokens, burn.token_id)->0.approvals, later, owner),
    ensures
        lookup(apply_burn(s, owner, burn, now).tokens, burn.token_id)->0.token_owner
            == burn_account_spec(),
        lookup(apply_burn(s, owner, burn, now).tokens, burn.token_id)->0.approvals == lookup(
            s.tokens,
            burn.token_id,
        )->0.approvals,
        transfer_fault(apply_burn(s, owner, burn, now), later, owner, transfer) == Some(
            TransferErrorView::Unauthorized,
        ),
{
    let token = lookup(s.tokens, burn.token_id)->0;
    lemma_put(s.tokens, burnt(token, burn_account_spec()));
}

/// Where batches are atomic, a batch with a failing item changes nothing:
/// the state stays as it was, the failing items carry their errors and the
/// others carry nothing.
pub proof fn lemma_atomic_batch_applies_nothing(
    s: StateView,
    caller: Principal,
    args: Seq<TransferArgView>,
    now: u64,
)
    requires
        s.atomic(),
        0 < args.len() <= batch_limit(s),
        caller@ != anonymous_bytes(),
        any_fault(transfer_faults(s, now, caller, args)),
    ensures
        transfer_batch(s, caller, args, now).0 == s,
        transfer_batch(s, caller, args, now).1.len() == args.len(),
        forall|i: int|
            0 <= i < args.len() ==> (#[trigger] transfer_batch(s, caller, args, now).1[i])
                == match transfer_faults(s, now, caller, args)[i] {
                Some(e) => Some(Err::<u128, TransferErrorView>(e)),
                None => None,
            },
{
}

/// The outcomes of going through a batch: an item with a fault carries its
/// error, and every item before `k` without a fault carries the id of the
/// log entry that its transfer got.
pub proof fn lemma_applied_outcomes(
    s: StateView,
    now: u64,
    caller: Principal,
    args: Seq<TransferArgView>,
    faults: Seq<Option<TransferErrorView>>,
    k: nat,
)
    requires
        faults.len() == args.len(),
        k <= args.len(),
    ensures
        ({
            let results = transfers_applied(s, now, caller, args, faults, k).1;
            &&& results.len() == args.len()
            &&& forall|i: int|
                0 <= i < args.len() && faults[i] is Some ==> (#[trigger] results[i]) == Some(
                    Err::<u128, TransferErrorView>(faults[i]->0),
                )
            &&& forall|i: int|
                0 <= i < k && faults[i] is None ==> (#[trigger] results[i]) is Some && results[i]->0 is Ok
            &&& forall|i: int| k <= i < args.len() && faults[i] is None ==> (#[trigger] results[i]) is None
        }),
    decreases k,
{
    if k > 0 {
        lemma_applied_outcomes(s, now, caller, args, faults, (k - 1) as nat);
    }
}

/// Where batches are not atomic, the items without a fault are applied even
/// though others fail: each of them carries a transaction id, each failing
/// item carries its error.
pub proof fn lemma_plain_batch_applies_the_rest(
    s: StateView,
    caller: Principal,
    args: Seq<TransferArgView>,
    now: u64,
)
    requires
        !s.atomic(),
        0 < args.len() <= batch_limit(s),
        caller@ != anonymous_bytes(),
    ensures
        transfer_batch(s, caller, args, now).1.len() == args.len(),
        forall|i: int|
            0 <= i < args.len() ==> match transfer_faults(s, now, caller, args)[i] {
                Some(e) => (#[trigger] transfer_batch(s, caller, args, now).1[i]) == Some(
                    Err::<u128, TransferErrorView>(e),
                ),
                None => transfer_batch(s, caller, args, now).1[i] is Some && transfer_batch(
                    s,
                    caller,
                    args,
                    now,
                ).1[i]->0 is Ok,
            },
{
    lemma_applied_outcomes(
        s,
        now,
        caller,
        args,
        transfer_faults(s, now, caller, args),
        args.len(),
    );
}

/// A batch of one transfer from a caller that is not anonymous, on a
/// ledger that takes batches of one: the item's error and nothing changed,
/// or the transfer applied and the id of its log entry.
pub proof fn lemma_single_transfer(s: StateView, caller: Principal, arg: TransferArgView, now: u64)
    requires
        batch_limit(s) >= 1,
        caller@ != anonymous_bytes(),
    ensures
        ({
            let from = crate::transfer::acting_account(caller, arg.from_subaccount);
            let item = crate::transfer::canonical_arg(arg);
            transfer_batch(s, caller, seq![arg], now) == match transfer_fault(s, now, from, item) {
                Some(e) => (s, seq![Some(Err::<u128, TransferErrorView>(e))]),
                None => (
                    apply_transfer(s, from, item, now),
                    seq![Some(Ok::<u128, TransferErrorView>(s.next_txn_id()))],
                ),
            }
        }),
{
    reveal_with_fuel(transfers_applied, 2);
    let args = seq![arg];
    let faults = transfer_faults(s, now, caller, args);
    let from = crate::transfer::acting_account(caller, arg.from_subaccount);
    let item = crate::transfer::canonical_arg(arg);
    assert(faults[0] == transfer_fault(s, now, from, item));
    let batch = transfer_batch(s, caller, args, now);
    if faults[0] is Some {
        assert(any_fault(faults));
        assert(unapplied(faults) =~= seq![Some(Err::<u128, TransferErrorView>(faults[0]->0))]);
        assert(batch.1 =~= seq![Some(Err::<u128, TransferErrorView>(faults[0]->0))]);
    } else {
        assert(!any_fault(faults)) by {
            if any_fault(faults) {
                let i = choose|i: int| 0 <= i < faults.len() && (#[trigger] faults[i]) is Some;
                assert(i == 0);
            }
        }
        assert(batch.1 =~= seq![Some(Ok::<u128, TransferErrorView>(s.next_txn_id()))]);
    }
}

/// A batch above the limit for updates is refused as a whole with the code
/// 2, whoever calls; a batch within the limit from the anonymous identity is
/// refused as a whole with the code 100, whatever the state. Either way not
/// one item is checked, and nothing changes.
pub proof fn lemma_refused_batches(
    s: StateView,
    caller: Principal,
    args: Seq<TransferArgView>,
    now: u64,
)
    requires
        args.len() > 0,
    ensures
        args.len() > batch_limit(s) ==> transfer_batch(s, caller, args, now) == (
            s,
            batch_refused(
                args.len(),
                TransferErrorView::GenericBatchError {
                    error_code: 2,
                    message: "Exceed Max allowed Update Batch Size"@,
                },
            ),
        ),
        args.len() <= batch_limit(s) && caller@ == anonymous_bytes() ==> transfer_batch(
            s,
            caller,
            args,
            now,
        ) == (
            s,
            batch_refused(
                args.len(),
                TransferErrorView::GenericBatchError {
                    error_code: 100,
                    message: "Anonymous Identity"@,
                },
            ),
        ),
        args.len() > batch_limit(s) || caller@ == anonymous_bytes() ==> {
            let results = transfer_batch(s, caller, args, now).1;
            &&& results.len() == args.len()
            &&& results[0] is Some && results[0]->0 is Err && results[0]->0->Err_0 is GenericBatchError
            &&& forall|i: int| 0 < i < args.len() ==> (#[trigger] results[i]) is None
        },
{
}

/// Whether a token is another but for its owner and its approvals.
pub open spec fn same_but_owner(a: TokenView, b: TokenView) -> bool {
    a == (TokenView { token_owner: a.token_owner, approvals: a.approvals, ..b })
}

/// Whether no item before `k` that passed names a token.
pub open spec fn untouched(
    args: Seq<TransferArgView>,
    faults: Seq<Option<TransferErrorView>>,
    from: int,
    k: int,
    id: u128,
) -> bool {
    forall|j: int| from <= j < k && faults[j] is None ==> (#[trigger] args[j]).token_id != id
}

/// Whether every item without a fault names a token that exists.
pub open spec fn passing_items_exist(
    s: StateView,
    args: Seq<TransferArgView>,
    faults: Seq<Option<TransferErrorView>>,
) -> bool {
    &&& faults.len() == args.len()
    &&& forall|i: int|
        0 <= i < args.len() && faults[i] is None ==> has_token(
            s.tokens,
            (#[trigger] args[i]).token_id,
        )
}

/// The tokens after the first `k` items of a batch were gone through.
pub open spec fn tokens_after(
    s: StateView,
    now: u64,
    caller: Principal,
    args: Seq<TransferArgView>,
    faults: Seq<Option<TransferErrorView>>,
    k: nat,
) -> Seq<TokenView> {
    transfers_applied(s, now, caller, args, faults, k).0.tokens
}

/// Going through one more item stores the token of that item with its new
/// owner, where the item passed, and leaves the tokens as they are where it
/// did not.
proof fn lemma_tokens_step(
    s: StateView,
    now: u64,
    caller: Principal,
    args: Seq<TransferArgView>,
    faults: Seq<Option<TransferErrorView>>,
    k: nat,
)
    requires
        0 < k <= args.len(),
    ensures
        ({
            let before = tokens_after(s, now, caller, args, faults, (k - 1) as nat);
            tokens_after(s, now, caller, args, faults, k) == if faults[k - 1] is Some {
                before
            } else {
                put(
                    before,
                    transferred(
                        lookup(before, args[k - 1].token_id)->0,
                        args[k - 1].to.canonical(),
                    ),
                )
            }
        }),
{
}

/// What going through a batch does to the tokens. A token that no applied
/// item names stays as it was. A token that an applied item names belongs
/// to the recipient of the last such item, in canonical form, and has no
/// approvals; nothing else of it changes.
pub proof fn lemma_transfers_move_tokens(
    s: StateView,
    now: u64,
    caller: Principal,
    args: Seq<TransferArgView>,
    faults: Seq<Option<TransferErrorView>>,
    k: nat,
)
    requires
        ordered(s.tokens),
        k <= args.len(),
        passing_items_exist(s, args, faults),
    ensures
        ({
            let after = tokens_after(s, now, caller, args, faults, k);
            &&& ordered(after)
            &&& forall|id: u128|
                untouched(args, faults, 0, k as int, id) ==> (#[trigger] lookup(after, id))
                    == lookup(s.tokens, id)
            &&& forall|id: u128|
                has_token(s.tokens, id) ==> (#[trigger] lookup(after, id)) is Some
                    && same_but_owner(lookup(after, id)->0, lookup(s.tokens, id)->0)
            &&& forall|i: int|
                0 <= i < k && faults[i] is None && untouched(
                    args,
                    faults,
                    i + 1,
                    k as int,
                    args[i].token_id,
                ) ==> lookup(after, (#[trigger] args[i]).token_id) == Some(
                    transferred(lookup(s.tokens, args[i].token_id)->0, args[i].to.canonical()),
                )
        }),
    decreases k,
{
    if k > 0 {
        lemma_transfers_move_tokens(s, now, caller, args, faults, (k - 1) as nat);
        lemma_tokens_step(s, now, caller, args, faults, k);
        let before = tokens_after(s, now, caller, args, faults, (k - 1) as nat);
        let after = tokens_after(s, now, caller, args, faults, k);
        if faults[k - 1] is None {
            let tid = args[k - 1].token_id;
            assert(has_token(s.tokens, tid));
            assert(lookup(before, tid) is Some);
            let token = lookup(before, tid)->0;
            let moved = transferred(token, args[k - 1].to.canonical());
            lemma_put(before, moved);
            assert(lookup(after, tid) == Some(moved));
            assert forall|id: u128| untouched(args, faults, 0, k as int, id) implies (
            #[trigger] lookup(after, id)) == lookup(s.tokens, id) by {
                assert(args[k - 1].token_id != id);
                assert(untouched(args, faults, 0, k - 1, id));
                assert(lookup(before, id) == lookup(s.tokens, id));
            }
            assert forall|id: u128| has_token(s.tokens, id) implies (#[trigger] lookup(
                after,
                id,
            )) is Some && same_but_owner(lookup(after, id)->0, lookup(s.tokens, id)->0) by {
                assert(lookup(before, id) is Some);
                if id != tid {
                    assert(lookup(after, id) == lookup(before, id));
                }
            }
            assert forall|i: int|
                0 <= i < k && faults[i] is None && untouched(
                    args,
                    faults,
                    i + 1,
                    k as int,
                    args[i].token_id,
                ) implies lookup(after, (#[trigger] args[i]).token_id) == Some(
                transferred(lookup(s.tokens, args[i].token_id)->0, args[i].to.canonical()),
            ) by {
                if i < k - 1 {
                    assert(args[k - 1].token_id != args[i].token_id);
                    assert(untouched(args, faults, i + 1, k - 1, args[i].token_id));
                    assert(lookup(after, args[i].token_id) == lookup(before, args[i].token_id));
                } else {
                    assert(lookup(before, tid) is Some);
                    assert(same_but_owner(token, lookup(s.tokens, tid)->0));
                }
            }
        } else {
            assert forall|id: u128| untouched(args, faults, 0, k as int, id) implies (
            #[trigger] lookup(after, id)) == lookup(s.tokens, id) by {
                assert(untouched(args, faults, 0, k - 1, id));
            }
            assert forall|i: int|
                0 <= i < k && faults[i] is None && untouched(
                    args,
                    faults,
                    i + 1,
                    k as int,
                    args[i].token_id,
                ) implies lookup(after, (#[trigger] args[i]).token_id) == Some(
                transferred(lookup(s.tokens, args[i].token_id)->0, args[i].to.canonical()),
            ) by {
                assert(untouched(args, faults, i + 1, k - 1, args[i].token_id));
            }
        }
    }
}

/// The faults of a batch leave only items that name a token that exists.
pub proof fn lemma_passing_items_exist(
    s: StateView,
    now: u64,
    caller: Principal,
    args: Seq<TransferArgView>,
)
    ensures
        passing_items_exist(s, args, transfer_faults(s, now, caller, args)),
{
    let faults = transfer_faults(s, now, caller, args);
    assert forall|i: int| 0 <= i < args.len() && faults[i] is None implies has_token(
        s.tokens,
        (#[trigger] args[i]).token_id,
    ) by {
        assert(faults[i] == transfer_fault(
            s,
            now,
            acting_account(caller, args[i].from_subaccount),
            canonical_arg(args[i]),
        ));
    }
}

/// Where batches are not atomic, every item that passed is applied and gets
/// the next transaction id in its turn: the count before the batch plus the
/// number of items that passed up to it. The counter and the log grow by the
/// number of items that passed.
pub proof fn lemma_plain_batch_numbers_the_rest(
    s: StateView,
    caller: Principal,
    args: Seq<TransferArgView>,
    now: u64,
)
    requires
        ordered(s.tokens),
        !s.atomic(),
        0 < args.len() <= batch_limit(s),
        caller@ != anonymous_bytes(),
        s.txn_count + passed(transfer_faults(s, now, caller, args), args.len()) <= u128::MAX,
    ensures
        ({
            let faults = transfer_faults(s, now, caller, args);
            let (after, results) = transfer_batch(s, caller, args, now);
            &&& results.len() == args.len()
            &&& after.txn_count == s.txn_count + passed(faults, args.len())
            &&& after.txn_log.len() == s.txn_log.len() + passed(faults, args.len())
            &&& forall|i: int|
                0 <= i < args.len() ==> (#[trigger] results[i]) == match faults[i] {
                    Some(e) => Some(Err::<u128, TransferErrorView>(e)),
                    None => Some(
                        Ok::<u128, TransferErrorView>(
                            (s.txn_count + passed(faults, (i + 1) as nat)) as u128,
                        ),
                    ),
                }
        }),
{
    lemma_transfers_applied(
        s,
        now,
        caller,
        args,
        transfer_faults(s, now, caller, args),
        args.len(),
    );
}

/// Where batches are not atomic, the items that passed move their tokens
/// even though others fail: a token that no such item names stays as it
/// was, and a token that such an item names belongs to the recipient of the
/// last such item, in canonical form, without approvals and otherwise as
/// it was.
pub proof fn lemma_plain_batch_moves_tokens(
    s: StateView,
    caller: Principal,
    args: Seq<TransferArgView>,
    now: u64,
)
    requires
        ordered(s.tokens),
        !s.atomic(),
        0 < args.len() <= batch_limit(s),
        caller@ != anonymous_bytes(),
    ensures
        ({
            let faults = transfer_faults(s, now, caller, args);
            let after = transfer_batch(s, caller, args, now).0.tokens;
            &&& forall|id: u128|
                untouched(args, faults, 0, args.len() as int, id) ==> (#[trigger] lookup(
                    after,
                    id,
                )) == lookup(s.tokens, id)
            &&& forall|i: int|
                0 <= i < args.len() && faults[i] is None && untouched(
                    args,
                    faults,
                    i + 1,
                    args.len() as int,
                    args[i].token_id,
                ) ==> lookup(after, (#[trigger] args[i]).token_id) == Some(
                    transferred(lookup(s.tokens, args[i].token_id)->0, args[i].to.canonical()),
                )
        }),
{
    let faults = transfer_faults(s, now, caller, args);
    lemma_passing_items_exist(s, now, caller, args);
    lemma_transfers_move_tokens(s, now, caller, args, faults, args.len());
}

/// A spender with an approval without expiry transfers a token that it
/// does not own. The batch of that one transfer gives the next transaction
/// id; afterwards the token belongs to the recipient in canonical form and
/// has no approvals, every other token is as it was, and the log ends with
/// the entry of the transfer.
pub proof fn lemma_spender_batch(
    s: StateView,
    owner: Account,
    approval: ApprovalArgView,
    spender: Principal,
    transfer: TransferArgView,
    now: u64,
    later: u64,
)
    requires
        ordered(s.tokens),
        approval_fault(s, owner, approval) is None,
        approval.expires_at is None,
        approval.spender.same_as(&acting_account(spender, transfer.from_subaccount)),
        spender@ != anonymous_bytes(),
        batch_limit(s) >= 1,
        s.txn_count + 2 <= u128::MAX,
        transfer.token_id == approval.token_id,
        transfer.created_at_time is None,
        !memo_too_long(transfer.memo, s.memo_limit()),
        !transfer.to.same_as(&approval.spender),
    ensures
        ({
            let from = acting_account(spender, transfer.from_subaccount);
            let approved_state = apply_approval(s, owner, approval, now);
            let (moved, results) = transfer_batch(approved_state, spender, seq![transfer], later);
            &&& results == seq![Some(Ok::<u128, TransferErrorView>((s.txn_count + 2) as u128))]
            &&& lookup(moved.tokens, transfer.token_id) is Some
            &&& lookup(moved.tokens, transfer.token_id)->0.token_owner == transfer.to.canonical()
            &&& lookup(moved.tokens, transfer.token_id)->0.approvals.len() == 0
            &&& forall|id: u128|
                id != transfer.token_id ==> lookup(moved.tokens, id) == lookup(s.tokens, id)
            &&& moved.txn_count == s.txn_count + 2
            &&& moved.txn_log == approved_state.txn_log.push(
                TransactionView {
                    txn_id: (s.txn_count + 2) as u128,
                    txn_type: TransactionType::Transfer {
                        tid: transfer.token_id,
                        from,
                        to: transfer.to.canonical(),
                    },
                    at: later,
                    memo: transfer.memo,
                },
            )
        }),
{
    let from = acting_account(spender, transfer.from_subaccount);
    let item = canonical_arg(transfer);
    let approved_state = apply_approval(s, owner, approval, now);
    let token = lookup(s.tokens, approval.token_id)->0;
    let with_approval = approved(token, granted(approval));
    lemma_put(s.tokens, with_approval);
    let n = with_approval.approvals.len() as int;
    assert(with_approval.approvals[n - 1] == granted(approval));
    assert(with_approval.approvals[n - 1].account.same_as(&from));
    assert(has_live_approval(with_approval.approvals, later, from));
    assert(transfer_fault(approved_state, later, from, item) is None);
    lemma_single_transfer(approved_state, spender, transfer, later);
    lemma_put(approved_state.tokens, transferred(with_approval, item.to));
}

/// A batch of one burn from a caller that is not anonymous: the item's
/// error and nothing changed, or the burn applied and the id of its log
/// entry.
pub proof fn lemma_single_burn(s: StateView, caller: Principal, arg: BurnArgView, now: u64)
    requires
        caller@ != anonymous_bytes(),
    ensures
        ({
            let from = acting_account(caller, arg.from_subaccount);
            burn_batch(s, caller, seq![arg], now) == match burn_fault(s, from, arg) {
                Some(e) => (s, seq![Some(Err::<u128, BurnErrorView>(e))]),
                None => (
                    apply_burn(s, from, arg, now),
                    seq![Some(Ok::<u128, BurnErrorView>(s.next_txn_id()))],
                ),
            }
        }),
{
    reveal_with_fuel(burns_applied, 2);
    let args = seq![arg];
    let faults = burn_faults(s, caller, args);
    let from = acting_account(caller, arg.from_subaccount);
    assert(faults[0] == burn_fault(s, from, arg));
    let batch = burn_batch(s, caller, args, now);
    if faults[0] is Some {
        assert(any_fault(faults));
        assert(unapplied(faults) =~= seq![Some(Err::<u128, BurnErrorView>(faults[0]->0))]);
        assert(batch.1 =~= seq![Some(Err::<u128, BurnErrorView>(faults[0]->0))]);
    } else {
        assert(!any_fault(faults)) by {
            if any_fault(faults) {
                let i = choose|i: int| 0 <= i < faults.len() && (#[trigger] faults[i]) is Some;
                assert(i == 0);
            }
        }
        assert(batch.1 =~= seq![Some(Ok::<u128, BurnErrorView>(s.next_txn_id()))]);
    }
}

/// The owner burns its token, then tries to transfer it. The burn gives the
/// next transaction id; the token stays in the store and belongs to the burn
/// account, with its approvals as they were, and the log ends with the entry
/// of the burn. The transfer is refused as unauthorised and changes nothing,
/// unless the former owner is the burn account or holds a live approval.
pub proof fn lemma_burn_then_transfer_batch(
    s: StateView,
    caller: Principal,
    burn: BurnArgView,
    transfer: TransferArgView,
    now: u64,
    later: u64,
)
    requires
        ordered(s.tokens),
        caller@ != anonymous_bytes(),
        batch_limit(s) >= 1,
        s.txn_count < u128::MAX,
        burn_fault(s, acting_account(caller, burn.from_subaccount), burn) is None,
        !acting_account(caller, burn.from_subaccount).same_as(&burn_account_spec()),
        transfer.from_subaccount == burn.from_subaccount,
        transfer.token_id == burn.token_id,
        transfer.created_at_time is None,
        !memo_too_long(transfer.memo, s.memo_limit()),
        !transfer.to.same_as(&acting_account(caller, burn.from_subaccount)),
        !has_live_approval(
            lookup(s.tokens, burn.token_id)->0.approvals,
            later,
            acting_account(caller, burn.from_subaccount),
        ),
    ensures
        ({
            let from = acting_account(caller, burn.from_subaccount);
            let (burnt_state, burn_results) = burn_batch(s, caller, seq![burn], now);
            let (after, transfer_results) = transfer_batch(
                burnt_state,
                caller,
                seq![transfer],
                later,
            );
            &&& burn_results == seq![Some(Ok::<u128, BurnErrorView>((s.txn_count + 1) as u128))]
            &&& lookup(burnt_state.tokens, burn.token_id) == Some(
                burnt(lookup(s.tokens, burn.token_id)->0, burn_account_spec()),
            )
            &&& forall|id: u128|
                id != burn.token_id ==> lookup(burnt_state.tokens, id) == lookup(s.tokens, id)
            &&& burnt_state.txn_log == s.txn_log.push(
                TransactionView {
                    txn_id: (s.txn_count + 1) as u128,
                    txn_type: TransactionType::Burn {
                        tid: burn.token_id,
                        from,
                        to: burn_account_spec(),
                    },
                    at: now,
                    memo: burn.memo,
                },
            )
            &&& transfer_results == seq![
                Some(Err::<u128, TransferErrorView>(TransferErrorView::Unauthorized)),
            ]
            &&& after == burnt_state
        }),
{
    let from = acting_account(caller, burn.from_subaccount);
    let token = lookup(s.tokens, burn.token_id)->0;
    lemma_single_burn(s, caller, burn, now);
    lemma_put(s.tokens, burnt(token, burn_account_spec()));
    let burnt_state = apply_burn(s, from, burn, now);
    lemma_single_transfer(burnt_state, caller, transfer, later);
}

/// Behind an id that occurs once, what follows is the rest of the list.
pub proof fn lemma_after(ids: Seq<u128>, k: int)
    requires
        0 <= k < ids.len(),
        forall|i: int| 0 <= i < k ==> #[trigger] ids[i] != ids[k],
    ensures
        after(ids, ids[k]) == Some(ids.subrange(k + 1, ids.len() as int)),
    decreases ids.len(),
{
    if k == 0 {
        assert(ids.drop_first() =~= ids.subrange(1, ids.len() as int));
    } else {
        let rest = ids.drop_first();
        assert(rest[k - 1] == ids[k]);
        let target = ids[k];
        assert forall|i: int| 0 <= i < k - 1 implies #[trigger] rest[i] != target by {
            assert(rest[i] == ids[i + 1]);
        }
        lemma_after(rest, k - 1);
        assert(rest.subrange(k, rest.len() as int) =~= ids.subrange(k + 1, ids.len() as int));
    }
}

/// A cursor that does not occur gives nothing.
pub proof fn lemma_unknown_cursor(ids: Seq<u128>, prev: u128, take: nat)
    requires
        !ids.contains(prev),
    ensures
        page(ids, Some(prev), take) == Seq::<u128>::empty(),
    decreases ids.len(),
{
    if ids.len() > 0 {
        assert(ids[0] != prev);
        let rest = ids.drop_first();
        assert(!rest.contains(prev)) by {
            if rest.contains(prev) {
                let i = choose|i: int| 0 <= i < rest.len() && rest[i] == prev;
                assert(ids[i + 1] == prev);
            }
        }
        lemma_unknown_cursor(rest, prev, take);
    }
}

/// Pages follow one another: the first page holds the lowest ids in
/// ascending order, and the page behind the last id of a page holds the ids
/// that come next.
pub proof fn lemma_pages_follow(ids: Seq<u128>, take: nat)
    requires
        forall|i: int, j: int| 0 <= i < j < ids.len() ==> ids[i] < ids[j],
        0 < take <= ids.len(),
    ensures
        page(ids, None, take) == ids.subrange(0, take as int),
        page(ids, Some(ids[take - 1]), take) == first(
            ids.subrange(take as int, ids.len() as int),
            take,
        ),
        take + take <= ids.len() ==> page(ids, Some(ids[take - 1]), take) == ids.subrange(
            take as int,
            (take + take) as int,
        ),
{
    lemma_after(ids, take - 1);
    if take + take <= ids.len() {
        assert(ids.subrange(take as int, ids.len() as int).subrange(0, take as int)
            =~= ids.subrange(take as int, (take + take) as int));
    }
}

} // verus!
