use icrc7_platform::account::{account_transformer, burn_account, Account};
use icrc7_platform::errors::{ApprovalError, BurnError, MintError, TransferError};
use icrc7_platform::icrc7_types::{
    Approval, ApprovalArg, BurnArg, MetadataValue, MintArg, TransactionType, TransferArg,
};
use icrc7_platform::identity::Principal;
use icrc7_platform::mint::icrc7_mint;
use icrc7_platform::state::State;

const NOW: u64 = 1_700_000_000_000_000_000;
const TX_WINDOW: u64 = 86_400_000_000_000;
const DRIFT: u64 = 120_000_000_000;

fn principal(n: u8) -> Principal {
    Principal::from_slice(&[n, n, n])
}

fn account(n: u8) -> Account {
    Account { owner: principal(n), subaccount: None }
}

fn mint_arg(id: u128, to: Account) -> MintArg {
    MintArg {
        from_subaccount: None,
        to,
        token_id: id,
        memo: None,
        token_name: None,
        token_description: None,
        token_logo: None,
    }
}

fn transfer_arg(id: u128, to: Account) -> TransferArg {
    TransferArg { from_subaccount: None, to, token_id: id, memo: None, created_at_time: None }
}

fn burn_arg(id: u128) -> BurnArg {
    BurnArg { from_subaccount: None, token_id: id, memo: None }
}

fn approval_arg(id: u128, spender: Account) -> ApprovalArg {
    ApprovalArg { from_subaccount: None, spender, token_id: id, expires_at: None, memo: None }
}

/// A ledger whose minting authority is identity 9 and on which the tokens
/// given were minted to identity 1.
fn ledger_with(ids: &[u128]) -> State {
    let mut state = State::new();
    state.minting_authority = Some(account(9));
    for id in ids {
        assert!(state.mint(&principal(9), mint_arg(*id, account(1)), NOW).is_ok());
    }
    state
}

#[test]
fn mint_id_monotonicity() {
    let mut state = State::new();
    state.minting_authority = Some(account(9));
    state.next_token_id = 5;
    assert_eq!(state.mint(&principal(9), mint_arg(5, account(1)), NOW), Ok(1));
    assert_eq!(state.next_token_id, 6);
    assert_eq!(
        state.mint(&principal(9), mint_arg(5, account(1)), NOW),
        Err(MintError::TokenIdMinimumLimit)
    );
    assert_eq!(
        state.mint(&principal(9), mint_arg(3, account(1)), NOW),
        Err(MintError::TokenIdMinimumLimit)
    );
    assert_eq!(state.next_token_id, 6);
    assert_eq!(state.tokens.len(), 1);
}

#[test]
fn mint_of_a_taken_id_at_or_over_the_counter() {
    let mut state = ledger_with(&[5]);
    state.next_token_id = 5;
    assert_eq!(
        state.mint(&principal(9), mint_arg(5, account(1)), NOW),
        Err(MintError::TokenIdAlreadyExist)
    );
    assert_eq!(state.mint(&principal(9), mint_arg(7, account(1)), NOW), Ok(2));
    assert_eq!(state.next_token_id, 8);
}

#[test]
fn supply_cap_enforcement() {
    let mut state = ledger_with(&[0]);
    state.icrc7_supply_cap = Some(1);
    state.icrc7_total_supply = 1;
    assert_eq!(
        state.mint(&principal(9), mint_arg(1, account(1)), NOW),
        Err(MintError::SupplyCapReached)
    );
    assert_eq!(
        state.mint(&principal(2), mint_arg(1, account(1)), NOW),
        Err(MintError::SupplyCapReached)
    );
    assert_eq!(
        state.mint(&Principal::anonymous(), mint_arg(1, account(1)), NOW),
        Err(MintError::SupplyCapReached)
    );
    assert_eq!(state.tokens.len(), 1);
}

#[test]
fn mint_does_not_count_the_total_supply() {
    let state = ledger_with(&[0, 1, 2]);
    assert_eq!(state.icrc7_total_supply(), 0);
}

#[test]
fn mint_errors() {
    let mut state = State::new();
    assert_eq!(
        state.mint(&principal(9), mint_arg(0, account(1)), NOW),
        Err(MintError::GenericBatchError {
            error_code: 6,
            message: "Minting Authority Not Set".to_string()
        })
    );
    state.minting_authority = Some(account(9));
    assert_eq!(
        state.mint(&principal(2), mint_arg(0, account(1)), NOW),
        Err(MintError::Unauthorized)
    );
    let mut long_memo = mint_arg(0, account(1));
    long_memo.memo = Some(vec![0u8; 33]);
    assert_eq!(
        state.mint(&principal(9), long_memo, NOW),
        Err(MintError::GenericError {
            error_code: 7,
            message: "Exceeds Allowed Memo Length".to_string()
        })
    );
    let mut memo = mint_arg(0, account(1));
    memo.memo = Some(vec![0u8; 32]);
    assert_eq!(state.mint(&principal(9), memo, NOW), Ok(1));
    assert_eq!(
        icrc7_mint(&mut state, mint_arg(1, account(1)), Principal::anonymous(), NOW),
        Err(MintError::GenericBatchError {
            error_code: 100,
            message: "Anonymous Identity".to_string()
        })
    );
    assert_eq!(icrc7_mint(&mut state, mint_arg(1, account(1)), principal(9), NOW), Ok(2));
}

#[test]
fn minted_token_gets_the_default_name() {
    let mut state = State::new();
    state.minting_authority = Some(account(9));
    let mut arg = mint_arg(105, account(1));
    arg.token_description = Some("first".to_string());
    arg.memo = Some(vec![1, 2]);
    assert_eq!(state.mint(&principal(9), arg, NOW), Ok(1));
    let token = state.tokens.get(105).unwrap();
    assert_eq!(token.token_name, "ICRC7 105");
    assert_eq!(token.token_description, Some("first".to_string()));
    assert_eq!(token.token_owner, account(1));
    assert!(token.approvals.is_empty());
    assert_eq!(state.txn_count, 1);
    assert_eq!(state.txn_log.len(), 1);
    assert_eq!(state.txn_log[0].txn_id, 1);
    assert_eq!(state.txn_log[0].at, NOW);
    assert_eq!(state.txn_log[0].memo, Some(vec![1, 2]));
    assert_eq!(
        state.txn_log[0].txn_type,
        TransactionType::Mint { tid: 105, from: account(9), to: account(1) }
    );
    let mut named = mint_arg(200, account(1));
    named.token_name = Some("Gold".to_string());
    assert_eq!(state.mint(&principal(9), named, NOW), Ok(2));
    assert_eq!(state.tokens.get(200).unwrap().token_name, "Gold");
    assert_eq!(state.mint(&principal(9), mint_arg(u128::MAX - 1, account(1)), NOW), Ok(3));
    assert_eq!(
        state.tokens.get(u128::MAX - 1).unwrap().token_name,
        "ICRC7 340282366920938463463374607431768211454"
    );
}

#[test]
fn an_all_zero_subaccount_is_the_default_account() {
    let explicit = Account { owner: principal(1), subaccount: Some([0u8; 32]) };
    assert_eq!(explicit, account(1));
    assert_eq!(account_transformer(explicit).subaccount, None);
    let mut other = [0u8; 32];
    other[31] = 1;
    let sub = Account { owner: principal(1), subaccount: Some(other) };
    assert!(sub != account(1));
    assert_eq!(account_transformer(sub).subaccount, Some(other));
    let mut state = State::new();
    state.minting_authority = Some(explicit);
    assert_eq!(state.mint(&principal(1), mint_arg(0, explicit), NOW), Ok(1));
    assert_eq!(state.tokens.get(0).unwrap().token_owner.subaccount, None);
}

#[test]
fn transfer_time_window_boundary() {
    let mut state = ledger_with(&[1, 2, 3]);
    state.tx_window = Some(TX_WINDOW);
    state.permitted_drift = Some(DRIFT);
    let mut at_bound = transfer_arg(1, account(2));
    at_bound.created_at_time = Some(NOW - TX_WINDOW - DRIFT);
    let mut too_old = transfer_arg(2, account(2));
    too_old.created_at_time = Some(NOW - TX_WINDOW - DRIFT - 1);
    let mut future = transfer_arg(3, account(2));
    future.created_at_time = Some(NOW + DRIFT + 1);
    let results = state.icrc7_transfer(&principal(1), vec![at_bound, too_old, future], NOW);
    assert_eq!(
        results,
        vec![
            Some(Ok(4)),
            Some(Err(TransferError::TooOld)),
            Some(Err(TransferError::CreatedInFuture { ledger_time: NOW })),
        ]
    );
    let mut latest = transfer_arg(2, account(2));
    latest.created_at_time = Some(NOW + DRIFT);
    assert_eq!(state.icrc7_transfer(&principal(1), vec![latest], NOW), vec![Some(Ok(5))]);
}

#[test]
fn transfer_time_window_near_the_start_of_time() {
    let mut state = ledger_with(&[1]);
    let mut early = transfer_arg(1, account(2));
    early.created_at_time = Some(0);
    assert_eq!(state.icrc7_transfer(&principal(1), vec![early], 5), vec![Some(Ok(2))]);
}

#[test]
fn duplicate_transfer_detection() {
    let mut state = ledger_with(&[1]);
    let arg = TransferArg {
        from_subaccount: None,
        to: account(2),
        token_id: 1,
        memo: Some(vec![7]),
        created_at_time: Some(NOW),
    };
    assert_eq!(state.icrc7_transfer(&principal(1), vec![arg.clone()], NOW), vec![Some(Ok(2))]);
    assert_eq!(
        state.icrc7_transfer(&principal(1), vec![arg.clone()], NOW + 1),
        vec![Some(Err(TransferError::Duplicate { duplicate_of: 2 }))]
    );
    let mut other_memo = arg.clone();
    other_memo.memo = Some(vec![8]);
    assert_eq!(
        state.icrc7_transfer(&principal(1), vec![other_memo], NOW + 1),
        vec![Some(Err(TransferError::Unauthorized))]
    );
    let later = NOW + TX_WINDOW + DRIFT + 1;
    assert_eq!(
        state.icrc7_transfer(&principal(1), vec![arg], later),
        vec![Some(Err(TransferError::TooOld))]
    );
    assert_eq!(state.txn_log.len(), 2);
}

#[test]
fn duplicate_scan_stops_at_the_first_old_entry() {
    let mut state = ledger_with(&[1]);
    let arg = TransferArg {
        from_subaccount: None,
        to: account(2),
        token_id: 1,
        memo: None,
        created_at_time: Some(NOW),
    };
    assert_eq!(state.icrc7_transfer(&principal(1), vec![arg.clone()], NOW), vec![Some(Ok(2))]);
    // An entry from long ago, logged after the transfer, hides it from the scan.
    state.log_transaction(
        TransactionType::Burn { tid: 9, from: account(1), to: account(1) },
        0,
        None,
    );
    assert_eq!(
        state.icrc7_transfer(&principal(2), vec![arg], NOW),
        vec![Some(Err(TransferError::InvalidRecipient))]
    );
}

#[test]
fn approval_then_transfer_by_spender() {
    let mut state = ledger_with(&[1]);
    let a = principal(1);
    let b = principal(2);
    let c = account(3);
    assert_eq!(state.approve(&a, vec![approval_arg(1, account(2))], NOW), vec![Some(Ok(2))]);
    assert_eq!(
        state.tokens.get(1).unwrap().approvals,
        vec![Approval { account: account(2), expires_at: None }]
    );
    assert_eq!(state.icrc7_transfer(&b, vec![transfer_arg(1, c)], NOW), vec![Some(Ok(3))]);
    let token = state.tokens.get(1).unwrap();
    assert_eq!(token.token_owner, c);
    assert!(token.approvals.is_empty());
    assert_eq!(
        state.txn_log[2].txn_type,
        TransactionType::Transfer { tid: 1, from: account(2), to: c }
    );
}

#[test]
fn approvals_add_up_and_expire() {
    let mut state = ledger_with(&[1]);
    let mut expiring = approval_arg(1, account(2));
    expiring.expires_at = Some(NOW + 10);
    let results = state.approve(&principal(1), vec![expiring.clone(), expiring], NOW);
    assert_eq!(results, vec![Some(Ok(2)), Some(Ok(3))]);
    assert_eq!(state.tokens.get(1).unwrap().approvals.len(), 2);
    assert!(state.tokens.get(1).unwrap().approval_check(NOW + 10, &account(2)));
    assert!(!state.tokens.get(1).unwrap().approval_check(NOW + 11, &account(2)));
    assert!(!state.tokens.get(1).unwrap().approval_check(NOW, &account(3)));
    assert_eq!(
        state.icrc7_transfer(&principal(2), vec![transfer_arg(1, account(3))], NOW + 11),
        vec![Some(Err(TransferError::Unauthorized))]
    );
    assert_eq!(
        state.icrc7_transfer(&principal(2), vec![transfer_arg(1, account(3))], NOW + 10),
        vec![Some(Ok(4))]
    );
}

#[test]
fn approval_errors() {
    let mut state = ledger_with(&[1]);
    let mut long_memo = approval_arg(1, account(2));
    long_memo.memo = Some(vec![0u8; 33]);
    let results = state.approve(
        &principal(1),
        vec![approval_arg(1, account(1)), long_memo, approval_arg(8, account(2))],
        NOW,
    );
    assert_eq!(
        results,
        vec![
            Some(Err(ApprovalError::InvalidSpender)),
            Some(Err(ApprovalError::GenericError {
                error_code: 3,
                message: "Exceeds Max Memo Size".to_string()
            })),
            Some(Err(ApprovalError::NonExistingTokenId)),
        ]
    );
    assert_eq!(
        state.approve(&principal(2), vec![approval_arg(1, account(3))], NOW),
        vec![Some(Err(ApprovalError::Unauthorized { tokens_ids: vec![1] }))]
    );
    assert_eq!(
        state.approve(&principal(1), vec![], NOW),
        vec![Some(Err(ApprovalError::GenericBatchError {
            error_code: 1,
            message: "No Arguments Provided".to_string()
        }))]
    );
    assert_eq!(
        state.approve(
            &Principal::anonymous(),
            vec![approval_arg(1, account(2)), approval_arg(1, account(2))],
            NOW
        ),
        vec![
            Some(Err(ApprovalError::GenericBatchError {
                error_code: 100,
                message: "Anonymous Identity".to_string()
            })),
            None
        ]
    );
    assert_eq!(state.txn_log.len(), 1);
}

#[test]
fn burn_leaves_owner_unable_to_act() {
    let mut state = ledger_with(&[1]);
    let a = principal(1);
    assert_eq!(state.approve(&a, vec![approval_arg(1, account(2))], NOW), vec![Some(Ok(2))]);
    assert_eq!(state.burn(&a, vec![burn_arg(1)], NOW), vec![Some(Ok(3))]);
    let token = state.tokens.get(1).unwrap();
    assert_eq!(token.token_owner, burn_account());
    assert_eq!(token.token_owner.owner, Principal::management_canister());
    assert_eq!(token.approvals.len(), 1);
    assert_eq!(
        state.txn_log[2].txn_type,
        TransactionType::Burn { tid: 1, from: account(1), to: burn_account() }
    );
    assert_eq!(
        state.icrc7_transfer(&a, vec![transfer_arg(1, account(3))], NOW),
        vec![Some(Err(TransferError::Unauthorized))]
    );
    assert_eq!(state.burn(&a, vec![burn_arg(1)], NOW), vec![Some(Err(BurnError::Unauthorized))]);
    assert_eq!(state.tokens.len(), 1);
}

#[test]
fn burn_errors() {
    let mut state = ledger_with(&[1]);
    let mut long_memo = burn_arg(1);
    long_memo.memo = Some(vec![0u8; 33]);
    assert_eq!(
        state.burn(&principal(1), vec![long_memo, burn_arg(4)], NOW),
        vec![
            Some(Err(BurnError::GenericError {
                error_code: 3,
                message: "Exceeds Max Memo Length".to_string()
            })),
            Some(Err(BurnError::NonExistingTokenId)),
        ]
    );
    assert_eq!(
        state.burn(&principal(1), vec![], NOW),
        vec![Some(Err(BurnError::GenericBatchError {
            error_code: 1,
            message: "No Arguments Provided".to_string()
        }))]
    );
    assert_eq!(
        state.burn(&Principal::anonymous(), vec![burn_arg(1)], NOW),
        vec![Some(Err(BurnError::GenericBatchError {
            error_code: 100,
            message: "Anonymous Identity".to_string()
        }))]
    );
    state.icrc7_atomic_batch_transfers = Some(true);
    assert_eq!(
        state.burn(&principal(1), vec![burn_arg(1), burn_arg(4)], NOW),
        vec![None, Some(Err(BurnError::NonExistingTokenId))]
    );
    assert_eq!(state.tokens.get(1).unwrap().token_owner, account(1));
}

#[test]
fn atomic_batch_short_circuit() {
    let batch = || {
        vec![transfer_arg(1, account(2)), transfer_arg(99, account(2)), transfer_arg(3, account(2))]
    };
    let mut atomic = ledger_with(&[1, 2, 3]);
    atomic.icrc7_atomic_batch_transfers = Some(true);
    let results = atomic.icrc7_transfer(&principal(1), batch(), NOW);
    assert_eq!(results, vec![None, Some(Err(TransferError::NonExistingTokenId)), None]);
    assert_eq!(atomic.tokens.get(1).unwrap().token_owner, account(1));
    assert_eq!(atomic.tokens.get(3).unwrap().token_owner, account(1));
    assert_eq!(atomic.txn_log.len(), 3);
    assert_eq!(atomic.txn_count, 3);

    let mut plain = ledger_with(&[1, 2, 3]);
    plain.icrc7_atomic_batch_transfers = Some(false);
    let results = plain.icrc7_transfer(&principal(1), batch(), NOW);
    assert_eq!(
        results,
        vec![Some(Ok(4)), Some(Err(TransferError::NonExistingTokenId)), Some(Ok(5))]
    );
    assert_eq!(plain.tokens.get(1).unwrap().token_owner, account(2));
    assert_eq!(plain.tokens.get(2).unwrap().token_owner, account(1));
    assert_eq!(plain.tokens.get(3).unwrap().token_owner, account(2));
    assert_eq!(plain.txn_log.len(), 5);

    let mut unset = ledger_with(&[1, 2, 3]);
    let results = unset.icrc7_transfer(&principal(1), batch(), NOW);
    assert_eq!(
        results,
        vec![Some(Ok(4)), Some(Err(TransferError::NonExistingTokenId)), Some(Ok(5))]
    );
}

#[test]
fn an_atomic_batch_without_failures_is_applied() {
    let mut state = ledger_with(&[1, 2]);
    state.icrc7_atomic_batch_transfers = Some(true);
    let results = state.icrc7_transfer(
        &principal(1),
        vec![transfer_arg(1, account(2)), transfer_arg(2, account(3))],
        NOW,
    );
    assert_eq!(results, vec![Some(Ok(3)), Some(Ok(4))]);
}

#[test]
fn items_are_checked_before_any_is_applied() {
    let mut state = ledger_with(&[1]);
    let results = state.icrc7_transfer(
        &principal(1),
        vec![transfer_arg(1, account(2)), transfer_arg(1, account(3))],
        NOW,
    );
    assert_eq!(results, vec![Some(Ok(2)), Some(Ok(3))]);
    assert_eq!(state.tokens.get(1).unwrap().token_owner, account(3));
}

#[test]
fn transfer_errors() {
    let mut state = ledger_with(&[1]);
    assert_eq!(
        state.icrc7_transfer(&principal(1), vec![], NOW),
        vec![Some(Err(TransferError::GenericBatchError {
            error_code: 1,
            message: "No Arguments Provided".to_string()
        }))]
    );
    let many: Vec<TransferArg> = (0..33).map(|_| transfer_arg(1, account(2))).collect();
    let results = state.icrc7_transfer(&principal(1), many, NOW);
    assert_eq!(results.len(), 33);
    assert_eq!(
        results[0],
        Some(Err(TransferError::GenericBatchError {
            error_code: 2,
            message: "Exceed Max allowed Update Batch Size".to_string()
        }))
    );
    assert!(results[1..].iter().all(|r| r.is_none()));
    state.icrc7_max_update_batch_size = Some(1);
    let results = state.icrc7_transfer(
        &principal(1),
        vec![transfer_arg(1, account(2)), transfer_arg(1, account(2))],
        NOW,
    );
    assert_eq!(
        results[0],
        Some(Err(TransferError::GenericBatchError {
            error_code: 2,
            message: "Exceed Max allowed Update Batch Size".to_string()
        }))
    );
    state.icrc7_max_update_batch_size = None;
    assert_eq!(
        state.icrc7_transfer(
            &Principal::anonymous(),
            vec![transfer_arg(1, account(2)), transfer_arg(1, account(2))],
            NOW
        ),
        vec![
            Some(Err(TransferError::GenericBatchError {
                error_code: 100,
                message: "Anonymous Identity".to_string()
            })),
            None
        ]
    );
    let mut long_memo = transfer_arg(1, account(2));
    long_memo.memo = Some(vec![0u8; 33]);
    let results = state.icrc7_transfer(
        &principal(1),
        vec![
            transfer_arg(5, account(2)),
            long_memo,
            transfer_arg(1, Account { owner: principal(1), subaccount: Some([0u8; 32]) }),
        ],
        NOW,
    );
    assert_eq!(
        results,
        vec![
            Some(Err(TransferError::NonExistingTokenId)),
            Some(Err(TransferError::GenericError {
                error_code: 3,
                message: "Exceeds Max Memo Size".to_string()
            })),
            Some(Err(TransferError::InvalidRecipient)),
        ]
    );
    assert_eq!(
        state.icrc7_transfer(&principal(2), vec![transfer_arg(1, account(3))], NOW),
        vec![Some(Err(TransferError::Unauthorized))]
    );
    assert_eq!(state.tokens.get(1).unwrap().token_owner, account(1));
    assert_eq!(state.txn_log.len(), 1);
}

#[test]
fn a_transfer_from_a_subaccount_needs_the_token_there() {
    let mut state = ledger_with(&[1]);
    let mut sub = [0u8; 32];
    sub[0] = 7;
    let mut arg = transfer_arg(1, account(2));
    arg.from_subaccount = Some(sub);
    assert_eq!(
        state.icrc7_transfer(&principal(1), vec![arg], NOW),
        vec![Some(Err(TransferError::Unauthorized))]
    );
    let mut zero = transfer_arg(1, account(2));
    zero.from_subaccount = Some([0u8; 32]);
    assert_eq!(state.icrc7_transfer(&principal(1), vec![zero], NOW), vec![Some(Ok(2))]);
    assert_eq!(state.txn_log[1].at, NOW);
}

#[test]
fn pagination_cursor_semantics() {
    let ids: Vec<u128> = vec![3, 5, 8, 13, 21, 34, 55, 89, 144, 233, 377, 610];
    let state = ledger_with(&ids);
    assert_eq!(state.icrc7_tokens(None, Some(5)), vec![3, 5, 8, 13, 21]);
    assert_eq!(state.icrc7_tokens(Some(21), Some(5)), vec![34, 55, 89, 144, 233]);
    assert_eq!(state.icrc7_tokens(Some(233), Some(5)), vec![377, 610]);
    assert_eq!(state.icrc7_tokens(Some(610), Some(5)), Vec::<u128>::new());
    assert_eq!(state.icrc7_tokens(Some(4), Some(5)), Vec::<u128>::new());
    assert_eq!(state.icrc7_tokens(None, None), ids);
    assert_eq!(state.icrc7_tokens(None, Some(0)), Vec::<u128>::new());
    assert_eq!(state.icrc7_tokens(None, Some(32)), ids);
}

#[test]
fn tokens_come_out_in_ascending_order_whatever_the_order_of_minting() {
    let mut state = ledger_with(&[10]);
    state.next_token_id = 0;
    assert!(state.mint(&principal(9), mint_arg(4, account(2)), NOW).is_ok());
    state.next_token_id = 0;
    assert!(state.mint(&principal(9), mint_arg(7, account(1)), NOW).is_ok());
    assert_eq!(state.icrc7_tokens(None, None), vec![4, 7, 10]);
    assert_eq!(state.icrc7_tokens_of(account(1), None, None), vec![7, 10]);
    assert_eq!(state.icrc7_tokens_of(account(1), Some(7), Some(1)), vec![10]);
    assert_eq!(state.icrc7_tokens_of(account(1), Some(4), Some(1)), Vec::<u128>::new());
    assert_eq!(state.icrc7_tokens_of(account(2), None, Some(3)), vec![4]);
    assert_eq!(state.icrc7_tokens_of(account(3), None, None), Vec::<u128>::new());
    assert_eq!(state.icrc7_balance_of(&[account(1), account(2), account(3)]), vec![2, 1, 0]);
    assert_eq!(
        state.icrc7_owner_of(&[4, 5, 10]),
        vec![Some(account(2)), None, Some(account(1))]
    );
}

#[test]
fn token_metadata_lists_name_symbol_description_logo() {
    let mut state = State::new();
    state.minting_authority = Some(account(9));
    let mut arg = mint_arg(1, account(1));
    arg.token_name = Some("Gold".to_string());
    arg.token_description = Some("shiny".to_string());
    arg.token_logo = Some("logo-id".to_string());
    assert!(state.mint(&principal(9), arg, NOW).is_ok());
    assert!(state.mint(&principal(9), mint_arg(2, account(1)), NOW).is_ok());
    let metadata = state.icrc7_token_metadata(&[1, 7, 2]);
    assert_eq!(
        metadata[0],
        Some(vec![
            ("Name".to_string(), MetadataValue::Text("Gold".to_string())),
            ("Symbol".to_string(), MetadataValue::Text("Gold".to_string())),
            ("Description".to_string(), MetadataValue::Text("shiny".to_string())),
            ("logo".to_string(), MetadataValue::Text("logo-id".to_string())),
        ])
    );
    assert_eq!(metadata[1], None);
    assert_eq!(
        metadata[2],
        Some(vec![
            ("Name".to_string(), MetadataValue::Text("ICRC7 2".to_string())),
            ("Symbol".to_string(), MetadataValue::Text("ICRC7 2".to_string())),
        ])
    );
}

#[test]
fn settings_are_read_back() {
    let mut state = State::new();
    assert_eq!(state.icrc7_symbol(), "ICRC7");
    assert_eq!(state.icrc7_name(), "ICRC7 Collection");
    assert_eq!(state.icrc7_description(), None);
    assert_eq!(state.icrc7_logo(), None);
    assert_eq!(state.icrc7_supply_cap(), None);
    assert_eq!(state.icrc7_minting_authority(), None);
    assert_eq!(state.icrc7_max_query_batch_size(), None);
    assert_eq!(state.icrc7_max_update_batch_size(), None);
    assert_eq!(state.icrc7_default_take_value(), None);
    assert_eq!(state.icrc7_max_take_value(), None);
    assert_eq!(state.icrc7_max_memo_size(), None);
    assert_eq!(state.icrc7_atomic_batch_transfers(), None);
    state.icrc7_description = Some("d".to_string());
    state.icrc7_max_memo_size = Some(2);
    assert_eq!(state.icrc7_description(), Some("d".to_string()));
    assert_eq!(state.icrc7_max_memo_size(), Some(2));
    let standards = icrc7_platform::queries::icrc7_supported_standards();
    assert_eq!(standards.len(), 1);
    assert_eq!(standards[0].name, "ICRC-7");
    assert_eq!(standards[0].url, "https://github.com/dfinity/ICRC/ICRCs/ICRC-7");
}

#[test]
fn a_transfer_batch_is_bounded_by_the_update_batch_size() {
    let mut state = State::new();
    state.icrc7_max_update_batch_size = Some(1);
    state.icrc7_max_query_batch_size = Some(5);
    let caller = Principal::from_slice(&[1]);
    let to = Account { owner: Principal::from_slice(&[2]), subaccount: None };
    let results =
        state.icrc7_transfer(&caller, vec![transfer_arg(1, to), transfer_arg(2, to)], NOW);
    assert_eq!(
        results,
        vec![
            Some(Err(TransferError::GenericBatchError {
                error_code: 2,
                message: "Exceed Max allowed Update Batch Size".to_string()
            })),
            None
        ]
    );
    assert_eq!(state.txn_count, 0);
    // Within the update limit the items are checked, whatever the query limit.
    state.icrc7_max_update_batch_size = Some(2);
    state.icrc7_max_query_batch_size = Some(1);
    let results =
        state.icrc7_transfer(&caller, vec![transfer_arg(1, to), transfer_arg(2, to)], NOW);
    assert_eq!(
        results,
        vec![
            Some(Err(TransferError::NonExistingTokenId)),
            Some(Err(TransferError::NonExistingTokenId))
        ]
    );
}

#[test]
fn the_anonymous_caller_gets_its_own_code_within_the_update_limit() {
    let mut state = ledger_with(&[1, 2]);
    state.icrc7_max_update_batch_size = Some(2);
    state.icrc7_max_query_batch_size = Some(1);
    let batch = || vec![transfer_arg(1, account(2)), transfer_arg(2, account(2))];
    let results = state.icrc7_transfer(&Principal::anonymous(), batch(), NOW);
    assert_eq!(
        results,
        vec![
            Some(Err(TransferError::GenericBatchError {
                error_code: 100,
                message: "Anonymous Identity".to_string()
            })),
            None
        ]
    );
    assert_eq!(state.txn_log.len(), 2);
    assert_eq!(state.tokens.get(1).unwrap().token_owner, account(1));
    // Above the update limit the size is what is reported, also to the
    // anonymous caller.
    state.icrc7_max_update_batch_size = Some(1);
    let results = state.icrc7_transfer(&Principal::anonymous(), batch(), NOW);
    assert_eq!(
        results[0],
        Some(Err(TransferError::GenericBatchError {
            error_code: 2,
            message: "Exceed Max allowed Update Batch Size".to_string()
        }))
    );
}

#[test]
fn refused_calls_need_no_room_in_the_counters() {
    let mut state = ledger_with(&[1]);
    state.txn_count = u128::MAX;
    state.icrc7_supply_cap = Some(0);
    assert_eq!(
        state.mint(&principal(9), mint_arg(u128::MAX, account(1)), NOW),
        Err(MintError::SupplyCapReached)
    );
    assert_eq!(
        state.icrc7_transfer(&principal(2), vec![transfer_arg(1, account(3))], NOW),
        vec![Some(Err(TransferError::Unauthorized))]
    );
    assert_eq!(
        state.burn(&principal(2), vec![burn_arg(1)], NOW),
        vec![Some(Err(BurnError::Unauthorized))]
    );
    assert_eq!(
        state.approve(&principal(1), vec![approval_arg(1, account(1))], NOW),
        vec![Some(Err(ApprovalError::InvalidSpender))]
    );
    assert_eq!(state.txn_count, u128::MAX);
    assert_eq!(state.txn_log.len(), 1);
}

#[test]
fn a_plain_batch_numbers_the_items_that_passed() {
    let mut state = ledger_with(&[1, 2, 3]);
    let n = state.txn_count;
    let results = state.icrc7_transfer(
        &principal(1),
        vec![
            transfer_arg(1, Account { owner: principal(2), subaccount: Some([0u8; 32]) }),
            transfer_arg(99, account(2)),
            transfer_arg(3, account(4)),
        ],
        NOW,
    );
    assert_eq!(
        results,
        vec![Some(Ok(n + 1)), Some(Err(TransferError::NonExistingTokenId)), Some(Ok(n + 2))]
    );
    assert_eq!(state.txn_count, n + 2);
    assert_eq!(state.tokens.get(1).unwrap().token_owner.subaccount, None);
    assert_eq!(state.tokens.get(1).unwrap().token_owner, account(2));
    assert_eq!(state.tokens.get(2).unwrap().token_owner, account(1));
    assert_eq!(state.tokens.get(3).unwrap().token_owner, account(4));
    assert_eq!(state.tokens.get(3).unwrap().token_name, "ICRC7 3");
}
