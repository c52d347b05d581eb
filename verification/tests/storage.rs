use icrc7_platform::archive::{
    begin_archive, finish_archive, icrc7_set_archive_log_canister, icrc7_set_minting_authority,
    owner_guard, sync_receipt,
};
use icrc7_platform::account::Account;
use icrc7_platform::cycles::{cycles_to_accept, wallet_receive};
use icrc7_platform::errors::InsertTransactionError;
use icrc7_platform::icrc7_types::{MintArg, TransactionType};
use icrc7_platform::identity::Principal;
use icrc7_platform::state::State;
use icrc7_platform::text_map::TextMap;

const NOW: u64 = 1_700_000_000_000_000_000;

fn principal(n: u8) -> Principal {
    Principal::from_slice(&[n, n, n])
}

fn account(n: u8) -> Account {
    Account { owner: principal(n), subaccount: None }
}

fn ledger_with_entries(n: u128) -> State {
    let mut state = State::new();
    assert!(icrc7_set_minting_authority(&mut state, account(9)));
    for id in 0..n {
        let arg = MintArg {
            from_subaccount: None,
            to: account(1),
            token_id: id,
            memo: None,
            token_name: None,
            token_description: None,
            token_logo: None,
        };
        assert_eq!(state.mint(&principal(9), arg, NOW + id as u64), Ok(id + 1));
    }
    state
}

#[test]
fn log_pages_are_counted_from_one() {
    let state = ledger_with_entries(7);
    let ids = |page: u32, size: u32| -> Vec<u128> {
        state.icrc7_txn_logs(page, size).iter().map(|t| t.txn_id).collect()
    };
    assert_eq!(ids(1, 3), vec![1, 2, 3]);
    assert_eq!(ids(2, 3), vec![4, 5, 6]);
    assert_eq!(ids(3, 3), vec![7]);
    assert_eq!(ids(1, 0), Vec::<u128>::new());
    assert_eq!(ids(8, 1), Vec::<u128>::new());
    assert_eq!(ids(1, 100), vec![1, 2, 3, 4, 5, 6, 7]);
    let entry = &state.icrc7_txn_logs(2, 3)[0];
    assert_eq!(entry.at, NOW + 3);
    assert_eq!(entry.txn_type, TransactionType::Mint { tid: 3, from: account(9), to: account(1) });
    assert_eq!(state.get_txn_logs(2).len(), 2);
    assert_eq!(state.get_txn_logs(0).len(), 0);
    assert_eq!(state.get_txn_logs(50).len(), 7);
    assert_eq!(state.get_current_txn_count(), 7);
}

#[test]
fn archival_needs_a_target_and_is_not_reentrant() {
    let mut state = ledger_with_entries(3);
    assert_eq!(begin_archive(&mut state).unwrap_err(), InsertTransactionError::NotSetArchiveCanister);
    assert!(icrc7_set_archive_log_canister(&mut state, principal(8)));
    assert_eq!(state.get_archive_log_canister(), Some(principal(8)));
    let request = begin_archive(&mut state).unwrap();
    assert_eq!(request.target, principal(8));
    assert_eq!(request.ids, vec![1, 2, 3]);
    assert_eq!(request.logs.len(), 3);
    assert_eq!(request.logs[2].txn_id, 3);
    assert_eq!(state.get_sync_pending_txn_ids(), Some(vec![1, 2, 3]));
    assert_eq!(begin_archive(&mut state).unwrap_err(), InsertTransactionError::SyncPending);
    assert_eq!(state.txn_log.len(), 3);
}

#[test]
fn a_failed_archival_keeps_the_entries() {
    let mut state = ledger_with_entries(3);
    icrc7_set_archive_log_canister(&mut state, principal(8));
    let request = begin_archive(&mut state).unwrap();
    assert_eq!(
        finish_archive(&mut state, &request.ids, false),
        Err(InsertTransactionError::RemoteError)
    );
    assert_eq!(state.get_sync_pending_txn_ids(), None);
    assert_eq!(state.txn_log.len(), 3);
    assert_eq!(state.archive_txn_count, 0);
    let again = begin_archive(&mut state).unwrap();
    assert_eq!(again.ids, vec![1, 2, 3]);
}

#[test]
fn a_delivered_archival_removes_the_entries() {
    let mut state = ledger_with_entries(205);
    icrc7_set_archive_log_canister(&mut state, principal(8));
    let request = begin_archive(&mut state).unwrap();
    assert_eq!(request.ids.len(), 200);
    assert_eq!(request.ids[0], 1);
    assert_eq!(request.ids[199], 200);
    assert_eq!(finish_archive(&mut state, &request.ids, true), Ok(200));
    assert_eq!(state.get_sync_pending_txn_ids(), None);
    assert_eq!(state.archive_txn_count, 200);
    assert_eq!(state.txn_count, 205);
    assert_eq!(state.get_current_txn_count(), 5);
    let left: Vec<u128> = state.txn_log.iter().map(|t| t.txn_id).collect();
    assert_eq!(left, vec![201, 202, 203, 204, 205]);
    assert_eq!(state.mint(
        &principal(9),
        MintArg {
            from_subaccount: None,
            to: account(1),
            token_id: 500,
            memo: None,
            token_name: None,
            token_description: None,
            token_logo: None,
        },
        NOW
    ), Ok(206));
    assert_eq!(sync_receipt(200, true), Ok(200));
    assert_eq!(sync_receipt(200, false), Err(InsertTransactionError::RemoteError));
}

#[test]
fn pending_ids_can_be_set_and_cleared() {
    let mut state = State::new();
    assert!(state.set_sync_pending_txn_ids(Some(vec![4, 5])));
    assert_eq!(state.get_sync_pending_txn_ids(), Some(vec![4, 5]));
    assert!(state.remove_txn_logs(&vec![4, 5]));
    assert_eq!(state.get_sync_pending_txn_ids(), None);
    assert_eq!(state.archive_txn_count, 2);
    assert_eq!(state.get_current_txn_count(), 0);
}

#[test]
fn the_minting_authority_is_stored_in_canonical_form() {
    let mut state = State::new();
    let explicit = Account { owner: principal(9), subaccount: Some([0u8; 32]) };
    assert!(icrc7_set_minting_authority(&mut state, explicit));
    assert_eq!(state.icrc7_minting_authority().unwrap().subaccount, None);
    assert_eq!(state.icrc7_minting_authority(), Some(account(9)));
}

#[test]
fn administrative_operations_are_for_controllers() {
    assert_eq!(owner_guard(true), Ok(()));
    assert_eq!(owner_guard(false), Err("Caller is not a controller.".to_string()));
}

#[test]
fn attached_resource_units_are_accepted_in_full() {
    assert_eq!(cycles_to_accept(12_345), 12_345);
    assert_eq!(wallet_receive(0, 0).accepted(), 0);
    assert_eq!(wallet_receive(12_345, 12_345).accepted(), 12_345);
    assert_eq!(wallet_receive((1u128 << 64) + 3, (1u128 << 64) + 3).accepted(), 3);
}

#[test]
fn text_map_stores_replaces_and_removes() {
    let mut map: TextMap<String> = TextMap::new();
    assert_eq!(map.len(), 0);
    map.insert("a".to_string(), "1".to_string());
    map.insert("b".to_string(), "2".to_string());
    map.insert("a".to_string(), "3".to_string());
    assert_eq!(map.len(), 2);
    assert_eq!(map.get("a"), Some(&"3".to_string()));
    assert_eq!(map.get("b"), Some(&"2".to_string()));
    assert_eq!(map.get("c"), None);
    assert!(map.contains_key("b"));
    assert_eq!(map.find("b"), Some(1));
    assert_eq!(map.entry(0), (&"a".to_string(), &"3".to_string()));
    map.remove("a");
    map.remove("zz");
    assert_eq!(map.len(), 1);
    assert!(!map.contains_key("a"));
    map.clear();
    assert_eq!(map.len(), 0);
}
