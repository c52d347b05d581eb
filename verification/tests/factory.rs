use icrc7_platform::account::Account;
use icrc7_platform::factory::{
    check_collection_ownership, create_request, get_collections,
    get_user_collections, insert_collection, instance_created, ledger_installed, show_collections,
    Registry, Rejection, RejectionCode, PROVISIONING_CYCLES,
};
use icrc7_platform::identity::Principal;
use icrc7_platform::types::Arg;

fn principal(n: u8) -> Principal {
    Principal::from_slice(&[n, 0, 0, 0, 0, 0, 0, 0, 1, 1])
}

fn settings() -> Arg {
    Arg {
        icrc7_symbol: "ICP".to_string(),
        icrc7_name: "A collection".to_string(),
        icrc7_description: None,
        icrc7_logo: None,
        icrc7_supply_cap: None,
        icrc7_max_query_batch_size: None,
        icrc7_max_update_batch_size: None,
        icrc7_max_take_value: None,
        icrc7_default_take_value: None,
        icrc7_max_memo_size: None,
        icrc7_atomic_batch_transfers: None,
        tx_window: None,
        permitted_drift: None,
    }
}

#[test]
fn factory_registry_consistency() {
    let owner = principal(1);
    let account = Account { owner, subaccount: None };
    let mut registry = Registry::new();
    let first = ledger_installed(&mut registry, Ok(()), &account, principal(10));
    let second = ledger_installed(&mut registry, Ok(()), &account, principal(11));
    assert_eq!(first, Ok(principal(10)));
    assert_eq!(second, Ok(principal(11)));
    assert!(first != second);
    let all = show_collections(&registry);
    assert_eq!(all, vec![(principal(10), owner), (principal(11), owner)]);
    assert_eq!(get_user_collections(&registry, owner), vec![principal(10), principal(11)]);
    assert_eq!(get_user_collections(&registry, principal(2)), Vec::<Principal>::new());
    assert!(check_collection_ownership(&registry, principal(10), owner));
    assert!(check_collection_ownership(&registry, principal(11), owner));
    assert!(!check_collection_ownership(&registry, principal(10), principal(2)));
    assert!(!check_collection_ownership(&registry, principal(12), owner));
}

#[test]
fn a_collection_has_one_owner() {
    let mut registry = Registry::new();
    insert_collection(&mut registry, principal(1), principal(10));
    insert_collection(&mut registry, principal(2), principal(11));
    insert_collection(&mut registry, principal(2), principal(10));
    assert_eq!(
        get_collections(&registry),
        vec![(principal(10), principal(2)), (principal(11), principal(2))]
    );
    assert_eq!(get_user_collections(&registry, principal(1)), Vec::<Principal>::new());
    assert_eq!(get_user_collections(&registry, principal(2)), vec![principal(10), principal(11)]);
}

#[test]
fn provisioning_asks_for_an_instance_with_two_controllers() {
    let account = Account { owner: principal(1), subaccount: None };
    let request = create_request(principal(99), &account);
    assert_eq!(request.controllers, vec![principal(99), principal(1)]);
    assert_eq!(request.cycles, 13_846_203_070);
    assert_eq!(request.cycles, PROVISIONING_CYCLES);
    assert_eq!(request.cycles, 7_692_307_692 + 6_153_895_378);
}

#[test]
fn provisioning_installs_into_the_new_instance() {
    let account = Account { owner: principal(1), subaccount: None };
    let install = instance_created(Ok(principal(10)), account, settings()).unwrap();
    assert_eq!(install.canister_id, principal(10));
    assert_eq!(install.minting_account, account);
    assert_eq!(install.arg, settings());
}

#[test]
fn a_rejected_step_ends_provisioning_with_code_and_message() {
    let account = Account { owner: principal(1), subaccount: None };
    let refused = instance_created(
        Err(Rejection { code: RejectionCode::SysTransient, message: "out of cycles".to_string() }),
        account,
        settings(),
    );
    assert_eq!(
        refused.unwrap_err(),
        "Rejection Code: SysTransient, Message: \"out of cycles\""
    );
    let mut registry = Registry::new();
    let failed = ledger_installed(
        &mut registry,
        Err(Rejection { code: RejectionCode::CanisterError, message: "trap".to_string() }),
        &account,
        principal(10),
    );
    assert_eq!(failed, Err("Code: CanisterError, Message: \"trap\"".to_string()));
    assert_eq!(show_collections(&registry), vec![]);
    assert_eq!(RejectionCode::NoError.name(), "NoError");
    assert_eq!(RejectionCode::SysFatal.name(), "SysFatal");
    assert_eq!(RejectionCode::DestinationInvalid.name(), "DestinationInvalid");
    assert_eq!(RejectionCode::CanisterReject.name(), "CanisterReject");
    assert_eq!(RejectionCode::Unknown.name(), "Unknown");
}

#[test]
fn the_registry_is_guarded_against_the_anonymous_caller() {
    let backend = principal(5);
    assert_eq!(icrc7_platform::identity::not_anonymous_caller(&backend), Ok(()));
    assert_eq!(
        icrc7_platform::identity::not_anonymous_caller(&Principal::anonymous()),
        Err("Caller is anonymous.".to_string())
    );
    assert_eq!(Principal::whoami(&backend), backend.to_text());
}
