use icrc7_platform::account::Account;
use icrc7_platform::aggregation::{
    collection_reply, get_token_metadata, get_user_icrc7_collections, get_user_tokens_collection,
    icrc7_transfer,
};
use icrc7_platform::errors::{MintError, TransferError};
use icrc7_platform::events::{
    assign_event_to_group, assign_nft_for_event, create_event, get_all_events, remove_event,
};
use icrc7_platform::groups::{
    assign_nft_to_group_member, get_all_groups, get_group_members, group_already_present,
    remove_all_groups, remove_group, subscribe_group,
};
use icrc7_platform::icrc7_types::{MetadataValue, MintArg};
use icrc7_platform::identity::Principal;
use icrc7_platform::issuance::{Action, Issuance, Occasion, Phase, Reply};
use icrc7_platform::memory::{
    get_collections, get_current_token_id, get_event_by_id, get_events_collection,
    get_group_by_id, increase_token_id, insert_collection, insert_event_in_collection,
    remove_entry, remove_event_from_collection, Storage,
};
use icrc7_platform::mint::icrc7_mint;
use icrc7_platform::state::State;
use icrc7_platform::types::{Event, Group, Member, OperationCode, RequestResult};
use icrc7_platform::uuid::uuidv4;

const NOW: u64 = 1_700_000_000_000_000_000;

fn principal(n: u8) -> Principal {
    Principal::from_slice(&[n, 0, 0, 0, 0, 0, 0, 0, 1, 1])
}

fn app_id() -> Principal {
    principal(200)
}

fn member(name: &str, n: u8) -> Member {
    Member { name: name.to_string(), internet_identity: principal(n).to_text() }
}

/// The services behind the application layer: every collection that was
/// provisioned, with its ledger.
struct World {
    ledgers: Vec<(Principal, State)>,
    provisioned: u8,
    fail_mint_for: Option<Principal>,
}

impl World {
    fn new() -> World {
        World { ledgers: vec![], provisioned: 0, fail_mint_for: None }
    }

    fn perform(&mut self, action: Action) -> Reply {
        match action {
            Action::Provision { .. } => {
                self.provisioned += 1;
                let id = principal(100 + self.provisioned);
                self.ledgers.push((id, State::new()));
                Reply::Provisioned(Ok(id))
            }
            Action::SetAuthority { collection, owner } => {
                let ledger = self.ledgers.iter_mut().find(|(id, _)| *id == collection).unwrap();
                ledger.1.minting_authority = Some(Account { owner, subaccount: None });
                Reply::AuthoritySet(true)
            }
            Action::Mint { collection, arg, caller } => {
                if self.fail_mint_for == Some(arg.to.owner) {
                    return Reply::Minted(Err(MintError::Unauthorized));
                }
                let ledger = self.ledgers.iter_mut().find(|(id, _)| *id == collection).unwrap();
                Reply::Minted(icrc7_mint(&mut ledger.1, arg, caller, NOW))
            }
            Action::Finish(_) => unreachable!(),
        }
    }

    fn run(&mut self, storage: &mut Storage, mut issuance: Issuance) -> RequestResult<Vec<u128>> {
        loop {
            match issuance.action(storage) {
                Action::Finish(result) => return result,
                action => {
                    let reply = self.perform(action);
                    issuance.receive(storage, reply);
                }
            }
        }
    }
}

#[test]
fn orchestrator_per_member_fan_out() {
    let mut storage = Storage::new();
    let mut world = World::new();
    let invited = vec![member("ann", 1), member("bob", 2)];
    let issuance = subscribe_group(
        &mut storage,
        invited,
        "lea".to_string(),
        "climbers".to_string(),
        principal(3),
        app_id(),
        NOW,
    );
    let result = world.run(&mut storage, issuance);
    assert_eq!(result.code, 200);
    assert_eq!(result.message, "All NFTs has been minted");
    // Each ledger is fresh: its first mint is its first transaction.
    assert_eq!(result.body, vec![1, 1, 1]);
    assert_eq!(world.ledgers.len(), 3);
    assert_eq!(get_current_token_id(&storage), 3);
    let ids: Vec<Principal> = world.ledgers.iter().map(|(id, _)| *id).collect();
    assert!(ids[0] != ids[1] && ids[1] != ids[2] && ids[0] != ids[2]);
    for (k, (_, ledger)) in world.ledgers.iter().enumerate() {
        assert_eq!(ledger.tokens.len(), 1);
        let owner = Account { owner: principal(k as u8 + 1), subaccount: None };
        assert_eq!(ledger.icrc7_tokens_of(owner, None, None), vec![k as u128]);
        assert_eq!(ledger.icrc7_minting_authority().unwrap().owner, app_id());
    }
    let names = ["ann", "bob", "lea"];
    for (k, (_, ledger)) in world.ledgers.iter().enumerate() {
        let token = ledger.tokens.get(k as u128).unwrap();
        assert_eq!(
            token.token_description,
            Some(format!("Commemorative NFT for {} to join climbers group!", names[k]))
        );
        assert_eq!(token.token_logo, None);
    }
}

#[test]
fn a_failed_mint_ends_the_batch_without_rollback() {
    let mut storage = Storage::new();
    let mut world = World::new();
    world.fail_mint_for = Some(principal(2));
    let issuance = subscribe_group(
        &mut storage,
        vec![member("ann", 1), member("bob", 2)],
        "lea".to_string(),
        "climbers".to_string(),
        principal(3),
        app_id(),
        NOW,
    );
    let result = world.run(&mut storage, issuance);
    assert_eq!(result.code, 499);
    assert_eq!(result.message, "Error minting token for bob");
    assert_eq!(result.body, Vec::<u128>::new());
    assert_eq!(world.ledgers.len(), 2);
    assert_eq!(world.ledgers[0].1.tokens.len(), 1);
    let ann = Account { owner: principal(1), subaccount: None };
    assert_eq!(world.ledgers[0].1.tokens.get(0).unwrap().token_owner, ann);
    assert_eq!(world.ledgers[1].1.tokens.len(), 0);
    assert_eq!(get_current_token_id(&storage), 1);
    assert_eq!(get_all_groups(&storage).body.len(), 1);
}

#[test]
fn orchestrator_duplicate_group_name() {
    let mut storage = Storage::new();
    let mut world = World::new();
    let first = subscribe_group(
        &mut storage,
        vec![],
        "lea".to_string(),
        "climbers".to_string(),
        principal(3),
        app_id(),
        NOW,
    );
    assert_eq!(world.run(&mut storage, first).code, 200);
    assert!(group_already_present(&storage, "climbers".to_string()));
    assert!(!group_already_present(&storage, "Climbers".to_string()));
    let second = subscribe_group(
        &mut storage,
        vec![member("ann", 1)],
        "leo".to_string(),
        "climbers".to_string(),
        principal(4),
        app_id(),
        NOW + 1,
    );
    match second.action(&storage) {
        Action::Finish(result) => {
            assert_eq!(result.code, 400);
            assert_eq!(result.message, "Duplicate entry for climbers");
            assert_eq!(result.body, Vec::<u128>::new());
        }
        other => panic!("a duplicate asked for {:?}", other),
    }
    assert_eq!(get_collections(&storage).len(), 1);
    assert_eq!(world.ledgers.len(), 1);
    assert_eq!(get_current_token_id(&storage), 1);
}

#[test]
fn a_group_is_stored_with_its_leader_as_last_member() {
    let mut storage = Storage::new();
    let issuance = subscribe_group(
        &mut storage,
        vec![member("ann", 1)],
        "lea".to_string(),
        "climbers".to_string(),
        principal(3),
        app_id(),
        NOW,
    );
    assert_eq!(issuance.members.len(), 2);
    let groups = get_collections(&storage);
    assert_eq!(groups.len(), 1);
    let (id, group) = &groups[0];
    assert_eq!(*id, uuidv4(NOW));
    assert_eq!(group.group_name, "climbers");
    assert_eq!(group.group_leader, Account { owner: principal(3), subaccount: None });
    assert_eq!(group.group_members, vec![member("ann", 1), member("lea", 3)]);
    let members = get_group_members(&storage, id.clone());
    assert_eq!(members.code, 200);
    assert_eq!(members.message, format!("Group memebers for {}", id));
    assert_eq!(members.body, vec![member("ann", 1), member("lea", 3)]);
    assert_eq!(get_group_members(&storage, "nope".to_string()).body, vec![]);
    let found = get_group_by_id(&storage, id.clone());
    assert_eq!(found.code, 200);
    assert_eq!(found.message, format!("Correctly retrieved group {}", id));
    assert_eq!(found.body.group_name, "climbers");
    let missing = get_group_by_id(&storage, "nope".to_string());
    assert_eq!(missing.code, 404);
    assert_eq!(missing.message, "Not found group nope");
    assert_eq!(missing.body, Group::default());
    let all = get_all_groups(&storage);
    assert_eq!((all.code, all.message.as_str(), all.body.len()), (200, "All gorups", 1));
}

#[test]
fn groups_are_removed_by_id_or_all_at_once() {
    let mut storage = Storage::new();
    let group = |name: &str| Group {
        group_name: name.to_string(),
        group_leader: Account { owner: principal(1), subaccount: None },
        group_members: vec![],
    };
    insert_collection(&mut storage, "g1".to_string(), group("one"));
    insert_collection(&mut storage, "g2".to_string(), group("two"));
    insert_collection(&mut storage, "g3".to_string(), group("three"));
    let gone = remove_group(&mut storage, "g2".to_string());
    assert_eq!(
        (gone.code, gone.message.as_str(), gone.body.as_str()),
        (200, "Delete of the entry ok", "")
    );
    let missing = remove_group(&mut storage, "g2".to_string());
    assert_eq!(
        (missing.code, missing.message.as_str(), missing.body.as_str()),
        (404, "Not found group g2", "")
    );
    remove_entry(&mut storage, &"g1".to_string());
    remove_entry(&mut storage, &"g1".to_string());
    let left: Vec<String> = get_collections(&storage).into_iter().map(|(id, _)| id).collect();
    assert_eq!(left, vec!["g3"]);
    remove_all_groups(&mut storage);
    assert_eq!(get_collections(&storage).len(), 0);
    let not_found = assign_nft_to_group_member(&storage, "g3".to_string(), app_id());
    match not_found.action(&storage) {
        Action::Finish(result) => {
            assert_eq!(result.code, 404);
            assert_eq!(result.message, "Not found group with id = g3");
            assert_eq!(result.body, Vec::<u128>::new());
        }
        other => panic!("a missing group asked for {:?}", other),
    }
}

#[test]
fn events_are_stored_under_fresh_ids() {
    let mut storage = Storage::new();
    create_event(
        &mut storage,
        "Summit".to_string(),
        "the top".to_string(),
        MetadataValue::Text("picture".to_string()),
        NOW,
    );
    create_event(
        &mut storage,
        "Valley".to_string(),
        "the bottom".to_string(),
        MetadataValue::Blob(vec![1, 2, 3]),
        NOW + 1,
    );
    let all = get_all_events(&storage);
    assert_eq!((all.code, all.message.as_str()), (200, "All events"));
    assert_eq!(all.body.len(), 2);
    assert_eq!(all.body[0].id, uuidv4(NOW));
    assert_eq!(all.body[0].title, "Summit");
    assert_eq!(all.body[1].id, uuidv4(NOW + 1));
    assert_eq!(all.body[1].metadata, MetadataValue::Blob(vec![1, 2, 3]));
    assert_eq!(get_events_collection(&storage).len(), 2);
    let found = get_event_by_id(&storage, uuidv4(NOW));
    assert_eq!(found.code, 200);
    assert_eq!(found.message, format!("Correctly retrieved event {}", uuidv4(NOW)));
    assert_eq!(found.body.description, "the top");
    let missing = get_event_by_id(&storage, "nope".to_string());
    assert_eq!((missing.code, missing.message.as_str()), (404, "Not found event nope"));
    assert_eq!(missing.body, Event::default());
    let removed = remove_event(&mut storage, uuidv4(NOW));
    assert_eq!(
        (removed.code, removed.message.as_str(), removed.body.as_str()),
        (200, "Delete of the entry ok", "")
    );
    assert_eq!(remove_event(&mut storage, "nope".to_string()).code, 200);
    assert_eq!(get_all_events(&storage).body.len(), 1);
    remove_event_from_collection(&mut storage, uuidv4(NOW + 1));
    assert_eq!(get_all_events(&storage).body.len(), 0);
}

#[test]
fn event_tokens_go_to_the_members_given() {
    let mut storage = Storage::new();
    insert_event_in_collection(
        &mut storage,
        Event {
            id: "e1".to_string(),
            title: "Summit".to_string(),
            description: "the top".to_string(),
            metadata: MetadataValue::Text("picture".to_string()),
        },
    );
    increase_token_id(&mut storage);
    increase_token_id(&mut storage);
    let mut world = World::new();
    let issuance = assign_event_to_group(
        &storage,
        "e1".to_string(),
        vec![member("ann", 1), member("bob", 2)],
        app_id(),
    );
    match issuance.action(&storage) {
        Action::Provision { owner, name, description, logo } => {
            assert_eq!(owner, principal(1));
            assert_eq!(name, "Commemorative NFT for ann to partecipate at the event Summit!");
            assert_eq!(description, Some("Commemorative NFT for the event Summit".to_string()));
            assert_eq!(logo, Some("e1".to_string()));
        }
        other => panic!("the first action was {:?}", other),
    }
    let result = world.run(&mut storage, issuance);
    assert_eq!(result.code, 200);
    assert_eq!(result.body, vec![1, 1]);
    assert_eq!(get_current_token_id(&storage), 4);
    let (_, ledger) = &world.ledgers[1];
    assert_eq!(ledger.icrc7_minting_authority().unwrap().owner, principal(2));
    let token = ledger.tokens.get(3).unwrap();
    assert_eq!(token.token_owner.owner, principal(2));
    assert_eq!(token.token_logo, Some("e1".to_string()));
    assert_eq!(token.token_description, Some("Commemorative NFT for the event Summit".to_string()));
}

#[test]
fn event_issuance_reports_missing_events_and_failed_mints() {
    let mut storage = Storage::new();
    let missing = assign_event_to_group(&storage, "e9".to_string(), vec![member("ann", 1)], app_id());
    match missing.action(&storage) {
        Action::Finish(result) => {
            assert_eq!(result.code, 404);
            assert_eq!(result.message, "Cannot find event with ID = e9");
        }
        other => panic!("a missing event asked for {:?}", other),
    }
    insert_event_in_collection(
        &mut storage,
        Event {
            id: "e1".to_string(),
            title: "Summit".to_string(),
            description: String::new(),
            metadata: MetadataValue::Text(String::new()),
        },
    );
    let mut issuance =
        assign_nft_for_event(&storage, "e1".to_string(), None, vec![member("ann", 1)], app_id());
    issuance.receive(&mut storage, Reply::Provisioned(Ok(principal(50))));
    match issuance.action(&storage) {
        Action::SetAuthority { collection, owner } => {
            assert_eq!(collection, principal(50));
            assert_eq!(owner, principal(1));
        }
        other => panic!("after provisioning came {:?}", other),
    }
    // A reply that was not asked for changes nothing.
    issuance.receive(&mut storage, Reply::Minted(Ok(7)));
    assert!(matches!(issuance.phase, Phase::Authorizing { .. }));
    issuance.receive(&mut storage, Reply::AuthoritySet(true));
    issuance.receive(
        &mut storage,
        Reply::Minted(Err(MintError::GenericBatchError {
            error_code: 6,
            message: "Minting Authority Not Set".to_string(),
        })),
    );
    match issuance.action(&storage) {
        Action::Finish(result) => {
            assert_eq!(result.code, 499);
            assert_eq!(
                result.message,
                "Error minting NFT for user ann : GenericBatchError { error_code: 6, message: \"Minting Authority Not Set\" }"
            );
            assert_eq!(result.body, Vec::<u128>::new());
        }
        other => panic!("after the failure came {:?}", other),
    }
    issuance.receive(&mut storage, Reply::Minted(Ok(7)));
    assert!(matches!(issuance.phase, Phase::Finished));
    assert_eq!(issuance.code, 499);
    assert_eq!(get_current_token_id(&storage), 0);
    assert_eq!(MintError::Unauthorized.describe(), "Unauthorized");
    assert_eq!(MintError::SupplyCapReached.describe(), "SupplyCapReached");
    assert_eq!(MintError::TokenIdAlreadyExist.describe(), "TokenIdAlreadyExist");
    assert_eq!(MintError::TokenIdMinimumLimit.describe(), "TokenIdMinimumLimit");
    assert_eq!(
        MintError::GenericError { error_code: 7, message: "m".to_string() }.describe(),
        "GenericError { error_code: 7, message: \"m\" }"
    );
}

#[test]
fn a_sequence_without_members_has_nothing_to_do() {
    let storage = Storage::new();
    let issuance =
        Issuance::begin(Occasion::Group { group_name: "g".to_string() }, app_id(), vec![]);
    match issuance.action(&storage) {
        Action::Finish(result) => {
            assert_eq!((result.code, result.body.len()), (200, 0));
        }
        other => panic!("an empty sequence asked for {:?}", other),
    }
}

#[test]
fn a_member_with_malformed_identity_gets_the_anonymous_one() {
    let storage = Storage::new();
    let members = vec![Member { name: "eve".to_string(), internet_identity: "???".to_string() }];
    let mut issuance =
        Issuance::begin(Occasion::Group { group_name: "g".to_string() }, app_id(), members);
    let mut scratch = Storage::new();
    issuance.receive(&mut scratch, Reply::Provisioned(Ok(principal(50))));
    issuance.receive(&mut scratch, Reply::AuthoritySet(true));
    match issuance.action(&storage) {
        Action::Mint { collection, arg, caller } => {
            assert_eq!(collection, principal(50));
            assert_eq!(caller, app_id());
            assert_eq!(
                arg,
                MintArg {
                    from_subaccount: None,
                    to: Account { owner: Principal::anonymous(), subaccount: None },
                    token_id: 0,
                    memo: None,
                    token_name: None,
                    token_description: Some(
                        "Commemorative NFT for eve to join g group!".to_string()
                    ),
                    token_logo: None,
                }
            );
        }
        other => panic!("the third action was {:?}", other),
    }
}

#[test]
fn identifiers_are_tagged_hyphenated_hexadecimal() {
    let id = uuidv4(NOW);
    assert_eq!(id.len(), 36);
    let chars: Vec<char> = id.chars().collect();
    for (i, c) in chars.iter().enumerate() {
        if i == 8 || i == 13 || i == 18 || i == 23 {
            assert_eq!(*c, '-');
        } else {
            assert!(c.is_ascii_digit() || ('a'..='f').contains(c));
        }
    }
    assert_eq!(chars[14], '4');
    assert!(['8', '9', 'a', 'b'].contains(&chars[19]));
    assert_eq!(uuidv4(NOW), id);
    assert!(uuidv4(NOW + 1) != id);
    assert!(uuidv4(0) != uuidv4(1));
}

#[test]
fn tokens_of_a_user_are_merged_across_collections() {
    let caller = principal(1);
    let replies = vec![
        (principal(10), vec![1u128, 2]),
        (principal(11), vec![]),
        (principal(12), vec![2, 3]),
    ];
    let result = get_user_tokens_collection(&caller, &replies);
    assert_eq!(result.code, 200);
    assert_eq!(result.message, format!("Collection found for the user {}", caller.to_text()));
    assert_eq!(
        result.body,
        vec![
            (1, principal(10).to_text()),
            (2, principal(12).to_text()),
            (3, principal(12).to_text()),
        ]
    );
    assert_eq!(get_user_tokens_collection(&caller, &vec![]).body, vec![]);
}

#[test]
fn a_logo_entry_stands_for_an_event() {
    let mut storage = Storage::new();
    insert_event_in_collection(
        &mut storage,
        Event {
            id: "e1".to_string(),
            title: "Summit".to_string(),
            description: String::new(),
            metadata: MetadataValue::Blob(vec![9, 9]),
        },
    );
    let text = |s: &str| MetadataValue::Text(s.to_string());
    let metadata = |logo: MetadataValue| {
        vec![
            Some(vec![
                ("Name".to_string(), text("n")),
                ("logo".to_string(), logo),
                ("Symbol".to_string(), text("s")),
            ]),
            None,
            Some(vec![("Description".to_string(), text("d")), ("Logo".to_string(), text("e1"))]),
        ]
    };
    let resolved = get_token_metadata(&storage, 42, &metadata(text("e1")));
    assert_eq!(resolved.code, 200);
    assert_eq!(resolved.message, "Metadata for the token 42 found!");
    assert_eq!(
        resolved.body,
        vec![text("n"), MetadataValue::Blob(vec![9, 9]), text("s"), text("d"), text("e1")]
    );
    let unknown = get_token_metadata(&storage, 42, &metadata(text("e2")));
    assert_eq!(unknown.body, vec![text("n"), text("s"), text("d"), text("e1")]);
    let no_text = get_token_metadata(&storage, 42, &metadata(MetadataValue::Blob(vec![1])));
    assert_eq!(no_text.body, vec![text("n"), text("s"), text("d"), text("e1")]);
    assert_eq!(get_token_metadata(&storage, 0, &vec![]).body, vec![]);
}

#[test]
fn replies_of_collections_are_wrapped() {
    let collection = principal(10);
    let message = format!(
        "Correctly retrieved information for the collection with ID = {}",
        collection.to_text()
    );
    let got = collection_reply(&collection, Some("ICP".to_string()), String::new());
    assert_eq!((got.code, got.message.clone(), got.body.as_str()), (200, message.clone(), "ICP"));
    let failed: RequestResult<Option<u128>> = collection_reply(&collection, None, None);
    assert_eq!((failed.code, failed.message, failed.body), (200, message, None));
    let caller = principal(1);
    let outcomes = vec![Some(Ok(4)), Some(Err(TransferError::TooOld)), None];
    let wrapped = icrc7_transfer(&caller, Some(outcomes.clone()));
    assert_eq!(wrapped.code, 200);
    assert_eq!(wrapped.message, format!("Correctly transferred from {}", caller.to_text()));
    assert_eq!(wrapped.body, outcomes);
    assert_eq!(icrc7_transfer(&caller, None).body, vec![]);
}

#[test]
fn collections_of_a_caller_are_filtered_by_owner() {
    let all = vec![
        (principal(10), principal(1)),
        (principal(11), principal(2)),
        (principal(12), principal(1)),
    ];
    assert_eq!(
        get_user_icrc7_collections(&all, principal(1)),
        vec![(principal(10), principal(1)), (principal(12), principal(1))]
    );
    assert_eq!(get_user_icrc7_collections(&all, principal(3)), vec![]);
}

#[test]
fn operation_codes_carry_code_and_message() {
    let ok = OperationCode::MintOk { code: 200, message: "done".to_string() };
    assert_eq!(ok, OperationCode::MintOk { code: 200, message: "done".to_string() });
    assert!(ok != OperationCode::MintingError { code: 499, message: "done".to_string() });
    let result = RequestResult::new(404, "missing".to_string(), 7u8);
    assert_eq!((result.code, result.message.as_str(), result.body), (404, "missing", 7));
}

#[test]
fn commemorative_collections_have_the_symbol_icp() {
    let (arg, account) = icrc7_platform::issuance::create_icrc7_collection(
        principal(1),
        "A name".to_string(),
        Some("about".to_string()),
        None,
    );
    assert_eq!(account, Account { owner: principal(1), subaccount: None });
    assert_eq!(arg.icrc7_symbol, "ICP");
    assert_eq!(arg.icrc7_name, "A name");
    assert_eq!(arg.icrc7_description, Some("about".to_string()));
    assert_eq!(arg.icrc7_logo, None);
    assert_eq!(arg.icrc7_supply_cap, None);
    assert_eq!(arg.tx_window, None);
    let mut ledger = State::init(Account { owner: principal(1), subaccount: Some([0u8; 32]) }, arg);
    assert_eq!(ledger.icrc7_symbol(), "ICP");
    assert_eq!(ledger.icrc7_name(), "A name");
    assert_eq!(ledger.icrc7_minting_authority().unwrap().subaccount, None);
    let minted = ledger.mint(
        &principal(1),
        MintArg {
            from_subaccount: None,
            to: Account { owner: principal(2), subaccount: None },
            token_id: 0,
            memo: None,
            token_name: None,
            token_description: None,
            token_logo: None,
        },
        NOW,
    );
    assert_eq!(minted, Ok(1));
    assert_eq!(ledger.tokens.get(0).unwrap().token_name, "ICP 0");
}

#[test]
fn results_are_also_told_as_operation_codes() {
    let told = |code: u16| RequestResult::new(code, "m".to_string(), ()).operation_code();
    assert_eq!(told(200), OperationCode::MintOk { code: 200, message: "m".to_string() });
    assert_eq!(told(400), OperationCode::DuplicateEntry { code: 400, message: "m".to_string() });
    assert_eq!(told(404), OperationCode::RetrieveError { code: 404, message: "m".to_string() });
    assert_eq!(told(499), OperationCode::MintingError { code: 499, message: "m".to_string() });
    assert_eq!(told(500), OperationCode::InsertError { code: 500, message: "m".to_string() });
}

#[test]
fn an_event_is_assigned_to_the_members_of_a_group() {
    let mut storage = Storage::new();
    let finish = |issuance: &Issuance, storage: &Storage| match issuance.action(storage) {
        Action::Finish(result) => (result.code, result.message),
        other => panic!("expected the end, got {:?}", other),
    };
    let missing_event = icrc7_platform::events::assign_nft_for_event_to_group(
        &storage,
        "e1".to_string(),
        "g1".to_string(),
        app_id(),
    );
    assert_eq!(
        finish(&missing_event, &storage),
        (404, "Cannot find event with ID = e1".to_string())
    );
    insert_event_in_collection(
        &mut storage,
        Event {
            id: "e1".to_string(),
            title: "Summit".to_string(),
            description: String::new(),
            metadata: MetadataValue::Nat(candid::Nat::from(5u64)),
        },
    );
    let missing_group = icrc7_platform::events::assign_nft_for_event_to_group(
        &storage,
        "e1".to_string(),
        "g1".to_string(),
        app_id(),
    );
    assert_eq!(
        finish(&missing_group, &storage),
        (404, "Error while finding the group with ID = g1".to_string())
    );
    insert_collection(
        &mut storage,
        "g1".to_string(),
        Group {
            group_name: "climbers".to_string(),
            group_leader: Account { owner: principal(1), subaccount: None },
            group_members: vec![member("ann", 1), member("bob", 2)],
        },
    );
    let issuance = icrc7_platform::events::assign_nft_for_event_to_group(
        &storage,
        "e1".to_string(),
        "g1".to_string(),
        app_id(),
    );
    let mut world = World::new();
    let result = world.run(&mut storage, issuance);
    assert_eq!((result.code, result.body.clone()), (200, vec![1, 1]));
    assert_eq!(
        result.operation_code(),
        OperationCode::MintOk { code: 200, message: "All NFTs has been minted".to_string() }
    );
    let token = world.ledgers[0].1.tokens.get(0).unwrap();
    assert_eq!(token.token_description, None);
    assert_eq!(token.token_logo, Some("e1".to_string()));
}

#[test]
fn numbers_of_any_size_pass_through_unchanged() {
    let mut storage = Storage::new();
    let big = candid::Nat::from(u128::MAX) * candid::Nat::from(u128::MAX);
    let negative = candid::Int::from(-7i64);
    insert_event_in_collection(
        &mut storage,
        Event {
            id: "e1".to_string(),
            title: "Summit".to_string(),
            description: String::new(),
            metadata: MetadataValue::Nat(big.clone()),
        },
    );
    assert_eq!(get_event_by_id(&storage, "e1".to_string()).body.metadata, MetadataValue::Nat(big.clone()));
    let metadata = vec![Some(vec![
        ("logo".to_string(), MetadataValue::Text("e1".to_string())),
        ("count".to_string(), MetadataValue::Int(negative.clone())),
    ])];
    let resolved = get_token_metadata(&storage, 1, &metadata);
    assert_eq!(resolved.body, vec![MetadataValue::Nat(big), MetadataValue::Int(negative)]);
}

fn finished(issuance: &Issuance, storage: &Storage) -> (u16, String, Vec<u128>) {
    match issuance.action(storage) {
        Action::Finish(result) => (result.code, result.message, result.body),
        other => panic!("expected the end, got {:?}", other),
    }
}

#[test]
fn a_failed_provisioning_ends_the_sequence() {
    let mut storage = Storage::new();
    insert_event_in_collection(
        &mut storage,
        Event {
            id: "e1".to_string(),
            title: "Summit".to_string(),
            description: String::new(),
            metadata: MetadataValue::Text(String::new()),
        },
    );
    let members = || vec![member("ann", 1), member("bob", 2)];
    let mut for_event =
        assign_nft_for_event(&storage, "e1".to_string(), None, members(), app_id());
    for_event.receive(&mut storage, Reply::Provisioned(Err("no cycles".to_string())));
    assert_eq!(
        finished(&for_event, &storage),
        (499, "Error minting NFT for user ann : no cycles".to_string(), vec![])
    );
    let mut for_group =
        Issuance::begin(Occasion::Group { group_name: "g".to_string() }, app_id(), members());
    for_group.receive(&mut storage, Reply::Provisioned(Ok(principal(50))));
    for_group.receive(&mut storage, Reply::AuthoritySet(true));
    for_group.receive(&mut storage, Reply::Minted(Ok(1)));
    for_group.receive(&mut storage, Reply::Provisioned(Err("no cycles".to_string())));
    assert_eq!(
        finished(&for_group, &storage),
        (499, "Error minting token for bob".to_string(), vec![])
    );
    for_group.receive(&mut storage, Reply::Provisioned(Ok(principal(51))));
    assert!(matches!(for_group.phase, Phase::Finished));
    assert_eq!(get_current_token_id(&storage), 1);
}

#[test]
fn a_refused_authority_ends_the_sequence() {
    let mut storage = Storage::new();
    insert_event_in_collection(
        &mut storage,
        Event {
            id: "e1".to_string(),
            title: "Summit".to_string(),
            description: String::new(),
            metadata: MetadataValue::Text(String::new()),
        },
    );
    let mut issuance =
        assign_nft_for_event(&storage, "e1".to_string(), None, vec![member("ann", 1)], app_id());
    issuance.receive(&mut storage, Reply::Provisioned(Ok(principal(50))));
    issuance.receive(&mut storage, Reply::AuthoritySet(false));
    assert_eq!(
        finished(&issuance, &storage),
        (499, "Error minting NFT for user ann : Minting authority was not set".to_string(), vec![])
    );
    assert_eq!(get_current_token_id(&storage), 0);
}

#[test]
fn the_counter_needs_room_only_where_a_token_was_minted() {
    let mut storage = Storage::new();
    storage.token_counter = u128::MAX;
    let mut issuance = Issuance::begin(
        Occasion::Group { group_name: "g".to_string() },
        app_id(),
        vec![member("ann", 1)],
    );
    issuance.receive(&mut storage, Reply::Provisioned(Ok(principal(50))));
    issuance.receive(&mut storage, Reply::AuthoritySet(true));
    match issuance.action(&storage) {
        Action::Mint { arg, .. } => assert_eq!(arg.token_id, u128::MAX),
        other => panic!("the third action was {:?}", other),
    }
    issuance.receive(&mut storage, Reply::Minted(Err(MintError::Unauthorized)));
    assert_eq!(finished(&issuance, &storage).0, 499);
    assert_eq!(get_current_token_id(&storage), u128::MAX);
}
