use icrc7_platform::account::Account;
use icrc7_platform::ext_types::{
    AccountIdentifier, ExtAllowanceArg, ExtAllowanceResult, ExtApproveArg, ExtBalanceArg,
    ExtBalanceResult, ExtBearerResult, ExtCommonError, ExtMetadata, ExtMetadataResult,
    ExtMetadataType, ExtMintArg, ExtSupplyResult, ExtTransferArg, ExtTransferError,
    ExtTransferResult, TokenIdentifier, User,
};
use icrc7_platform::icrc7_types::{Approval, MintArg, TransactionType};
use icrc7_platform::identity::Principal;
use icrc7_platform::legacy_queries::{
    ext_batch_mint, ext_extensions, ext_get_minter, ext_get_token_identifier, ext_mint,
    ext_set_account_mapping,
};
use icrc7_platform::state::State;

const NOW: u64 = 1_700_000_000_000_000_000;

fn ledger_id() -> Principal {
    Principal::from_slice(&[0, 0, 0, 0, 0, 0, 0, 1, 1, 1])
}

fn other_ledger_id() -> Principal {
    Principal::from_slice(&[0, 0, 0, 0, 0, 0, 0, 2, 1, 1])
}

fn principal(n: u8) -> Principal {
    Principal::from_slice(&[n, n + 1, n + 2])
}

fn account(n: u8) -> Account {
    Account { owner: principal(n), subaccount: None }
}

fn token(index: u128) -> TokenIdentifier {
    TokenIdentifier::parse_token_identifier(ledger_id(), index)
}

/// A ledger on which identity 7 is the minting authority and the tokens 0,
/// 1 and 2 belong to identity 1.
fn ledger() -> State {
    let mut state = State::new();
    state.minting_authority = Some(account(7));
    for id in 0..3u128 {
        let arg = MintArg {
            from_subaccount: None,
            to: account(1),
            token_id: id,
            memo: None,
            token_name: None,
            token_description: if id == 1 { Some("one".to_string()) } else { None },
            token_logo: None,
        };
        assert!(state.mint(&principal(7), arg, NOW).is_ok());
    }
    state
}

fn transfer_arg(to: User, token: TokenIdentifier, amount: u128) -> ExtTransferArg {
    ExtTransferArg {
        from: User::Principal(principal(1)),
        to,
        token,
        memo: vec![1, 2, 3],
        amount,
        notify: false,
        subaccount: None,
    }
}

#[test]
fn legacy_identifier_round_trip() {
    let id = TokenIdentifier::parse_token_identifier(ledger_id(), 42);
    assert_eq!(id.to_text(), "ywvhr-uakor-uwiaa-aaaaa-aaaaa-eaqca-aaaav-a");
    assert_eq!(id.parse_token_index(ledger_id()), Ok(42));
    assert_eq!(
        id.parse_token_index(other_ledger_id()),
        Err(ExtCommonError::InvalidToken(id.clone()))
    );
    let big = TokenIdentifier::parse_token_identifier(ledger_id(), 0x0102_0304);
    assert_eq!(big.to_text(), "rfuzl-vykor-uwiaa-aaaaa-aaaaa-eaqca-icamc-a");
    assert_eq!(big.parse_token_index(ledger_id()), Ok(0x0102_0304));
    assert_eq!(ext_get_token_identifier(ledger_id(), 42), id);
}

#[test]
fn only_the_low_32_bits_of_an_index_enter_an_identifier() {
    let id = TokenIdentifier::parse_token_identifier(ledger_id(), (1u128 << 32) + 42);
    assert_eq!(id, TokenIdentifier::parse_token_identifier(ledger_id(), 42));
    assert_eq!(id.parse_token_index(ledger_id()), Ok(42));
}

#[test]
fn identifiers_that_are_no_token_identifiers() {
    let garbage = TokenIdentifier::new("no identifier".to_string());
    assert_eq!(garbage._parse_token_identifier(), None);
    assert_eq!(
        garbage.parse_token_index(ledger_id()),
        Err(ExtCommonError::InvalidToken(garbage.clone()))
    );
    // The textual form of the ledger's own identity carries no tag: it is
    // read as that identity with the index zero.
    let bare = TokenIdentifier::new(ledger_id().to_text());
    assert_eq!(bare._parse_token_identifier(), Some((ledger_id().as_slice().to_vec(), 0)));
    assert_eq!(bare.parse_token_index(ledger_id()), Ok(0));
    // Tagged, but too short to hold an identity and an index.
    let short = TokenIdentifier::new(Principal::from_slice(&[10, 116, 105, 100, 1, 2]).to_text());
    assert_eq!(short._parse_token_identifier(), Some((vec![10, 116, 105, 100, 1, 2], 0)));
    assert!(short.parse_token_index(ledger_id()).is_err());
}

#[test]
fn account_identifiers_are_checksum_and_digest_in_hex() {
    let anonymous = AccountIdentifier::from_principal(&Principal::anonymous(), &None);
    assert_eq!(
        anonymous.to_hex(),
        "1c7a48ba6a562aa9eaa2481a9049cdf0433b9738c992d698c31d8abf89cadc79"
    );
    let explicit = AccountIdentifier::from_principal(&Principal::anonymous(), &Some([0u8; 32]));
    assert_eq!(explicit.to_hex(), anonymous.to_hex());
    let a = Principal::from_slice(&[1, 2, 3]);
    assert_eq!(
        AccountIdentifier::from_principal(&a, &None).to_hex(),
        "39685a86f4b5f16ea3b0ee6326b675630cf29be0bf1f017c957baab4cd8d5645"
    );
    let mut sub = [0u8; 32];
    sub[0] = 1;
    assert_eq!(
        AccountIdentifier::from_principal(&a, &Some(sub)).to_hex(),
        "76bed245c98ed65ed7f389a94e46616ef410c7baa051bea73953f69c798191b7"
    );
    assert_eq!(
        AccountIdentifier::from_principal(&Principal::management_canister(), &None).to_hex(),
        "2d0e897f7e862d2b57d9bc9ea5c65f9a24ac6c074575f47898314b8d6cb0929d"
    );
    assert_eq!(AccountIdentifier::default().to_hex(), "0".repeat(64));
}

#[test]
fn legacy_transfer_moves_one_token() {
    let mut state = ledger();
    let result = state.ext_transfer(
        &principal(1),
        transfer_arg(User::Principal(principal(2)), token(1), 1),
        NOW,
        ledger_id(),
    );
    assert_eq!(result, ExtTransferResult::Success(1));
    let moved = state.tokens.get(1).unwrap();
    assert_eq!(moved.token_owner, account(2));
    assert!(moved.approvals.is_empty());
    assert_eq!(state.txn_log.len(), 4);
    assert_eq!(state.txn_log[3].at, NOW);
    assert_eq!(state.txn_log[3].memo, Some(vec![1, 2, 3]));
    assert_eq!(
        state.txn_log[3].txn_type,
        TransactionType::Transfer { tid: 1, from: account(1), to: account(2) }
    );
}

#[test]
fn legacy_transfer_errors() {
    let mut state = ledger();
    let to = || User::Principal(principal(2));
    assert_eq!(
        state.ext_transfer(&Principal::anonymous(), transfer_arg(to(), token(1), 1), NOW, ledger_id()),
        ExtTransferResult::Failure(ExtTransferError::Rejected)
    );
    assert_eq!(
        state.ext_transfer(&principal(1), transfer_arg(to(), token(1), 2), NOW, ledger_id()),
        ExtTransferResult::Failure(ExtTransferError::Other("Must use amount of 1".to_string()))
    );
    let mut from_address = transfer_arg(to(), token(1), 1);
    from_address.from = User::Address("abc".to_string());
    assert_eq!(
        state.ext_transfer(&principal(1), from_address, NOW, ledger_id()),
        ExtTransferResult::Failure(ExtTransferError::Other(
            "From User not support address".to_string()
        ))
    );
    assert_eq!(
        state.ext_transfer(
            &principal(1),
            transfer_arg(User::Address("abc".to_string()), token(1), 1),
            NOW,
            ledger_id()
        ),
        ExtTransferResult::Failure(ExtTransferError::Other(
            "To User not support address or not mapping address".to_string()
        ))
    );
    let foreign = TokenIdentifier::parse_token_identifier(other_ledger_id(), 1);
    assert_eq!(
        state.ext_transfer(&principal(1), transfer_arg(to(), foreign.clone(), 1), NOW, ledger_id()),
        ExtTransferResult::Failure(ExtTransferError::InvalidToken(foreign))
    );
    assert_eq!(
        state.ext_transfer(&principal(3), transfer_arg(to(), token(1), 1), NOW, ledger_id()),
        ExtTransferResult::Failure(ExtTransferError::Other("mock_transfer error".to_string()))
    );
    assert_eq!(
        state.ext_transfer(&principal(1), transfer_arg(to(), token(9), 1), NOW, ledger_id()),
        ExtTransferResult::Failure(ExtTransferError::Other("mock_transfer error".to_string()))
    );
    assert_eq!(state.txn_log.len(), 3);
    assert_eq!(state.tokens.get(1).unwrap().token_owner, account(1));
}

#[test]
fn a_registered_address_resolves_to_its_identity() {
    let mut state = ledger();
    assert_eq!(ext_set_account_mapping(&mut state, Principal::anonymous()), None);
    assert_eq!(state.ext_account_mapping.len(), 0);
    let address = ext_set_account_mapping(&mut state, principal(2)).unwrap();
    assert_eq!(address, AccountIdentifier::from_principal(&principal(2), &None).to_hex());
    assert_eq!(address.len(), 64);
    assert_eq!(state.ext_account_mapping.get(&address), Some(&principal(2).to_text()));
    assert_eq!(ext_set_account_mapping(&mut state, principal(2)), Some(address.clone()));
    assert_eq!(state.ext_account_mapping.len(), 1);
    assert_eq!(state.get_mapping_account(&User::Address(address.clone())), Some(account(2)));
    assert_eq!(state.get_mapping_account(&User::Address("zz".to_string())), None);
    assert_eq!(state.get_mapping_account(&User::Principal(principal(5))), Some(account(5)));
    let result = state.ext_transfer(
        &principal(1),
        transfer_arg(User::Address(address), token(0), 1),
        NOW,
        ledger_id(),
    );
    assert_eq!(result, ExtTransferResult::Success(1));
    assert_eq!(state.tokens.get(0).unwrap().token_owner, account(2));
}

#[test]
fn legacy_approve_grants_one_token() {
    let mut state = ledger();
    let arg = |allowance: u128, index: u128| ExtApproveArg {
        subaccount: None,
        spender: principal(2),
        allowance,
        token: token(index),
    };
    assert!(!state.ext_approve(&Principal::anonymous(), arg(1, 1), NOW, ledger_id()));
    assert!(!state.ext_approve(&principal(1), arg(2, 1), NOW, ledger_id()));
    assert!(!state.ext_approve(&principal(1), arg(1, 9), NOW, ledger_id()));
    assert!(!state.ext_approve(&principal(3), arg(1, 1), NOW, ledger_id()));
    assert!(!state.ext_approve(&principal(1), arg(1, 1), NOW, other_ledger_id()));
    assert!(!state.ext_approve(
        &principal(2),
        ExtApproveArg { subaccount: None, spender: principal(2), allowance: 1, token: token(1) },
        NOW,
        ledger_id()
    ));
    assert_eq!(state.txn_log.len(), 3);
    assert!(state.ext_approve(&principal(1), arg(1, 1), NOW, ledger_id()));
    assert_eq!(
        state.tokens.get(1).unwrap().approvals,
        vec![Approval { account: account(2), expires_at: None }]
    );
    assert_eq!(
        state.txn_log[3].txn_type,
        TransactionType::Approval { tid: 1, from: account(1), to: account(2) }
    );
    let allowance = |state: &State, owner: u8, spender: u8, index: u128| {
        state.ext_allowance(
            ExtAllowanceArg {
                owner: User::Principal(principal(owner)),
                spender: principal(spender),
                token: token(index),
            },
            ledger_id(),
            NOW,
        )
    };
    assert_eq!(allowance(&state, 1, 2, 1), ExtAllowanceResult::Success(1));
    assert_eq!(allowance(&state, 1, 3, 1), ExtAllowanceResult::Success(0));
    assert_eq!(allowance(&state, 1, 2, 0), ExtAllowanceResult::Success(0));
    assert_eq!(
        allowance(&state, 2, 2, 1),
        ExtAllowanceResult::Failure(ExtCommonError::Other("Invalid owner".to_string()))
    );
    assert_eq!(
        allowance(&state, 1, 2, 9),
        ExtAllowanceResult::Failure(ExtCommonError::InvalidToken(token(9)))
    );
    assert_eq!(
        state.ext_allowance(
            ExtAllowanceArg {
                owner: User::Address("abc".to_string()),
                spender: principal(2),
                token: token(1)
            },
            ledger_id(),
            NOW
        ),
        ExtAllowanceResult::Failure(ExtCommonError::Other("User not support address".to_string()))
    );
}

#[test]
fn legacy_mint_returns_the_index_or_zero() {
    let mut state = ledger();
    let arg = |to: User| ExtMintArg { to, metadata: Some(b"hello".to_vec()) };
    assert_eq!(state.ext_mint(&principal(7), arg(User::Principal(principal(2))), NOW), 3);
    let minted = state.tokens.get(3).unwrap();
    assert_eq!(minted.token_owner, account(2));
    assert_eq!(minted.token_name, "ICRC7 3");
    assert_eq!(minted.token_description, Some("hello".to_string()));
    assert_eq!(state.next_token_id, 4);
    assert_eq!(state.ext_mint(&principal(1), arg(User::Principal(principal(2))), NOW), 0);
    assert_eq!(state.ext_mint(&principal(7), arg(User::Address("abc".to_string())), NOW), 0);
    assert_eq!(ext_mint(&mut state, Principal::anonymous(), arg(User::Principal(principal(2))), NOW), 0);
    assert_eq!(state.tokens.len(), 4);
    assert_eq!(ext_mint(&mut state, principal(7), arg(User::Principal(principal(2))), NOW), 4);
    let broken = ExtMintArg { to: User::Principal(principal(2)), metadata: Some(vec![0x66, 0xff]) };
    assert_eq!(state.ext_mint(&principal(7), broken, NOW), 5);
    assert_eq!(state.tokens.get(5).unwrap().token_description, Some("f\u{fffd}".to_string()));
    let bare = ExtMintArg { to: User::Principal(principal(2)), metadata: None };
    assert_eq!(state.ext_mint(&principal(7), bare, NOW), 6);
    assert_eq!(state.tokens.get(6).unwrap().token_description, None);
}

#[test]
fn legacy_batch_mint_mints_one_after_the_other() {
    let mut state = ledger();
    let args = || {
        vec![
            ExtMintArg { to: User::Principal(principal(2)), metadata: None },
            ExtMintArg { to: User::Address("abc".to_string()), metadata: None },
            ExtMintArg { to: User::Principal(principal(3)), metadata: None },
        ]
    };
    assert_eq!(state.ext_batch_mint(&principal(7), args(), NOW), vec![3, 0, 4]);
    assert_eq!(state.tokens.get(4).unwrap().token_owner, account(3));
    assert_eq!(ext_batch_mint(&mut state, Principal::anonymous(), args(), NOW), vec![0]);
    assert_eq!(ext_batch_mint(&mut state, principal(1), args(), NOW), vec![0, 0, 0]);
    assert_eq!(ext_batch_mint(&mut state, principal(7), args(), NOW), vec![5, 0, 6]);
    assert_eq!(state.tokens.len(), 7);
}

#[test]
fn legacy_queries() {
    let state = ledger();
    let balance = |user: User, index: u128| {
        state.ext_balance(ExtBalanceArg { user, token: token(index) }, ledger_id())
    };
    assert_eq!(balance(User::Principal(principal(1)), 1), ExtBalanceResult::Success(1));
    assert_eq!(balance(User::Principal(principal(2)), 1), ExtBalanceResult::Success(0));
    assert_eq!(
        balance(User::Principal(principal(1)), 9),
        ExtBalanceResult::Failure(ExtCommonError::InvalidToken(token(9)))
    );
    assert_eq!(
        balance(User::Address("abc".to_string()), 1),
        ExtBalanceResult::Failure(ExtCommonError::Other("User not support address".to_string()))
    );
    let foreign = TokenIdentifier::parse_token_identifier(other_ledger_id(), 1);
    assert_eq!(
        state.ext_balance(
            ExtBalanceArg { user: User::Principal(principal(1)), token: foreign.clone() },
            ledger_id()
        ),
        ExtBalanceResult::Failure(ExtCommonError::InvalidToken(foreign.clone()))
    );
    let owner_hex = AccountIdentifier::from_principal(&principal(1), &None).to_hex();
    assert_eq!(state.ext_bearer(token(1), ledger_id()), ExtBearerResult::Success(owner_hex.clone()));
    assert_eq!(
        state.ext_bearer(token(9), ledger_id()),
        ExtBearerResult::Failure(ExtCommonError::Other("Invalid token".to_string()))
    );
    assert_eq!(
        state.ext_bearer(foreign.clone(), ledger_id()),
        ExtBearerResult::Failure(ExtCommonError::InvalidToken(foreign.clone()))
    );
    assert_eq!(
        state.ext_metadata(token(1), ledger_id()),
        ExtMetadataResult::Success(ExtMetadata::Nonfungible(ExtMetadataType {
            metadata: Some(b"one".to_vec())
        }))
    );
    assert_eq!(
        state.ext_metadata(token(0), ledger_id()),
        ExtMetadataResult::Success(ExtMetadata::Nonfungible(ExtMetadataType {
            metadata: Some(vec![])
        }))
    );
    assert_eq!(
        state.ext_metadata(token(9), ledger_id()),
        ExtMetadataResult::Failure(ExtCommonError::Other("Invalid token".to_string()))
    );
    assert_eq!(
        state.ext_get_registry(),
        vec![(0, owner_hex.clone()), (1, owner_hex.clone()), (2, owner_hex)]
    );
    assert_eq!(state.ext_supply(), ExtSupplyResult::Success(3));
    let empty = || ExtMetadata::Nonfungible(ExtMetadataType { metadata: Some(vec![]) });
    let one = || ExtMetadata::Nonfungible(ExtMetadataType { metadata: Some(b"one".to_vec()) });
    assert_eq!(state.ext_get_tokens(), vec![(0, empty()), (1, one()), (2, empty())]);
    assert_eq!(state.ext_get_tokens_by_ids(vec![2, 1, 7]), vec![(1, one()), (2, empty())]);
    assert_eq!(state.ext_get_tokens_by_ids(vec![]), vec![]);
    assert_eq!(ext_get_minter(&state), principal(7));
    assert_eq!(ext_get_minter(&State::new()), Principal::anonymous());
    assert_eq!(ext_extensions(), vec!["@ext/common", "@ext/allowance", "@ext/nonfungible"]);
}

#[test]
fn legacy_metadata_update() {
    let mut state = ledger();
    assert!(state.ext_update_metadata(token(2), "two".to_string(), ledger_id()));
    assert_eq!(state.tokens.get(2).unwrap().token_description, Some("two".to_string()));
    assert_eq!(state.tokens.get(2).unwrap().token_owner, account(1));
    assert!(!state.ext_update_metadata(token(9), "nine".to_string(), ledger_id()));
    assert!(!state.ext_update_metadata(token(2), "two".to_string(), other_ledger_id()));
    assert_eq!(state.tokens.len(), 3);
}

#[test]
fn metadata_of_a_text_is_its_bytes() {
    assert_eq!(ExtMetadataType::new("h\u{e9}".to_string()).metadata, Some(vec![0x68, 0xc3, 0xa9]));
    assert_eq!(ExtMetadataType::default().metadata, None);
    assert_eq!(ExtMetadata::default(), ExtMetadata::Nonfungible(ExtMetadataType { metadata: None }));
}
