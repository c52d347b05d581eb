//! The legacy protocol's read-only operations, and what its service does
//! before a call reaches the ledger.

use crate::account::{default_account, Account};
use crate::digest::hex_text;
use crate::ext_types::{
    account_identifier_bytes, low_word, token_identifier_bytes, token_index_of,
    utf8_encoding, AccountIdentifier, AccountIdentifierHex, ExtAllowanceArg, ExtAllowanceResult,
    ExtBalanceArg, ExtBalanceResult, ExtBearerResult, ExtCommonError, ExtCommonErrorView,
    ExtMetadata, ExtMetadataResult, ExtMetadataType, ExtMetadataView, ExtMintArg, ExtSupplyResult, ExtTokenIndex, Extension, TokenIdentifier, UserView,
};
use crate::identity::{anonymous_bytes, principal_of, principal_text, Principal};
use crate::legacy::{
    default_account_of, ext_batch_minted, ext_batch_room, ext_mint_accepted, ext_mint_args,
    ext_mint_outcome, user_account, user_transformer,
};
use crate::state::{State, StateView};
use crate::text_map::stored;
use crate::token::{has_live_approval, lookup, TokenView};
use vstd::prelude::*;

verus! {

/// The legacy identifier of an account, in hexadecimal.
pub open spec fn account_hex(account: Account) -> Seq<char> {
    hex_text(account_identifier_bytes(account.owner@, account.effective_subaccount()))
}

/// The legacy metadata of a token: the bytes of its description, or of the
/// empty text where it has none.
pub open spec fn legacy_metadata(t: TokenView) -> ExtMetadataView {
    ExtMetadataView::Nonfungible(
        Some(
            utf8_encoding(
                match t.token_description {
                    Some(d) => d,
                    None => Seq::empty(),
                },
            ),
        ),
    )
}

/// What the balance query answers: one for the owner of the token, zero for
/// anyone else.
pub open spec fn ext_balance_spec(s: StateView, user: UserView, token: Seq<char>, canister: Principal)
    -> Result<u128, ExtCommonErrorView> {
    match token_index_of(token, canister@) {
        None => Err(ExtCommonErrorView::InvalidToken(token)),
        Some(id) => match user_account(user) {
            None => Err(ExtCommonErrorView::Other("User not support address"@)),
            Some(account) => match lookup(s.tokens, id) {
                Some(t) => if t.token_owner.same_as(&account) {
                    Ok(1)
                } else {
                    Ok(0)
                },
                None => Err(ExtCommonErrorView::InvalidToken(token)),
            },
        },
    }
}

/// What the allowance query answers: one where the spender holds a live
/// approval of the owner's token, else zero.
pub open spec fn ext_allowance_spec(
    s: StateView,
    owner: UserView,
    spender: Principal,
    token: Seq<char>,
    canister: Principal,
    now: u64,
) -> Result<u128, ExtCommonErrorView> {
    match token_index_of(token, canister@) {
        None => Err(ExtCommonErrorView::InvalidToken(token)),
        Some(id) => match user_account(owner) {
            None => Err(ExtCommonErrorView::Other("User not support address"@)),
            Some(account) => match lookup(s.tokens, id) {
                None => Err(ExtCommonErrorView::InvalidToken(token)),
                Some(t) => if !t.token_owner.same_as(&account) {
                    Err(ExtCommonErrorView::Other("Invalid owner"@))
                } else if has_live_approval(t.approvals, now, default_account_of(spender)) {
                    Ok(1)
                } else {
                    Ok(0)
                },
            },
        },
    }
}

/// What the bearer query answers: the legacy identifier of the owner.
pub open spec fn ext_bearer_spec(s: StateView, token: Seq<char>, canister: Principal) -> Result<
    Seq<char>,
    ExtCommonErrorView,
> {
    match token_index_of(token, canister@) {
        None => Err(ExtCommonErrorView::InvalidToken(token)),
        Some(id) => match lookup(s.tokens, id) {
            Some(t) => Ok(account_hex(t.token_owner)),
            None => Err(ExtCommonErrorView::Other("Invalid token"@)),
        },
    }
}

/// What the metadata query answers.
pub open spec fn ext_metadata_spec(s: StateView, token: Seq<char>, canister: Principal) -> Result<
    ExtMetadataView,
    ExtCommonErrorView,
> {
    match token_index_of(token, canister@) {
        None => Err(ExtCommonErrorView::InvalidToken(token)),
        Some(id) => match lookup(s.tokens, id) {
            Some(t) => Ok(legacy_metadata(t)),
            None => Err(ExtCommonErrorView::Other("Invalid token"@)),
        },
    }
}

/// The views of a list of tokens with their legacy metadata.
pub open spec fn listing_view(list: Seq<(ExtTokenIndex, ExtMetadata)>) -> Seq<
    (u32, ExtMetadataView),
> {
    Seq::new(list.len(), |i: int| (list[i].0, list[i].1@))
}

/// The views of a list of tokens with the legacy identifiers of their owners.
pub open spec fn registry_view(list: Seq<(ExtTokenIndex, AccountIdentifierHex)>) -> Seq<
    (u32, Seq<char>),
> {
    Seq::new(list.len(), |i: int| (list[i].0, list[i].1@))
}

/// Every token with the legacy identifier of its owner, in the order of the
/// tokens.
pub open spec fn registry_spec(tokens: Seq<TokenView>) -> Seq<(u32, Seq<char>)> {
    Seq::new(
        tokens.len(),
        |i: int| (low_word(tokens[i].token_id), account_hex(tokens[i].token_owner)),
    )
}

/// The tokens whose index is among those given, each with its legacy
/// metadata, in the order of the tokens.
pub open spec fn listing_spec(tokens: Seq<TokenView>, wanted: Option<Seq<u32>>) -> Seq<
    (u32, ExtMetadataView),
>
    decreases tokens.len(),
{
    if tokens.len() == 0 {
        Seq::empty()
    } else {
        let rest = listing_spec(tokens.drop_last(), wanted);
        let t = tokens.last();
        if wanted is None || wanted->0.contains(low_word(t.token_id)) {
            rest.push((low_word(t.token_id), legacy_metadata(t)))
        } else {
            rest
        }
    }
}

/// Whether an index is in a list.
pub fn contains_index(indices: &Vec<ExtTokenIndex>, index: ExtTokenIndex) -> (r: bool)
    ensures
        r == indices@.contains(index),
{
    let mut i: usize = 0;
    while i < indices.len()
        invariant
            i <= indices@.len(),
            forall|j: int| 0 <= j < i ==> indices@[j] != index,
        decreases indices@.len() - i,
    {
        if indices[i] == index {
            return true;
        }
        i += 1;
    }
    false
}

impl State {
    /// The legacy identifier of an account, in hexadecimal.
    pub fn account_hex_of(account: &Account) -> (r: AccountIdentifierHex)
        ensures
            r@ == account_hex(*account),
    {
        AccountIdentifier::from_principal(&account.owner, &account.subaccount).to_hex()
    }

    /// The legacy metadata of a token.
    fn legacy_metadata_of(token: &crate::token::Icrc7Token) -> (r: ExtMetadata)
        ensures
            r@ == legacy_metadata(token@),
    {
        let metadata = match &token.token_description {
            Some(d) => d.clone(),
            None => String::new(),
        };
        ExtMetadata::Nonfungible(ExtMetadataType::new(metadata))
    }

    /// The legacy balance of a user for a token: one or zero.
    pub fn ext_balance(&self, arg: ExtBalanceArg, canister_id: Principal) -> (r: ExtBalanceResult)
        ensures
            r@ == ext_balance_spec(self@, arg.user@, arg.token@, canister_id),
    {
        let token_id = match arg.token.parse_token_index(canister_id) {
            Ok(token_id) => token_id,
            Err(_) => {
                return ExtBalanceResult::Failure(ExtCommonError::InvalidToken(arg.token));
            },
        };
        let user = match user_transformer(&arg.user) {
            Some(account) => account,
            None => {
                return ExtBalanceResult::Failure(
                    ExtCommonError::Other("User not support address".to_string()),
                );
            },
        };
        if let Some(token) = self.tokens.get(token_id) {
            if token.token_owner == user {
                return ExtBalanceResult::Success(1);
            } else {
                return ExtBalanceResult::Success(0);
            }
        }
        ExtBalanceResult::Failure(ExtCommonError::InvalidToken(arg.token))
    }

    /// The legacy allowance of a spender for an owner's token: one or zero.
    pub fn ext_allowance(&self, arg: ExtAllowanceArg, canister_id: Principal, now: u64) -> (r:
        ExtAllowanceResult)
        ensures
            r@ == ext_allowance_spec(
                self@,
                arg.owner@,
                arg.spender,
                arg.token@,
                canister_id,
                now,
            ),
    {
        let token_id = match arg.token.parse_token_index(canister_id) {
            Ok(token_id) => token_id,
            Err(_) => {
                return ExtAllowanceResult::Failure(ExtCommonError::InvalidToken(arg.token));
            },
        };
        let user = match user_transformer(&arg.owner) {
            Some(account) => account,
            None => {
                return ExtAllowanceResult::Failure(
                    ExtCommonError::Other("User not support address".to_string()),
                );
            },
        };
        let to_account = default_account(&arg.spender);
        let token = match self.tokens.get(token_id) {
            Some(token) => token,
            None => {
                return ExtAllowanceResult::Failure(ExtCommonError::InvalidToken(arg.token));
            },
        };
        if !(token.token_owner == user) {
            return ExtAllowanceResult::Failure(ExtCommonError::Other("Invalid owner".to_string()));
        }
        if token.approval_check(now, &to_account) {
            ExtAllowanceResult::Success(1)
        } else {
            ExtAllowanceResult::Success(0)
        }
    }

    /// The legacy identifier of the owner of a token.
    pub fn ext_bearer(&self, token: TokenIdentifier, canister_id: Principal) -> (r: ExtBearerResult)
        ensures
            r@ == ext_bearer_spec(self@, token@, canister_id),
    {
        let token_id = match token.parse_token_index(canister_id) {
            Ok(token_id) => token_id,
            Err(_) => {
                return ExtBearerResult::Failure(ExtCommonError::InvalidToken(token));
            },
        };
        match self.tokens.get(token_id) {
            Some(token_info) => ExtBearerResult::Success(
                State::account_hex_of(&token_info.token_owner),
            ),
            None => ExtBearerResult::Failure(ExtCommonError::Other("Invalid token".to_string())),
        }
    }

    /// The legacy metadata of a token.
    pub fn ext_metadata(&self, token: TokenIdentifier, canister_id: Principal) -> (r:
        ExtMetadataResult)
        ensures
            r@ == ext_metadata_spec(self@, token@, canister_id),
    {
        let token_id = match token.parse_token_index(canister_id) {
            Ok(token_id) => token_id,
            Err(_) => {
                return ExtMetadataResult::Failure(ExtCommonError::InvalidToken(token));
            },
        };
        match self.tokens.get(token_id) {
            Some(token_info) => ExtMetadataResult::Success(State::legacy_metadata_of(token_info)),
            None => ExtMetadataResult::Failure(ExtCommonError::Other("Invalid token".to_string())),
        }
    }

    /// Every token with the legacy identifier of its owner.
    pub fn ext_get_registry(&self) -> (r: Vec<(ExtTokenIndex, AccountIdentifierHex)>)
        ensures
            registry_view(r@) == registry_spec(self@.tokens),
    {
        let mut token_list: Vec<(ExtTokenIndex, AccountIdentifierHex)> = Vec::new();
        let n = self.tokens.len();
        let mut k: usize = 0;
        while k < n
            invariant
                k <= n,
                n == self@.tokens.len(),
                token_list@.len() == k,
                forall|j: int|
                    0 <= j < k ==> (token_list@[j].0, token_list@[j].1@) == registry_spec(
                        self@.tokens,
                    )[j],
            decreases n - k,
        {
            let token = self.tokens.entry(k);
            let index = (token.token_id & 0xffff_ffff) as u32;
            token_list.push((index, State::account_hex_of(&token.token_owner)));
            k += 1;
        }
        assert(registry_view(token_list@) =~= registry_spec(self@.tokens));
        token_list
    }

    /// How many tokens there are.
    pub fn ext_supply(&self) -> (r: ExtSupplyResult)
        ensures
            r@ == Ok::<u128, ExtCommonErrorView>(self@.tokens.len() as u128),
    {
        ExtSupplyResult::Success(self.tokens.len() as u128)
    }

    /// The tokens whose index is wanted, each with its legacy metadata.
    fn listing(&self, wanted: Option<&Vec<ExtTokenIndex>>) -> (r: Vec<(ExtTokenIndex, ExtMetadata)>)
        ensures
            listing_view(r@) == listing_spec(
                self@.tokens,
                match wanted {
                    Some(w) => Some(w@),
                    None => None,
                },
            ),
    {
        let ghost w = match wanted {
            Some(w) => Some(w@),
            None => None,
        };
        let mut token_list: Vec<(ExtTokenIndex, ExtMetadata)> = Vec::new();
        let n = self.tokens.len();
        let mut k: usize = 0;
        while k < n
            invariant
                k <= n,
                n == self@.tokens.len(),
                w == match wanted {
                    Some(w) => Some(w@),
                    None => None,
                },
                listing_view(token_list@) == listing_spec(self@.tokens.subrange(0, k as int), w),
            decreases n - k,
        {
            let ghost upto = self@.tokens.subrange(0, k + 1);
            assert(upto.drop_last() =~= self@.tokens.subrange(0, k as int));
            let ghost before = listing_view(token_list@);
            let token = self.tokens.entry(k);
            let index = (token.token_id & 0xffff_ffff) as u32;
            let take = match wanted {
                Some(list) => contains_index(list, index),
                None => true,
            };
            if take {
                let metadata = State::legacy_metadata_of(token);
                token_list.push((index, metadata));
                assert(listing_view(token_list@) =~= before.push(
                    (index, legacy_metadata(token@)),
                ));
            }
            k += 1;
        }
        assert(self@.tokens.subrange(0, n as int) =~= self@.tokens);
        token_list
    }

    /// The tokens whose index is among those given, each with its legacy
    /// metadata.
    pub fn ext_get_tokens_by_ids(&self, token_indexs: Vec<ExtTokenIndex>) -> (r: Vec<
        (ExtTokenIndex, ExtMetadata),
    >)
        ensures
            listing_view(r@) == listing_spec(self@.tokens, Some(token_indexs@)),
    {
        self.listing(Some(&token_indexs))
    }

    /// Every token with its legacy metadata.
    pub fn ext_get_tokens(&self) -> (r: Vec<(ExtTokenIndex, ExtMetadata)>)
        ensures
            listing_view(r@) == listing_spec(self@.tokens, None),
    {
        self.listing(None)
    }
}

/// The identity that may mint: the owner of the minting authority, or the
/// anonymous identity where none is set.
pub fn ext_get_minter(state: &State) -> (r: Principal)
    ensures
        r == match state@.minting_authority {
            Some(a) => a.owner,
            None => principal_of(anonymous_bytes()),
        },
{
    match state.icrc7_minting_authority() {
        Some(minting_authority_info) => minting_authority_info.owner,
        None => Principal::anonymous(),
    }
}

/// The identifier of the token with an index on the ledger with this
/// identity.
pub fn ext_get_token_identifier(canister_id: Principal, index: u128) -> (r: TokenIdentifier)
    requires
        canister_id@.len() == 10,
    ensures
        r@ == principal_text(token_identifier_bytes(canister_id@, index)),
{
    TokenIdentifier::parse_token_identifier(canister_id, index)
}

/// The capabilities of the legacy protocol.
pub fn ext_extensions() -> (r: Vec<Extension>)
    ensures
        r@.len() == 3,
        r@[0]@ == "@ext/common"@,
        r@[1]@ == "@ext/allowance"@,
        r@[2]@ == "@ext/nonfungible"@,
{
    let mut extensions: Vec<Extension> = Vec::new();
    extensions.push("@ext/common".to_string());
    extensions.push("@ext/allowance".to_string());
    extensions.push("@ext/nonfungible".to_string());
    extensions
}

/// The legacy mint as the service offers it: the anonymous caller gets zero
/// and nothing is minted.
pub fn ext_mint(state: &mut State, caller: Principal, arg: ExtMintArg, now: u64) -> (r:
    ExtTokenIndex)
    requires
        caller@ != anonymous_bytes() && ext_mint_accepted(old(state)@, caller, arg@) ==> old(
            state,
        ).txn_count < u128::MAX && old(state).next_token_id < u128::MAX,
    ensures
        (final(state)@, r) == if caller@ == anonymous_bytes() {
            (old(state)@, 0u32)
        } else {
            ext_mint_outcome(old(state)@, caller, arg@, now)
        },
{
    if caller.is_anonymous() {
        return 0;
    }
    state.ext_mint(&caller, arg, now)
}

/// The legacy batch mint as the service offers it: the anonymous caller gets
/// a single zero and nothing is minted.
pub fn ext_batch_mint(state: &mut State, caller: Principal, args: Vec<ExtMintArg>, now: u64) -> (r:
    Vec<ExtTokenIndex>)
    requires
        caller@ != anonymous_bytes() ==> ext_batch_room(
            old(state)@,
            caller,
            ext_mint_args(args@),
            now,
        ),
    ensures
        (final(state)@, r@) == if caller@ == anonymous_bytes() {
            (old(state)@, seq![0u32])
        } else {
            ext_batch_minted(old(state)@, caller, ext_mint_args(args@), now, args@.len())
        },
{
    if caller.is_anonymous() {
        let mut r: Vec<ExtTokenIndex> = Vec::new();
        r.push(0);
        return r;
    }
    state.ext_batch_mint(&caller, args, now)
}

/// Registers the caller under the legacy identifier of its own default
/// account, so that legacy calls can name it by that address. The anonymous
/// caller is not registered.
pub fn ext_set_account_mapping(state: &mut State, caller: Principal) -> (r: Option<
    AccountIdentifierHex,
>)
    ensures
        caller@ == anonymous_bytes() ==> r is None && final(state)@ == old(state)@,
        caller@ != anonymous_bytes() ==> r is Some && r->0@ == account_hex(
            default_account_of(caller),
        ) && final(state)@ == (StateView {
            ext_account_mapping: stored(
                old(state)@.ext_account_mapping,
                account_hex(default_account_of(caller)),
                principal_text(caller@),
            ),
            ..old(state)@
        }),
{
    if caller.is_anonymous() {
        return None;
    }
    let account_id = AccountIdentifier::from_principal(
        &caller,
        &Some(crate::account::default_subaccount()),
    );
    state.ext_set_account_mapping(&caller, account_id.to_hex())
}

} // verus!
