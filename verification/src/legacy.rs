//! The legacy protocol's mutating operations, over the same tokens and the
//! same log as the modern protocol. A legacy call moves or approves exactly
//! one token.

use crate::account::{default_account, Account};
use crate::approve::{apply_approval, approval_fault};
use crate::ext_types::{
    low_word, token_index_of, AccountIdentifierHex, ExtApproveArg, ExtMintArg,
    ExtMintArgView, ExtTokenIndex, ExtTransferArg, ExtTransferArgView, ExtTransferError,
    ExtTransferErrorView, ExtTransferResult, TokenIdentifier, User, UserView,
};
use crate::icrc7_types::{
    copy_bytes, opt_bytes, Approval, ApprovalArg, ApprovalArgView, MintArg, MintArgView,
    TransactionType, TransferArg, TransferArgView,
};
use crate::identity::{anonymous_bytes, principal_of, principal_text, text_principal, Principal};
use crate::mint::{apply_mint, mint_fault};
use crate::state::{State, StateView};
use crate::text_map::{stored, value_of};
use crate::token::{lookup, redescribed, put};
use crate::transfer::{apply_transfer, transfer_fault};
use vstd::prelude::*;

verus! {

/// The text that `String::from_utf8_lossy` reads out of bytes.
pub uninterp spec fn lossy_text(bytes: Seq<u8>) -> Seq<char>;

/// Calls `String::from_utf8_lossy`: the bytes read as UTF-8, with a
/// replacement character wherever they are not.
#[verifier::external_body]
fn decode_lossy(bytes: &[u8]) -> (text: String)
    ensures
        text@ == lossy_text(bytes@),
{
    String::from_utf8_lossy(bytes).into_owned()
}

/// The account of an identity under the default sub-identifier.
pub open spec fn default_account_of(p: Principal) -> Account {
    Account { owner: p, subaccount: None }
}

/// The account that a user given by identity stands for; a user given by
/// address stands for none.
pub open spec fn user_account(user: UserView) -> Option<Account> {
    match user {
        UserView::Principal(p) => Some(default_account_of(p)),
        UserView::Address(_) => None,
    }
}

/// The account that a user stands for when addresses are looked up in the
/// table of registered addresses.
pub open spec fn mapped_account(mapping: Seq<(Seq<char>, Seq<char>)>, user: UserView) -> Option<
    Account,
> {
    match user {
        UserView::Principal(p) => Some(default_account_of(p)),
        UserView::Address(a) => match value_of(mapping, a) {
            Some(text) => match text_principal(text) {
                Some(bytes) => Some(default_account_of(principal_of(bytes))),
                None => None,
            },
            None => None,
        },
    }
}

/// The account that a user given by identity stands for.
pub fn user_transformer(user: &User) -> (r: Option<Account>)
    ensures
        r == user_account(user@),
{
    match user {
        User::Principal(p) => Some(default_account(p)),
        User::Address(_) => None,
    }
}

/// The modern transfer that a legacy transfer amounts to.
pub open spec fn legacy_transfer_item(to: Account, token_id: u128, memo: Seq<u8>, now: u64)
    -> TransferArgView {
    TransferArgView {
        from_subaccount: None,
        to,
        token_id,
        memo: Some(memo),
        created_at_time: Some(now),
    }
}

/// What a legacy transfer does to the state, and its result.
pub open spec fn ext_transfer_outcome(
    s: StateView,
    caller: Principal,
    arg: ExtTransferArgView,
    now: u64,
    canister: Principal,
) -> (StateView, Result<u128, ExtTransferErrorView>) {
    if caller@ == anonymous_bytes() {
        (s, Err(ExtTransferErrorView::Rejected))
    } else if arg.amount != 1 {
        (s, Err(ExtTransferErrorView::Other("Must use amount of 1"@)))
    } else if user_account(arg.from) is None {
        (s, Err(ExtTransferErrorView::Other("From User not support address"@)))
    } else if mapped_account(s.ext_account_mapping, arg.to) is None {
        (
            s,
            Err(
                ExtTransferErrorView::Other(
                    "To User not support address or not mapping address"@,
                ),
            ),
        )
    } else if token_index_of(arg.token, canister@) is None {
        (s, Err(ExtTransferErrorView::InvalidToken(arg.token)))
    } else {
        let from = default_account_of(caller);
        let item = legacy_transfer_item(
            mapped_account(s.ext_account_mapping, arg.to)->0,
            token_index_of(arg.token, canister@)->0,
            arg.memo,
            now,
        );
        if transfer_fault(s, now, from, item) is Some {
            (s, Err(ExtTransferErrorView::Other("mock_transfer error"@)))
        } else {
            (apply_transfer(s, from, item, now), Ok(arg.amount))
        }
    }
}

/// The modern mint that a legacy mint amounts to: of the next free id,
/// described by the bytes given read as text.
pub open spec fn legacy_mint_item(s: StateView, to: Account, metadata: Option<Seq<u8>>)
    -> MintArgView {
    MintArgView {
        from_subaccount: None,
        to,
        token_id: s.next_token_id,
        memo: None,
        token_name: None,
        token_description: match metadata {
            Some(bytes) => Some(lossy_text(bytes)),
            None => None,
        },
        token_logo: None,
    }
}

/// What a legacy mint does to the state, and the index it returns: zero
/// where nothing was minted.
pub open spec fn ext_mint_outcome(s: StateView, caller: Principal, arg: ExtMintArgView, now: u64)
    -> (StateView, u32) {
    match user_account(arg.to) {
        None => (s, 0),
        Some(to) => {
            let item = legacy_mint_item(s, to, arg.metadata);
            let from = default_account_of(caller);
            if mint_fault(s, from, item) is Some {
                (s, 0)
            } else {
                (apply_mint(s, from, item, now), low_word(s.next_token_id))
            }
        },
    }
}

/// Whether a legacy mint on behalf of a caller is accepted.
pub open spec fn ext_mint_accepted(s: StateView, caller: Principal, arg: ExtMintArgView) -> bool {
    user_account(arg.to) is Some && mint_fault(
        s,
        default_account_of(caller),
        legacy_mint_item(s, user_account(arg.to)->0, arg.metadata),
    ) is None
}

/// The views of the arguments of a batch of legacy mints.
pub open spec fn ext_mint_args(args: Seq<ExtMintArg>) -> Seq<ExtMintArgView> {
    Seq::new(args.len(), |i: int| args[i]@)
}

/// The state and the indices after the first `k` legacy mints of a batch,
/// made one after the other.
pub open spec fn ext_batch_minted(
    s: StateView,
    caller: Principal,
    args: Seq<ExtMintArgView>,
    now: u64,
    k: nat,
) -> (StateView, Seq<u32>)
    decreases k,
{
    if k == 0 {
        (s, Seq::empty())
    } else {
        let (before, ids) = ext_batch_minted(s, caller, args, now, (k - 1) as nat);
        let (after, id) = ext_mint_outcome(before, caller, args[k - 1], now);
        (after, ids.push(id))
    }
}

/// Whether the two counters have room for every mint of a batch that is
/// accepted when its turn comes.
pub open spec fn ext_batch_room(
    s: StateView,
    caller: Principal,
    args: Seq<ExtMintArgView>,
    now: u64,
) -> bool {
    forall|k: nat|
        k < args.len() ==> {
            let before = (#[trigger] ext_batch_minted(s, caller, args, now, k)).0;
            ext_mint_accepted(before, caller, args[k as int]) ==> before.txn_count < u128::MAX
                && before.next_token_id < u128::MAX
        }
}

/// Each legacy mint moves the two counters by one at most, so counters with
/// room for as many tokens as the batch has items have room for the batch.
pub proof fn lemma_ext_batch_minted(
    s: StateView,
    caller: Principal,
    args: Seq<ExtMintArgView>,
    now: u64,
    k: nat,
)
    requires
        k <= args.len(),
        s.txn_count + k <= u128::MAX,
        s.next_token_id + k <= u128::MAX,
    ensures
        ext_batch_minted(s, caller, args, now, k).0.txn_count <= s.txn_count + k,
        ext_batch_minted(s, caller, args, now, k).0.next_token_id <= s.next_token_id + k,
        ext_batch_minted(s, caller, args, now, k).1.len() == k,
        k == args.len() ==> ext_batch_room(s, caller, args, now),
    decreases k,
{
    if k > 0 {
        lemma_ext_batch_minted(s, caller, args, now, (k - 1) as nat);
    }
    if k == args.len() {
        assert forall|j: nat| j < args.len() implies {
            let before = (#[trigger] ext_batch_minted(s, caller, args, now, j)).0;
            before.txn_count < u128::MAX && before.next_token_id < u128::MAX
        } by {
            lemma_counters_move_slowly(s, caller, args, now, j);
        }
    }
}

proof fn lemma_counters_move_slowly(
    s: StateView,
    caller: Principal,
    args: Seq<ExtMintArgView>,
    now: u64,
    k: nat,
)
    requires
        k <= args.len(),
        s.txn_count + k <= u128::MAX,
        s.next_token_id + k <= u128::MAX,
    ensures
        ext_batch_minted(s, caller, args, now, k).0.txn_count <= s.txn_count + k,
        ext_batch_minted(s, caller, args, now, k).0.next_token_id <= s.next_token_id + k,
    decreases k,
{
    if k > 0 {
        lemma_counters_move_slowly(s, caller, args, now, (k - 1) as nat);
    }
}

/// The modern approval that a legacy approval amounts to.
pub open spec fn legacy_approval_item(spender: Principal, token_id: u128) -> ApprovalArgView {
    ApprovalArgView {
        from_subaccount: None,
        spender: default_account_of(spender),
        token_id,
        expires_at: None,
        memo: None,
    }
}

/// What a legacy approval does to the state, and whether it was granted.
pub open spec fn ext_approve_outcome(
    s: StateView,
    caller: Principal,
    spender: Principal,
    allowance: u128,
    token: Seq<char>,
    now: u64,
    canister: Principal,
) -> (StateView, bool) {
    if caller@ == anonymous_bytes() || allowance != 1 || token_index_of(token, canister@) is None {
        (s, false)
    } else {
        let from = default_account_of(caller);
        let item = legacy_approval_item(spender, token_index_of(token, canister@)->0);
        if approval_fault(s, from, item) is Some {
            (s, false)
        } else {
            (apply_approval(s, from, item, now), true)
        }
    }
}

/// What replacing a token's description does to the state, and whether the
/// token was found.
pub open spec fn ext_update_metadata_outcome(
    s: StateView,
    token: Seq<char>,
    description: Seq<char>,
    canister: Principal,
) -> (StateView, bool) {
    match token_index_of(token, canister@) {
        None => (s, false),
        Some(id) => match lookup(s.tokens, id) {
            None => (s, false),
            Some(t) => (StateView { tokens: put(s.tokens, redescribed(t, description)), ..s }, true),
        },
    }
}

impl State {
    /// The account that a user stands for, addresses being looked up in the
    /// table of registered addresses.
    pub fn get_mapping_account(&self, user: &User) -> (r: Option<Account>)
        ensures
            r == mapped_account(self@.ext_account_mapping, user@),
    {
        match user {
            User::Principal(principal) => Some(default_account(principal)),
            User::Address(address) => {
                match self.ext_account_mapping.get(address.as_str()) {
                    Some(pid) => match Principal::from_text(pid.as_str()) {
                        Some(user_principal) => Some(default_account(&user_principal)),
                        None => None,
                    },
                    None => None,
                }
            },
        }
    }

    /// The legacy transfer of one token to a user, on behalf of `caller`, on
    /// the ledger with the identity `canister_id`, at the time `now`.
    pub fn ext_transfer(
        &mut self,
        caller: &Principal,
        arg: ExtTransferArg,
        now: u64,
        canister_id: Principal,
    ) -> (r: ExtTransferResult)
        requires
            ext_transfer_outcome(old(self)@, *caller, arg@, now, canister_id).1 is Ok ==> old(
                self,
            ).txn_count < u128::MAX,
        ensures
            (final(self)@, r@) == ext_transfer_outcome(old(self)@, *caller, arg@, now, canister_id),
    {
        if caller.is_anonymous() {
            return ExtTransferResult::Failure(ExtTransferError::Rejected);
        }
        if arg.amount != 1 {
            return ExtTransferResult::Failure(
                ExtTransferError::Other("Must use amount of 1".to_string()),
            );
        }
        let caller_account = default_account(caller);
        let _from_account = match user_transformer(&arg.from) {
            Some(account) => account,
            None => {
                return ExtTransferResult::Failure(
                    ExtTransferError::Other("From User not support address".to_string()),
                );
            },
        };
        let to_account = match self.get_mapping_account(&arg.to) {
            Some(account) => account,
            None => {
                return ExtTransferResult::Failure(
                    ExtTransferError::Other(
                        "To User not support address or not mapping address".to_string(),
                    ),
                );
            },
        };
        let token_id = match arg.token.parse_token_index(canister_id) {
            Ok(token_id) => token_id,
            Err(_) => {
                return ExtTransferResult::Failure(ExtTransferError::InvalidToken(arg.token));
            },
        };
        let icrc7_arg = TransferArg {
            from_subaccount: None,
            to: to_account,
            token_id,
            memo: Some(copy_bytes(&arg.memo)),
            created_at_time: Some(now),
        };
        assert(icrc7_arg@ == legacy_transfer_item(to_account, token_id, arg.memo@, now));
        if let Err(_) = self.mock_transfer(now, &caller_account, &icrc7_arg) {
            return ExtTransferResult::Failure(
                ExtTransferError::Other("mock_transfer error".to_string()),
            );
        }
        let mut token = match self.tokens.get(token_id) {
            Some(token) => token.clone(),
            None => {
                return ExtTransferResult::Failure(
                    ExtTransferError::Other("mock_transfer error".to_string()),
                );
            },
        };
        token.transfer(to_account);
        self.tokens.insert(token);
        self.log_transaction(
            TransactionType::Transfer { tid: token_id, from: caller_account, to: to_account },
            now,
            Some(arg.memo),
        );
        ExtTransferResult::Success(arg.amount)
    }

    /// The legacy approval of one spender for one token, on behalf of
    /// `caller`. Gives `false` where nothing was granted.
    pub fn ext_approve(
        &mut self,
        caller: &Principal,
        arg: ExtApproveArg,
        now: u64,
        canister_id: Principal,
    ) -> (r: bool)
        requires
            ext_approve_outcome(
                old(self)@,
                *caller,
                arg.spender,
                arg.allowance,
                arg.token@,
                now,
                canister_id,
            ).1 ==> old(self).txn_count < u128::MAX,
        ensures
            (final(self)@, r) == ext_approve_outcome(
                old(self)@,
                *caller,
                arg.spender,
                arg.allowance,
                arg.token@,
                now,
                canister_id,
            ),
    {
        if caller.is_anonymous() {
            return false;
        }
        if arg.allowance != 1 {
            return false;
        }
        let caller_account = default_account(caller);
        let to_account = default_account(&arg.spender);
        let token_id = match arg.token.parse_token_index(canister_id) {
            Ok(token_id) => token_id,
            Err(_) => {
                return false;
            },
        };
        let icrc7_arg = ApprovalArg {
            from_subaccount: None,
            spender: to_account,
            token_id,
            expires_at: None,
            memo: None,
        };
        assert(icrc7_arg@ == legacy_approval_item(arg.spender, token_id));
        if let Err(_) = self.mock_approve(&caller_account, &icrc7_arg) {
            return false;
        }
        let mut token = match self.tokens.get(token_id) {
            Some(token) => token.clone(),
            None => {
                return false;
            },
        };
        token.approve(Approval { account: to_account, expires_at: None });
        self.tokens.insert(token);
        self.log_transaction(
            TransactionType::Approval { tid: token_id, from: caller_account, to: to_account },
            now,
            None,
        );
        true
    }

    /// The legacy mint of one token, of the next free id, to a user given by
    /// identity. Gives the index of the token, or zero where none was minted.
    pub fn ext_mint_one(&mut self, caller: &Principal, ext_arg: &ExtMintArg, now: u64) -> (r:
        ExtTokenIndex)
        requires
            ext_mint_accepted(old(self)@, *caller, ext_arg@) ==> old(self).txn_count < u128::MAX
                && old(self).next_token_id < u128::MAX,
        ensures
            (final(self)@, r) == ext_mint_outcome(old(self)@, *caller, ext_arg@, now),
    {
        let caller = default_account(caller);
        let to_account = match user_transformer(&ext_arg.to) {
            Some(account) => account,
            None => {
                return 0;
            },
        };
        let token_id = self.next_token_id;
        let token_description = match &ext_arg.metadata {
            Some(bytes) => Some(decode_lossy(bytes.as_slice())),
            None => None,
        };
        let arg = MintArg {
            from_subaccount: None,
            to: to_account,
            token_id,
            memo: None,
            token_name: None,
            token_description,
            token_logo: None,
        };
        assert(arg@ == legacy_mint_item(self@, to_account, opt_bytes(ext_arg.metadata)));
        match self.mock_mint(&caller, &arg) {
            Ok(_) => (),
            Err(_) => {
                return 0;
            },
        }
        self.commit_mint(caller, arg, now);
        (token_id & 0xffff_ffff) as u32
    }

    /// The legacy mint of one token.
    pub fn ext_mint(&mut self, caller: &Principal, ext_arg: ExtMintArg, now: u64) -> (r:
        ExtTokenIndex)
        requires
            ext_mint_accepted(old(self)@, *caller, ext_arg@) ==> old(self).txn_count < u128::MAX
                && old(self).next_token_id < u128::MAX,
        ensures
            (final(self)@, r) == ext_mint_outcome(old(self)@, *caller, ext_arg@, now),
    {
        self.ext_mint_one(caller, &ext_arg, now)
    }

    /// Legacy mints, one after the other; the index of each, or zero.
    pub fn ext_batch_mint(&mut self, caller: &Principal, ext_args: Vec<ExtMintArg>, now: u64) -> (r:
        Vec<ExtTokenIndex>)
        requires
            ext_batch_room(old(self)@, *caller, ext_mint_args(ext_args@), now),
        ensures
            (final(self)@, r@) == ext_batch_minted(
                old(self)@,
                *caller,
                ext_mint_args(ext_args@),
                now,
                ext_args@.len(),
            ),
    {
        let ghost s0 = self@;
        let ghost views = ext_mint_args(ext_args@);
        let mut token_ids: Vec<ExtTokenIndex> = Vec::new();
        let mut i: usize = 0;
        while i < ext_args.len()
            invariant
                i <= ext_args@.len(),
                views == ext_mint_args(ext_args@),
                ext_batch_room(s0, *caller, views, now),
                (self@, token_ids@) == ext_batch_minted(s0, *caller, views, now, i as nat),
            decreases ext_args@.len() - i,
        {
            assert(views[i as int] == ext_args@[i as int]@);
            let token_id = self.ext_mint_one(caller, &ext_args[i], now);
            token_ids.push(token_id);
            i += 1;
        }
        token_ids
    }

    /// Registers an identity under an address of the legacy protocol, in
    /// place of whatever stood under it, and gives the address back.
    pub fn ext_set_account_mapping(&mut self, caller: &Principal, address: String) -> (r: Option<
        AccountIdentifierHex,
    >)
        ensures
            r is Some && r->0@ == address@,
            final(self)@ == (StateView {
                ext_account_mapping: stored(
                    old(self)@.ext_account_mapping,
                    address@,
                    principal_text(caller@),
                ),
                ..old(self)@
            }),
    {
        let pid = caller.to_text();
        self.ext_account_mapping.insert(address.clone(), pid);
        Some(address)
    }

    /// Replaces the description of the token that an identifier names.
    /// Gives `false` where the identifier names no token of this ledger.
    pub fn ext_update_metadata(
        &mut self,
        token: TokenIdentifier,
        description: String,
        canister_id: Principal,
    ) -> (r: bool)
        ensures
            (final(self)@, r) == ext_update_metadata_outcome(
                old(self)@,
                token@,
                description@,
                canister_id,
            ),
    {
        let token_id = match token.parse_token_index(canister_id) {
            Ok(token_id) => token_id,
            Err(_) => {
                return false;
            },
        };
        let mut token_info = match self.tokens.get(token_id) {
            Some(t) => t.clone(),
            None => {
                return false;
            },
        };
        token_info.token_description = Some(description);
        self.tokens.insert(token_info);
        true
    }
}

} // verus!
