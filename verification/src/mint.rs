//! Minting: the minting authority creates a token under an id that is not
//! below the running counter and not yet taken.

use crate::account::{account_transformer, Account};
use crate::errors::{MintError, MintErrorView};
use crate::icrc7_types::{MintArg, MintArgView, MintResult, TransactionType};
use crate::identity::{anonymous_bytes, Principal};
use crate::state::{memo_exceeds, memo_too_long, State, StateView, DEFAULT_MAX_MEMO_SIZE};
use crate::token::{has_token, put, Icrc7Token, TokenView};
use crate::transfer::acting_account;
use vstd::prelude::*;
use vstd::string::StringExecFns;

verus! {

/// The character of a decimal digit.
pub open spec fn digit_char(d: int) -> char {
    seq!['0', '1', '2', '3', '4', '5', '6', '7', '8', '9'][d]
}

/// A number in decimal notation, without leading zeros.
pub open spec fn decimal(n: nat) -> Seq<char>
    decreases n,
{
    if n < 10 {
        seq![digit_char(n as int)]
    } else {
        decimal(n / 10).push(digit_char((n % 10) as int))
    }
}

/// The text of a decimal digit.
fn digit_text(d: u8) -> (text: &'static str)
    requires
        d < 10,
    ensures
        text@ == seq![digit_char(d as int)],
{
    proof {
        reveal_strlit("0");
        reveal_strlit("1");
        reveal_strlit("2");
        reveal_strlit("3");
        reveal_strlit("4");
        reveal_strlit("5");
        reveal_strlit("6");
        reveal_strlit("7");
        reveal_strlit("8");
        reveal_strlit("9");
    }
    let text = if d == 0 {
        "0"
    } else if d == 1 {
        "1"
    } else if d == 2 {
        "2"
    } else if d == 3 {
        "3"
    } else if d == 4 {
        "4"
    } else if d == 5 {
        "5"
    } else if d == 6 {
        "6"
    } else if d == 7 {
        "7"
    } else if d == 8 {
        "8"
    } else {
        "9"
    };
    assert(text@ =~= seq![digit_char(d as int)]);
    text
}

/// A number in decimal notation.
pub fn decimal_text(n: u128) -> (text: String)
    ensures
        text@ == decimal(n as nat),
    decreases n,
{
    if n < 10 {
        digit_text(n as u8).to_string()
    } else {
        let text = decimal_text(n / 10).concat(digit_text((n % 10) as u8));
        assert(text@ =~= decimal((n / 10) as nat).push(digit_char((n % 10) as int)));
        text
    }
}

/// The name that a token gets where none is given: the ledger's symbol, a
/// space and the token id.
pub open spec fn default_token_name(symbol: Seq<char>, token_id: u128) -> Seq<char> {
    symbol + " "@ + decimal(token_id as nat)
}

/// Why a mint is refused; `None` where it is accepted.
pub open spec fn mint_fault(s: StateView, caller: Account, arg: MintArgView) -> Option<
    MintErrorView,
> {
    if s.icrc7_supply_cap == Some(s.icrc7_total_supply) {
        Some(MintErrorView::SupplyCapReached)
    } else if s.minting_authority is None {
        Some(
            MintErrorView::GenericBatchError {
                error_code: 6,
                message: "Minting Authority Not Set"@,
            },
        )
    } else if !caller.same_as(&s.minting_authority->0) {
        Some(MintErrorView::Unauthorized)
    } else if memo_too_long(arg.memo, s.memo_limit()) {
        Some(
            MintErrorView::GenericError { error_code: 7, message: "Exceeds Allowed Memo Length"@ },
        )
    } else if arg.token_id < s.next_token_id {
        Some(MintErrorView::TokenIdMinimumLimit)
    } else if has_token(s.tokens, arg.token_id) {
        Some(MintErrorView::TokenIdAlreadyExist)
    } else {
        None
    }
}

/// The token that an accepted mint creates.
pub open spec fn minted_token(s: StateView, arg: MintArgView) -> TokenView {
    TokenView {
        token_id: arg.token_id,
        token_name: match arg.token_name {
            Some(name) => name,
            None => default_token_name(s.icrc7_symbol, arg.token_id),
        },
        token_description: arg.token_description,
        token_logo: arg.token_logo,
        token_owner: arg.to.canonical(),
        approvals: Seq::empty(),
    }
}

/// The state after an accepted mint: the token is stored, the counter
/// stands behind its id, and the log has one more entry.
pub open spec fn apply_mint(s: StateView, from: Account, arg: MintArgView, now: u64) -> StateView {
    (StateView {
        tokens: put(s.tokens, minted_token(s, arg)),
        next_token_id: (arg.token_id + 1) as u128,
        ..s
    }).logged(
        TransactionType::Mint { tid: arg.token_id, from, to: arg.to.canonical() },
        now,
        arg.memo,
    )
}

/// What a mint does to the state, and its outcome.
pub open spec fn mint_outcome(s: StateView, caller: Principal, arg: MintArgView, now: u64) -> (
    StateView,
    Result<u128, MintErrorView>,
) {
    let from = acting_account(caller, arg.from_subaccount);
    match mint_fault(s, from, arg) {
        Some(e) => (s, Err(e)),
        None => (apply_mint(s, from, arg, now), Ok(s.next_txn_id())),
    }
}

/// Whether a mint on behalf of a caller is accepted.
pub open spec fn mint_accepted(s: StateView, caller: Principal, arg: MintArgView) -> bool {
    mint_fault(s, acting_account(caller, arg.from_subaccount), arg) is None
}

/// What the mint operation of the service does: the anonymous caller is
/// turned away before anything else is looked at.
pub open spec fn guarded_mint_outcome(s: StateView, caller: Principal, arg: MintArgView, now: u64)
    -> (StateView, Result<u128, MintErrorView>) {
    if caller@ == anonymous_bytes() {
        (
            s,
            Err(MintErrorView::GenericBatchError { error_code: 100, message: "Anonymous Identity"@ }),
        )
    } else {
        mint_outcome(s, caller, arg, now)
    }
}

/// The view of a mint's result.
pub open spec fn mint_result_view(r: MintResult) -> Result<u128, MintErrorView> {
    match r {
        Ok(id) => Ok(id),
        Err(e) => Err(e@),
    }
}

impl State {
    /// Checks a mint against the state, without changing anything.
    pub fn mock_mint(&self, caller: &Account, arg: &MintArg) -> (r: Result<(), MintError>)
        ensures
            match mint_fault(self@, *caller, arg@) {
                Some(e) => r is Err && r->Err_0@ == e,
                None => r is Ok,
            },
    {
        if let Some(cap) = self.icrc7_supply_cap {
            if cap == self.icrc7_total_supply {
                return Err(MintError::SupplyCapReached);
            }
        }
        match self.minting_authority {
            None => {
                return Err(
                    MintError::GenericBatchError {
                        error_code: 6,
                        message: "Minting Authority Not Set".to_string(),
                    },
                );
            },
            Some(authority) => {
                if !(*caller == authority) {
                    return Err(MintError::Unauthorized);
                }
            },
        }
        let allowed_memo_length: u128 = match self.icrc7_max_memo_size {
            Some(n) => n,
            None => DEFAULT_MAX_MEMO_SIZE,
        };
        if memo_exceeds(&arg.memo, allowed_memo_length) {
            return Err(
                MintError::GenericError {
                    error_code: 7,
                    message: "Exceeds Allowed Memo Length".to_string(),
                },
            );
        }
        if arg.token_id < self.next_token_id {
            return Err(MintError::TokenIdMinimumLimit);
        }
        if self.tokens.contains(arg.token_id) {
            return Err(MintError::TokenIdAlreadyExist);
        }
        Ok(())
    }

    /// The name of a token of this ledger for which none was given.
    pub fn default_name(&self, token_id: u128) -> (name: String)
        ensures
            name@ == default_token_name(self@.icrc7_symbol, token_id),
    {
        let digits = decimal_text(token_id);
        self.icrc7_symbol.clone().concat(" ").concat(digits.as_str())
    }

    /// Stores the token of a mint that was checked, and logs it.
    pub fn commit_mint(&mut self, from: Account, arg: MintArg, now: u64) -> (id: u128)
        requires
            old(self).txn_count < u128::MAX,
            arg.token_id < u128::MAX,
        ensures
            final(self)@ == apply_mint(old(self)@, from, arg@, now),
            id == old(self)@.next_txn_id(),
    {
        let ghost view = arg@;
        let to = account_transformer(arg.to);
        let token_id = arg.token_id;
        let token_name = match arg.token_name {
            Some(name) => name,
            None => self.default_name(token_id),
        };
        let token = Icrc7Token::new(token_id, token_name, arg.token_description, arg.token_logo, to);
        assert(token@ == minted_token(self@, view));
        self.tokens.insert(token);
        self.next_token_id = token_id + 1;
        self.log_transaction(TransactionType::Mint { tid: token_id, from, to }, now, arg.memo)
    }

    /// Mints a token on behalf of `caller` at the time `now`.
    pub fn mint(&mut self, caller: &Principal, arg: MintArg, now: u64) -> (r: MintResult)
        requires
            mint_accepted(old(self)@, *caller, arg@) ==> old(self).txn_count < u128::MAX
                && arg.token_id < u128::MAX,
        ensures
            (final(self)@, mint_result_view(r)) == mint_outcome(old(self)@, *caller, arg@, now),
    {
        let caller = account_transformer(
            Account { owner: *caller, subaccount: arg.from_subaccount },
        );
        match self.mock_mint(&caller, &arg) {
            Err(e) => {
                return Err(e);
            },
            Ok(()) => {},
        }
        let txn_id = self.commit_mint(caller, arg, now);
        Ok(txn_id)
    }
}

/// The mint operation of the service: the anonymous caller is turned away
/// with a batch error of its own; every other caller goes through `mint`.
pub fn icrc7_mint(state: &mut State, arg: MintArg, caller: Principal, now: u64) -> (r: MintResult)
    requires
        caller@ != anonymous_bytes() && mint_accepted(old(state)@, caller, arg@) ==> old(
            state,
        ).txn_count < u128::MAX && arg.token_id < u128::MAX,
    ensures
        (final(state)@, mint_result_view(r)) == guarded_mint_outcome(
            old(state)@,
            caller,
            arg@,
            now,
        ),
{
    if caller.is_anonymous() {
        return Err(
            MintError::GenericBatchError {
                error_code: 100,
                message: "Anonymous Identity".to_string(),
            },
        );
    }
    state.mint(&caller, arg, now)
}

} // verus!
