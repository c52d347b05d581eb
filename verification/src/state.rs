//! The state of one ledger: its settings, its tokens, its transaction log
//! and the table of legacy account identifiers.

use crate::account::Account;
use crate::icrc7_types::{opt_bytes, opt_text, Transaction, TransactionType, TransactionView};
use crate::identity::Principal;
use crate::text_map::TextMap;
use crate::token::{TokenMap, TokenView};
use vstd::prelude::*;

verus! {

pub const DEFAULT_MAX_QUERY_BATCH_SIZE: u128 = 32;

pub const DEFAULT_MAX_UPDATE_BATCH_SIZE: u128 = 32;

pub const DEFAULT_TAKE_VALUE: u128 = 32;

pub const DEFAULT_MAX_TAKE_VALUE: u128 = 32;

pub const DEFAULT_MAX_MEMO_SIZE: u128 = 32;

/// Twenty-four hours in nanoseconds.
pub const DEFAULT_TX_WINDOW: u64 = 86_400_000_000_000;

/// Two minutes in nanoseconds.
pub const DEFAULT_PERMITTED_DRIFT: u64 = 120_000_000_000;

pub struct State {
    pub minting_authority: Option<Account>,
    pub icrc7_symbol: String,
    pub icrc7_name: String,
    pub icrc7_description: Option<String>,
    pub icrc7_logo: Option<String>,
    pub icrc7_total_supply: u128,
    pub icrc7_supply_cap: Option<u128>,
    pub icrc7_max_query_batch_size: Option<u128>,
    pub icrc7_max_update_batch_size: Option<u128>,
    pub icrc7_max_take_value: Option<u128>,
    pub icrc7_default_take_value: Option<u128>,
    pub icrc7_max_memo_size: Option<u128>,
    pub icrc7_atomic_batch_transfers: Option<bool>,
    pub tx_window: Option<u64>,
    pub permitted_drift: Option<u64>,
    pub tokens: TokenMap,
    pub txn_count: u128,
    pub next_token_id: u128,
    pub txn_log: Vec<Transaction>,
    pub archive_log_canister: Option<Principal>,
    pub sync_pending_txn_ids: Option<Vec<u128>>,
    pub archive_txn_count: u128,
    pub ext_account_mapping: TextMap<String>,
}

#[verifier::ext_equal]
pub struct StateView {
    pub minting_authority: Option<Account>,
    pub icrc7_symbol: Seq<char>,
    pub icrc7_name: Seq<char>,
    pub icrc7_description: Option<Seq<char>>,
    pub icrc7_logo: Option<Seq<char>>,
    pub icrc7_total_supply: u128,
    pub icrc7_supply_cap: Option<u128>,
    pub icrc7_max_query_batch_size: Option<u128>,
    pub icrc7_max_update_batch_size: Option<u128>,
    pub icrc7_max_take_value: Option<u128>,
    pub icrc7_default_take_value: Option<u128>,
    pub icrc7_max_memo_size: Option<u128>,
    pub icrc7_atomic_batch_transfers: Option<bool>,
    pub tx_window: Option<u64>,
    pub permitted_drift: Option<u64>,
    pub tokens: Seq<TokenView>,
    pub txn_count: u128,
    pub next_token_id: u128,
    pub txn_log: Seq<TransactionView>,
    pub archive_log_canister: Option<Principal>,
    pub sync_pending_txn_ids: Option<Seq<u128>>,
    pub archive_txn_count: u128,
    pub ext_account_mapping: Seq<(Seq<char>, Seq<char>)>,
}

/// The ids of an optional list.
pub open spec fn opt_ids(o: Option<Vec<u128>>) -> Option<Seq<u128>> {
    match o {
        Some(v) => Some(v@),
        None => None,
    }
}

/// The views of the entries of a log.
pub open spec fn log_view(log: Seq<Transaction>) -> Seq<TransactionView> {
    Seq::new(log.len(), |i: int| log[i]@)
}

impl View for State {
    type V = StateView;

    open spec fn view(&self) -> StateView {
        StateView {
            minting_authority: self.minting_authority,
            icrc7_symbol: self.icrc7_symbol@,
            icrc7_name: self.icrc7_name@,
            icrc7_description: opt_text(self.icrc7_description),
            icrc7_logo: opt_text(self.icrc7_logo),
            icrc7_total_supply: self.icrc7_total_supply,
            icrc7_supply_cap: self.icrc7_supply_cap,
            icrc7_max_query_batch_size: self.icrc7_max_query_batch_size,
            icrc7_max_update_batch_size: self.icrc7_max_update_batch_size,
            icrc7_max_take_value: self.icrc7_max_take_value,
            icrc7_default_take_value: self.icrc7_default_take_value,
            icrc7_max_memo_size: self.icrc7_max_memo_size,
            icrc7_atomic_batch_transfers: self.icrc7_atomic_batch_transfers,
            tx_window: self.tx_window,
            permitted_drift: self.permitted_drift,
            tokens: self.tokens@,
            txn_count: self.txn_count,
            next_token_id: self.next_token_id,
            txn_log: log_view(self.txn_log@),
            archive_log_canister: self.archive_log_canister,
            sync_pending_txn_ids: opt_ids(self.sync_pending_txn_ids),
            archive_txn_count: self.archive_txn_count,
            ext_account_mapping: self.ext_account_mapping@,
        }
    }
}

impl StateView {
    /// The longest memo that is accepted.
    pub open spec fn memo_limit(self) -> u128 {
        match self.icrc7_max_memo_size {
            Some(n) => n,
            None => DEFAULT_MAX_MEMO_SIZE,
        }
    }

    /// How far back a transfer's timestamp may lie, before the drift.
    pub open spec fn window(self) -> u64 {
        match self.tx_window {
            Some(n) => n,
            None => DEFAULT_TX_WINDOW,
        }
    }

    /// How far the caller's clock may differ from the ledger's.
    pub open spec fn drift(self) -> u64 {
        match self.permitted_drift {
            Some(n) => n,
            None => DEFAULT_PERMITTED_DRIFT,
        }
    }

    /// Whether batches are applied all or nothing.
    pub open spec fn atomic(self) -> bool {
        self.icrc7_atomic_batch_transfers == Some(true)
    }

    /// The id that the next log entry gets.
    pub open spec fn next_txn_id(self) -> u128 {
        (self.txn_count + 1) as u128
    }

    /// The state after one more entry was appended to the log.
    pub open spec fn logged(self, txn_type: TransactionType, at: u64, memo: Option<Seq<u8>>)
        -> StateView {
        StateView {
            txn_count: self.next_txn_id(),
            txn_log: self.txn_log.push(
                TransactionView { txn_id: self.next_txn_id(), txn_type, at, memo },
            ),
            ..self
        }
    }

    /// How many log entries there are, archived ones not counted.
    pub open spec fn current_txn_count(self) -> int {
        self.txn_count - self.archive_txn_count
    }
}

/// Whether a memo is longer than a limit.
pub open spec fn memo_too_long(memo: Option<Seq<u8>>, limit: u128) -> bool {
    memo is Some && memo->0.len() > limit
}

/// Whether a memo is longer than a limit.
pub fn memo_exceeds(memo: &Option<Vec<u8>>, limit: u128) -> (r: bool)
    ensures
        r == memo_too_long(opt_bytes(*memo), limit),
{
    match memo {
        Some(m) => m.len() as u128 > limit,
        None => false,
    }
}

/// The state of a ledger named `ICRC7 Collection` with the symbol `ICRC7`,
/// without tokens, log entries or settings.
pub open spec fn fresh_state() -> StateView {
    StateView {
        minting_authority: None,
        icrc7_symbol: "ICRC7"@,
        icrc7_name: "ICRC7 Collection"@,
        icrc7_description: None,
        icrc7_logo: None,
        icrc7_total_supply: 0,
        icrc7_supply_cap: None,
        icrc7_max_query_batch_size: None,
        icrc7_max_update_batch_size: None,
        icrc7_max_take_value: None,
        icrc7_default_take_value: None,
        icrc7_max_memo_size: None,
        icrc7_atomic_batch_transfers: None,
        tx_window: None,
        permitted_drift: None,
        tokens: Seq::empty(),
        txn_count: 0,
        next_token_id: 0,
        txn_log: Seq::empty(),
        archive_log_canister: None,
        sync_pending_txn_ids: None,
        archive_txn_count: 0,
        ext_account_mapping: Seq::empty(),
    }
}

impl State {
    /// A ledger named `ICRC7 Collection` with the symbol `ICRC7`, without
    /// tokens, log entries or settings.
    pub fn new() -> (s: State)
        ensures
            s@ == fresh_state(),
    {
        let s = State {
            minting_authority: None,
            icrc7_symbol: "ICRC7".to_string(),
            icrc7_name: "ICRC7 Collection".to_string(),
            icrc7_description: None,
            icrc7_logo: None,
            icrc7_total_supply: 0,
            icrc7_supply_cap: None,
            icrc7_max_query_batch_size: None,
            icrc7_max_update_batch_size: None,
            icrc7_max_take_value: None,
            icrc7_default_take_value: None,
            icrc7_max_memo_size: None,
            icrc7_atomic_batch_transfers: None,
            tx_window: None,
            permitted_drift: None,
            tokens: TokenMap::new(),
            txn_count: 0,
            next_token_id: 0,
            txn_log: Vec::new(),
            archive_log_canister: None,
            sync_pending_txn_ids: None,
            archive_txn_count: 0,
            ext_account_mapping: TextMap::new(),
        };
        assert(s@.txn_log =~= Seq::empty());
        s
    }

    /// A fresh ledger with the settings of a collection and its minting
    /// authority, as it stands after installation.
    pub fn init(minting_account: Account, arg: crate::types::Arg) -> (s: State)
        ensures
            s@ == (StateView {
                minting_authority: Some(minting_account.canonical()),
                icrc7_symbol: arg@.icrc7_symbol,
                icrc7_name: arg@.icrc7_name,
                icrc7_description: arg@.icrc7_description,
                icrc7_logo: arg@.icrc7_logo,
                icrc7_total_supply: 0,
                icrc7_supply_cap: arg@.icrc7_supply_cap,
                icrc7_max_query_batch_size: arg@.icrc7_max_query_batch_size,
                icrc7_max_update_batch_size: arg@.icrc7_max_update_batch_size,
                icrc7_max_take_value: arg@.icrc7_max_take_value,
                icrc7_default_take_value: arg@.icrc7_default_take_value,
                icrc7_max_memo_size: arg@.icrc7_max_memo_size,
                icrc7_atomic_batch_transfers: arg@.icrc7_atomic_batch_transfers,
                tx_window: arg@.tx_window,
                permitted_drift: arg@.permitted_drift,
                tokens: Seq::empty(),
                txn_count: 0,
                next_token_id: 0,
                txn_log: Seq::empty(),
                archive_log_canister: None,
                sync_pending_txn_ids: None,
                archive_txn_count: 0,
                ext_account_mapping: Seq::empty(),
            }),
    {
        let s = State {
            minting_authority: Some(crate::account::account_transformer(minting_account)),
            icrc7_symbol: arg.icrc7_symbol,
            icrc7_name: arg.icrc7_name,
            icrc7_description: arg.icrc7_description,
            icrc7_logo: arg.icrc7_logo,
            icrc7_total_supply: 0,
            icrc7_supply_cap: arg.icrc7_supply_cap,
            icrc7_max_query_batch_size: arg.icrc7_max_query_batch_size,
            icrc7_max_update_batch_size: arg.icrc7_max_update_batch_size,
            icrc7_max_take_value: arg.icrc7_max_take_value,
            icrc7_default_take_value: arg.icrc7_default_take_value,
            icrc7_max_memo_size: arg.icrc7_max_memo_size,
            icrc7_atomic_batch_transfers: arg.icrc7_atomic_batch_transfers,
            tx_window: arg.tx_window,
            permitted_drift: arg.permitted_drift,
            tokens: TokenMap::new(),
            txn_count: 0,
            next_token_id: 0,
            txn_log: Vec::new(),
            archive_log_canister: None,
            sync_pending_txn_ids: None,
            archive_txn_count: 0,
            ext_account_mapping: TextMap::new(),
        };
        assert(s@.txn_log =~= Seq::empty());
        s
    }

    /// Takes the next transaction id.
    pub fn get_txn_id(&mut self) -> (id: u128)
        requires
            old(self).txn_count < u128::MAX,
        ensures
            id == old(self)@.next_txn_id(),
            final(self)@ == (StateView { txn_count: id, ..old(self)@ }),
    {
        self.txn_count += 1;
        self.txn_count
    }

    /// Appends an entry to the log and gives its id.
    pub fn log_transaction(&mut self, txn_type: TransactionType, at: u64, memo: Option<Vec<u8>>)
        -> (id: u128)
        requires
            old(self).txn_count < u128::MAX,
        ensures
            id == old(self)@.next_txn_id(),
            final(self)@ == old(self)@.logged(txn_type, at, opt_bytes(memo)),
    {
        let txn_id = self.get_txn_id();
        let txn = Transaction::new(txn_id, txn_type, at, memo);
        self.txn_log.push(txn);
        assert(self@.txn_log =~= old(self)@.txn_log.push(txn@));
        txn_id
    }

    /// How many log entries there are, archived ones not counted: zero
    /// where more were archived than were ever written.
    pub fn get_current_txn_count(&self) -> (n: u128)
        ensures
            n == if self@.current_txn_count() >= 0 {
                self@.current_txn_count()
            } else {
                0
            },
    {
        if self.txn_count >= self.archive_txn_count {
            self.txn_count - self.archive_txn_count
        } else {
            0
        }
    }
}

impl Default for State {
    fn default() -> (s: State)
        ensures
            s@ == fresh_state(),
    {
        State::new()
    }
}

} // verus!
