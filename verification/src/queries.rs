//! The ledger's read-only operations of the modern protocol, and the
//! upkeep of its transaction log.

use crate::account::Account;
use crate::icrc7_types::{
    metadata_view, opt_text, Icrc7TokenMetadata, MetadataValueView, Standard, Transaction,
    TransactionView,
};
use crate::identity::Principal;
use crate::issuance::copy_ids;
use crate::state::{
    log_view, opt_ids, State, StateView, DEFAULT_MAX_QUERY_BATCH_SIZE, DEFAULT_MAX_TAKE_VALUE,
    DEFAULT_TAKE_VALUE,
};
use crate::token::{lookup, token_ids, token_metadata_spec, TokenView};
use vstd::prelude::*;

verus! {

/// The owner of the token of an id, if there is one.
pub open spec fn owner_of(tokens: Seq<TokenView>, id: u128) -> Option<Account> {
    match lookup(tokens, id) {
        Some(t) => Some(t.token_owner),
        None => None,
    }
}

/// The metadata of the token of an id, if there is one.
pub open spec fn metadata_of(tokens: Seq<TokenView>, id: u128) -> Option<
    Seq<(Seq<char>, MetadataValueView)>,
> {
    match lookup(tokens, id) {
        Some(t) => Some(token_metadata_spec(t)),
        None => None,
    }
}

/// The view of an optional list of metadata entries.
pub open spec fn opt_metadata_view(o: Option<Icrc7TokenMetadata>) -> Option<
    Seq<(Seq<char>, MetadataValueView)>,
> {
    match o {
        Some(m) => Some(metadata_view(m@)),
        None => None,
    }
}

/// How many of the tokens an account owns.
pub open spec fn count_owned(tokens: Seq<TokenView>, account: Account) -> nat
    decreases tokens.len(),
{
    if tokens.len() == 0 {
        0
    } else {
        count_owned(tokens.drop_last(), account) + if tokens.last().token_owner.same_as(
            &account,
        ) {
            1nat
        } else {
            0nat
        }
    }
}

/// The ids of the tokens that an account owns, in the order of the tokens.
pub open spec fn owned_ids(tokens: Seq<TokenView>, account: Account) -> Seq<u128>
    decreases tokens.len(),
{
    if tokens.len() == 0 {
        Seq::empty()
    } else if tokens.last().token_owner.same_as(&account) {
        owned_ids(tokens.drop_last(), account).push(tokens.last().token_id)
    } else {
        owned_ids(tokens.drop_last(), account)
    }
}

/// What follows the first occurrence of an id; `None` where it does not
/// occur.
pub open spec fn after(ids: Seq<u128>, prev: u128) -> Option<Seq<u128>>
    decreases ids.len(),
{
    if ids.len() == 0 {
        None
    } else if ids[0] == prev {
        Some(ids.drop_first())
    } else {
        after(ids.drop_first(), prev)
    }
}

/// The first `take` ids, or all where there are fewer.
pub open spec fn first(ids: Seq<u128>, take: nat) -> Seq<u128> {
    if take <= ids.len() {
        ids.subrange(0, take as int)
    } else {
        ids
    }
}

/// One page of ids: from the start, or from behind the cursor `prev`. A
/// cursor that does not occur gives an empty page.
pub open spec fn page(ids: Seq<u128>, prev: Option<u128>, take: nat) -> Seq<u128> {
    match prev {
        None => first(ids, take),
        Some(p) => match after(ids, p) {
            Some(rest) => first(rest, take),
            None => Seq::empty(),
        },
    }
}

/// The size of a page: what was asked for, else the default.
pub open spec fn page_size(take: Option<u128>) -> u128 {
    match take {
        Some(n) => n,
        None => DEFAULT_TAKE_VALUE,
    }
}

/// The largest batch that a query takes.
pub open spec fn query_limit(s: StateView) -> u128 {
    match s.icrc7_max_query_batch_size {
        Some(n) => n,
        None => DEFAULT_MAX_QUERY_BATCH_SIZE,
    }
}

/// The log entries whose ids are not among those given.
pub open spec fn without_ids(log: Seq<TransactionView>, ids: Seq<u128>) -> Seq<TransactionView>
    decreases log.len(),
{
    if log.len() == 0 {
        Seq::empty()
    } else if ids.contains(log.last().txn_id) {
        without_ids(log.drop_last(), ids)
    } else {
        without_ids(log.drop_last(), ids).push(log.last())
    }
}

/// One page of a list of ids.
pub fn page_of(ids: &Vec<u128>, prev: Option<u128>, take: u128) -> (r: Vec<u128>)
    ensures
        r@ == page(ids@, prev, take as nat),
{
    let n = ids.len();
    let start: usize = match prev {
        None => 0,
        Some(p) => {
            let mut i: usize = 0;
            let mut found = false;
            assert(ids@.subrange(0, n as int) =~= ids@);
            while i < n && !found
                invariant
                    i <= n,
                    n == ids@.len(),
                    !found ==> after(ids@, p) == after(ids@.subrange(i as int, n as int), p),
                    found ==> 0 < i && after(ids@, p) == Some(ids@.subrange(i as int, n as int)),
                decreases n - i + if found {
                    0int
                } else {
                    1int
                },
            {
                let ghost rest = ids@.subrange(i as int, n as int);
                assert(rest.drop_first() =~= ids@.subrange(i + 1, n as int));
                if ids[i] == p {
                    found = true;
                }
                i += 1;
            }
            if !found {
                assert(ids@.subrange(n as int, n as int) =~= Seq::<u128>::empty());
                return Vec::new();
            }
            i
        },
    };
    let ghost rest = ids@.subrange(start as int, n as int);
    assert(prev is None ==> rest =~= ids@);
    let available: usize = n - start;
    let count: usize = if take <= available as u128 {
        take as usize
    } else {
        available
    };
    let mut r: Vec<u128> = Vec::new();
    let mut k: usize = 0;
    while k < count
        invariant
            k <= count,
            start + count <= n,
            n == ids@.len(),
            r@ == ids@.subrange(start as int, start + k),
        decreases count - k,
    {
        r.push(ids[start + k]);
        assert(r@ =~= ids@.subrange(start as int, start + k + 1));
        k += 1;
    }
    assert(r@ =~= first(rest, take as nat));
    r
}

impl State {
    pub fn icrc7_symbol(&self) -> (r: String)
        ensures
            r@ == self@.icrc7_symbol,
    {
        self.icrc7_symbol.clone()
    }

    pub fn icrc7_name(&self) -> (r: String)
        ensures
            r@ == self@.icrc7_name,
    {
        self.icrc7_name.clone()
    }

    pub fn icrc7_description(&self) -> (r: Option<String>)
        ensures
            opt_text(r) == self@.icrc7_description,
    {
        crate::icrc7_types::copy_opt_text(&self.icrc7_description)
    }

    pub fn icrc7_total_supply(&self) -> (r: u128)
        ensures
            r == self@.icrc7_total_supply,
    {
        self.icrc7_total_supply
    }

    pub fn icrc7_supply_cap(&self) -> (r: Option<u128>)
        ensures
            r == self@.icrc7_supply_cap,
    {
        self.icrc7_supply_cap
    }

    pub fn icrc7_logo(&self) -> (r: Option<String>)
        ensures
            opt_text(r) == self@.icrc7_logo,
    {
        crate::icrc7_types::copy_opt_text(&self.icrc7_logo)
    }

    pub fn icrc7_minting_authority(&self) -> (r: Option<Account>)
        ensures
            r == self@.minting_authority,
    {
        self.minting_authority
    }

    pub fn icrc7_max_query_batch_size(&self) -> (r: Option<u128>)
        ensures
            r == self@.icrc7_max_query_batch_size,
    {
        self.icrc7_max_query_batch_size
    }

    pub fn icrc7_max_update_batch_size(&self) -> (r: Option<u128>)
        ensures
            r == self@.icrc7_max_update_batch_size,
    {
        self.icrc7_max_update_batch_size
    }

    pub fn icrc7_default_take_value(&self) -> (r: Option<u128>)
        ensures
            r == self@.icrc7_default_take_value,
    {
        self.icrc7_default_take_value
    }

    pub fn icrc7_max_take_value(&self) -> (r: Option<u128>)
        ensures
            r == self@.icrc7_max_take_value,
    {
        self.icrc7_max_take_value
    }

    pub fn icrc7_max_memo_size(&self) -> (r: Option<u128>)
        ensures
            r == self@.icrc7_max_memo_size,
    {
        self.icrc7_max_memo_size
    }

    pub fn icrc7_atomic_batch_transfers(&self) -> (r: Option<bool>)
        ensures
            r == self@.icrc7_atomic_batch_transfers,
    {
        self.icrc7_atomic_batch_transfers
    }

    /// The owner of each token asked for, `None` for an id without a token.
    pub fn icrc7_owner_of(&self, token_id: &[u128]) -> (r: Vec<Option<Account>>)
        ensures
            r@ == Seq::new(token_id@.len(), |i: int| owner_of(self@.tokens, token_id@[i])),
    {
        let mut res: Vec<Option<Account>> = Vec::new();
        let mut index: usize = 0;
        while index < token_id.len()
            invariant
                index <= token_id@.len(),
                res@.len() == index,
                forall|j: int| 0 <= j < index ==> res@[j] == owner_of(self@.tokens, token_id@[j]),
            decreases token_id@.len() - index,
        {
            match self.tokens.get(token_id[index]) {
                Some(token) => res.push(Some(token.token_owner)),
                None => res.push(None),
            }
            index += 1;
        }
        assert(res@ =~= Seq::new(
            token_id@.len(),
            |i: int| owner_of(self@.tokens, token_id@[i]),
        ));
        res
    }

    pub fn get_archive_log_canister(&self) -> (r: Option<Principal>)
        ensures
            r == self@.archive_log_canister,
    {
        self.archive_log_canister
    }

    pub fn get_sync_pending_txn_ids(&self) -> (r: Option<Vec<u128>>)
        ensures
            opt_ids(r) == self@.sync_pending_txn_ids,
    {
        match &self.sync_pending_txn_ids {
            Some(ids) => Some(copy_ids(ids)),
            None => None,
        }
    }

    /// Notes the ids of the entries that are on their way to the archive,
    /// or that none are.
    pub fn set_sync_pending_txn_ids(&mut self, txn_ids: Option<Vec<u128>>) -> (r: bool)
        ensures
            r,
            final(self)@ == (StateView { sync_pending_txn_ids: opt_ids(txn_ids), ..old(self)@ }),
    {
        self.sync_pending_txn_ids = txn_ids;
        true
    }

    /// The metadata of each token asked for, `None` for an id without a
    /// token. More ids than a query may hold are not to be asked for.
    pub fn icrc7_token_metadata(&self, token_ids: &[u128]) -> (r: Vec<Option<Icrc7TokenMetadata>>)
        requires
            token_ids@.len() <= query_limit(self@),
        ensures
            r@.len() == token_ids@.len(),
            forall|i: int|
                0 <= i < token_ids@.len() ==> opt_metadata_view(#[trigger] r@[i]) == metadata_of(
                    self@.tokens,
                    token_ids@[i],
                ),
    {
        let mut metadata_list: Vec<Option<Icrc7TokenMetadata>> = Vec::new();
        let mut index: usize = 0;
        while index < token_ids.len()
            invariant
                index <= token_ids@.len(),
                metadata_list@.len() == index,
                forall|j: int|
                    0 <= j < index ==> opt_metadata_view(#[trigger] metadata_list@[j])
                        == metadata_of(self@.tokens, token_ids@[j]),
            decreases token_ids@.len() - index,
        {
            match self.tokens.get(token_ids[index]) {
                Some(token) => metadata_list.push(Some(token.token_metadata())),
                None => metadata_list.push(None),
            }
            index += 1;
        }
        metadata_list
    }

    /// How many tokens each of the accounts owns.
    pub fn icrc7_balance_of(&self, accounts: &[Account]) -> (r: Vec<u128>)
        ensures
            r@.len() == accounts@.len(),
            forall|i: int|
                0 <= i < accounts@.len() ==> (#[trigger] r@[i]) == count_owned(
                    self@.tokens,
                    accounts@[i],
                ),
    {
        let mut count_list: Vec<u128> = Vec::new();
        let n = self.tokens.len();
        let mut index: usize = 0;
        while index < accounts.len()
            invariant
                index <= accounts@.len(),
                n == self@.tokens.len(),
                count_list@.len() == index,
                forall|j: int|
                    0 <= j < index ==> (#[trigger] count_list@[j]) == count_owned(
                        self@.tokens,
                        accounts@[j],
                    ),
            decreases accounts@.len() - index,
        {
            let account = &accounts[index];
            let mut count: u128 = 0;
            let mut k: usize = 0;
            while k < n
                invariant
                    k <= n,
                    n == self@.tokens.len(),
                    count == count_owned(self@.tokens.subrange(0, k as int), *account),
                    count <= k,
                decreases n - k,
            {
                let ghost upto = self@.tokens.subrange(0, k + 1);
                assert(upto.drop_last() =~= self@.tokens.subrange(0, k as int));
                if self.tokens.entry(k).token_owner == *account {
                    count += 1;
                }
                k += 1;
            }
            assert(self@.tokens.subrange(0, n as int) =~= self@.tokens);
            count_list.push(count);
            index += 1;
        }
        count_list
    }

    /// One page of the ids of all tokens, in ascending order. A page larger
    /// than the largest allowed is not to be asked for.
    pub fn icrc7_tokens(&self, prev: Option<u128>, take: Option<u128>) -> (r: Vec<u128>)
        requires
            page_size(take) <= DEFAULT_MAX_TAKE_VALUE,
        ensures
            r@ == page(token_ids(self@.tokens), prev, page_size(take) as nat),
    {
        let take: u128 = match take {
            Some(n) => n,
            None => DEFAULT_TAKE_VALUE,
        };
        let list = self.tokens.ids();
        page_of(&list, prev, take)
    }

    /// One page of the ids of the tokens of one owner, in ascending order.
    pub fn icrc7_tokens_of(&self, account: Account, prev: Option<u128>, take: Option<u128>) -> (r:
        Vec<u128>)
        requires
            page_size(take) <= DEFAULT_MAX_TAKE_VALUE,
        ensures
            r@ == page(owned_ids(self@.tokens, account), prev, page_size(take) as nat),
    {
        let take: u128 = match take {
            Some(n) => n,
            None => DEFAULT_TAKE_VALUE,
        };
        let n = self.tokens.len();
        let mut owned_tokens: Vec<u128> = Vec::new();
        let mut k: usize = 0;
        while k < n
            invariant
                k <= n,
                n == self@.tokens.len(),
                owned_tokens@ == owned_ids(self@.tokens.subrange(0, k as int), account),
            decreases n - k,
        {
            let ghost upto = self@.tokens.subrange(0, k + 1);
            assert(upto.drop_last() =~= self@.tokens.subrange(0, k as int));
            let token = self.tokens.entry(k);
            if token.token_owner == account {
                owned_tokens.push(token.token_id);
            }
            k += 1;
        }
        assert(self@.tokens.subrange(0, n as int) =~= self@.tokens);
        page_of(&owned_tokens, prev, take)
    }

    /// One page of the log, pages counted from one. A page that starts
    /// behind the number of entries that the counters give is not to be
    /// asked for; a page that reaches behind the last entry is cut short.
    pub fn icrc7_txn_logs(&self, page_number: u32, page_size: u32) -> (r: Vec<Transaction>)
        requires
            page_number >= 1,
            (page_number - 1) * page_size <= u32::MAX,
            (page_number - 1) * page_size <= self@.current_txn_count(),
        ensures
            log_view(r@) == log_page(self@.txn_log, (page_number - 1) * page_size, page_size as int),
    {
        assert((page_number - 1) * page_size <= u32::MAX);
        let offset: u32 = (page_number - 1) * page_size;
        self.log_range(offset as usize, page_size as usize)
    }

    /// The log entries from a place on, `size` of them at most.
    fn log_range(&self, offset: usize, size: usize) -> (r: Vec<Transaction>)
        ensures
            log_view(r@) == log_page(self@.txn_log, offset as int, size as int),
    {
        let n = self.txn_log.len();
        let start: usize = if offset <= n {
            offset
        } else {
            n
        };
        let count: usize = if size <= n - start {
            size
        } else {
            n - start
        };
        let mut tx_logs: Vec<Transaction> = Vec::new();
        let mut k: usize = 0;
        while k < count
            invariant
                k <= count,
                start + count <= n,
                n == self.txn_log@.len(),
                tx_logs@.len() == k,
                forall|j: int| 0 <= j < k ==> tx_logs@[j]@ == self.txn_log@[start + j]@,
            decreases count - k,
        {
            tx_logs.push(self.txn_log[start + k].clone());
            k += 1;
        }
        assert(log_view(tx_logs@) =~= log_page(self@.txn_log, offset as int, size as int));
        tx_logs
    }

    /// The oldest log entries, `size` of them at most.
    pub fn get_txn_logs(&self, size: usize) -> (r: Vec<Transaction>)
        ensures
            log_view(r@) == log_page(self@.txn_log, 0, size as int),
    {
        self.log_range(0, size)
    }

    /// Removes the log entries of these ids, which have reached the archive:
    /// the count of archived entries grows by the number of ids, and nothing
    /// is on its way to the archive any more.
    pub fn remove_txn_logs(&mut self, txn_ids: &Vec<u128>) -> (r: bool)
        requires
            old(self).archive_txn_count + txn_ids@.len() <= u128::MAX,
        ensures
            r,
            final(self)@ == (StateView {
                txn_log: without_ids(old(self)@.txn_log, txn_ids@),
                sync_pending_txn_ids: None,
                archive_txn_count: (old(self)@.archive_txn_count + txn_ids@.len()) as u128,
                ..old(self)@
            }),
    {
        let mut kept: Vec<Transaction> = Vec::new();
        let n = self.txn_log.len();
        let mut k: usize = 0;
        while k < n
            invariant
                k <= n,
                n == self.txn_log@.len(),
                self@ == old(self)@,
                log_view(kept@) == without_ids(self@.txn_log.subrange(0, k as int), txn_ids@),
            decreases n - k,
        {
            let ghost upto = self@.txn_log.subrange(0, k + 1);
            assert(upto.drop_last() =~= self@.txn_log.subrange(0, k as int));
            assert(upto.last() == self.txn_log@[k as int]@);
            let ghost before = log_view(kept@);
            if !contains_id(txn_ids, self.txn_log[k].txn_id) {
                kept.push(self.txn_log[k].clone());
                assert(log_view(kept@) =~= before.push(self.txn_log@[k as int]@));
            }
            k += 1;
        }
        assert(self@.txn_log.subrange(0, n as int) =~= self@.txn_log);
        self.txn_log = kept;
        self.sync_pending_txn_ids = None;
        self.archive_txn_count += txn_ids.len() as u128;
        true
    }
}

/// The entries of a log from a place on, `size` of them at most.
pub open spec fn log_page(log: Seq<TransactionView>, offset: int, size: int) -> Seq<
    TransactionView,
> {
    let start = if offset <= log.len() {
        offset
    } else {
        log.len() as int
    };
    let end = if start + size <= log.len() {
        start + size
    } else {
        log.len() as int
    };
    log.subrange(start, end)
}

/// Whether an id is in a list.
pub fn contains_id(ids: &Vec<u128>, id: u128) -> (r: bool)
    ensures
        r == ids@.contains(id),
{
    let mut i: usize = 0;
    while i < ids.len()
        invariant
            i <= ids@.len(),
            forall|j: int| 0 <= j < i ==> ids@[j] != id,
        decreases ids@.len() - i,
    {
        if ids[i] == id {
            return true;
        }
        i += 1;
    }
    false
}

/// The one standard that a ledger supports: its own.
pub fn icrc7_supported_standards() -> (r: Vec<Standard>)
    ensures
        r@.len() == 1,
        r@[0].name@ == "ICRC-7"@,
        r@[0].url@ == "https://github.com/dfinity/ICRC/ICRCs/ICRC-7"@,
{
    let mut r: Vec<Standard> = Vec::new();
    r.push(
        Standard {
            name: "ICRC-7".to_string(),
            url: "https://github.com/dfinity/ICRC/ICRCs/ICRC-7".to_string(),
        },
    );
    r
}

} // verus!
