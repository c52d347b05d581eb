//! Tokens and the token store: tokens in ascending order of their ids, each
//! id at most once.

use crate::account::Account;
use crate::icrc7_types::{
    copy_opt_text, opt_text, Approval, Icrc7TokenMetadata, MetadataValue, MetadataValueView,
};
use vstd::prelude::*;

verus! {

#[derive(Debug, PartialEq, Eq)]
pub struct Icrc7Token {
    pub token_id: u128,
    pub token_name: String,
    pub token_description: Option<String>,
    pub token_logo: Option<String>,
    pub token_owner: Account,
    pub approvals: Vec<Approval>,
}

#[verifier::ext_equal]
pub struct TokenView {
    pub token_id: u128,
    pub token_name: Seq<char>,
    pub token_description: Option<Seq<char>>,
    pub token_logo: Option<Seq<char>>,
    pub token_owner: Account,
    pub approvals: Seq<Approval>,
}

impl View for Icrc7Token {
    type V = TokenView;

    open spec fn view(&self) -> TokenView {
        TokenView {
            token_id: self.token_id,
            token_name: self.token_name@,
            token_description: opt_text(self.token_description),
            token_logo: opt_text(self.token_logo),
            token_owner: self.token_owner,
            approvals: self.approvals@,
        }
    }
}

impl DeepView for Icrc7Token {
    type V = TokenView;

    open spec fn deep_view(&self) -> TokenView {
        self@
    }
}

/// An approval is live at a moment if it has no expiry or expires no earlier.
pub open spec fn approval_live(approval: Approval, now: u64) -> bool {
    approval.expires_at is None || approval.expires_at->0 >= now
}

/// Whether some approval in the list names the account and is live.
pub open spec fn has_live_approval(approvals: Seq<Approval>, now: u64, account: Account) -> bool {
    exists|i: int|
        0 <= i < approvals.len() && (#[trigger] approvals[i]).account.same_as(&account)
            && approval_live(approvals[i], now)
}

/// The metadata entries of a token: its name, its name once more under
/// `Symbol`, then its description and its logo where it has them.
pub open spec fn token_metadata_spec(t: TokenView) -> Seq<(Seq<char>, MetadataValueView)> {
    let base = seq![
        ("Name"@, MetadataValueView::Text(t.token_name)),
        ("Symbol"@, MetadataValueView::Text(t.token_name)),
    ];
    let with_description = match t.token_description {
        Some(d) => base.push(("Description"@, MetadataValueView::Text(d))),
        None => base,
    };
    match t.token_logo {
        Some(l) => with_description.push(("logo"@, MetadataValueView::Text(l))),
        None => with_description,
    }
}

impl Clone for Icrc7Token {
    fn clone(&self) -> (r: Icrc7Token)
        ensures
            r@ == self@,
    {
        let approvals = self.approvals.clone();
        assert(approvals@ =~= self.approvals@);
        Icrc7Token {
            token_id: self.token_id,
            token_name: self.token_name.clone(),
            token_description: copy_opt_text(&self.token_description),
            token_logo: copy_opt_text(&self.token_logo),
            token_owner: self.token_owner,
            approvals,
        }
    }
}

impl Icrc7Token {
    /// A token without approvals.
    pub fn new(
        token_id: u128,
        token_name: String,
        token_description: Option<String>,
        token_logo: Option<String>,
        token_owner: Account,
    ) -> (r: Icrc7Token)
        ensures
            r@ == (TokenView {
                token_id,
                token_name: token_name@,
                token_description: opt_text(token_description),
                token_logo: opt_text(token_logo),
                token_owner,
                approvals: Seq::empty(),
            }),
    {
        Icrc7Token {
            token_id,
            token_name,
            token_logo,
            token_owner,
            token_description,
            approvals: Vec::new(),
        }
    }

    /// Hands the token to a new owner; every approval lapses.
    pub fn transfer(&mut self, to: Account)
        ensures
            final(self)@ == transferred(old(self)@, to),
    {
        self.token_owner = to;
        self.approvals.clear();
    }

    /// Adds an approval; earlier ones stay.
    pub fn approve(&mut self, approval: Approval)
        ensures
            final(self)@ == approved(old(self)@, approval),
    {
        self.approvals.push(approval);
    }

    /// Whether the account holds a live approval at the given moment.
    pub fn approval_check(&self, current_time: u64, account: &Account) -> (r: bool)
        ensures
            r == has_live_approval(self@.approvals, current_time, *account),
    {
        let mut i: usize = 0;
        while i < self.approvals.len()
            invariant
                i <= self.approvals@.len(),
                forall|j: int|
                    0 <= j < i ==> !((#[trigger] self.approvals@[j]).account.same_as(account)
                        && approval_live(self.approvals@[j], current_time)),
            decreases self.approvals@.len() - i,
        {
            let approval = self.approvals[i];
            if approval.account == *account {
                let live = match approval.expires_at {
                    None => true,
                    Some(t) => t >= current_time,
                };
                if live {
                    return true;
                }
            }
            i += 1;
        }
        false
    }

    /// The metadata entries of the token.
    pub fn token_metadata(&self) -> (r: Icrc7TokenMetadata)
        ensures
            crate::icrc7_types::metadata_view(r@) == token_metadata_spec(self@),
    {
        let mut metadata: Vec<(String, MetadataValue)> = Vec::new();
        metadata.push(("Name".to_string(), MetadataValue::Text(self.token_name.clone())));
        metadata.push(("Symbol".to_string(), MetadataValue::Text(self.token_name.clone())));
        if let Some(description) = &self.token_description {
            metadata.push(("Description".to_string(), MetadataValue::Text(description.clone())));
        }
        if let Some(logo) = &self.token_logo {
            metadata.push(("logo".to_string(), MetadataValue::Text(logo.clone())));
        }
        assert(crate::icrc7_types::metadata_view(metadata@) =~= token_metadata_spec(self@));
        metadata
    }

    /// Assigns the token to the burn address. Approvals stay as they are.
    pub fn burn(&mut self, burn_address: Account)
        ensures
            final(self)@ == burnt(old(self)@, burn_address),
    {
        self.token_owner = burn_address;
    }
}

/// A token after a transfer: a new owner and no approvals.
pub open spec fn transferred(t: TokenView, to: Account) -> TokenView {
    TokenView { token_owner: to, approvals: Seq::empty(), ..t }
}

/// A token after one more approval.
pub open spec fn approved(t: TokenView, approval: Approval) -> TokenView {
    TokenView { approvals: t.approvals.push(approval), ..t }
}

/// A token after a burn: owned by the burn address, approvals untouched.
pub open spec fn burnt(t: TokenView, burn_address: Account) -> TokenView {
    TokenView { token_owner: burn_address, ..t }
}

/// A token after its description was replaced.
pub open spec fn redescribed(t: TokenView, description: Seq<char>) -> TokenView {
    TokenView { token_description: Some(description), ..t }
}

/// Tokens in strictly ascending order of their ids.
pub open spec fn ordered(s: Seq<TokenView>) -> bool {
    forall|i: int, j: int| 0 <= i < j < s.len() ==> s[i].token_id < s[j].token_id
}

/// Whether a token of this id is among the tokens.
pub open spec fn has_token(s: Seq<TokenView>, id: u128) -> bool {
    exists|i: int| 0 <= i < s.len() && #[trigger] s[i].token_id == id
}

/// The place of the token of this id, where there is one.
pub open spec fn index_of(s: Seq<TokenView>, id: u128) -> int {
    choose|i: int| 0 <= i < s.len() && #[trigger] s[i].token_id == id
}

/// The token of this id, if there is one.
pub open spec fn lookup(s: Seq<TokenView>, id: u128) -> Option<TokenView> {
    if has_token(s, id) {
        Some(s[index_of(s, id)])
    } else {
        None
    }
}

/// How many tokens stand before the place where a token of this id belongs.
pub open spec fn rank(s: Seq<TokenView>, id: u128) -> int
    decreases s.len(),
{
    if s.len() == 0 {
        0
    } else if s.last().token_id < id {
        s.len() as int
    } else {
        rank(s.drop_last(), id)
    }
}

/// The tokens after one was stored: it replaces the token of its id, or
/// takes its place in the order.
pub open spec fn put(s: Seq<TokenView>, t: TokenView) -> Seq<TokenView> {
    if has_token(s, t.token_id) {
        s.update(index_of(s, t.token_id), t)
    } else {
        s.insert(rank(s, t.token_id), t)
    }
}

/// The ids of the tokens, in their order.
pub open spec fn token_ids(s: Seq<TokenView>) -> Seq<u128> {
    Seq::new(s.len(), |i: int| s[i].token_id)
}

/// In ordered tokens an id stands at one place only.
pub proof fn lemma_index_unique(s: Seq<TokenView>, i: int)
    requires
        ordered(s),
        0 <= i < s.len(),
    ensures
        has_token(s, s[i].token_id),
        index_of(s, s[i].token_id) == i,
        lookup(s, s[i].token_id) == Some(s[i]),
{
    let id = s[i].token_id;
    let j = index_of(s, id);
    if j < i {
        assert(s[j].token_id < s[i].token_id);
    }
    if i < j {
        assert(s[i].token_id < s[j].token_id);
    }
}

/// The rank of an id in ordered tokens is the first place whose id is not
/// below it.
pub proof fn lemma_rank(s: Seq<TokenView>, id: u128, k: int)
    requires
        ordered(s),
        0 <= k <= s.len(),
        forall|i: int| 0 <= i < k ==> s[i].token_id < id,
        forall|i: int| k <= i < s.len() ==> s[i].token_id >= id,
    ensures
        rank(s, id) == k,
    decreases s.len(),
{
    if s.len() == 0 {
    } else if s.last().token_id < id {
        assert(k == s.len()) by {
            if k < s.len() {
                assert(s[s.len() - 1].token_id >= id);
            }
        }
    } else {
        assert(k < s.len()) by {
            if k == s.len() {
                assert(s[s.len() - 1].token_id < id);
            }
        }
        lemma_rank(s.drop_last(), id, k);
    }
}

/// Storing a token keeps the order, and afterwards exactly the stored token
/// and the tokens of other ids are found.
pub proof fn lemma_put(s: Seq<TokenView>, t: TokenView)
    requires
        ordered(s),
    ensures
        ordered(put(s, t)),
        lookup(put(s, t), t.token_id) == Some(t),
        forall|id: u128| id != t.token_id ==> lookup(put(s, t), id) == lookup(s, id),
        has_token(s, t.token_id) ==> put(s, t).len() == s.len(),
        !has_token(s, t.token_id) ==> put(s, t).len() == s.len() + 1,
{
    let r = put(s, t);
    if has_token(s, t.token_id) {
        let k = index_of(s, t.token_id);
        assert(ordered(r));
        assert(r[k].token_id == t.token_id);
        lemma_index_unique(r, k);
        assert forall|id: u128| id != t.token_id implies lookup(r, id) == lookup(s, id) by {
            if has_token(s, id) {
                let j = index_of(s, id);
                assert(r[j] == s[j]);
                lemma_index_unique(s, j);
                lemma_index_unique(r, j);
            } else if has_token(r, id) {
                let j = index_of(r, id);
                assert(s[j].token_id == id);
            }
        }
    } else {
        let k = first_not_below(s, t.token_id, 0);
        lemma_first_not_below(s, t.token_id, 0);
        lemma_rank(s, t.token_id, k);
        assert(forall|i: int| 0 <= i < k ==> r[i] == s[i]);
        assert(r[k] == t);
        assert(forall|i: int| k < i < r.len() ==> r[i] == s[i - 1]);
        assert forall|i: int| k <= i < s.len() implies s[i].token_id > t.token_id by {
            assert(s[i].token_id >= t.token_id);
        }
        assert(ordered(r)) by {
            assert forall|i: int, j: int| 0 <= i < j < r.len() implies r[i].token_id
                < r[j].token_id by {
                if j < k {
                } else if j == k {
                } else if i < k {
                    assert(s[i].token_id < t.token_id);
                    assert(s[j - 1].token_id > t.token_id);
                } else if i == k {
                    assert(s[j - 1].token_id > t.token_id);
                } else {
                    assert(s[i - 1].token_id < s[j - 1].token_id);
                }
            }
        }
        lemma_index_unique(r, k);
        assert forall|id: u128| id != t.token_id implies lookup(r, id) == lookup(s, id) by {
            if has_token(s, id) {
                let j = index_of(s, id);
                lemma_index_unique(s, j);
                if j < k {
                    assert(r[j] == s[j]);
                    lemma_index_unique(r, j);
                } else {
                    assert(r[j + 1] == s[j]);
                    lemma_index_unique(r, j + 1);
                }
            } else if has_token(r, id) {
                let j = index_of(r, id);
                if j < k {
                    assert(s[j].token_id == id);
                } else {
                    assert(s[j - 1].token_id == id);
                }
            }
        }
    }
}

/// The first place at or after `from` whose id is not below `id`.
pub open spec fn first_not_below(s: Seq<TokenView>, id: u128, from: int) -> int
    decreases s.len() - from,
{
    if from >= s.len() {
        s.len() as int
    } else if s[from].token_id >= id {
        from
    } else {
        first_not_below(s, id, from + 1)
    }
}

proof fn lemma_first_not_below(s: Seq<TokenView>, id: u128, from: int)
    requires
        ordered(s),
        0 <= from <= s.len(),
        forall|i: int| 0 <= i < from ==> s[i].token_id < id,
    ensures
        from <= first_not_below(s, id, from) <= s.len(),
        forall|i: int| 0 <= i < first_not_below(s, id, from) ==> s[i].token_id < id,
        forall|i: int| first_not_below(s, id, from) <= i < s.len() ==> s[i].token_id >= id,
    decreases s.len() - from,
{
    if from >= s.len() {
    } else if s[from].token_id >= id {
        assert forall|i: int| from <= i < s.len() implies s[i].token_id >= id by {
            if from < i {
                assert(s[from].token_id < s[i].token_id);
            }
        }
    } else {
        lemma_first_not_below(s, id, from + 1);
    }
}

/// The token store.
pub struct TokenMap {
    entries: Vec<Icrc7Token>,
}

impl View for TokenMap {
    type V = Seq<TokenView>;

    closed spec fn view(&self) -> Seq<TokenView> {
        Seq::new(self.entries@.len(), |i: int| self.entries@[i]@)
    }
}

impl TokenMap {
    /// The tokens of a store are always in order.
    #[verifier::type_invariant]
    pub open spec fn well_formed(&self) -> bool {
        ordered(self@)
    }

    /// An empty store.
    pub fn new() -> (r: TokenMap)
        ensures
            r@ == Seq::<TokenView>::empty(),
            ordered(r@),
    {
        let r = TokenMap { entries: Vec::new() };
        assert(r@ =~= Seq::<TokenView>::empty());
        r
    }

    /// The number of tokens.
    pub fn len(&self) -> (n: usize)
        ensures
            n == self@.len(),
            ordered(self@),
    {
        proof {
            use_type_invariant(self);
        }
        self.entries.len()
    }

    /// The place of the token of this id.
    pub fn find(&self, id: u128) -> (r: Option<usize>)
        ensures
            ordered(self@),
            match r {
                Some(i) => i < self@.len() && self@[i as int].token_id == id && has_token(
                    self@,
                    id,
                ) && index_of(self@, id) == i,
                None => !has_token(self@, id),
            },
    {
        proof {
            use_type_invariant(self);
        }
        let mut i: usize = 0;
        while i < self.entries.len()
            invariant
                i <= self.entries@.len(),
                self@.len() == self.entries@.len(),
                ordered(self@),
                forall|j: int| 0 <= j < i ==> self@[j].token_id != id,
            decreases self.entries@.len() - i,
        {
            if self.entries[i].token_id == id {
                proof {
                    lemma_index_unique(self@, i as int);
                }
                return Some(i);
            }
            i += 1;
        }
        None
    }

    /// The token at a place.
    pub fn entry(&self, i: usize) -> (t: &Icrc7Token)
        requires
            i < self@.len(),
        ensures
            t@ == self@[i as int],
            ordered(self@),
    {
        proof {
            use_type_invariant(self);
        }
        &self.entries[i]
    }

    /// The token of this id.
    pub fn get(&self, id: u128) -> (r: Option<&Icrc7Token>)
        ensures
            ordered(self@),
            match r {
                Some(t) => lookup(self@, id) == Some(t@),
                None => lookup(self@, id) is None,
            },
    {
        match self.find(id) {
            Some(i) => Some(&self.entries[i]),
            None => None,
        }
    }

    /// Whether a token of this id is stored.
    pub fn contains(&self, id: u128) -> (r: bool)
        ensures
            r == has_token(self@, id),
            ordered(self@),
    {
        self.find(id).is_some()
    }

    /// Stores a token.
    pub fn insert(&mut self, token: Icrc7Token)
        ensures
            final(self)@ == put(old(self)@, token@),
            ordered(final(self)@),
    {
        proof {
            use_type_invariant(&*self);
            lemma_put(self@, token@);
        }
        let found = self.find(token.token_id);
        let ghost before = self@;
        let ghost t = token@;
        let mut entries: Vec<Icrc7Token> = Vec::new();
        std::mem::swap(&mut self.entries, &mut entries);
        assert(before =~= Seq::new(entries@.len(), |i: int| entries@[i]@));
        match found {
            Some(i) => {
                entries[i] = token;
                assert(Seq::new(entries@.len(), |i: int| entries@[i]@) =~= before.update(
                    i as int,
                    t,
                ));
            },
            None => {
                let mut k: usize = 0;
                while k < entries.len() && entries[k].token_id < token.token_id
                    invariant
                        k <= entries@.len(),
                        before.len() == entries@.len(),
                        forall|j: int| 0 <= j < entries@.len() ==> before[j] == entries@[j]@,
                        token@ == t,
                        forall|j: int| 0 <= j < k ==> before[j].token_id < t.token_id,
                    decreases entries@.len() - k,
                {
                    k += 1;
                }
                proof {
                    assert forall|j: int| k <= j < before.len() implies before[j].token_id
                        >= t.token_id by {
                        if k < j {
                            assert(before[k as int].token_id < before[j].token_id);
                        }
                    }
                    lemma_rank(before, t.token_id, k as int);
                }
                entries.insert(k, token);
                assert(Seq::new(entries@.len(), |i: int| entries@[i]@) =~= before.insert(
                    k as int,
                    t,
                ));
            },
        }
        std::mem::swap(&mut self.entries, &mut entries);
    }

    /// The ids of the tokens in ascending order.
    pub fn ids(&self) -> (r: Vec<u128>)
        ensures
            r@ == token_ids(self@),
            ordered(self@),
    {
        proof {
            use_type_invariant(self);
        }
        let mut r: Vec<u128> = Vec::new();
        let mut i: usize = 0;
        while i < self.entries.len()
            invariant
                i <= self.entries@.len(),
                self@.len() == self.entries@.len(),
                r@.len() == i,
                forall|j: int| 0 <= j < i ==> r@[j] == self@[j].token_id,
            decreases self.entries@.len() - i,
        {
            r.push(self.entries[i].token_id);
            i += 1;
        }
        assert(r@ =~= token_ids(self@));
        r
    }
}

} // verus!
