//! Accounts: an identity with an optional 32-byte sub-identifier. An absent
//! sub-identifier and one of 32 zero bytes name the same account.

use crate::identity::Principal;
use vstd::prelude::*;
use vstd::std_specs::cmp::PartialEqSpecImpl;

verus! {

pub type Subaccount = [u8; 32];

/// The sub-identifier that an account without one is taken to have.
pub fn default_subaccount() -> (s: Subaccount)
    ensures
        s@ == zero_subaccount(),
{
    let s = [0u8; 32];
    assert(s@ =~= zero_subaccount());
    s
}

#[derive(Clone, Copy, Debug)]
pub struct Account {
    pub owner: Principal,
    pub subaccount: Option<Subaccount>,
}

/// Thirty-two zero bytes.
pub open spec fn zero_subaccount() -> Seq<u8> {
    Seq::new(32, |i: int| 0u8)
}

impl Account {
    /// The sub-identifier in effect: the one given, else 32 zero bytes.
    pub open spec fn effective_subaccount(&self) -> Seq<u8> {
        match self.subaccount {
            Some(s) => s@,
            None => zero_subaccount(),
        }
    }

    /// Two accounts are the same account when they have the same owner and
    /// the same sub-identifier in effect.
    pub open spec fn same_as(&self, other: &Account) -> bool {
        self.owner@ == other.owner@ && self.effective_subaccount()
            == other.effective_subaccount()
    }

    /// The canonical form: an explicit all-zero sub-identifier is dropped.
    pub open spec fn canonical(self) -> Account {
        if self.subaccount is Some && self.subaccount->0@ == zero_subaccount() {
            Account { owner: self.owner, subaccount: None }
        } else {
            self
        }
    }

    pub open spec fn is_canonical(&self) -> bool {
        self.subaccount is Some ==> self.subaccount->0@ != zero_subaccount()
    }

    /// Whether the owner is the anonymous identity.
    pub fn is_anonymous(&self) -> (r: bool)
        ensures
            r == (self.owner@ == crate::identity::anonymous_bytes()),
    {
        self.owner.is_anonymous()
    }
}

/// Whether a sub-identifier is 32 zero bytes.
pub fn is_zero_subaccount(s: &Subaccount) -> (r: bool)
    ensures
        r == (s@ == zero_subaccount()),
{
    let mut i: usize = 0;
    while i < 32
        invariant
            i <= 32,
            forall|j: int| 0 <= j < i ==> s@[j] == 0u8,
        decreases 32 - i,
    {
        if s[i] != 0 {
            assert(s@[i as int] != zero_subaccount()[i as int]);
            return false;
        }
        i += 1;
    }
    assert(s@ =~= zero_subaccount());
    true
}

/// Whether two sub-identifiers hold the same bytes.
pub fn same_subaccount(a: &Subaccount, b: &Subaccount) -> (r: bool)
    ensures
        r == (a@ == b@),
{
    let mut i: usize = 0;
    while i < 32
        invariant
            i <= 32,
            forall|j: int| 0 <= j < i ==> a@[j] == b@[j],
        decreases 32 - i,
    {
        if a[i] != b[i] {
            return false;
        }
        i += 1;
    }
    assert(a@ =~= b@);
    true
}

impl PartialEq for Account {
    fn eq(&self, other: &Account) -> (r: bool) {
        if !(self.owner == other.owner) {
            return false;
        }
        match (&self.subaccount, &other.subaccount) {
            (None, None) => true,
            (Some(a), None) => is_zero_subaccount(a),
            (None, Some(b)) => is_zero_subaccount(b),
            (Some(a), Some(b)) => same_subaccount(a, b),
        }
    }
}

impl PartialEqSpecImpl for Account {
    open spec fn obeys_eq_spec() -> bool {
        true
    }

    open spec fn eq_spec(&self, other: &Account) -> bool {
        self.same_as(other)
    }
}

impl Eq for Account {
}

/// Brings an account into canonical form, so that the two spellings of the
/// default sub-identifier are stored alike.
pub fn account_transformer(account: Account) -> (r: Account)
    ensures
        r == account.canonical(),
        r.is_canonical(),
        r.same_as(&account),
{
    match account.subaccount {
        Some(s) => {
            if is_zero_subaccount(&s) {
                Account { owner: account.owner, subaccount: None }
            } else {
                account
            }
        },
        None => account,
    }
}

/// The account of an identity under the default sub-identifier.
pub fn default_account(owner: &Principal) -> (r: Account)
    ensures
        r == (Account { owner: *owner, subaccount: None }),
{
    Account { owner: *owner, subaccount: None }
}

/// The reserved account that burnt tokens are assigned to: the empty
/// identity, which no caller has, under the default sub-identifier.
pub open spec fn burn_account_spec() -> Account {
    Account { owner: Principal::spec_management_canister(), subaccount: None }
}

/// The reserved burn account.
pub fn burn_account() -> (r: Account)
    ensures
        r == burn_account_spec(),
{
    Account { owner: Principal::management_canister(), subaccount: None }
}

} // verus!
