//! The registry of provisioned collections, each with the identity that
//! owns it, and the steps by which a new collection is provisioned.

use crate::account::Account;
use crate::identity::Principal;
use crate::types::Arg;
use vstd::prelude::*;
use vstd::string::StringExecFns;

verus! {

/// What creating a service instance costs.
pub const CREATE_CYCLES: u128 = 7_692_307_692;

/// What a new instance is given to start with.
pub const TIP_CYCLES: u128 = 6_153_895_378;

/// What provisioning a collection costs: the two sums together.
pub const PROVISIONING_CYCLES: u128 = 13_846_203_070;

/// Whether a collection is registered.
pub open spec fn is_registered(s: Seq<(Principal, Principal)>, collection: Principal) -> bool {
    exists|i: int| 0 <= i < s.len() && (#[trigger] s[i]).0 == collection
}

/// The place of a collection in the registry, where it is registered.
pub open spec fn place_of(s: Seq<(Principal, Principal)>, collection: Principal) -> int {
    choose|i: int| 0 <= i < s.len() && (#[trigger] s[i]).0 == collection
}

/// The owner of a collection, if it is registered.
pub open spec fn owner_of_collection(s: Seq<(Principal, Principal)>, collection: Principal)
    -> Option<Principal> {
    if is_registered(s, collection) {
        Some(s[place_of(s, collection)].1)
    } else {
        None
    }
}

/// No collection is registered twice.
pub open spec fn distinct_collections(s: Seq<(Principal, Principal)>) -> bool {
    forall|i: int, j: int| 0 <= i < j < s.len() ==> s[i].0 != s[j].0
}

/// The registry after a collection was registered for an owner.
pub open spec fn registered(
    s: Seq<(Principal, Principal)>,
    owner: Principal,
    collection: Principal,
) -> Seq<(Principal, Principal)> {
    if is_registered(s, collection) {
        s.update(place_of(s, collection), (collection, owner))
    } else {
        s.push((collection, owner))
    }
}

/// The collections of an owner, in the order of the registry.
pub open spec fn collections_of(s: Seq<(Principal, Principal)>, owner: Principal) -> Seq<
    Principal,
>
    decreases s.len(),
{
    if s.len() == 0 {
        Seq::empty()
    } else if s.last().1 == owner {
        collections_of(s.drop_last(), owner).push(s.last().0)
    } else {
        collections_of(s.drop_last(), owner)
    }
}

/// Registering keeps every collection registered once, gives the collection
/// its owner, and leaves every other collection with the owner it had.
pub proof fn lemma_registered(
    s: Seq<(Principal, Principal)>,
    owner: Principal,
    collection: Principal,
)
    requires
        distinct_collections(s),
    ensures
        distinct_collections(registered(s, owner, collection)),
        owner_of_collection(registered(s, owner, collection), collection) == Some(owner),
        forall|c: Principal|
            c != collection ==> owner_of_collection(registered(s, owner, collection), c)
                == owner_of_collection(s, c),
{
    let r = registered(s, owner, collection);
    let at = if is_registered(s, collection) {
        place_of(s, collection)
    } else {
        s.len() as int
    };
    assert(r[at] == (collection, owner));
    assert forall|i: int| 0 <= i < r.len() && i != at implies r[i] == s[i] && r[i].0
        != collection by {
        if is_registered(s, collection) {
            if s[i].0 == collection {
                if i < at {
                    assert(s[i].0 != s[at].0);
                } else {
                    assert(s[at].0 != s[i].0);
                }
            }
        } else if s[i].0 == collection {
            assert(is_registered(s, collection));
        }
    }
    assert(distinct_collections(r)) by {
        assert forall|i: int, j: int| 0 <= i < j < r.len() implies r[i].0 != r[j].0 by {
            if i != at && j != at {
                assert(s[i].0 != s[j].0);
            }
        }
    }
    lemma_place(r, at);
    assert forall|c: Principal| c != collection implies owner_of_collection(r, c)
        == owner_of_collection(s, c) by {
        if is_registered(s, c) {
            let j = place_of(s, c);
            lemma_place(s, j);
            assert(r[j] == s[j]);
            lemma_place(r, j);
        } else if is_registered(r, c) {
            let j = place_of(r, c);
            assert(s[j].0 == c);
        }
    }
}

/// In a registry without doubles a collection stands at one place only.
pub proof fn lemma_place(s: Seq<(Principal, Principal)>, i: int)
    requires
        distinct_collections(s),
        0 <= i < s.len(),
    ensures
        is_registered(s, s[i].0),
        place_of(s, s[i].0) == i,
        owner_of_collection(s, s[i].0) == Some(s[i].1),
{
    let j = place_of(s, s[i].0);
    if j < i {
        assert(s[j].0 != s[i].0);
    }
    if i < j {
        assert(s[i].0 != s[j].0);
    }
}

/// Two collections provisioned for one owner are both registered to that
/// owner, and the owner's collections are those it had and these two. An
/// owner without collections has exactly these two afterwards.
pub proof fn lemma_two_collections(
    s: Seq<(Principal, Principal)>,
    owner: Principal,
    first: Principal,
    second: Principal,
)
    requires
        distinct_collections(s),
        first != second,
        !is_registered(s, first),
        !is_registered(s, second),
    ensures
        ({
            let r = registered(registered(s, owner, first), owner, second);
            &&& distinct_collections(r)
            &&& owner_of_collection(r, first) == Some(owner)
            &&& owner_of_collection(r, second) == Some(owner)
            &&& collections_of(r, owner) == collections_of(s, owner).push(first).push(second)
            &&& collections_of(s, owner).len() == 0 ==> collections_of(r, owner) == seq![
                first,
                second,
            ]
        }),
{
    let r1 = registered(s, owner, first);
    lemma_registered(s, owner, first);
    assert(owner_of_collection(r1, second) == owner_of_collection(s, second));
    assert(!is_registered(r1, second));
    let r = registered(r1, owner, second);
    lemma_registered(r1, owner, second);
    assert(r1 == s.push((first, owner)));
    assert(r1.drop_last() =~= s);
    assert(r1.last() == (first, owner));
    assert(collections_of(r1, owner) == collections_of(s, owner).push(first));
    assert(r == r1.push((second, owner)));
    assert(r.drop_last() =~= r1);
    assert(r.last() == (second, owner));
    assert(collections_of(r, owner) == collections_of(r1, owner).push(second));
    if collections_of(s, owner).len() == 0 {
        assert(collections_of(r, owner) =~= seq![first, second]);
    }
}

/// The registry of collections.
pub struct Registry {
    entries: Vec<(Principal, Principal)>,
}

impl View for Registry {
    type V = Seq<(Principal, Principal)>;

    closed spec fn view(&self) -> Seq<(Principal, Principal)> {
        self.entries@
    }
}

impl Registry {
    /// No collection is registered twice.
    #[verifier::type_invariant]
    pub open spec fn well_formed(&self) -> bool {
        distinct_collections(self@)
    }

    /// An empty registry.
    pub fn new() -> (r: Registry)
        ensures
            r@ == Seq::<(Principal, Principal)>::empty(),
    {
        Registry { entries: Vec::new() }
    }

    /// The place of a collection.
    fn find(&self, collection: &Principal) -> (r: Option<usize>)
        ensures
            distinct_collections(self@),
            match r {
                Some(i) => i < self@.len() && self@[i as int].0 == *collection && is_registered(
                    self@,
                    *collection,
                ) && place_of(self@, *collection) == i,
                None => !is_registered(self@, *collection),
            },
    {
        proof {
            use_type_invariant(self);
        }
        let mut i: usize = 0;
        while i < self.entries.len()
            invariant
                i <= self.entries@.len(),
                self@ == self.entries@,
                distinct_collections(self@),
                forall|j: int| 0 <= j < i ==> (#[trigger] self@[j]).0 != *collection,
            decreases self.entries@.len() - i,
        {
            if self.entries[i].0.same(collection) {
                proof {
                    lemma_place(self@, i as int);
                }
                return Some(i);
            }
            i += 1;
        }
        None
    }
}

/// Registers a collection for an owner, in place of the owner it had.
pub fn insert_collection(registry: &mut Registry, owner: Principal, collection: Principal)
    ensures
        final(registry)@ == registered(old(registry)@, owner, collection),
        distinct_collections(final(registry)@),
{
    proof {
        use_type_invariant(&*registry);
        lemma_registered(registry@, owner, collection);
    }
    let found = registry.find(&collection);
    let mut entries: Vec<(Principal, Principal)> = Vec::new();
    std::mem::swap(&mut registry.entries, &mut entries);
    match found {
        Some(i) => {
            entries[i] = (collection, owner);
        },
        None => {
            entries.push((collection, owner));
        },
    }
    std::mem::swap(&mut registry.entries, &mut entries);
}

/// Every collection with its owner.
pub fn get_collections(registry: &Registry) -> (r: Vec<(Principal, Principal)>)
    ensures
        r@ == registry@,
        distinct_collections(r@),
{
    proof {
        use_type_invariant(registry);
    }
    let mut r: Vec<(Principal, Principal)> = Vec::new();
    let mut i: usize = 0;
    while i < registry.entries.len()
        invariant
            i <= registry.entries@.len(),
            r@ == registry.entries@.subrange(0, i as int),
        decreases registry.entries@.len() - i,
    {
        r.push(registry.entries[i]);
        assert(r@ =~= registry.entries@.subrange(0, i + 1));
        i += 1;
    }
    assert(r@ =~= registry@);
    r
}

/// Every collection with its owner.
pub fn show_collections(registry: &Registry) -> (r: Vec<(Principal, Principal)>)
    ensures
        r@ == registry@,
        distinct_collections(r@),
{
    get_collections(registry)
}

/// The collections of an owner, out of a list of collections with their
/// owners.
pub fn filter_collections(all: &Vec<(Principal, Principal)>, caller: Principal) -> (r: Vec<
    Principal,
>)
    ensures
        r@ == collections_of(all@, caller),
{
    let mut r: Vec<Principal> = Vec::new();
    let mut i: usize = 0;
    while i < all.len()
        invariant
            i <= all@.len(),
            r@ == collections_of(all@.subrange(0, i as int), caller),
        decreases all@.len() - i,
    {
        let ghost upto = all@.subrange(0, i + 1);
        assert(upto.drop_last() =~= all@.subrange(0, i as int));
        if all[i].1.same(&caller) {
            r.push(all[i].0);
        }
        i += 1;
    }
    assert(all@.subrange(0, all@.len() as int) =~= all@);
    r
}

/// The collections of an owner.
pub fn get_user_collections(registry: &Registry, caller: Principal) -> (r: Vec<Principal>)
    ensures
        r@ == collections_of(registry@, caller),
{
    let all = get_collections(registry);
    filter_collections(&all, caller)
}

/// Whether a collection is registered to an owner.
pub fn check_collection_ownership(registry: &Registry, collection_id: Principal, owner: Principal)
    -> (r: bool)
    ensures
        r == (owner_of_collection(registry@, collection_id) == Some(owner)),
{
    match registry.find(&collection_id) {
        Some(i) => registry.entries[i].1.same(&owner),
        None => false,
    }
}

/// Why the platform turned a call down.
#[derive(Clone, Copy, Debug, PartialEq, Eq)]
pub enum RejectionCode {
    NoError,
    SysFatal,
    SysTransient,
    DestinationInvalid,
    CanisterReject,
    CanisterError,
    Unknown,
}

/// The name of a rejection code.
pub open spec fn rejection_name(code: RejectionCode) -> Seq<char> {
    match code {
        RejectionCode::NoError => "NoError"@,
        RejectionCode::SysFatal => "SysFatal"@,
        RejectionCode::SysTransient => "SysTransient"@,
        RejectionCode::DestinationInvalid => "DestinationInvalid"@,
        RejectionCode::CanisterReject => "CanisterReject"@,
        RejectionCode::CanisterError => "CanisterError"@,
        RejectionCode::Unknown => "Unknown"@,
    }
}

impl RejectionCode {
    /// The name of the code.
    pub fn name(&self) -> (r: String)
        ensures
            r@ == rejection_name(*self),
    {
        match self {
            RejectionCode::NoError => "NoError".to_string(),
            RejectionCode::SysFatal => "SysFatal".to_string(),
            RejectionCode::SysTransient => "SysTransient".to_string(),
            RejectionCode::DestinationInvalid => "DestinationInvalid".to_string(),
            RejectionCode::CanisterReject => "CanisterReject".to_string(),
            RejectionCode::CanisterError => "CanisterError".to_string(),
            RejectionCode::Unknown => "Unknown".to_string(),
        }
    }
}

/// A call that the platform turned down.
#[derive(Debug)]
pub struct Rejection {
    pub code: RejectionCode,
    pub message: String,
}

/// What the platform is asked for a new collection: an instance controlled
/// by the registry itself and by the owner, paid with the provisioning cost.
#[derive(Debug)]
pub struct CreateRequest {
    pub controllers: Vec<Principal>,
    pub cycles: u128,
}

/// What is installed into a new instance: the ledger, initialised with the
/// minting account and the settings of the collection.
#[derive(Debug)]
pub struct InstallRequest {
    pub canister_id: Principal,
    pub minting_account: Account,
    pub arg: Arg,
}

/// The text of a rejection, behind a prefix.
pub open spec fn rejection_text(prefix: Seq<char>, code: RejectionCode, message: Seq<char>) -> Seq<
    char,
> {
    prefix + rejection_name(code) + ", Message: \""@ + message + "\""@
}

/// The text of a rejection, behind a prefix.
fn describe_rejection(prefix: &str, rejection: &Rejection) -> (r: String)
    ensures
        r@ == rejection_text(prefix@, rejection.code, rejection.message@),
{
    prefix.to_string().concat(rejection.code.name().as_str()).concat(", Message: \"").concat(
        rejection.message.as_str(),
    ).concat("\"")
}

/// The first step of provisioning: what to ask of the platform.
pub fn create_request(factory_id: Principal, minting_account: &Account) -> (r: CreateRequest)
    ensures
        r.controllers@ == seq![factory_id, minting_account.owner],
        r.cycles == PROVISIONING_CYCLES,
{
    let mut controllers: Vec<Principal> = Vec::new();
    controllers.push(factory_id);
    controllers.push(minting_account.owner);
    CreateRequest { controllers, cycles: CREATE_CYCLES + TIP_CYCLES }
}

/// The second step: where the platform gave an instance, the ledger is to
/// be installed into it; where it turned the request down, provisioning
/// ends with the platform's code and message.
pub fn instance_created(
    reply: Result<Principal, Rejection>,
    minting_account: Account,
    arg: Arg,
) -> (r: Result<InstallRequest, String>)
    ensures
        match reply {
            Ok(canister_id) => r is Ok && r->Ok_0.canister_id == canister_id
                && r->Ok_0.minting_account == minting_account && r->Ok_0.arg == arg,
            Err(rejection) => r is Err && r->Err_0@ == rejection_text(
                "Rejection Code: "@,
                rejection.code,
                rejection.message@,
            ),
        },
{
    match reply {
        Ok(canister_id) => Ok(InstallRequest { canister_id, minting_account, arg }),
        Err(rejection) => Err(describe_rejection("Rejection Code: ", &rejection)),
    }
}

/// The last step: where the ledger was installed, the collection is
/// registered for the owner of the minting account and its identity is the
/// result; where the installation was turned down, nothing is registered.
/// The instance stays as it is either way.
pub fn ledger_installed(
    registry: &mut Registry,
    reply: Result<(), Rejection>,
    minting_account: &Account,
    canister_id: Principal,
) -> (r: Result<Principal, String>)
    ensures
        match reply {
            Ok(_) => r == Ok::<Principal, String>(canister_id) && final(registry)@ == registered(
                old(registry)@,
                minting_account.owner,
                canister_id,
            ),
            Err(rejection) => r is Err && r->Err_0@ == rejection_text(
                "Code: "@,
                rejection.code,
                rejection.message@,
            ) && final(registry)@ == old(registry)@,
        },
{
    match reply {
        Ok(()) => {
            insert_collection(registry, minting_account.owner, canister_id);
            Ok(canister_id)
        },
        Err(rejection) => Err(describe_rejection("Code: ", &rejection)),
    }
}

} // verus!
