//! The types of the application layer: groups, their members, events, the
//! settings of a new collection and the result envelope.

use crate::account::Account;
use crate::icrc7_types::{opt_text, MetadataValue, MetadataValueView};
use crate::identity::Principal;
use vstd::prelude::*;

verus! {

/// A member of a group: a display name and the textual form of an identity.
#[derive(Debug, PartialEq, Eq)]
pub struct Member {
    pub name: String,
    pub internet_identity: String,
}

#[verifier::ext_equal]
pub struct MemberView {
    pub name: Seq<char>,
    pub internet_identity: Seq<char>,
}

impl View for Member {
    type V = MemberView;

    open spec fn view(&self) -> MemberView {
        MemberView { name: self.name@, internet_identity: self.internet_identity@ }
    }
}

impl DeepView for Member {
    type V = MemberView;

    open spec fn deep_view(&self) -> MemberView {
        self@
    }
}

impl Clone for Member {
    fn clone(&self) -> (r: Member)
        ensures
            r@ == self@,
    {
        Member { name: self.name.clone(), internet_identity: self.internet_identity.clone() }
    }
}

/// The views of a list of members.
pub open spec fn members_view(members: Seq<Member>) -> Seq<MemberView> {
    Seq::new(members.len(), |i: int| members[i]@)
}

/// Copies a list of members.
pub fn copy_members(members: &Vec<Member>) -> (r: Vec<Member>)
    ensures
        members_view(r@) == members_view(members@),
{
    let mut r: Vec<Member> = Vec::new();
    let mut i: usize = 0;
    while i < members.len()
        invariant
            i <= members@.len(),
            r@.len() == i,
            forall|j: int| 0 <= j < i ==> r@[j]@ == members@[j]@,
        decreases members@.len() - i,
    {
        r.push(members[i].clone());
        i += 1;
    }
    assert(members_view(r@) =~= members_view(members@));
    r
}

#[derive(Debug, PartialEq, Eq)]
pub struct Group {
    pub group_name: String,
    pub group_leader: Account,
    pub group_members: Vec<Member>,
}

#[verifier::ext_equal]
pub struct GroupView {
    pub group_name: Seq<char>,
    pub group_leader: Account,
    pub group_members: Seq<MemberView>,
}

impl View for Group {
    type V = GroupView;

    open spec fn view(&self) -> GroupView {
        GroupView {
            group_name: self.group_name@,
            group_leader: self.group_leader,
            group_members: members_view(self.group_members@),
        }
    }
}

impl Clone for Group {
    fn clone(&self) -> (r: Group)
        ensures
            r@ == self@,
    {
        Group {
            group_name: self.group_name.clone(),
            group_leader: self.group_leader,
            group_members: copy_members(&self.group_members),
        }
    }
}

/// The group that stands in for one that was not found.
pub open spec fn empty_group() -> GroupView {
    GroupView {
        group_name: Seq::empty(),
        group_leader: Account { owner: Principal::spec_management_canister(), subaccount: None },
        group_members: Seq::empty(),
    }
}

impl Default for Group {
    fn default() -> (r: Group)
        ensures
            r@ == empty_group(),
    {
        let r = Group {
            group_name: String::new(),
            group_leader: Account { owner: Principal::management_canister(), subaccount: None },
            group_members: Vec::new(),
        };
        assert(r@.group_members =~= Seq::empty());
        r
    }
}

#[derive(Debug, PartialEq, Eq)]
pub struct Event {
    pub id: String,
    pub title: String,
    pub description: String,
    pub metadata: MetadataValue,
}

#[verifier::ext_equal]
pub struct EventView {
    pub id: Seq<char>,
    pub title: Seq<char>,
    pub description: Seq<char>,
    pub metadata: MetadataValueView,
}

impl View for Event {
    type V = EventView;

    open spec fn view(&self) -> EventView {
        EventView {
            id: self.id@,
            title: self.title@,
            description: self.description@,
            metadata: self.metadata@,
        }
    }
}

impl Clone for Event {
    fn clone(&self) -> (r: Event)
        ensures
            r@ == self@,
    {
        Event {
            id: self.id.clone(),
            title: self.title.clone(),
            description: self.description.clone(),
            metadata: self.metadata.clone(),
        }
    }
}

/// The event that stands in for one that was not found.
pub open spec fn empty_event() -> EventView {
    EventView {
        id: Seq::empty(),
        title: Seq::empty(),
        description: Seq::empty(),
        metadata: MetadataValueView::Text(Seq::empty()),
    }
}

impl Default for Event {
    fn default() -> (r: Event)
        ensures
            r@ == empty_event(),
    {
        Event {
            id: String::new(),
            title: String::new(),
            description: String::new(),
            metadata: MetadataValue::Text(String::new()),
        }
    }
}

/// The settings of a collection, as they are handed to a new ledger.
#[derive(Debug, PartialEq, Eq)]
pub struct Arg {
    pub icrc7_symbol: String,
    pub icrc7_name: String,
    pub icrc7_description: Option<String>,
    pub icrc7_logo: Option<String>,
    pub icrc7_supply_cap: Option<u128>,
    pub icrc7_max_query_batch_size: Option<u128>,
    pub icrc7_max_update_batch_size: Option<u128>,
    pub icrc7_max_take_value: Option<u128>,
    pub icrc7_default_take_value: Option<u128>,
    pub icrc7_max_memo_size: Option<u128>,
    pub icrc7_atomic_batch_transfers: Option<bool>,
    pub tx_window: Option<u64>,
    pub permitted_drift: Option<u64>,
}

#[verifier::ext_equal]
pub struct ArgView {
    pub icrc7_symbol: Seq<char>,
    pub icrc7_name: Seq<char>,
    pub icrc7_description: Option<Seq<char>>,
    pub icrc7_logo: Option<Seq<char>>,
    pub icrc7_supply_cap: Option<u128>,
    pub icrc7_max_query_batch_size: Option<u128>,
    pub icrc7_max_update_batch_size: Option<u128>,
    pub icrc7_max_take_value: Option<u128>,
    pub icrc7_default_take_value: Option<u128>,
    pub icrc7_max_memo_size: Option<u128>,
    pub icrc7_atomic_batch_transfers: Option<bool>,
    pub tx_window: Option<u64>,
    pub permitted_drift: Option<u64>,
}

impl View for Arg {
    type V = ArgView;

    open spec fn view(&self) -> ArgView {
        ArgView {
            icrc7_symbol: self.icrc7_symbol@,
            icrc7_name: self.icrc7_name@,
            icrc7_description: opt_text(self.icrc7_description),
            icrc7_logo: opt_text(self.icrc7_logo),
            icrc7_supply_cap: self.icrc7_supply_cap,
            icrc7_max_query_batch_size: self.icrc7_max_query_batch_size,
            icrc7_max_update_batch_size: self.icrc7_max_update_batch_size,
            icrc7_max_take_value: self.icrc7_max_take_value,
            icrc7_default_take_value: self.icrc7_default_take_value,
            icrc7_max_memo_size: self.icrc7_max_memo_size,
            icrc7_atomic_batch_transfers: self.icrc7_atomic_batch_transfers,
            tx_window: self.tx_window,
            permitted_drift: self.permitted_drift,
        }
    }
}

/// The outcome of an operation as a code with a message.
#[derive(Debug, PartialEq, Eq)]
pub enum OperationCode {
    MintOk { code: u16, message: String },
    RemoveOk { code: u16, message: String },
    RetrieveError { code: u16, message: String },
    InsertError { code: u16, message: String },
    DuplicateEntry { code: u16, message: String },
    MintingError { code: u16, message: String },
}

#[verifier::ext_equal]
pub enum OperationCodeView {
    MintOk { code: u16, message: Seq<char> },
    RemoveOk { code: u16, message: Seq<char> },
    RetrieveError { code: u16, message: Seq<char> },
    InsertError { code: u16, message: Seq<char> },
    DuplicateEntry { code: u16, message: Seq<char> },
    MintingError { code: u16, message: Seq<char> },
}

impl View for OperationCode {
    type V = OperationCodeView;

    open spec fn view(&self) -> OperationCodeView {
        match *self {
            OperationCode::MintOk { code, message } => OperationCodeView::MintOk {
                code,
                message: message@,
            },
            OperationCode::RemoveOk { code, message } => OperationCodeView::RemoveOk {
                code,
                message: message@,
            },
            OperationCode::RetrieveError { code, message } => OperationCodeView::RetrieveError {
                code,
                message: message@,
            },
            OperationCode::InsertError { code, message } => OperationCodeView::InsertError {
                code,
                message: message@,
            },
            OperationCode::DuplicateEntry { code, message } => OperationCodeView::DuplicateEntry {
                code,
                message: message@,
            },
            OperationCode::MintingError { code, message } => OperationCodeView::MintingError {
                code,
                message: message@,
            },
        }
    }
}

/// The uniform result of the application layer's operations: 200 for
/// success, 400 for a duplicate, 404 for what was not found, 499 for a
/// failed mint.
#[derive(Debug, PartialEq, Eq)]
pub struct RequestResult<T> {
    pub code: u16,
    pub message: String,
    pub body: T,
}

impl<T> RequestResult<T> {
    pub fn new(code: u16, message: String, body: T) -> (r: RequestResult<T>)
        ensures
            r.code == code,
            r.message == message,
            r.body == body,
    {
        RequestResult { code: code, message: message, body: body }
    }
}

/// The result of an operation as a code with a message: a success, a
/// duplicate, something missing, a failed mint, and whatever else as a
/// failed insertion.
pub open spec fn operation_code_of(code: u16, message: Seq<char>) -> OperationCodeView {
    if code == CODE_OK {
        OperationCodeView::MintOk { code, message }
    } else if code == CODE_DUPLICATE {
        OperationCodeView::DuplicateEntry { code, message }
    } else if code == CODE_NOT_FOUND {
        OperationCodeView::RetrieveError { code, message }
    } else if code == CODE_MINTING_FAILED {
        OperationCodeView::MintingError { code, message }
    } else {
        OperationCodeView::InsertError { code, message }
    }
}

impl<T> RequestResult<T> {
    /// The code and the message of the result, without its body.
    pub fn operation_code(&self) -> (r: OperationCode)
        ensures
            r@ == operation_code_of(self.code, self.message@),
    {
        let code = self.code;
        let message = self.message.clone();
        if code == 200 {
            OperationCode::MintOk { code, message }
        } else if code == 400 {
            OperationCode::DuplicateEntry { code, message }
        } else if code == 404 {
            OperationCode::RetrieveError { code, message }
        } else if code == 499 {
            OperationCode::MintingError { code, message }
        } else {
            OperationCode::InsertError { code, message }
        }
    }
}

pub const CODE_OK: u16 = 200;

pub const CODE_DUPLICATE: u16 = 400;

pub const CODE_NOT_FOUND: u16 = 404;

pub const CODE_MINTING_FAILED: u16 = 499;

} // verus!
