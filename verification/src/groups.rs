//! Groups: a group is stored once under a fresh id, with its caller as one
//! more member, and every member is then issued a token.

use crate::account::Account;
use crate::identity::{principal_text, Principal};
use crate::issuance::{begun, ended, Issuance, IssuanceView, Occasion, OccasionView};
use crate::memory::{
    get_collections, get_group_by_id, groups_view, insert_collection, remove_entry, Storage,
    StorageView,
};
use crate::text_map::{lemma_stored, stored, value_of, without};
use crate::types::{
    copy_members, members_view, Group, GroupView, Member, MemberView, RequestResult,
    CODE_DUPLICATE, CODE_NOT_FOUND, CODE_OK,
};
use crate::uuid::{hyphenated, seeded_bytes, tagged, uuidv4};
use vstd::prelude::*;
use vstd::string::StringExecFns;

verus! {

/// Whether some stored group has this name.
pub open spec fn group_named(groups: Seq<(Seq<char>, GroupView)>, name: Seq<char>) -> bool {
    exists|i: int| 0 <= i < groups.len() && (#[trigger] groups[i]).1.group_name == name
}

/// Whether some stored group has this name.
pub fn group_already_present(storage: &Storage, name: String) -> (r: bool)
    ensures
        r == group_named(storage@.groups, name@),
{
    let n = storage.groups.len();
    let mut i: usize = 0;
    while i < n
        invariant
            i <= n,
            n == storage.groups@.len(),
            forall|j: int| 0 <= j < i ==> (#[trigger] storage@.groups[j]).1.group_name != name@,
        decreases n - i,
    {
        let (_, group) = storage.groups.entry(i);
        if crate::text_map::same_text(group.group_name.as_str(), name.as_str()) {
            assert(storage@.groups[i as int].1.group_name == name@);
            return true;
        }
        i += 1;
    }
    false
}

/// The sequence that issues a token to every member of a stored group; for
/// an id without a group, a sequence that has ended with the code 404.
pub open spec fn group_issuance(s: StorageView, uuid: Seq<char>, app_id: Principal) -> IssuanceView {
    match value_of(s.groups, uuid) {
        Some(group) => begun(
            OccasionView::Group { group_name: group.group_name },
            app_id,
            group.group_members,
        ),
        None => ended(
            OccasionView::Group { group_name: Seq::empty() },
            app_id,
            CODE_NOT_FOUND,
            "Not found group with id = "@ + uuid,
        ),
    }
}

/// Starts issuing a token to every member of the group of an id.
pub fn assign_nft_to_group_member(storage: &Storage, uuid: String, app_id: Principal) -> (r:
    Issuance)
    ensures
        r@ == group_issuance(storage@, uuid@, app_id),
{
    match storage.groups.get(uuid.as_str()) {
        Some(group) => Issuance::begin(
            Occasion::Group { group_name: group.group_name.clone() },
            app_id,
            copy_members(&group.group_members),
        ),
        None => Issuance::finished(
            Occasion::Group { group_name: String::new() },
            app_id,
            404,
            "Not found group with id = ".to_string().concat(uuid.as_str()),
        ),
    }
}

/// The members of a new group: those invited, and the caller under the
/// leader's name.
pub open spec fn with_leader(members: Seq<MemberView>, leader_name: Seq<char>, caller: Principal)
    -> Seq<MemberView> {
    members.push(MemberView { name: leader_name, internet_identity: principal_text(caller@) })
}

/// The id that a group or an event gets when it is stored at a time.
pub open spec fn fresh_id(now: u64) -> Seq<char> {
    hyphenated(tagged(seeded_bytes(now)))
}

/// What subscribing a group does to the store, and the sequence it starts.
/// A name that a stored group has already leaves the store as it is and
/// starts nothing: the sequence has ended with the code 400.
pub open spec fn subscribed(
    s: StorageView,
    members: Seq<MemberView>,
    leader_name: Seq<char>,
    group_name: Seq<char>,
    caller: Principal,
    app_id: Principal,
    now: u64,
) -> (StorageView, IssuanceView) {
    if group_named(s.groups, group_name) {
        (
            s,
            ended(
                OccasionView::Group { group_name },
                app_id,
                CODE_DUPLICATE,
                "Duplicate entry for "@ + group_name,
            ),
        )
    } else {
        let all = with_leader(members, leader_name, caller);
        let group = GroupView {
            group_name,
            group_leader: Account { owner: caller, subaccount: None },
            group_members: all,
        };
        (
            StorageView { groups: stored(s.groups, fresh_id(now), group), ..s },
            begun(OccasionView::Group { group_name }, app_id, all),
        )
    }
}

/// Subscribing under a name that a stored group has changes nothing and
/// asks for nothing: the store stays as it was, and the only thing left to
/// do is to return the code 400. No collection is provisioned and no token
/// is minted.
pub proof fn lemma_duplicate_starts_nothing(
    s: StorageView,
    members: Seq<MemberView>,
    leader_name: Seq<char>,
    group_name: Seq<char>,
    caller: Principal,
    app_id: Principal,
    now: u64,
    replies: Seq<crate::issuance::ReplyView>,
)
    requires
        group_named(s.groups, group_name),
    ensures
        ({
            let (after, issuance) = subscribed(
                s,
                members,
                leader_name,
                group_name,
                caller,
                app_id,
                now,
            );
            &&& after == s
            &&& crate::issuance::action_of(issuance, s.token_counter)
                == (crate::issuance::ActionView::Finish {
                code: CODE_DUPLICATE,
                message: "Duplicate entry for "@ + group_name,
                body: Seq::empty(),
            })
            &&& crate::issuance::run(issuance, replies) == issuance
        }),
    decreases replies.len(),
{
    if replies.len() > 0 {
        lemma_duplicate_starts_nothing(
            s,
            members,
            leader_name,
            group_name,
            caller,
            app_id,
            now,
            replies.drop_last(),
        );
    }
}

/// Subscribes a group on behalf of `caller` at the time `now`, and starts
/// issuing a token to each of its members, the caller among them: the last
/// member's text is read back as the caller's identity, so that the last
/// token goes to the caller.
pub fn subscribe_group(
    storage: &mut Storage,
    members: Vec<Member>,
    leader_name: String,
    group_name: String,
    caller: Principal,
    app_id: Principal,
    now: u64,
) -> (r: Issuance)
    ensures
        (final(storage)@, r@) == subscribed(
            old(storage)@,
            members_view(members@),
            leader_name@,
            group_name@,
            caller,
            app_id,
            now,
        ),
        !group_named(old(storage)@.groups, group_name@) ==> crate::issuance::member_identity(
            r@.members.last(),
        ) == caller,
{
    if group_already_present(storage, group_name.clone()) {
        let message = "Duplicate entry for ".to_string().concat(group_name.as_str());
        return Issuance::finished(Occasion::Group { group_name }, app_id, 400, message);
    }
    let group_id = uuidv4(now);
    let mut members = members;
    let ghost invited = members_view(members@);
    caller.known();
    members.push(Member { name: leader_name, internet_identity: caller.to_text() });
    assert(members_view(members@) =~= with_leader(invited, leader_name@, caller));
    let group = Group {
        group_name: group_name,
        group_leader: Account { owner: caller, subaccount: None },
        group_members: members,
    };
    proof {
        use_type_invariant(&storage.groups);
        lemma_stored(storage@.groups, group_id@, group@);
    }
    insert_collection(storage, group_id.clone(), group);
    assign_nft_to_group_member(storage, group_id, app_id)
}

/// Removes the group of an id: the code 200 where there was one, else 404.
pub fn remove_group(storage: &mut Storage, group_id: String) -> (r: RequestResult<String>)
    ensures
        r.body@ == Seq::<char>::empty(),
        match value_of(old(storage)@.groups, group_id@) {
            Some(_) => r.code == CODE_OK && r.message@ == "Delete of the entry ok"@
                && final(storage)@ == (StorageView {
                groups: without(old(storage)@.groups, group_id@),
                ..old(storage)@
            }),
            None => r.code == CODE_NOT_FOUND && r.message@ == "Not found group "@ + group_id@
                && final(storage)@ == old(storage)@,
        },
{
    let request = get_group_by_id(storage, group_id.clone());
    if request.code != 200 {
        return RequestResult::new(request.code, request.message, String::new());
    }
    remove_entry(storage, &group_id);
    RequestResult::new(200, "Delete of the entry ok".to_string(), String::new())
}

/// Removes every group.
pub fn remove_all_groups(storage: &mut Storage)
    ensures
        final(storage)@ == (StorageView { groups: Seq::empty(), ..old(storage)@ }),
{
    storage.groups.clear();
}

/// Every group with its id.
pub fn get_all_groups(storage: &Storage) -> (r: RequestResult<Vec<(String, Group)>>)
    ensures
        r.code == CODE_OK,
        r.message@ == "All gorups"@,
        groups_view(r.body@) == storage@.groups,
{
    RequestResult::new(200, "All gorups".to_string(), get_collections(storage))
}

/// The members of the group of an id; none for an id without a group.
pub fn get_group_members(storage: &Storage, group_id: String) -> (r: RequestResult<Vec<Member>>)
    ensures
        r.code == CODE_OK,
        r.message@ == "Group memebers for "@ + group_id@,
        members_view(r.body@) == match value_of(storage@.groups, group_id@) {
            Some(g) => g.group_members,
            None => Seq::empty(),
        },
{
    let members = match storage.groups.get(group_id.as_str()) {
        Some(v) => copy_members(&v.group_members),
        None => {
            let empty: Vec<Member> = Vec::new();
            assert(members_view(empty@) =~= Seq::empty());
            empty
        },
    };
    RequestResult::new(200, "Group memebers for ".to_string().concat(group_id.as_str()), members)
}

} // verus!
