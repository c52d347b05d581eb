//! Events: an event is stored under a fresh id, and those who took part in
//! it are issued a token each.

use crate::icrc7_types::{opt_text, MetadataValue};
use crate::identity::Principal;
use crate::issuance::{begun, ended, Issuance, IssuanceView, Occasion, OccasionView};
use crate::memory::{
    events_view, get_event_by_id, get_events_collection, insert_event_in_collection,
    remove_event_from_collection, Storage, StorageView,
};
use crate::groups::fresh_id;
use crate::text_map::{stored, value_of, without};
use crate::types::{
    members_view, Event, EventView, Member, MemberView, RequestResult, CODE_NOT_FOUND, CODE_OK,
};
use crate::uuid::uuidv4;
use vstd::prelude::*;
use vstd::string::StringExecFns;

verus! {

/// The views of a list of events.
pub open spec fn event_views(events: Seq<Event>) -> Seq<EventView> {
    Seq::new(events.len(), |i: int| events[i]@)
}

/// Stores a new event under a fresh id, made from the time `now`.
pub fn create_event(
    storage: &mut Storage,
    name: String,
    description: String,
    metadata: MetadataValue,
    now: u64,
)
    ensures
        final(storage)@ == (StorageView {
            events: stored(
                old(storage)@.events,
                fresh_id(now),
                EventView {
                    id: fresh_id(now),
                    title: name@,
                    description: description@,
                    metadata: metadata@,
                },
            ),
            ..old(storage)@
        }),
{
    insert_event_in_collection(
        storage,
        Event { id: uuidv4(now), title: name, description: description, metadata: metadata },
    );
}

/// Every event.
pub fn get_all_events(storage: &Storage) -> (r: RequestResult<Vec<Event>>)
    ensures
        r.code == CODE_OK,
        r.message@ == "All events"@,
        event_views(r.body@) == Seq::new(
            storage@.events.len(),
            |i: int| storage@.events[i].1,
        ),
{
    let all = get_events_collection(storage);
    let mut events: Vec<Event> = Vec::new();
    let mut i: usize = 0;
    while i < all.len()
        invariant
            i <= all@.len(),
            events@.len() == i,
            forall|j: int| 0 <= j < i ==> events@[j]@ == all@[j].1@,
        decreases all@.len() - i,
    {
        events.push(all[i].1.clone());
        i += 1;
    }
    assert(event_views(events@) =~= Seq::new(
        storage@.events.len(),
        |i: int| storage@.events[i].1,
    )) by {
        assert(forall|j: int|
            0 <= j < all@.len() ==> events_view(all@)[j] == (all@[j].0@, all@[j].1@));
    }
    RequestResult::new(200, "All events".to_string(), events)
}

/// Removes the event of an id, if there is one; the code is 200 either way.
pub fn remove_event(storage: &mut Storage, event_id: String) -> (r: RequestResult<String>)
    ensures
        r.code == CODE_OK,
        r.message@ == "Delete of the entry ok"@,
        r.body@ == Seq::<char>::empty(),
        final(storage)@ == (StorageView {
            events: without(old(storage)@.events, event_id@),
            ..old(storage)@
        }),
{
    remove_event_from_collection(storage, event_id);
    RequestResult::new(200, "Delete of the entry ok".to_string(), String::new())
}

/// The sequence that issues a token for an event to each of the members
/// given; for an id without an event, a sequence that has ended with the
/// code 404.
pub open spec fn event_issuance(
    s: StorageView,
    event_id: Seq<char>,
    description: Option<Seq<char>>,
    members: Seq<MemberView>,
    app_id: Principal,
) -> IssuanceView {
    match value_of(s.events, event_id) {
        Some(event) => begun(
            OccasionView::Event { event_id, title: event.title, description },
            app_id,
            members,
        ),
        None => ended(
            OccasionView::Event { event_id, title: Seq::empty(), description },
            app_id,
            CODE_NOT_FOUND,
            "Cannot find event with ID = "@ + event_id,
        ),
    }
}

/// Starts issuing a token for an event to each of the members given.
pub fn assign_nft_for_event(
    storage: &Storage,
    event_id: String,
    icrc7_description: Option<String>,
    members: Vec<Member>,
    app_id: Principal,
) -> (r: Issuance)
    ensures
        r@ == event_issuance(
            storage@,
            event_id@,
            opt_text(icrc7_description),
            members_view(members@),
            app_id,
        ),
{
    match storage.events.get(event_id.as_str()) {
        Some(event) => {
            let title = event.title.clone();
            Issuance::begin(
                Occasion::Event { event_id, title, description: icrc7_description },
                app_id,
                members,
            )
        },
        None => {
            let message = "Cannot find event with ID = ".to_string().concat(event_id.as_str());
            Issuance::finished(
                Occasion::Event {
                    event_id,
                    title: String::new(),
                    description: icrc7_description,
                },
                app_id,
                404,
                message,
            )
        },
    }
}

/// The sequence that issues a token for an event to every member of a
/// stored group; a sequence that has ended with the code 404 where the
/// event or the group is missing.
pub open spec fn event_group_issuance(
    s: StorageView,
    event_id: Seq<char>,
    group_id: Seq<char>,
    app_id: Principal,
) -> IssuanceView {
    match value_of(s.events, event_id) {
        None => ended(
            OccasionView::Event { event_id, title: Seq::empty(), description: None },
            app_id,
            CODE_NOT_FOUND,
            "Cannot find event with ID = "@ + event_id,
        ),
        Some(event) => match value_of(s.groups, group_id) {
            None => ended(
                OccasionView::Event { event_id, title: event.title, description: None },
                app_id,
                CODE_NOT_FOUND,
                "Error while finding the group with ID = "@ + group_id,
            ),
            Some(group) => begun(
                OccasionView::Event { event_id, title: event.title, description: None },
                app_id,
                group.group_members,
            ),
        },
    }
}

/// Starts issuing a token for an event to every member of a stored group.
pub fn assign_nft_for_event_to_group(
    storage: &Storage,
    event_id: String,
    group_id: String,
    app_id: Principal,
) -> (r: Issuance)
    ensures
        r@ == event_group_issuance(storage@, event_id@, group_id@, app_id),
{
    let event = match storage.events.get(event_id.as_str()) {
        Some(event) => event,
        None => {
            let message = "Cannot find event with ID = ".to_string().concat(event_id.as_str());
            return Issuance::finished(
                Occasion::Event { event_id, title: String::new(), description: None },
                app_id,
                404,
                message,
            );
        },
    };
    let title = event.title.clone();
    match storage.groups.get(group_id.as_str()) {
        Some(group) => Issuance::begin(
            Occasion::Event { event_id, title, description: None },
            app_id,
            crate::types::copy_members(&group.group_members),
        ),
        None => {
            let message = "Error while finding the group with ID = ".to_string().concat(
                group_id.as_str(),
            );
            Issuance::finished(
                Occasion::Event { event_id, title, description: None },
                app_id,
                404,
                message,
            )
        },
    }
}

/// The description of the tokens of an event: a fixed phrase and the title
/// of the event, which is empty for an id without an event.
pub open spec fn event_token_description(s: StorageView, event_id: Seq<char>) -> Seq<char> {
    "Commemorative NFT for the event "@ + match value_of(s.events, event_id) {
        Some(event) => event.title,
        None => Seq::empty(),
    }
}

/// Starts issuing the token of an event to each of the members given.
pub fn assign_event_to_group(
    storage: &Storage,
    event_id: String,
    members: Vec<Member>,
    app_id: Principal,
) -> (r: Issuance)
    ensures
        r@ == event_issuance(
            storage@,
            event_id@,
            Some(event_token_description(storage@, event_id@)),
            members_view(members@),
            app_id,
        ),
{
    let event = get_event_by_id(storage, event_id.clone());
    let description = "Commemorative NFT for the event ".to_string().concat(
        event.body.title.as_str(),
    );
    assign_nft_for_event(storage, event_id, Some(description), members, app_id)
}

} // verus!
