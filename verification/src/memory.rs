//! What the application layer stores: groups and events under their ids,
//! and the counter from which token ids are taken.

use crate::text_map::{stored, value_of, without, TextMap};
use crate::types::{
    empty_event, empty_group, Event, EventView, Group, GroupView, RequestResult, CODE_NOT_FOUND,
    CODE_OK,
};
use vstd::prelude::*;
use vstd::string::StringExecFns;

verus! {

pub struct Storage {
    pub groups: TextMap<Group>,
    pub events: TextMap<Event>,
    pub token_counter: u128,
}

#[verifier::ext_equal]
pub struct StorageView {
    pub groups: Seq<(Seq<char>, GroupView)>,
    pub events: Seq<(Seq<char>, EventView)>,
    pub token_counter: u128,
}

impl View for Storage {
    type V = StorageView;

    open spec fn view(&self) -> StorageView {
        StorageView {
            groups: self.groups@,
            events: self.events@,
            token_counter: self.token_counter,
        }
    }
}

impl Storage {
    /// A store without groups and events, the counter at zero.
    pub fn new() -> (r: Storage)
        ensures
            r@ == (StorageView { groups: Seq::empty(), events: Seq::empty(), token_counter: 0 }),
    {
        Storage { groups: TextMap::new(), events: TextMap::new(), token_counter: 0 }
    }
}

/// The views of a list of groups with their ids.
pub open spec fn groups_view(groups: Seq<(String, Group)>) -> Seq<(Seq<char>, GroupView)> {
    Seq::new(groups.len(), |i: int| (groups[i].0@, groups[i].1@))
}

/// The views of a list of events with their ids.
pub open spec fn events_view(events: Seq<(String, Event)>) -> Seq<(Seq<char>, EventView)> {
    Seq::new(events.len(), |i: int| (events[i].0@, events[i].1@))
}

/// Every group with its id.
pub fn get_collections(storage: &Storage) -> (r: Vec<(String, Group)>)
    ensures
        groups_view(r@) == storage@.groups,
{
    let mut r: Vec<(String, Group)> = Vec::new();
    let n = storage.groups.len();
    let mut i: usize = 0;
    while i < n
        invariant
            i <= n,
            n == storage.groups@.len(),
            r@.len() == i,
            forall|j: int| 0 <= j < i ==> (r@[j].0@, r@[j].1@) == storage.groups@[j],
        decreases n - i,
    {
        let (id, group) = storage.groups.entry(i);
        r.push((id.clone(), group.clone()));
        i += 1;
    }
    assert(groups_view(r@) =~= storage@.groups);
    r
}

/// Stores a group under an id, in place of what the id had.
pub fn insert_collection(storage: &mut Storage, group_id: String, group: Group)
    ensures
        final(storage)@ == (StorageView {
            groups: stored(old(storage)@.groups, group_id@, group@),
            ..old(storage)@
        }),
{
    storage.groups.insert(group_id, group);
}

/// Removes the group of an id, if there is one.
pub fn remove_entry(storage: &mut Storage, group_id: &String)
    ensures
        final(storage)@ == (StorageView {
            groups: without(old(storage)@.groups, group_id@),
            ..old(storage)@
        }),
{
    storage.groups.remove(group_id.as_str());
}

/// The group of an id with the code 200, or an empty group with the code
/// 404.
pub fn get_group_by_id(storage: &Storage, group_id: String) -> (r: RequestResult<Group>)
    ensures
        match value_of(storage@.groups, group_id@) {
            Some(g) => r.code == CODE_OK && r.message@ == "Correctly retrieved group "@
                + group_id@ && r.body@ == g,
            None => r.code == CODE_NOT_FOUND && r.message@ == "Not found group "@ + group_id@
                && r.body@ == empty_group(),
        },
{
    match storage.groups.get(group_id.as_str()) {
        Some(g) => RequestResult::new(
            200,
            "Correctly retrieved group ".to_string().concat(group_id.as_str()),
            g.clone(),
        ),
        None => RequestResult::new(
            404,
            "Not found group ".to_string().concat(group_id.as_str()),
            Group::default(),
        ),
    }
}

/// Every event with its id.
pub fn get_events_collection(storage: &Storage) -> (r: Vec<(String, Event)>)
    ensures
        events_view(r@) == storage@.events,
{
    let mut r: Vec<(String, Event)> = Vec::new();
    let n = storage.events.len();
    let mut i: usize = 0;
    while i < n
        invariant
            i <= n,
            n == storage.events@.len(),
            r@.len() == i,
            forall|j: int| 0 <= j < i ==> (r@[j].0@, r@[j].1@) == storage.events@[j],
        decreases n - i,
    {
        let (id, event) = storage.events.entry(i);
        r.push((id.clone(), event.clone()));
        i += 1;
    }
    assert(events_view(r@) =~= storage@.events);
    r
}

/// Stores an event under its own id.
pub fn insert_event_in_collection(storage: &mut Storage, event: Event)
    ensures
        final(storage)@ == (StorageView {
            events: stored(old(storage)@.events, event@.id, event@),
            ..old(storage)@
        }),
{
    let id = event.id.clone();
    storage.events.insert(id, event);
}

/// Removes the event of an id, if there is one.
pub fn remove_event_from_collection(storage: &mut Storage, event_id: String)
    ensures
        final(storage)@ == (StorageView {
            events: without(old(storage)@.events, event_id@),
            ..old(storage)@
        }),
{
    storage.events.remove(event_id.as_str());
}

/// The event of an id with the code 200, or an empty event with the code
/// 404.
pub fn get_event_by_id(storage: &Storage, event_id: String) -> (r: RequestResult<Event>)
    ensures
        match value_of(storage@.events, event_id@) {
            Some(e) => r.code == CODE_OK && r.message@ == "Correctly retrieved event "@
                + event_id@ && r.body@ == e,
            None => r.code == CODE_NOT_FOUND && r.message@ == "Not found event "@ + event_id@
                && r.body@ == empty_event(),
        },
{
    match storage.events.get(event_id.as_str()) {
        Some(e) => RequestResult::new(
            200,
            "Correctly retrieved event ".to_string().concat(event_id.as_str()),
            e.clone(),
        ),
        None => RequestResult::new(
            404,
            "Not found event ".to_string().concat(event_id.as_str()),
            Event::default(),
        ),
    }
}

/// The id that the next minted token gets.
pub fn get_current_token_id(storage: &Storage) -> (id: u128)
    ensures
        id == storage@.token_counter,
{
    storage.token_counter
}

/// Moves the counter on by one.
pub fn increase_token_id(storage: &mut Storage)
    requires
        old(storage).token_counter < u128::MAX,
    ensures
        final(storage)@ == (StorageView {
            token_counter: (old(storage)@.token_counter + 1) as u128,
            ..old(storage)@
        }),
{
    let old_token_id = get_current_token_id(storage);
    storage.token_counter = old_token_id + 1;
}

} // verus!
