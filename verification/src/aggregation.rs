//! Reading across collections: what the application layer makes of the
//! replies of the registry and of the ledgers it asks.

use crate::icrc7_types::{
    metadata_view, Icrc7TokenMetadata, MetadataValue, MetadataValueView, TransferResult,
};
use crate::identity::{principal_text, Principal};
use crate::memory::Storage;
use crate::queries::opt_metadata_view;
use crate::text_map::value_of;
use crate::types::{EventView, RequestResult, CODE_OK};
use vstd::prelude::*;
use vstd::string::StringExecFns;

verus! {

/// The result of a question to a collection: what it replied, or a stand-in
/// where the call failed, always under the code 200.
pub fn collection_reply<T>(icrc7_collection_id: &Principal, reply: Option<T>, stand_in: T) -> (r:
    RequestResult<T>)
    ensures
        r.code == CODE_OK,
        r.message@ == "Correctly retrieved information for the collection with ID = "@
            + principal_text(icrc7_collection_id@),
        r.body == match reply {
            Some(value) => value,
            None => stand_in,
        },
{
    let body = match reply {
        Some(value) => value,
        None => stand_in,
    };
    RequestResult::new(
        200,
        "Correctly retrieved information for the collection with ID = ".to_string().concat(
            icrc7_collection_id.to_text().as_str(),
        ),
        body,
    )
}

/// The result of a batch of transfers that a collection was asked for: its
/// outcomes, or none where the call failed.
pub fn icrc7_transfer(caller: &Principal, reply: Option<Vec<Option<TransferResult>>>) -> (r:
    RequestResult<Vec<Option<TransferResult>>>)
    ensures
        r.code == CODE_OK,
        r.message@ == "Correctly transferred from "@ + principal_text(caller@),
        match reply {
            Some(results) => r.body == results,
            None => r.body@.len() == 0,
        },
{
    let body = match reply {
        Some(results) => results,
        None => Vec::new(),
    };
    RequestResult::new(
        200,
        "Correctly transferred from ".to_string().concat(caller.to_text().as_str()),
        body,
    )
}

/// Whether a token id is among the keys.
pub open spec fn has_id(s: Seq<(u128, Seq<char>)>, id: u128) -> bool {
    exists|i: int| 0 <= i < s.len() && (#[trigger] s[i]).0 == id
}

/// The place of a token id among the keys.
pub open spec fn id_place(s: Seq<(u128, Seq<char>)>, id: u128) -> int {
    choose|i: int| 0 <= i < s.len() && (#[trigger] s[i]).0 == id
}

/// No token id is a key twice.
pub open spec fn distinct_ids(s: Seq<(u128, Seq<char>)>) -> bool {
    forall|i: int, j: int| 0 <= i < j < s.len() ==> s[i].0 != s[j].0
}

/// The map after a token id was assigned a collection, in place of the one
/// it had.
pub open spec fn assigned(s: Seq<(u128, Seq<char>)>, id: u128, collection: Seq<char>) -> Seq<
    (u128, Seq<char>),
> {
    if has_id(s, id) {
        s.update(id_place(s, id), (id, collection))
    } else {
        s.push((id, collection))
    }
}

/// The map after the first `k` tokens of a collection were assigned to it.
pub open spec fn collection_merged(
    s: Seq<(u128, Seq<char>)>,
    collection: Seq<char>,
    tokens: Seq<u128>,
    k: nat,
) -> Seq<(u128, Seq<char>)>
    decreases k,
{
    if k == 0 {
        s
    } else {
        assigned(collection_merged(s, collection, tokens, (k - 1) as nat), tokens[k - 1], collection)
    }
}

/// The map from token ids to collections that the first `k` replies give:
/// each token is assigned to the collection that reported it, a later report
/// replacing an earlier one.
pub open spec fn merged(replies: Seq<(Principal, Seq<u128>)>, k: nat) -> Seq<(u128, Seq<char>)>
    decreases k,
{
    if k == 0 {
        Seq::empty()
    } else {
        collection_merged(
            merged(replies, (k - 1) as nat),
            principal_text(replies[k - 1].0@),
            replies[k - 1].1,
            replies[k - 1].1.len(),
        )
    }
}

/// The views of a list of token ids with the texts of their collections.
pub open spec fn map_view(m: Seq<(u128, String)>) -> Seq<(u128, Seq<char>)> {
    Seq::new(m.len(), |i: int| (m[i].0, m[i].1@))
}

/// The views of the replies of collections.
pub open spec fn replies_view(replies: Seq<(Principal, Vec<u128>)>) -> Seq<
    (Principal, Seq<u128>),
> {
    Seq::new(replies.len(), |i: int| (replies[i].0, replies[i].1@))
}

proof fn lemma_assigned(s: Seq<(u128, Seq<char>)>, id: u128, collection: Seq<char>)
    requires
        distinct_ids(s),
    ensures
        distinct_ids(assigned(s, id, collection)),
{
    let r = assigned(s, id, collection);
    if has_id(s, id) {
        let at = id_place(s, id);
        assert forall|i: int, j: int| 0 <= i < j < r.len() implies r[i].0 != r[j].0 by {
            assert(s[i].0 != s[j].0);
        }
    } else {
        assert forall|i: int, j: int| 0 <= i < j < r.len() implies r[i].0 != r[j].0 by {
            if j == s.len() {
                if s[i].0 == id {
                    assert(has_id(s, id));
                }
            } else {
                assert(s[i].0 != s[j].0);
            }
        }
    }
}

/// Assigns a token id to a collection.
fn assign(map: &mut Vec<(u128, String)>, id: u128, collection: &String)
    requires
        distinct_ids(map_view(old(map)@)),
    ensures
        map_view(final(map)@) == assigned(map_view(old(map)@), id, collection@),
        distinct_ids(map_view(final(map)@)),
{
    let ghost before = map_view(map@);
    proof {
        lemma_assigned(before, id, collection@);
    }
    let mut i: usize = 0;
    while i < map.len()
        invariant
            i <= map@.len(),
            map_view(map@) == before,
            before == map_view(old(map)@),
            distinct_ids(before),
            distinct_ids(assigned(before, id, collection@)),
            forall|j: int| 0 <= j < i ==> (#[trigger] before[j]).0 != id,
        decreases map@.len() - i,
    {
        if map[i].0 == id {
            assert(before[i as int].0 == id);
            assert(id_place(before, id) == i) by {
                let p = id_place(before, id);
                if p < i {
                    assert(before[p].0 != id);
                }
                if i < p {
                    assert(before[i as int].0 != before[p].0);
                }
            }
            map[i] = (id, collection.clone());
            assert(map_view(map@) =~= before.update(i as int, (id, collection@)));
            return ;
        }
        i += 1;
    }
    map.push((id, collection.clone()));
    assert(map_view(map@) =~= before.push((id, collection@)));
}

/// The tokens of a user across the collections that were asked: for each
/// token id the collection that reported it.
pub fn get_user_tokens_collection(caller: &Principal, replies: &Vec<(Principal, Vec<u128>)>) -> (r:
    RequestResult<Vec<(u128, String)>>)
    ensures
        r.code == CODE_OK,
        r.message@ == "Collection found for the user "@ + principal_text(caller@),
        map_view(r.body@) == merged(replies_view(replies@), replies@.len()),
        distinct_ids(map_view(r.body@)),
{
    let ghost views = replies_view(replies@);
    let mut tokens: Vec<(u128, String)> = Vec::new();
    assert(map_view(tokens@) =~= Seq::empty());
    let mut i: usize = 0;
    while i < replies.len()
        invariant
            i <= replies@.len(),
            views == replies_view(replies@),
            map_view(tokens@) == merged(views, i as nat),
            distinct_ids(map_view(tokens@)),
        decreases replies@.len() - i,
    {
        let collection = replies[i].0.to_text();
        let partial_tokens = &replies[i].1;
        let ghost start = map_view(tokens@);
        let mut k: usize = 0;
        while k < partial_tokens.len()
            invariant
                k <= partial_tokens@.len(),
                map_view(tokens@) == collection_merged(
                    start,
                    collection@,
                    partial_tokens@,
                    k as nat,
                ),
                distinct_ids(map_view(tokens@)),
            decreases partial_tokens@.len() - k,
        {
            assign(&mut tokens, partial_tokens[k], &collection);
            k += 1;
        }
        i += 1;
    }
    RequestResult::new(
        200,
        "Collection found for the user ".to_string().concat(caller.to_text().as_str()),
        tokens,
    )
}

/// The text of a decimal number, as a token id is shown.
pub open spec fn shown(token_id: u128) -> Seq<char> {
    crate::mint::decimal(token_id as nat)
}

/// Whether an entry of a token's metadata stands for the logo.
pub open spec fn is_logo(key: Seq<char>) -> bool {
    key == "logo"@
}

/// The event that a logo entry names: the one whose id is the text of the
/// entry's value. A value that is no text names none.
pub open spec fn named_event(events: Seq<(Seq<char>, EventView)>, value: MetadataValueView)
    -> Option<EventView> {
    match value {
        MetadataValueView::Text(id) => value_of(events, id),
        _ => None,
    }
}

/// What the first `n` entries of a token's metadata resolve to. An entry
/// under `logo` stands for the event that its value names: that event's
/// metadata takes its place, and where there is no such event the entry is
/// left out. Every other entry gives its value.
pub open spec fn resolved_entries(
    events: Seq<(Seq<char>, EventView)>,
    entries: Seq<(Seq<char>, MetadataValueView)>,
    n: nat,
) -> Seq<MetadataValueView>
    decreases n,
{
    if n == 0 {
        Seq::empty()
    } else {
        let before = resolved_entries(events, entries, (n - 1) as nat);
        let (key, value) = entries[n - 1];
        if is_logo(key) {
            match named_event(events, value) {
                Some(event) => before.push(event.metadata),
                None => before,
            }
        } else {
            before.push(value)
        }
    }
}

/// What the metadata of the first `m` tokens resolves to, one after the
/// other; a token without metadata gives nothing.
pub open spec fn resolved(
    events: Seq<(Seq<char>, EventView)>,
    metadatas: Seq<Option<Seq<(Seq<char>, MetadataValueView)>>>,
    m: nat,
) -> Seq<MetadataValueView>
    decreases m,
{
    if m == 0 {
        Seq::empty()
    } else {
        let before = resolved(events, metadatas, (m - 1) as nat);
        match metadatas[m - 1] {
            Some(entries) => before + resolved_entries(events, entries, entries.len()),
            None => before,
        }
    }
}

/// The views of the metadata of tokens.
pub open spec fn metadatas_view(metadatas: Seq<Option<Icrc7TokenMetadata>>) -> Seq<
    Option<Seq<(Seq<char>, MetadataValueView)>>,
> {
    Seq::new(metadatas.len(), |i: int| opt_metadata_view(metadatas[i]))
}

/// The views of a list of metadata values.
pub open spec fn values_view(values: Seq<MetadataValue>) -> Seq<MetadataValueView> {
    Seq::new(values.len(), |i: int| values[i]@)
}

/// The metadata of the event that a logo entry names.
fn event_metadata(storage: &Storage, value: &MetadataValue) -> (r: Option<MetadataValue>)
    ensures
        match named_event(storage@.events, value@) {
            Some(event) => r is Some && r->0@ == event.metadata,
            None => r is None,
        },
{
    match value {
        MetadataValue::Text(id) => match storage.events.get(id.as_str()) {
            Some(event) => Some(event.metadata.clone()),
            None => None,
        },
        _ => None,
    }
}

/// The metadata of a token as the application layer shows it: the values of
/// its entries, with the logo resolved through the stored events.
pub fn get_token_metadata(
    storage: &Storage,
    token_id: u128,
    token_metadatas: &Vec<Option<Icrc7TokenMetadata>>,
) -> (r: RequestResult<Vec<MetadataValue>>)
    ensures
        r.code == CODE_OK,
        r.message@ == "Metadata for the token "@ + shown(token_id) + " found!"@,
        values_view(r.body@) == resolved(
            storage@.events,
            metadatas_view(token_metadatas@),
            token_metadatas@.len(),
        ),
{
    let ghost views = metadatas_view(token_metadatas@);
    let ghost events = storage@.events;
    let mut resulting_metadata: Vec<MetadataValue> = Vec::new();
    assert(values_view(resulting_metadata@) =~= Seq::empty());
    let mut i: usize = 0;
    while i < token_metadatas.len()
        invariant
            i <= token_metadatas@.len(),
            views == metadatas_view(token_metadatas@),
            events == storage@.events,
            values_view(resulting_metadata@) == resolved(events, views, i as nat),
        decreases token_metadatas@.len() - i,
    {
        let ghost start = values_view(resulting_metadata@);
        if let Some(entries) = &token_metadatas[i] {
            let ghost entry_views = metadata_view(entries@);
            assert(views[i as int] == Some(entry_views));
            let mut j: usize = 0;
            assert(start + Seq::<MetadataValueView>::empty() =~= start);
            while j < entries.len()
                invariant
                    j <= entries@.len(),
                    entry_views == metadata_view(entries@),
                    events == storage@.events,
                    values_view(resulting_metadata@) == start + resolved_entries(
                        events,
                        entry_views,
                        j as nat,
                    ),
                decreases entries@.len() - j,
            {
                let ghost before = values_view(resulting_metadata@);
                let ghost partial = resolved_entries(events, entry_views, j as nat);
                assert(entry_views[j as int] == (entries@[j as int].0@, entries@[j as int].1@));
                if crate::text_map::same_text(entries[j].0.as_str(), "logo") {
                    match event_metadata(storage, &entries[j].1) {
                        Some(metadata) => {
                            let ghost pushed = metadata@;
                            resulting_metadata.push(metadata);
                            assert(values_view(resulting_metadata@) =~= before.push(pushed));
                            assert(before.push(pushed) =~= start + partial.push(pushed));
                        },
                        None => {},
                    }
                } else {
                    resulting_metadata.push(entries[j].1.clone());
                    assert(values_view(resulting_metadata@) =~= before.push(entries@[j as int].1@));
                    assert(before.push(entries@[j as int].1@) =~= start + partial.push(
                        entries@[j as int].1@,
                    ));
                }
                j += 1;
            }
        }
        i += 1;
    }
    let digits = crate::mint::decimal_text(token_id);
    RequestResult::new(
        200,
        "Metadata for the token ".to_string().concat(digits.as_str()).concat(" found!"),
        resulting_metadata,
    )
}

/// The collections of a caller with their owner, out of all collections
/// that the registry reports.
pub open spec fn pairs_of(all: Seq<(Principal, Principal)>, caller: Principal) -> Seq<
    (Principal, Principal),
>
    decreases all.len(),
{
    if all.len() == 0 {
        Seq::empty()
    } else if all.last().1 == caller {
        pairs_of(all.drop_last(), caller).push(all.last())
    } else {
        pairs_of(all.drop_last(), caller)
    }
}

/// The collections of a caller with their owner, out of all collections
/// that the registry reports.
pub fn get_user_icrc7_collections(all_collections: &Vec<(Principal, Principal)>, caller: Principal)
    -> (r: Vec<(Principal, Principal)>)
    ensures
        r@ == pairs_of(all_collections@, caller),
{
    let mut r: Vec<(Principal, Principal)> = Vec::new();
    let mut i: usize = 0;
    while i < all_collections.len()
        invariant
            i <= all_collections@.len(),
            r@ == pairs_of(all_collections@.subrange(0, i as int), caller),
        decreases all_collections@.len() - i,
    {
        let ghost upto = all_collections@.subrange(0, i + 1);
        assert(upto.drop_last() =~= all_collections@.subrange(0, i as int));
        if all_collections[i].1.same(&caller) {
            r.push(all_collections[i]);
        }
        i += 1;
    }
    assert(all_collections@.subrange(0, all_collections@.len() as int) =~= all_collections@);
    r
}

} // verus!
