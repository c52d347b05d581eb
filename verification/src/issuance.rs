//! Issuing one token to each of a list of members. For every member, in
//! their order: a collection is provisioned, its minting authority is set,
//! and one token is minted. A step that fails ends the sequence; what was
//! done for earlier members is not undone.
//!
//! The three steps are calls to other services. This module decides; its
//! caller performs each action and hands back the reply.

use crate::account::Account;
use crate::errors::{mint_error_text, MintErrorView};
use crate::icrc7_types::{opt_text, MintArg, MintArgView, MintResult};
use crate::identity::{parsed_or_anonymous, principal_of, slice_to_principal, Principal};
use crate::memory::{get_current_token_id, increase_token_id, Storage, StorageView};
use crate::mint::mint_result_view;
use crate::types::{
    members_view, Member, MemberView, RequestResult, CODE_MINTING_FAILED, CODE_OK,
};
use vstd::prelude::*;
use vstd::string::StringExecFns;

verus! {

/// What the tokens commemorate.
#[derive(Debug)]
pub enum Occasion {
    /// Joining a group.
    Group { group_name: String },
    /// Taking part in an event.
    Event { event_id: String, title: String, description: Option<String> },
}

#[verifier::ext_equal]
pub enum OccasionView {
    Group { group_name: Seq<char> },
    Event { event_id: Seq<char>, title: Seq<char>, description: Option<Seq<char>> },
}

impl View for Occasion {
    type V = OccasionView;

    open spec fn view(&self) -> OccasionView {
        match *self {
            Occasion::Group { group_name } => OccasionView::Group { group_name: group_name@ },
            Occasion::Event { event_id, title, description } => OccasionView::Event {
                event_id: event_id@,
                title: title@,
                description: opt_text(description),
            },
        }
    }
}

/// Where the sequence stands for the member in turn.
#[derive(Clone, Copy, Debug)]
pub enum Phase {
    /// A collection is to be provisioned.
    Provisioning,
    /// The minting authority of the collection is to be set.
    Authorizing { collection: Principal },
    /// The token is to be minted.
    Minting { collection: Principal },
    /// Nothing is left to do.
    Finished,
}

/// The state of a sequence.
#[derive(Debug)]
pub struct Issuance {
    pub occasion: Occasion,
    /// The identity of the application layer itself.
    pub app_id: Principal,
    pub members: Vec<Member>,
    /// The place of the member in turn.
    pub next: usize,
    pub phase: Phase,
    /// What the mints so far returned: the id under which each ledger
    /// logged its mint.
    pub minted: Vec<u128>,
    /// The code and the message of the result, once the sequence is finished.
    pub code: u16,
    pub message: String,
}

#[verifier::ext_equal]
pub struct IssuanceView {
    pub occasion: OccasionView,
    pub app_id: Principal,
    pub members: Seq<MemberView>,
    pub next: nat,
    pub phase: Phase,
    pub minted: Seq<u128>,
    pub code: u16,
    pub message: Seq<char>,
}

impl View for Issuance {
    type V = IssuanceView;

    open spec fn view(&self) -> IssuanceView {
        IssuanceView {
            occasion: self.occasion@,
            app_id: self.app_id,
            members: members_view(self.members@),
            next: self.next as nat,
            phase: self.phase,
            minted: self.minted@,
            code: self.code,
            message: self.message@,
        }
    }
}

/// What the caller is to do next.
#[derive(Debug)]
pub enum Action {
    /// Have the registry provision a collection with the symbol `ICP`.
    Provision { owner: Principal, name: String, description: Option<String>, logo: Option<String> },
    /// Have the registry set the minting authority of a collection.
    SetAuthority { collection: Principal, owner: Principal },
    /// Have a collection mint a token.
    Mint { collection: Principal, arg: MintArg, caller: Principal },
    /// Return this result.
    Finish(RequestResult<Vec<u128>>),
}

#[verifier::ext_equal]
pub enum ActionView {
    Provision {
        owner: Principal,
        name: Seq<char>,
        description: Option<Seq<char>>,
        logo: Option<Seq<char>>,
    },
    SetAuthority { collection: Principal, owner: Principal },
    Mint { collection: Principal, arg: MintArgView, caller: Principal },
    Finish { code: u16, message: Seq<char>, body: Seq<u128> },
}

impl View for Action {
    type V = ActionView;

    open spec fn view(&self) -> ActionView {
        match *self {
            Action::Provision { owner, name, description, logo } => ActionView::Provision {
                owner,
                name: name@,
                description: opt_text(description),
                logo: opt_text(logo),
            },
            Action::SetAuthority { collection, owner } => ActionView::SetAuthority {
                collection,
                owner,
            },
            Action::Mint { collection, arg, caller } => ActionView::Mint {
                collection,
                arg: arg@,
                caller,
            },
            Action::Finish(r) => ActionView::Finish {
                code: r.code,
                message: r.message@,
                body: r.body@,
            },
        }
    }
}

/// What came back from an action.
#[derive(Debug)]
pub enum Reply {
    /// The identity of the new collection, or why there is none.
    Provisioned(Result<Principal, String>),
    /// Whether the registry reports the authority as set.
    AuthoritySet(bool),
    /// The result of the mint.
    Minted(MintResult),
}

#[verifier::ext_equal]
pub enum ReplyView {
    Provisioned(Result<Principal, Seq<char>>),
    AuthoritySet(bool),
    Minted(Result<u128, MintErrorView>),
}

impl View for Reply {
    type V = ReplyView;

    open spec fn view(&self) -> ReplyView {
        match *self {
            Reply::Provisioned(r) => ReplyView::Provisioned(
                match r {
                    Ok(p) => Ok(p),
                    Err(text) => Err(text@),
                },
            ),
            Reply::AuthoritySet(b) => ReplyView::AuthoritySet(b),
            Reply::Minted(r) => ReplyView::Minted(mint_result_view(r)),
        }
    }
}

/// The message of a sequence that went through.
pub open spec fn all_minted_message() -> Seq<char> {
    "All NFTs has been minted"@
}

/// The identity that a member's text stands for.
pub open spec fn member_identity(member: MemberView) -> Principal {
    principal_of(parsed_or_anonymous(member.internet_identity))
}

/// The name of the collection that is provisioned for a member.
pub open spec fn collection_name(occasion: OccasionView, member: MemberView) -> Seq<char> {
    match occasion {
        OccasionView::Group { group_name } => "Commemorative NFT for "@ + member.name
            + " to join "@ + group_name + " group!"@,
        OccasionView::Event { title, .. } => "Commemorative NFT for "@ + member.name
            + " to partecipate at the event "@ + title + "!"@,
    }
}

/// Who owns the collection of a member and becomes its minting authority:
/// the application layer for a group, the member for an event.
pub open spec fn collection_owner(s: IssuanceView, member: MemberView) -> Principal {
    match s.occasion {
        OccasionView::Group { .. } => s.app_id,
        OccasionView::Event { .. } => member_identity(member),
    }
}

/// The description of a member's collection.
pub open spec fn collection_description(occasion: OccasionView) -> Option<Seq<char>> {
    match occasion {
        OccasionView::Group { .. } => None,
        OccasionView::Event { description, .. } => description,
    }
}

/// The logo of a member's collection and token: for an event, its id.
pub open spec fn collection_logo(occasion: OccasionView) -> Option<Seq<char>> {
    match occasion {
        OccasionView::Group { .. } => None,
        OccasionView::Event { event_id, .. } => Some(event_id),
    }
}

/// The description of a member's token.
pub open spec fn token_description(occasion: OccasionView, member: MemberView) -> Option<
    Seq<char>,
> {
    match occasion {
        OccasionView::Group { .. } => Some(collection_name(occasion, member)),
        OccasionView::Event { description, .. } => description,
    }
}

/// The mint that is asked for a member: of the token with the id that the
/// counter shows, owned by the member.
pub open spec fn member_mint(s: IssuanceView, member: MemberView, counter: u128) -> MintArgView {
    MintArgView {
        from_subaccount: None,
        to: Account { owner: member_identity(member), subaccount: None },
        token_id: counter,
        memo: None,
        token_name: None,
        token_description: token_description(s.occasion, member),
        token_logo: collection_logo(s.occasion),
    }
}

/// What is said of an authority that the registry did not set.
pub open spec fn authority_refused() -> Seq<char> {
    "Minting authority was not set"@
}

/// Whether a reply reports that its step failed.
pub open spec fn is_failure(reply: ReplyView) -> bool {
    match reply {
        ReplyView::Provisioned(r) => r is Err,
        ReplyView::AuthoritySet(done) => !done,
        ReplyView::Minted(r) => r is Err,
    }
}

/// Why the step of a reply failed, in words: what the registry said of the
/// collection, that the authority was not set, or the mint error.
pub open spec fn failure_reason(reply: ReplyView) -> Seq<char> {
    match reply {
        ReplyView::Provisioned(Err(text)) => text,
        ReplyView::AuthoritySet(_) => authority_refused(),
        ReplyView::Minted(Err(e)) => mint_error_text(e),
        _ => Seq::empty(),
    }
}

/// The message of a sequence that a failed step ended: it names the member,
/// and for an event the reason too.
pub open spec fn failure_message(occasion: OccasionView, member: MemberView, reason: Seq<char>)
    -> Seq<char> {
    match occasion {
        OccasionView::Group { .. } => "Error minting token for "@ + member.name,
        OccasionView::Event { .. } => "Error minting NFT for user "@ + member.name + " : "@
            + reason,
    }
}

/// The state of a sequence that a failed step ended: finished with the code
/// 499, a message that names the member in turn, and an empty body.
pub open spec fn failed(s: IssuanceView, reply: ReplyView) -> IssuanceView {
    IssuanceView {
        phase: Phase::Finished,
        minted: Seq::empty(),
        code: CODE_MINTING_FAILED,
        message: failure_message(s.occasion, s.members[s.next as int], failure_reason(reply)),
        ..s
    }
}

/// Whether a reply answers what the state asked for.
pub open spec fn answers(s: IssuanceView, reply: ReplyView) -> bool {
    match (s.phase, reply) {
        (Phase::Provisioning, ReplyView::Provisioned(_)) => true,
        (Phase::Authorizing { .. }, ReplyView::AuthoritySet(_)) => true,
        (Phase::Minting { .. }, ReplyView::Minted(_)) => true,
        _ => false,
    }
}

/// Whether nothing is left to do.
pub open spec fn is_done(s: IssuanceView) -> bool {
    s.phase is Finished || s.next >= s.members.len()
}

/// The action that a state asks for, given what the counter shows.
pub open spec fn action_of(s: IssuanceView, counter: u128) -> ActionView {
    if s.phase is Finished {
        ActionView::Finish { code: s.code, message: s.message, body: s.minted }
    } else if s.next >= s.members.len() {
        ActionView::Finish { code: CODE_OK, message: all_minted_message(), body: s.minted }
    } else {
        let member = s.members[s.next as int];
        match s.phase {
            Phase::Provisioning => ActionView::Provision {
                owner: collection_owner(s, member),
                name: collection_name(s.occasion, member),
                description: collection_description(s.occasion),
                logo: collection_logo(s.occasion),
            },
            Phase::Authorizing { collection } => ActionView::SetAuthority {
                collection,
                owner: collection_owner(s, member),
            },
            Phase::Minting { collection } => ActionView::Mint {
                collection,
                arg: member_mint(s, member, counter),
                caller: collection_owner(s, member),
            },
            Phase::Finished => ActionView::Finish {
                code: s.code,
                message: s.message,
                body: s.minted,
            },
        }
    }
}

/// The state after a reply. A reply that the state did not ask for changes
/// nothing. A reply that reports a failure, of whichever step, finishes the
/// sequence with the code 499 and an empty body. Otherwise the next step of
/// the member is in turn, and after the mint the next member.
pub open spec fn received(s: IssuanceView, reply: ReplyView) -> IssuanceView {
    if is_done(s) || !answers(s, reply) {
        s
    } else if is_failure(reply) {
        failed(s, reply)
    } else {
        match (s.phase, reply) {
            (Phase::Provisioning, ReplyView::Provisioned(Ok(collection))) => IssuanceView {
                phase: Phase::Authorizing { collection },
                ..s
            },
            (Phase::Authorizing { collection }, ReplyView::AuthoritySet(_)) => IssuanceView {
                phase: Phase::Minting { collection },
                ..s
            },
            (Phase::Minting { collection }, ReplyView::Minted(Ok(id))) => {
                if s.next + 1 >= s.members.len() {
                    IssuanceView {
                        next: s.next + 1,
                        phase: Phase::Finished,
                        minted: s.minted.push(id),
                        code: CODE_OK,
                        message: all_minted_message(),
                        ..s
                    }
                } else {
                    IssuanceView {
                        next: s.next + 1,
                        phase: Phase::Provisioning,
                        minted: s.minted.push(id),
                        ..s
                    }
                }
            },
            _ => s,
        }
    }
}

/// Whether a reply moves the counter: whether it reports a minted token
/// that the state asked for.
pub open spec fn moves_counter(s: IssuanceView, reply: ReplyView) -> bool {
    !is_done(s) && s.phase is Minting && reply is Minted && reply->Minted_0 is Ok
}

/// The counter after a reply: it moves on with every token that was minted.
pub open spec fn counter_after(s: IssuanceView, reply: ReplyView, counter: u128) -> u128 {
    if moves_counter(s, reply) {
        (counter + 1) as u128
    } else {
        counter
    }
}

/// The state in which a sequence over these members starts.
pub open spec fn begun(occasion: OccasionView, app_id: Principal, members: Seq<MemberView>)
    -> IssuanceView {
    IssuanceView {
        occasion,
        app_id,
        members,
        next: 0,
        phase: if members.len() == 0 {
            Phase::Finished
        } else {
            Phase::Provisioning
        },
        minted: Seq::empty(),
        code: CODE_OK,
        message: all_minted_message(),
    }
}

/// The state of a sequence that ends before it starts, with this result.
pub open spec fn ended(occasion: OccasionView, app_id: Principal, code: u16, message: Seq<char>)
    -> IssuanceView {
    IssuanceView {
        occasion,
        app_id,
        members: Seq::empty(),
        next: 0,
        phase: Phase::Finished,
        minted: Seq::empty(),
        code,
        message,
    }
}

/// The state after a list of replies, taken one after the other.
pub open spec fn run(s: IssuanceView, replies: Seq<ReplyView>) -> IssuanceView
    decreases replies.len(),
{
    if replies.len() == 0 {
        s
    } else {
        received(run(s, replies.drop_last()), replies.last())
    }
}

/// The replies of a sequence in which every step succeeds for the first `k`
/// members: for each a collection, a set authority and a minted token.
pub open spec fn successes(collections: Seq<Principal>, ids: Seq<u128>, k: nat) -> Seq<ReplyView>
    decreases k,
{
    if k == 0 {
        Seq::empty()
    } else {
        successes(collections, ids, (k - 1) as nat) + seq![
            ReplyView::Provisioned(Ok(collections[k - 1])),
            ReplyView::AuthoritySet(true),
            ReplyView::Minted(Ok(ids[k - 1])),
        ]
    }
}

proof fn lemma_run_push(s: IssuanceView, replies: Seq<ReplyView>, reply: ReplyView)
    ensures
        run(s, replies.push(reply)) == received(run(s, replies), reply),
{
    assert(replies.push(reply).drop_last() =~= replies);
}

/// Where every step succeeds, the first `k` members each get one collection
/// and one token, in their order: after their replies the member `k` is in
/// turn, `k` tokens are noted, and once all members are through the sequence
/// has finished with the code 200 and all the ids that the mints returned.
pub proof fn lemma_all_succeed(
    occasion: OccasionView,
    app_id: Principal,
    members: Seq<MemberView>,
    collections: Seq<Principal>,
    ids: Seq<u128>,
    k: nat,
)
    requires
        k <= members.len(),
        collections.len() == members.len(),
        ids.len() == members.len(),
    ensures
        ({
            let s = run(begun(occasion, app_id, members), successes(collections, ids, k));
            &&& s.next == k
            &&& s.minted == ids.subrange(0, k as int)
            &&& s.members == members
            &&& s.occasion == occasion
            &&& s.app_id == app_id
            &&& k < members.len() ==> s.phase is Provisioning
            &&& k == members.len() ==> s.phase is Finished && s.code == CODE_OK && action_of(s, 0)
                == (ActionView::Finish {
                code: CODE_OK,
                message: all_minted_message(),
                body: ids,
            })
        }),
    decreases k,
{
    let start = begun(occasion, app_id, members);
    if k == 0 {
        assert(ids.subrange(0, 0) =~= Seq::<u128>::empty());
        assert(ids.len() == 0 ==> ids =~= Seq::<u128>::empty());
    } else {
        lemma_all_succeed(occasion, app_id, members, collections, ids, (k - 1) as nat);
        let before = successes(collections, ids, (k - 1) as nat);
        let r1 = ReplyView::Provisioned(Ok(collections[k - 1]));
        let r2 = ReplyView::AuthoritySet(true);
        let r3 = ReplyView::Minted(Ok(ids[k - 1]));
        assert(successes(collections, ids, k) =~= before.push(r1).push(r2).push(r3));
        lemma_run_push(start, before, r1);
        lemma_run_push(start, before.push(r1), r2);
        lemma_run_push(start, before.push(r1).push(r2), r3);
        let s = run(start, successes(collections, ids, k));
        assert(s.minted =~= ids.subrange(0, k as int));
        if k == members.len() {
            assert(ids.subrange(0, k as int) =~= ids);
        }
    }
}

/// Where every step succeeds, the member in turn gets exactly one
/// collection: the sequence asks for a collection for that member, then for
/// the authority over the collection that came back, then for one token in
/// that collection, owned by the member; with the token minted the next
/// member is in turn.
pub proof fn lemma_one_collection_per_member(
    occasion: OccasionView,
    app_id: Principal,
    members: Seq<MemberView>,
    collections: Seq<Principal>,
    ids: Seq<u128>,
    k: nat,
    counter: u128,
)
    requires
        k < members.len(),
        collections.len() == members.len(),
        ids.len() == members.len(),
    ensures
        ({
            let s0 = run(begun(occasion, app_id, members), successes(collections, ids, k));
            let s1 = received(s0, ReplyView::Provisioned(Ok(collections[k as int])));
            let s2 = received(s1, ReplyView::AuthoritySet(true));
            let s3 = received(s2, ReplyView::Minted(Ok(ids[k as int])));
            &&& action_of(s0, counter) == (ActionView::Provision {
                owner: collection_owner(s0, members[k as int]),
                name: collection_name(occasion, members[k as int]),
                description: collection_description(occasion),
                logo: collection_logo(occasion),
            })
            &&& action_of(s1, counter) == (ActionView::SetAuthority {
                collection: collections[k as int],
                owner: collection_owner(s0, members[k as int]),
            })
            &&& action_of(s2, counter) == (ActionView::Mint {
                collection: collections[k as int],
                arg: member_mint(s0, members[k as int], counter),
                caller: collection_owner(s0, members[k as int]),
            })
            &&& member_mint(s0, members[k as int], counter).to.owner == member_identity(
                members[k as int],
            )
            &&& s3 == run(
                begun(occasion, app_id, members),
                successes(collections, ids, (k + 1) as nat),
            )
        }),
{
    let start = begun(occasion, app_id, members);
    lemma_all_succeed(occasion, app_id, members, collections, ids, k);
    let before = successes(collections, ids, k);
    let r1 = ReplyView::Provisioned(Ok(collections[k as int]));
    let r2 = ReplyView::AuthoritySet(true);
    let r3 = ReplyView::Minted(Ok(ids[k as int]));
    assert(successes(collections, ids, (k + 1) as nat) =~= before.push(r1).push(r2).push(r3));
    lemma_run_push(start, before, r1);
    lemma_run_push(start, before.push(r1), r2);
    lemma_run_push(start, before.push(r1).push(r2), r3);
}

/// A failed step ends the sequence at once, whichever step it is: the
/// result has the code 499 and names the member in turn, and no reply that
/// follows changes anything. Nothing is asked for that would undo what was
/// done for earlier members.
pub proof fn lemma_failure_is_final(s: IssuanceView, reply: ReplyView, later: Seq<ReplyView>)
    requires
        !is_done(s),
        answers(s, reply),
        is_failure(reply),
    ensures
        ({
            let after = received(s, reply);
            &&& action_of(after, 0) == (ActionView::Finish {
                code: CODE_MINTING_FAILED,
                message: failure_message(
                    s.occasion,
                    s.members[s.next as int],
                    failure_reason(reply),
                ),
                body: Seq::empty(),
            })
            &&& run(after, later) == after
        }),
    decreases later.len(),
{
    if later.len() > 0 {
        lemma_failure_is_final(s, reply, later.drop_last());
    }
}

/// The counter after a list of replies, taken one after the other.
pub open spec fn run_counter(s: IssuanceView, replies: Seq<ReplyView>, counter: u128) -> u128
    decreases replies.len(),
{
    if replies.len() == 0 {
        counter
    } else {
        counter_after(
            run(s, replies.drop_last()),
            replies.last(),
            run_counter(s, replies.drop_last(), counter),
        )
    }
}

proof fn lemma_run_counter_push(
    s: IssuanceView,
    replies: Seq<ReplyView>,
    reply: ReplyView,
    counter: u128,
)
    ensures
        run_counter(s, replies.push(reply), counter) == counter_after(
            run(s, replies),
            reply,
            run_counter(s, replies, counter),
        ),
{
    assert(replies.push(reply).drop_last() =~= replies);
}

/// Where every step succeeds, the tokens are numbered from the counter on:
/// after the first `k` members the counter stands `k` higher, so that the
/// mint of the member `k` is asked for the id `counter + k`, and with all
/// members through the counter stands higher by their number.
pub proof fn lemma_tokens_are_numbered(
    occasion: OccasionView,
    app_id: Principal,
    members: Seq<MemberView>,
    collections: Seq<Principal>,
    ids: Seq<u128>,
    k: nat,
    counter: u128,
)
    requires
        k <= members.len(),
        collections.len() == members.len(),
        ids.len() == members.len(),
        counter + k <= u128::MAX,
    ensures
        run_counter(begun(occasion, app_id, members), successes(collections, ids, k), counter)
            == counter + k,
    decreases k,
{
    if k > 0 {
        let start = begun(occasion, app_id, members);
        lemma_tokens_are_numbered(
            occasion,
            app_id,
            members,
            collections,
            ids,
            (k - 1) as nat,
            counter,
        );
        lemma_all_succeed(occasion, app_id, members, collections, ids, (k - 1) as nat);
        let before = successes(collections, ids, (k - 1) as nat);
        let r1 = ReplyView::Provisioned(Ok(collections[k - 1]));
        let r2 = ReplyView::AuthoritySet(true);
        let r3 = ReplyView::Minted(Ok(ids[k - 1]));
        assert(successes(collections, ids, k) =~= before.push(r1).push(r2).push(r3));
        lemma_run_push(start, before, r1);
        lemma_run_push(start, before.push(r1), r2);
        lemma_run_counter_push(start, before, r1, counter);
        lemma_run_counter_push(start, before.push(r1), r2, counter);
        lemma_run_counter_push(start, before.push(r1).push(r2), r3, counter);
    }
}

/// The settings of a commemorative collection: the symbol `ICP`, the name,
/// description and logo given, and nothing else set.
pub open spec fn commemorative_settings(
    name: Seq<char>,
    description: Option<Seq<char>>,
    logo: Option<Seq<char>>,
) -> crate::types::ArgView {
    crate::types::ArgView {
        icrc7_symbol: "ICP"@,
        icrc7_name: name,
        icrc7_description: description,
        icrc7_logo: logo,
        icrc7_supply_cap: None,
        icrc7_max_query_batch_size: None,
        icrc7_max_update_batch_size: None,
        icrc7_max_take_value: None,
        icrc7_default_take_value: None,
        icrc7_max_memo_size: None,
        icrc7_atomic_batch_transfers: None,
        tx_window: None,
        permitted_drift: None,
    }
}

/// The settings with which the registry is asked for a commemorative
/// collection, and the account that is to own it.
pub fn create_icrc7_collection(
    owner: Principal,
    icrc7_name: String,
    icrc7_description: Option<String>,
    icrc7_logo: Option<String>,
) -> (r: (crate::types::Arg, Account))
    ensures
        r.0@ == commemorative_settings(
            icrc7_name@,
            opt_text(icrc7_description),
            opt_text(icrc7_logo),
        ),
        r.1 == (Account { owner, subaccount: None }),
{
    (
        crate::types::Arg {
            icrc7_symbol: "ICP".to_string(),
            icrc7_name: icrc7_name,
            icrc7_description: icrc7_description,
            icrc7_logo: icrc7_logo,
            icrc7_supply_cap: None,
            icrc7_max_query_batch_size: None,
            icrc7_max_update_batch_size: None,
            icrc7_max_take_value: None,
            icrc7_default_take_value: None,
            icrc7_max_memo_size: None,
            icrc7_atomic_batch_transfers: None,
            tx_window: None,
            permitted_drift: None,
        },
        Account { owner, subaccount: None },
    )
}

/// Copies an optional text.
fn copy_text(o: &Option<String>) -> (r: Option<String>)
    ensures
        opt_text(r) == opt_text(*o),
{
    match o {
        Some(s) => Some(s.clone()),
        None => None,
    }
}

impl Issuance {
    /// A sequence over these members, at its start.
    pub fn begin(occasion: Occasion, app_id: Principal, members: Vec<Member>) -> (r: Issuance)
        ensures
            r@ == begun(occasion@, app_id, members_view(members@)),
    {
        let phase = if members.len() == 0 {
            Phase::Finished
        } else {
            Phase::Provisioning
        };
        Issuance {
            occasion,
            app_id,
            members,
            next: 0,
            phase,
            minted: Vec::new(),
            code: 200,
            message: "All NFTs has been minted".to_string(),
        }
    }

    /// A sequence that ends before it starts, with this result.
    pub fn finished(occasion: Occasion, app_id: Principal, code: u16, message: String) -> (r:
        Issuance)
        ensures
            r@ == ended(occasion@, app_id, code, message@),
    {
        let r = Issuance {
            occasion,
            app_id,
            members: Vec::new(),
            next: 0,
            phase: Phase::Finished,
            minted: Vec::new(),
            code,
            message,
        };
        assert(r@.members =~= Seq::empty());
        r
    }

    /// The name of the collection of a member.
    fn name_for(&self, member: &Member) -> (name: String)
        ensures
            name@ == collection_name(self@.occasion, member@),
    {
        match &self.occasion {
            Occasion::Group { group_name } => "Commemorative NFT for ".to_string().concat(
                member.name.as_str(),
            ).concat(" to join ").concat(group_name.as_str()).concat(" group!"),
            Occasion::Event { title, .. } => "Commemorative NFT for ".to_string().concat(
                member.name.as_str(),
            ).concat(" to partecipate at the event ").concat(title.as_str()).concat("!"),
        }
    }

    /// The owner of the collection of a member.
    fn owner_for(&self, member: &Member) -> (owner: Principal)
        ensures
            owner == collection_owner(self@, member@),
    {
        match &self.occasion {
            Occasion::Group { .. } => self.app_id,
            Occasion::Event { .. } => slice_to_principal(member.internet_identity.as_str()),
        }
    }

    /// The logo of the collection and the token of a member.
    fn logo(&self) -> (logo: Option<String>)
        ensures
            opt_text(logo) == collection_logo(self@.occasion),
    {
        match &self.occasion {
            Occasion::Group { .. } => None,
            Occasion::Event { event_id, .. } => Some(event_id.clone()),
        }
    }

    /// What is to be done next, given the store whose counter numbers the
    /// tokens.
    pub fn action(&self, storage: &Storage) -> (r: Action)
        ensures
            r@ == action_of(self@, storage@.token_counter),
    {
        if let Phase::Finished = self.phase {
            return Action::Finish(
                RequestResult::new(self.code, self.message.clone(), copy_ids(&self.minted)),
            );
        }
        if self.next >= self.members.len() {
            return Action::Finish(
                RequestResult::new(
                    200,
                    "All NFTs has been minted".to_string(),
                    copy_ids(&self.minted),
                ),
            );
        }
        let member = &self.members[self.next];
        assert(member@ == self@.members[self@.next as int]);
        match self.phase {
            Phase::Provisioning => {
                let description = match &self.occasion {
                    Occasion::Group { .. } => None,
                    Occasion::Event { description, .. } => copy_text(description),
                };
                Action::Provision {
                    owner: self.owner_for(member),
                    name: self.name_for(member),
                    description,
                    logo: self.logo(),
                }
            },
            Phase::Authorizing { collection } => Action::SetAuthority {
                collection,
                owner: self.owner_for(member),
            },
            Phase::Minting { collection } => {
                let token_description = match &self.occasion {
                    Occasion::Group { .. } => Some(self.name_for(member)),
                    Occasion::Event { description, .. } => copy_text(description),
                };
                let owner = slice_to_principal(member.internet_identity.as_str());
                Action::Mint {
                    collection,
                    arg: MintArg {
                        from_subaccount: None,
                        to: Account { owner, subaccount: None },
                        token_id: get_current_token_id(storage),
                        memo: None,
                        token_name: None,
                        token_description,
                        token_logo: self.logo(),
                    },
                    caller: self.owner_for(member),
                }
            },
            Phase::Finished => Action::Finish(
                RequestResult::new(self.code, self.message.clone(), copy_ids(&self.minted)),
            ),
        }
    }

    /// Takes in the reply to the action that was asked for.
    pub fn receive(&mut self, storage: &mut Storage, reply: Reply)
        requires
            moves_counter(old(self)@, reply@) ==> old(storage).token_counter < u128::MAX,
        ensures
            final(self)@ == received(old(self)@, reply@),
            final(storage)@ == (StorageView {
                token_counter: counter_after(old(self)@, reply@, old(storage)@.token_counter),
                ..old(storage)@
            }),
    {
        if let Phase::Finished = self.phase {
            return ;
        }
        if self.next >= self.members.len() {
            return ;
        }
        let ghost member = self@.members[self@.next as int];
        assert(member == self.members@[self.next as int]@);
        match (self.phase, reply) {
            (Phase::Provisioning, Reply::Provisioned(Ok(collection))) => {
                self.phase = Phase::Authorizing { collection };
            },
            (Phase::Provisioning, Reply::Provisioned(Err(text))) => {
                self.fail(text);
            },
            (Phase::Authorizing { collection }, Reply::AuthoritySet(true)) => {
                self.phase = Phase::Minting { collection };
            },
            (Phase::Authorizing { collection }, Reply::AuthoritySet(false)) => {
                self.fail("Minting authority was not set".to_string());
            },
            (Phase::Minting { collection }, Reply::Minted(Ok(id))) => {
                self.minted.push(id);
                increase_token_id(storage);
                self.next = self.next + 1;
                if self.next >= self.members.len() {
                    self.phase = Phase::Finished;
                    self.code = 200;
                    self.message = "All NFTs has been minted".to_string();
                } else {
                    self.phase = Phase::Provisioning;
                }
            },
            (Phase::Minting { collection }, Reply::Minted(Err(e))) => {
                self.fail(e.describe());
            },
            _ => {},
        }
    }

    /// Ends the sequence for a reason: with the code 499, a message that
    /// names the member in turn, and nothing in the body.
    fn fail(&mut self, reason: String)
        requires
            old(self).next < old(self).members@.len(),
        ensures
            final(self)@ == (IssuanceView {
                phase: Phase::Finished,
                minted: Seq::empty(),
                code: CODE_MINTING_FAILED,
                message: failure_message(
                    old(self)@.occasion,
                    old(self)@.members[old(self)@.next as int],
                    reason@,
                ),
                ..old(self)@
            }),
    {
        let name = &self.members[self.next].name;
        assert(self@.members[self@.next as int].name == name@);
        let message = match &self.occasion {
            Occasion::Group { .. } => "Error minting token for ".to_string().concat(name.as_str()),
            Occasion::Event { .. } => "Error minting NFT for user ".to_string().concat(
                name.as_str(),
            ).concat(" : ").concat(reason.as_str()),
        };
        self.phase = Phase::Finished;
        self.minted = Vec::new();
        self.code = 499;
        self.message = message;
    }
}

/// Copies a list of ids.
pub fn copy_ids(ids: &Vec<u128>) -> (r: Vec<u128>)
    ensures
        r@ == ids@,
{
    let r = ids.clone();
    assert(r@ =~= ids@);
    r
}

} // verus!
