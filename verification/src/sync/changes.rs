//! Which emails changed on the server.

use vstd::prelude::*;

use crate::jmap::{IdMap, IdSet, State};
use crate::keyed;
use crate::keyed::{Dict, Key, KeySet};
use crate::local;
use crate::seqs;

verus! {

/// What the server says has changed since a state that it was given.
pub struct Changes {
    /// The state that the changes lead to.
    pub state: State,
    pub created: IdSet,
    pub updated: IdSet,
    pub destroyed: IdSet,
}

/// The emails that a run has to look at.
pub struct ChangedIds {
    /// The server's state that the lists describe.
    pub state: State,
    /// The emails that may have been created or changed on the server.
    pub updated: IdSet,
    /// The emails that are no longer on the server.
    pub destroyed: IdSet,
}

/// Whether every identifier of `ids` is that of a local email.
pub open spec fn all_known(ids: Seq<Seq<char>>, local: Dict<local::Email>) -> bool {
    forall|i: int| 0 <= i < ids.len() ==> local.contains(#[trigger] ids[i])
}

/// The local emails that `ids` does not list.
pub open spec fn not_among(local: Dict<local::Email>, ids: Seq<Seq<char>>) -> Seq<Seq<char>> {
    local.keys.filter(|key: Seq<char>| !ids.contains(key))
}

/// Whether the local database has every one of the emails `ids`.
pub fn knows_all(ids: &IdSet, local: &IdMap<local::Email>) -> (known: bool)
    ensures
        known == all_known(ids@, local@),
{
    let count: usize = ids.len();
    for i in 0..count
        invariant
            count == ids@.len(),
            forall|j: int| 0 <= j < i ==> local@.contains(#[trigger] ids@[j]),
    {
        if !local.contains_key(ids.item(i).text()) {
            return false;
        }
    }
    true
}

/// The emails to look at by the server's list of changes. There are none where
/// the list has an update of an email that the local database does not have:
/// then something went wrong, and the list is of no use.
pub fn resolve(changes: Changes, local: &IdMap<local::Email>) -> (ids: Option<ChangedIds>)
    ensures
        ids is Some <==> all_known(changes.updated@, local@),
        ids matches Some(ids) ==> {
            &&& ids.state == changes.state
            &&& ids.updated@ == keyed::with_keys(changes.updated@, changes.created@)
            &&& ids.updated@.to_set() == changes.updated@.to_set().union(
                changes.created@.to_set(),
            )
            &&& ids.destroyed@ == changes.destroyed@
        },
{
    if !knows_all(&changes.updated, local) {
        return None;
    }
    let Changes { state, created, mut updated, destroyed } = changes;
    proof {
        keyed::lemma_with_keys(updated@, created@);
    }
    updated.extend(&created);
    Some(ChangedIds { state, updated, destroyed })
}

/// The emails to look at in a full sync, i.e. a sync which considers all remote
/// IDs as updated, and determines destroyed IDs by finding the difference of all
/// remote IDs from all local IDs.
pub fn full_sync(state: State, remote_ids: IdSet, local: &IdMap<local::Email>) -> (ids: ChangedIds)
    ensures
        ids.state == state,
        ids.updated@ == remote_ids@,
        ids.destroyed@ == not_among(local@, remote_ids@),
        ids.destroyed@.to_set() == local@.map.dom().difference(remote_ids@.to_set()),
{
    let mut destroyed: IdSet = KeySet::new();
    let count: usize = local.len();
    let ghost keep = |key: Seq<char>| !remote_ids@.contains(key);
    proof {
        seqs::lemma_filter_none(local@.keys, keep);
        use_type_invariant(local);
        local.lemma_wf();
    }
    for i in 0..count
        invariant
            count == local@.len(),
            local@.wf(),
            keep == (|key: Seq<char>| !remote_ids@.contains(key)),
            destroyed@ == local@.keys.take(i as int).filter(keep),
    {
        proof {
            seqs::lemma_filter_next(local@.keys, keep, i as int);
            seqs::lemma_filter_members(local@.keys.take(i as int), keep);
        }
        let key = local.key(i);
        if !remote_ids.contains(key.text()) {
            proof {
                if destroyed@.contains(key@) {
                    let taken = local@.keys.take(i as int);
                    assert(taken.contains(key@));
                    let j = choose|j: int| 0 <= j < taken.len() && taken[j] == key@;
                    assert(local@.keys[j] == local@.keys[i as int]);
                }
            }
            destroyed.insert(key.duplicate());
        }
    }
    proof {
        assert(local@.keys.take(count as int) =~= local@.keys);
        lemma_not_among(local@, remote_ids@);
    }
    ChangedIds { state, updated: remote_ids, destroyed }
}

/// What a full sync takes for destroyed is what is local and not on the server.
pub proof fn lemma_not_among(local: Dict<local::Email>, ids: Seq<Seq<char>>)
    requires
        local.wf(),
    ensures
        not_among(local, ids).to_set() == local.map.dom().difference(ids.to_set()),
        not_among(local, ids).no_duplicates(),
        forall|key: Seq<char>| #[trigger]
            not_among(local, ids).contains(key) <==> local.contains(key) && !ids.contains(key),
{
    let keep = |key: Seq<char>| !ids.contains(key);
    local.lemma_listed();
    seqs::lemma_filter_members(local.keys, keep);
    seqs::lemma_filter_distinct(local.keys, keep);
    assert forall|key: Seq<char>| #[trigger]
        not_among(local, ids).contains(key) <==> local.contains(key) && !ids.contains(key) by {
        assert(local.keys.contains(key) <==> local.map.contains_key(key));
    }
    assert(not_among(local, ids).to_set() =~= local.map.dom().difference(ids.to_set()));
}

/// The server's list of changes is of use if and only if every email that it says
/// was updated is one of the local database.
pub proof fn law_updates_are_known(ids: Seq<Seq<char>>, local: Dict<local::Email>)
    ensures
        all_known(ids, local) <==> forall|key: Seq<char>| #[trigger]
            ids.contains(key) ==> local.map.contains_key(key),
{
    if forall|key: Seq<char>| #[trigger] ids.contains(key) ==> local.map.contains_key(key) {
        assert forall|i: int| 0 <= i < ids.len() implies local.contains(#[trigger] ids[i]) by {
            assert(ids.contains(ids[i]));
        }
    }
}

/// What a full sync takes for destroyed: each local email that the server does
/// not list, once, and no other.
pub proof fn law_unlisted_emails_are_destroyed(
    local: Dict<local::Email>,
    ids: Seq<Seq<char>>,
    key: Seq<char>,
)
    requires
        local.wf(),
    ensures
        not_among(local, ids).contains(key) <==> local.map.contains_key(key) && !ids.contains(key),
        not_among(local, ids).no_duplicates(),
{
    lemma_not_among(local, ids);
}

} // verus!
