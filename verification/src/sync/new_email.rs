//! Which of the server's emails are new to the maildir, and which of those have
//! to be downloaded.

use std::path::PathBuf;
use vstd::prelude::*;

use crate::jmap::IdMap;
use crate::keyed::{Dict, Key};
use crate::local;
use crate::remote;
use crate::seqs;

verus! {

/// A new email to be eventually added to the maildir.
#[derive(Debug)]
pub struct NewEmail<'a> {
    pub remote_email: &'a remote::Email,
    pub cache_path: PathBuf,
    pub maildir_path: PathBuf,
}

/// Where the files of a new email are to be.
#[derive(Debug)]
pub struct Location {
    pub cache_path: PathBuf,
    pub maildir_path: PathBuf,
    /// Whether the file at `cache_path` exists.
    pub cached: bool,
}

/// The files of a new email.
#[derive(Debug)]
pub struct NewFile {
    /// The email's place among the server's emails.
    pub remote: usize,
    pub cache_path: PathBuf,
    pub maildir_path: PathBuf,
    /// Whether the cache had the email before anything was downloaded.
    pub cached: bool,
}

/// A file of a message in the database.
#[derive(Debug)]
pub struct MessageFile {
    pub path: PathBuf,
    /// The last component of `path`, if it has one.
    pub name: Option<String>,
}

/// The first `count` indices.
pub open spec fn indices(count: nat) -> Seq<usize> {
    Seq::new(count, |i: int| i as usize)
}

/// Places that were picked are places.
pub proof fn lemma_places(count: nat, keep: spec_fn(usize) -> bool)
    requires
        count <= usize::MAX,
    ensures
        forall|j: int|
            0 <= j < indices(count).filter(keep).len() ==> (
            #[trigger] indices(count).filter(keep)[j]) < count && keep(
                indices(count).filter(keep)[j],
            ),
{
    let all = indices(count);
    seqs::lemma_filter_members(all, keep);
    assert forall|j: int| 0 <= j < all.filter(keep).len() implies (#[trigger] all.filter(keep)[j])
        < count && keep(all.filter(keep)[j]) by {
        assert(all.filter(keep).contains(all.filter(keep)[j]));
        assert(all.contains(all.filter(keep)[j]));
    }
}

/// An email of the server is new if the local database has no email of that
/// identifier, or has one with other contents.
pub open spec fn is_new(email: remote::Email, local: Dict<local::Email>) -> bool {
    local.get(email.id@) matches Some(known) ==> known.blob_id@ != email.blob_id@
}

/// The places of the new ones among the server's emails.
pub open spec fn new_among(remote: Seq<remote::Email>, local: Dict<local::Email>) -> Seq<usize> {
    indices(remote.len()).filter(|i: usize| is_new(remote[i as int], local))
}

/// Whether `email` is new.
pub fn needs_adding(email: &remote::Email, local: &IdMap<local::Email>) -> (needed: bool)
    ensures
        needed == is_new(*email, local@),
{
    match local.get(email.id.text()) {
        Some(known) => known.blob_id != email.blob_id,
        None => true,
    }
}

/// The places of the new ones among the server's emails.
pub fn find_new(remote: &Vec<remote::Email>, local: &IdMap<local::Email>) -> (found: Vec<usize>)
    ensures
        found@ == new_among(remote@, local@),
{
    let mut found: Vec<usize> = Vec::new();
    let ghost all = indices(remote@.len());
    let ghost keep = |i: usize| is_new(remote@[i as int], local@);
    proof {
        seqs::lemma_filter_none(all, keep);
    }
    for i in 0..remote.len()
        invariant
            all == indices(remote@.len()),
            keep == (|i: usize| is_new(remote@[i as int], local@)),
            found@ == all.take(i as int).filter(keep),
    {
        proof {
            seqs::lemma_filter_next(all, keep, i as int);
        }
        if needs_adding(&remote[i], local) {
            found.push(i);
        }
    }
    assert(all.take(all.len() as int) =~= all);
    found
}

/// The places of those of the server's emails that were not changed locally.
pub open spec fn unchanged_offline(
    remote: Seq<remote::Email>,
    updated_local: Dict<local::Email>,
) -> Seq<usize> {
    indices(remote.len()).filter(|i: usize| !updated_local.contains(remote[i as int].id@))
}

/// The places of those of the server's emails that were not changed locally.
pub fn find_unchanged_offline(
    remote: &Vec<remote::Email>,
    updated_local: &IdMap<local::Email>,
) -> (found: Vec<usize>)
    ensures
        found@ == unchanged_offline(remote@, updated_local@),
{
    let mut found: Vec<usize> = Vec::new();
    let ghost all = indices(remote@.len());
    let ghost keep = |i: usize| !updated_local@.contains(remote@[i as int].id@);
    proof {
        seqs::lemma_filter_none(all, keep);
    }
    for i in 0..remote.len()
        invariant
            all == indices(remote@.len()),
            keep == (|i: usize| !updated_local@.contains(remote@[i as int].id@)),
            found@ == all.take(i as int).filter(keep),
    {
        proof {
            seqs::lemma_filter_next(all, keep, i as int);
        }
        if !updated_local.contains_key(remote[i].id.text()) {
            found.push(i);
        }
    }
    assert(all.take(all.len() as int) =~= all);
    found
}

/// The places of those new emails that the cache lacks.
pub open spec fn to_download(new: Dict<NewFile>) -> Seq<usize> {
    indices(new.len()).filter(|i: usize| !new.at(i as int).cached)
}

/// The places of the new emails to download: every one that the cache lacks, be
/// it a new version of an email that the local database has or not, so that the
/// merge finds the file of every new email in the cache.
pub fn missing_from_cache(new: &IdMap<NewFile>) -> (missing: Vec<usize>)
    ensures
        missing@ == to_download(new@),
{
    let mut missing: Vec<usize> = Vec::new();
    let ghost all = indices(new@.len());
    let ghost keep = |i: usize| !new@.at(i as int).cached;
    proof {
        seqs::lemma_filter_none(all, keep);
    }
    let count: usize = new.len();
    for i in 0..count
        invariant
            count == new@.len(),
            all == indices(new@.len()),
            keep == (|i: usize| !new@.at(i as int).cached),
            missing@ == all.take(i as int).filter(keep),
    {
        proof {
            seqs::lemma_filter_next(all, keep, i as int);
        }
        if !new.value(i).cached {
            missing.push(i);
        }
    }
    assert(all.take(all.len() as int) =~= all);
    missing
}

/// The name of `file` starts with `name`.
pub open spec fn is_named(file: MessageFile, name: Seq<char>) -> bool {
    file.name matches Some(text) && name.is_prefix_of(text@)
}

/// The first of `files` whose name starts with `name`.
pub open spec fn first_named(files: Seq<MessageFile>, name: Seq<char>) -> Option<PathBuf>
    decreases files.len(),
{
    if files.len() == 0 {
        None
    } else if is_named(files.first(), name) {
        Some(files.first().path)
    } else {
        first_named(files.drop_first(), name)
    }
}

/// The first file with the name is the one that has none before it.
pub proof fn lemma_first_named(files: Seq<MessageFile>, name: Seq<char>, i: int)
    requires
        0 <= i <= files.len(),
        forall|j: int| 0 <= j < i ==> !is_named(#[trigger] files[j], name),
        i < files.len() ==> is_named(files[i], name),
    ensures
        first_named(files, name) == if i < files.len() {
            Some(files[i].path)
        } else {
            None::<PathBuf>
        },
    decreases i,
{
    if i > 0 {
        assert(!is_named(files[0], name));
        let rest = files.drop_first();
        assert forall|j: int| 0 <= j < i - 1 implies !is_named(#[trigger] rest[j], name) by {
            assert(!is_named(files[j + 1], name));
        }
        lemma_first_named(rest, name, i - 1);
    }
}

/// The place of the first of a message's files that bears our name. notmuch may
/// have renamed our file when it set maildir flags, but only by attaching the
/// flags to the name, so the first file whose name starts with ours is ours.
pub fn find_our_file(files: &Vec<MessageFile>, name: &str) -> (found: Option<usize>)
    ensures
        found matches Some(i) ==> {
            &&& i < files@.len()
            &&& is_named(files@[i as int], name@)
            &&& forall|j: int| 0 <= j < i ==> !is_named(#[trigger] files@[j], name@)
        },
        found is None ==> forall|j: int|
            0 <= j < files@.len() ==> !is_named(#[trigger] files@[j], name@),
{
    for i in 0..files.len()
        invariant
            forall|j: int| 0 <= j < i ==> !is_named(#[trigger] files@[j], name@),
    {
        if let Some(text) = &files[i].name {
            if crate::text::starts_with(text.as_str(), name) {
                return Some(i);
            }
        }
    }
    None
}

/// Places that were picked come in ascending order.
pub proof fn lemma_places_ascend(count: nat, keep: spec_fn(usize) -> bool)
    requires
        count <= usize::MAX,
    ensures
        forall|i: int, j: int|
            0 <= i < j < indices(count).filter(keep).len() ==> (#[trigger] indices(count).filter(
                keep,
            )[i]) < (#[trigger] indices(count).filter(keep)[j]),
    decreases count,
{
    reveal(Seq::filter);
    if count > 0 {
        let rest = indices((count - 1) as nat);
        assert(indices(count).drop_last() =~= rest);
        lemma_places_ascend((count - 1) as nat, keep);
        lemma_places((count - 1) as nat, keep);
        let kept = rest.filter(keep);
        let last = (count - 1) as usize;
        assert(indices(count).last() == last);
        assert(indices(count).filter(keep) == if keep(last) {
            kept.push(last)
        } else {
            kept
        });
        assert forall|i: int, j: int| 0 <= i < j < indices(count).filter(keep).len() implies (
        #[trigger] indices(count).filter(keep)[i]) < (#[trigger] indices(count).filter(keep)[j]) by {
            assert(kept[i] < count - 1);
            if j < kept.len() {
                assert(kept[i] < kept[j]);
            }
        }
    }
}

/// An email of the server whose identifier the local database has, with an equal
/// blob identifier, is not new, whatever else the local email holds; one with
/// another blob identifier is new, and so is one that the database does not have.
pub proof fn law_new_is_unknown_or_changed(email: remote::Email, local: Dict<local::Email>)
    ensures
        is_new(email, local) <==> !local.map.contains_key(email.id@)
            || local.map[email.id@].blob_id@ != email.blob_id@,
{
}

/// The new ones among the server's emails are picked in their order: each one
/// that the local database does not have or has with another blob identifier, and
/// no other.
pub proof fn law_new_emails_are_picked(
    remote: Seq<remote::Email>,
    local: Dict<local::Email>,
    p: usize,
)
    requires
        remote.len() <= usize::MAX,
    ensures
        new_among(remote, local).contains(p) <==> p < remote.len() && (!local.map.contains_key(
            remote[p as int].id@,
        ) || local.map[remote[p as int].id@].blob_id@ != remote[p as int].blob_id@),
        forall|i: int, j: int|
            0 <= i < j < new_among(remote, local).len() ==> (#[trigger] new_among(remote, local)[i])
                < (#[trigger] new_among(remote, local)[j]),
{
    let keep = |i: usize| is_new(remote[i as int], local);
    lemma_picked(remote.len(), keep, p);
    lemma_places_ascend(remote.len(), keep);
}

/// Of the server's emails those are picked, in their order, that the local
/// changes do not list by their identifier.
pub proof fn law_unchanged_emails_are_picked(
    remote: Seq<remote::Email>,
    updated_local: Dict<local::Email>,
    p: usize,
)
    requires
        remote.len() <= usize::MAX,
    ensures
        unchanged_offline(remote, updated_local).contains(p) <==> p < remote.len()
            && !updated_local.map.contains_key(remote[p as int].id@),
        forall|i: int, j: int|
            0 <= i < j < unchanged_offline(remote, updated_local).len() ==> (
            #[trigger] unchanged_offline(remote, updated_local)[i]) < (#[trigger] unchanged_offline(
                remote,
                updated_local,
            )[j]),
{
    let keep = |i: usize| !updated_local.contains(remote[i as int].id@);
    lemma_picked(remote.len(), keep, p);
    lemma_places_ascend(remote.len(), keep);
}

/// Of the new emails those are downloaded, in their order, whose file was not in
/// the cache, whatever the local database has.
pub proof fn law_uncached_emails_are_picked(new: Dict<NewFile>, p: usize)
    requires
        new.keys.len() <= usize::MAX,
    ensures
        to_download(new).contains(p) <==> p < new.keys.len() && !new.map[new.keys[p as int]].cached,
        forall|i: int, j: int|
            0 <= i < j < to_download(new).len() ==> (#[trigger] to_download(new)[i]) < (
            #[trigger] to_download(new)[j]),
{
    let keep = |i: usize| !new.at(i as int).cached;
    lemma_picked(new.len(), keep, p);
    lemma_places_ascend(new.len(), keep);
}

/// What is picked is what is to be kept.
proof fn lemma_picked(count: nat, keep: spec_fn(usize) -> bool, p: usize)
    requires
        count <= usize::MAX,
    ensures
        indices(count).filter(keep).contains(p) <==> p < count && keep(p),
{
    let all = indices(count);
    seqs::lemma_filter_members(all, keep);
    if p < count {
        assert(all[p as int] == p);
    }
    assert(all.contains(p) <==> p < count);
    assert(all.filter(keep).contains(p) <==> all.contains(p) && keep(p));
}

/// Our file among those of a message is the first whose name begins with the
/// characters of ours; if there is none, there is no such file.
pub proof fn law_our_file_is_the_first_of_our_name(files: Seq<MessageFile>, name: Seq<char>)
    ensures
        match first_named(files, name) {
            Some(path) => exists|i: int|
                {
                    &&& 0 <= i < files.len()
                    &&& begins(#[trigger] files[i], name)
                    &&& files[i].path == path
                    &&& forall|j: int| 0 <= j < i ==> !begins(#[trigger] files[j], name)
                },
            None => forall|i: int| 0 <= i < files.len() ==> !begins(#[trigger] files[i], name),
        },
    decreases files.len(),
{
    if files.len() > 0 {
        assert forall|i: int| 0 <= i < files.len() implies begins(#[trigger] files[i], name)
            == is_named(files[i], name) by {
            if let Some(text) = files[i].name {
                if begins(files[i], name) {
                    assert(name =~= text@.subrange(0, name.len() as int));
                }
                if is_named(files[i], name) {
                    assert forall|k: int| 0 <= k < name.len() implies #[trigger] text@[k]
                        == name[k] by {
                        assert(text@.subrange(0, name.len() as int)[k] == text@[k]);
                    }
                }
            }
        }
        let rest = files.drop_first();
        law_our_file_is_the_first_of_our_name(rest, name);
        assert forall|i: int| 0 <= i < rest.len() implies begins(#[trigger] rest[i], name) == begins(
            files[i + 1],
            name,
        ) by {}
        if is_named(files.first(), name) {
            assert(begins(files[0], name));
        } else if let Some(path) = first_named(rest, name) {
            let i = choose|i: int|
                {
                    &&& 0 <= i < rest.len()
                    &&& begins(#[trigger] rest[i], name)
                    &&& rest[i].path == path
                    &&& forall|j: int| 0 <= j < i ==> !begins(#[trigger] rest[j], name)
                };
            assert(begins(files[i + 1], name));
            assert forall|j: int| 0 <= j < i + 1 implies !begins(#[trigger] files[j], name) by {
                if j > 0 {
                    assert(!begins(rest[j - 1], name));
                }
            }
        } else {
            assert forall|j: int| 0 <= j < files.len() implies !begins(#[trigger] files[j], name) by {
                if j > 0 {
                    assert(!begins(rest[j - 1], name));
                }
            }
        }
    }
}

/// The file has a name, and the name has the characters of `name` at its front.
pub open spec fn begins(file: MessageFile, name: Seq<char>) -> bool {
    file.name matches Some(text) && name.len() <= text@.len() && forall|k: int|
        0 <= k < name.len() ==> #[trigger] text@[k] == name[k]
}

} // verus!
