//! What a run asks for, by what it has been told from its beginning on.

use std::path::PathBuf;
use vstd::prelude::*;

use crate::jmap::{IdMap, State};
use crate::keyed;
use crate::keyed::Dict;
use crate::local;
use crate::remote;
use crate::remote::Mailboxes;
use crate::sync::changes;
use crate::sync::course;
use crate::sync::course::Course;
use crate::sync::error::Error;
use crate::sync::latest_state::LatestState;
use crate::sync::merge_laws;
use crate::sync::new_email;
use crate::sync::new_email::Location;
use crate::sync::protocol::{Action, Event, FullSyncReason, Report, Settings};
use crate::sync::revision;
use crate::sync::revision::RevisionQuery;
use crate::sync::run::{Phase, Run};
use crate::sync::step_laws;

verus! {

/// By this answer of the server, `key` is an email that may have been created or
/// changed: the server said so, or lists all its emails and this is one of them.
pub open spec fn tells_of<S>(event: Event<S>, key: Seq<char>) -> bool {
    match event {
        Event::Changed { result: Ok(changes) } => changes.created@.contains(key)
            || changes.updated@.contains(key),
        Event::RemoteIds { result: Ok((state, ids)) } => ids@.contains(key),
        _ => false,
    }
}

/// By this answer of the server, `key` is an email that it no longer has: the
/// server said so, or lists all its emails and the local email is none of them.
pub open spec fn is_gone<S>(event: Event<S>, local: Dict<local::Email>, key: Seq<char>) -> bool {
    match event {
        Event::Changed { result: Ok(changes) } => changes.destroyed@.contains(key),
        Event::RemoteIds { result: Ok((state, ids)) } => local.map.contains_key(key)
            && !ids@.contains(key),
        _ => false,
    }
}

/// The server's state that this answer describes.
pub open spec fn state_of<S>(event: Event<S>) -> Option<State> {
    match event {
        Event::Changed { result: Ok(changes) } => Some(changes.state),
        Event::RemoteIds { result: Ok((state, ids)) } => Some(state),
        _ => None,
    }
}

/// With this event the run has found out which emails to look at.
pub open spec fn finds_out<S>(run: Run<S>, event: Event<S>) -> bool {
    ||| run.phase is ListChanges && (event matches Event::Changed { result: Ok(changes) } && forall|
        key: Seq<char>,
    | #[trigger]
        changes.updated@.contains(key) ==> run.local.map.contains_key(key))
    ||| run.phase is ListRemoteIds && (event matches Event::RemoteIds { result: Ok(_) })
}

/// What a run takes for changed on the server is what the server told it: all the
/// emails that it lists in a full sync, whether or not the local database has
/// them, and else those that it says were created or updated.
#[verifier::rlimit(40)]
pub proof fn law_changes_are_what_the_server_told<S>(
    course: Course<S>,
    settings: Settings,
    lock_path: PathBuf,
    state_path: PathBuf,
    m: int,
    n: int,
    key: Seq<char>,
)
    requires
        course.valid(settings, lock_path, state_path),
        0 <= m < n < course.runs.len(),
        finds_out(course.runs[m], course.events[m]),
    ensures
        course.runs[m + 1].phase is ReportMetadata,
        course.runs[n].updated.contains(key) <==> tells_of(course.events[m], key),
        course.runs[n].destroyed.contains(key) <==> is_gone(
            course.events[m],
            course.runs[m].local,
            key,
        ),
        course.runs[n].updated.no_duplicates(),
        course.runs[n].destroyed.no_duplicates(),
        course.runs[n].server_state == state_of(course.events[m]),
        course.runs[n].local == course.runs[m].local,
{
    let run = course.runs[m];
    let event = course.events[m];
    let next = course.runs[m + 1];
    assert(course::steps(run, event, next));
    course::law_run_hangs_together(course, settings, lock_path, state_path, m);
    course::law_run_hangs_together(course, settings, lock_path, state_path, n);
    match event {
        Event::Changed { result: Ok(changes) } => {
            changes::law_updates_are_known(changes.updated@, run.local);
            keyed::law_set_with_keys(changes.updated@, changes.created@, key);
        },
        Event::RemoteIds { result: Ok((state, ids)) } => {
            changes::law_unlisted_emails_are_destroyed(run.local, ids@, key);
        },
        _ => {},
    }
    course::lemma_kept(course, settings, lock_path, state_path, m + 1, n);
}

/// Where a run has found out which emails to look at.
proof fn lemma_found_out<S>(
    course: Course<S>,
    settings: Settings,
    lock_path: PathBuf,
    state_path: PathBuf,
    n: int,
) -> (m: int)
    requires
        course.valid(settings, lock_path, state_path),
        0 <= n < course.runs.len(),
        11 <= course.runs[n].stage() <= 33,
    ensures
        0 <= m < n,
        finds_out(course.runs[m], course.events[m]),
{
    let m = course::lemma_gate(
        course,
        settings,
        lock_path,
        state_path,
        |run: Run<S>, event: Event<S>|
            (run.phase is ListChanges || run.phase is ListRemoteIds) && !event.fails(),
        |run: Run<S>| 11 <= run.stage() <= 33,
        n,
    );
    assert(course::steps(course.runs[m], course.events[m], course.runs[m + 1]));
    if let Event::Changed { result: Ok(changes) } = course.events[m] {
        changes::law_updates_are_known(changes.updated@, course.runs[m].local);
    }
    m
}

/// The emails that a run asks the server for are exactly those that the server
/// told it of, each once, and it says how many they are.
pub proof fn law_emails_asked_for_are_those_told_of<S>(
    course: Course<S>,
    settings: Settings,
    lock_path: PathBuf,
    state_path: PathBuf,
    n: int,
    action: Action<S>,
    key: Seq<char>,
)
    requires
        course.valid(settings, lock_path, state_path),
        0 <= n < course.runs.len(),
        course.runs[n].requests(action),
        action is GetRemoteEmails || (action matches Action::Report {
            report: Report::Metadata { .. },
        }),
    ensures
        exists|m: int|
            0 <= m < n && finds_out(#[trigger] course.runs[m], course.events[m]) && (
            course.runs[n].updated.contains(key) <==> tells_of(course.events[m], key)),
        course.runs[n].updated.no_duplicates(),
        action matches Action::GetRemoteEmails { ids, .. } ==> ids@ == course.runs[n].updated,
        action matches Action::Report { report: Report::Metadata { possibly_changed } }
            ==> possibly_changed == course.runs[n].updated.len(),
{
    let m = lemma_found_out(course, settings, lock_path, state_path, n);
    law_changes_are_what_the_server_told(course, settings, lock_path, state_path, m, n, key);
}

/// The emails that a run pushes are exactly those that it was told have changed
/// locally, each as it was told, but for those that the server told it are gone;
/// whatever else the server says.
#[verifier::rlimit(40)]
pub proof fn law_pushed_emails_are_those_changed_locally<S>(
    course: Course<S>,
    settings: Settings,
    lock_path: PathBuf,
    state_path: PathBuf,
    m: int,
    asked: Action<S>,
    told: IdMap<local::Email>,
    n: int,
    action: Action<S>,
    key: Seq<char>,
)
    requires
        course.valid(settings, lock_path, state_path),
        0 <= m < n < course.runs.len(),
        course.runs[m].requests(asked),
        asked is ListLocalUpdates,
        course.events[m] == (Event::<S>::LocalEmails { result: Ok(told) }),
        course.runs[n].requests(action),
    ensures
        course.runs[n].updated_local.map.contains_key(key) <==> told@.map.contains_key(key)
            && !course.runs[n].destroyed.contains(key),
        course.runs[n].updated_local.map.contains_key(key) ==> course.runs[n].updated_local.map[key]
            == told@.map[key],
        exists|k: int|
            0 <= k < n && finds_out(#[trigger] course.runs[k], course.events[k]) && (
            course.runs[n].destroyed.contains(key) <==> is_gone(
                course.events[k],
                course.runs[k].local,
                key,
            )),
        action matches Action::PushChanges { emails, .. } ==> emails@
            == course.runs[n].updated_local,
        action matches Action::Report { report: Report::Push { changed } } ==> changed
            == course.runs[n].updated_local.keys.len(),
{
    assert(course.runs[m].phase is ListLocalUpdates);
    assert(course::steps(course.runs[m], course.events[m], course.runs[m + 1]));
    keyed::law_map_without(told@, course.runs[m].destroyed, key);
    course::lemma_kept(course, settings, lock_path, state_path, m, n);
    course::lemma_kept(course, settings, lock_path, state_path, m + 1, n);
    let k = lemma_found_out(course, settings, lock_path, state_path, m);
    law_changes_are_what_the_server_told(course, settings, lock_path, state_path, k, n, key);
}

/// The local emails that a run goes by are those that it was told of.
pub proof fn law_local_emails_are_those_told<S>(
    course: Course<S>,
    settings: Settings,
    lock_path: PathBuf,
    state_path: PathBuf,
    m: int,
    asked: Action<S>,
    told: IdMap<local::Email>,
    n: int,
)
    requires
        course.valid(settings, lock_path, state_path),
        0 <= m < n < course.runs.len(),
        course.runs[m].requests(asked),
        asked is ListLocalEmails,
        course.events[m] == (Event::<S>::LocalEmails { result: Ok(told) }),
    ensures
        course.runs[n].local == told@,
{
    assert(course::steps(course.runs[m], course.events[m], course.runs[m + 1]));
    course::lemma_kept(course, settings, lock_path, state_path, m + 1, n);
}

/// What a run takes for the state of the last one is what it read, or nothing if
/// that could not be read.
pub proof fn law_last_state_is_what_was_read<S>(
    course: Course<S>,
    settings: Settings,
    lock_path: PathBuf,
    state_path: PathBuf,
    m: int,
    result: Result<LatestState, Error<S>>,
    n: int,
)
    requires
        course.valid(settings, lock_path, state_path),
        0 <= m < n < course.runs.len(),
        course.events[m] == (Event::<S>::StateRead { result }),
    ensures
        result matches Ok(state) ==> course.runs[n].latest == state,
        result is Err ==> course.runs[n].latest.notmuch_revision is None
            && course.runs[n].latest.jmap_state is None,
{
    assert(course::steps(course.runs[m], course.events[m], course.runs[m + 1]));
    course::lemma_kept(course, settings, lock_path, state_path, m + 1, n);
}

/// The mailboxes that a run goes by are those that it was told of: at first those
/// that the server has, and once mailboxes are created those that it has then.
pub proof fn law_mailboxes_are_those_told<S>(
    course: Course<S>,
    settings: Settings,
    lock_path: PathBuf,
    state_path: PathBuf,
    m: int,
    asked: Action<S>,
    told: Mailboxes,
    n: int,
)
    requires
        course.valid(settings, lock_path, state_path),
        0 <= m < n < course.runs.len(),
        course.runs[m].requests(asked),
        course.events[m] == (Event::<S>::GotMailboxes { result: Ok(told) }),
    ensures
        asked is CreateMailboxes || (asked is GetMailboxes && forall|k: int|
            m < k < n ==> !((#[trigger] course.runs[k]).phase is CreateMailboxes))
            ==> course.runs[n].mailboxes == told,
{
    assert(course::steps(course.runs[m], course.events[m], course.runs[m + 1]));
    if asked is CreateMailboxes {
        course::lemma_kept(course, settings, lock_path, state_path, m + 1, n);
    } else if forall|k: int| m < k < n ==> !((#[trigger] course.runs[k]).phase is CreateMailboxes) {
        lemma_mailboxes(course, settings, lock_path, state_path, m, n);
    }
}

/// The mailboxes stay as they are until some are created.
proof fn lemma_mailboxes<S>(
    course: Course<S>,
    settings: Settings,
    lock_path: PathBuf,
    state_path: PathBuf,
    m: int,
    n: int,
)
    requires
        course.valid(settings, lock_path, state_path),
        0 <= m < n < course.runs.len(),
        course.runs[m].phase is GetMailboxes,
        forall|k: int| m < k < n ==> !((#[trigger] course.runs[k]).phase is CreateMailboxes),
    ensures
        course.runs[n].mailboxes == course.runs[m + 1].mailboxes,
    decreases n,
{
    if m + 1 < n {
        let k = n - 1;
        lemma_mailboxes(course, settings, lock_path, state_path, m, k);
        assert(course::steps(course.runs[k], course.events[k], course.runs[k + 1]));
        assert(course::steps(course.runs[m], course.events[m], course.runs[m + 1]));
        course::lemma_onward(course, settings, lock_path, state_path, m + 1, k);
        assert(!(course.runs[k].phase is CreateMailboxes));
    }
}

/// All the server's emails are looked at only for a reason, and the run says for
/// which: no state is known; or the server was asked for its changes and could
/// not say, or told of an update of an email that the local database lacks.
pub proof fn law_full_sync_has_a_reason<S>(
    course: Course<S>,
    settings: Settings,
    lock_path: PathBuf,
    state_path: PathBuf,
    n: int,
    action: Action<S>,
)
    requires
        course.valid(settings, lock_path, state_path),
        0 <= n < course.runs.len(),
        course.runs[n].requests(action),
    ensures
        action matches Action::ListRemoteIds { reason } ==> n > 0 && match *reason {
            FullSyncReason::NoState => course.runs[n].latest.jmap_state is None,
            FullSyncReason::UnknownUpdate => course.runs[n - 1].phase is ListChanges && (
            course.events[n - 1] matches Event::Changed { result: Ok(changes) } && exists|
                key: Seq<char>,
            | #[trigger]
                changes.updated@.contains(key) && !course.runs[n].local.map.contains_key(key)),
            FullSyncReason::ChangesFailed { source } => course.runs[n - 1].phase is ListChanges
                && course.events[n - 1] == (Event::<S>::Changed { result: Err(source) }),
        },
        action matches Action::ListChanges { since } ==> course.runs[n].latest.jmap_state == Some(
            *since,
        ),
{
    if action is ListRemoteIds {
        let k = n - 1;
        assert(course::steps(course.runs[k], course.events[k], course.runs[k + 1]));
        if let Event::Changed { result: Ok(changes) } = course.events[k] {
            changes::law_updates_are_known(changes.updated@, course.runs[k].local);
        }
    }
}

/// The properties that a run goes by are those that the server told: one for each
/// email of the answer, in its order.
pub proof fn law_remote_emails_are_those_told<S>(
    course: Course<S>,
    settings: Settings,
    lock_path: PathBuf,
    state_path: PathBuf,
    m: int,
    told: IdMap<remote::Email>,
    n: int,
    i: int,
)
    requires
        course.valid(settings, lock_path, state_path),
        0 <= m < n < course.runs.len(),
        course.events[m] == (Event::<S>::RemoteEmails { result: Ok(told) }),
        0 <= i < told@.keys.len(),
    ensures
        course.runs[n].remote.len() == told@.keys.len(),
        course.runs[n].remote[i] == told@.map[told@.keys[i]],
{
    assert(course::steps(course.runs[m], course.events[m], course.runs[m + 1]));
    keyed::law_map_values(told@, i);
    lemma_remote(course, settings, lock_path, state_path, m, n);
}

/// The server's emails stay as they were told.
proof fn lemma_remote<S>(
    course: Course<S>,
    settings: Settings,
    lock_path: PathBuf,
    state_path: PathBuf,
    m: int,
    n: int,
)
    requires
        course.valid(settings, lock_path, state_path),
        0 <= m < n < course.runs.len(),
        course.runs[m].phase is GetRemoteEmails,
        course.events[m] matches Event::RemoteEmails { result: Ok(_) },
    ensures
        course.runs[n].remote == course.runs[m + 1].remote,
{
    assert(course::steps(course.runs[m], course.events[m], course.runs[m + 1]));
    course::lemma_kept(course, settings, lock_path, state_path, m + 1, n);
}

/// The new emails are exactly those of the server that the local database does not
/// have, or has with another blob identifier, whatever else it has of them.
pub proof fn law_new_emails_are_unknown_or_changed<S>(
    course: Course<S>,
    settings: Settings,
    lock_path: PathBuf,
    state_path: PathBuf,
    n: int,
    key: Seq<char>,
)
    requires
        course.valid(settings, lock_path, state_path),
        0 <= n < course.runs.len(),
        14 <= course.runs[n].stage() <= 33,
    ensures
        course.runs[n].new.map.contains_key(key) <==> exists|p: int|
            0 <= p < course.runs[n].remote.len() && (#[trigger] course.runs[n].remote[p]).id@ == key
                && (!course.runs[n].local.map.contains_key(key)
                || course.runs[n].local.map[key].blob_id@ != course.runs[n].remote[p].blob_id@),
{
    let run = course.runs[n];
    merge_laws::law_new_emails_are_those_not_known(
        course,
        settings,
        lock_path,
        state_path,
        n,
        key,
    );
    assert forall|p: int| 0 <= p < run.remote.len() implies new_email::is_new(
        #[trigger] run.remote[p],
        run.local,
    ) == (!run.local.map.contains_key(run.remote[p].id@)
        || run.local.map[run.remote[p].id@].blob_id@ != run.remote[p].blob_id@) by {
        new_email::law_new_is_unknown_or_changed(run.remote[p], run.local);
    }
    if run.new.contains(key) {
        let p = choose|p: int|
            0 <= p < run.remote.len() && (#[trigger] run.remote[p]).id@ == key
                && new_email::is_new(run.remote[p], run.local);
        assert(run.remote[p].id@ == key);
    }
}

/// An email whose identifier the local database has, still on the server and with
/// an equal blob identifier there, is left alone whatever else the database has of
/// it: it is not downloaded, linked, added or removed.
#[verifier::rlimit(40)]
pub proof fn law_unchanged_contents_are_left_alone<S>(
    course: Course<S>,
    settings: Settings,
    lock_path: PathBuf,
    state_path: PathBuf,
    n: int,
    action: Action<S>,
    key: Seq<char>,
)
    requires
        course.valid(settings, lock_path, state_path),
        0 <= n < course.runs.len(),
        course.runs[n].requests(action),
        course.runs[n].stage() >= 14,
        course.runs[n].local.map.contains_key(key),
        !course.runs[n].destroyed.contains(key),
        forall|p: int|
            0 <= p < course.runs[n].remote.len() && (#[trigger] course.runs[n].remote[p]).id@ == key
                ==> course.runs[n].remote[p].blob_id@ == course.runs[n].local.map[key].blob_id@,
    ensures
        action matches Action::Download { emails, .. } ==> forall|j: int|
            0 <= j < emails@.len() ==> (#[trigger] emails@[j]).remote_email.id@ != key,
        action matches Action::AddEmail { email } ==> email.remote_email.id@ != key,
        course.runs[n].phase matches Phase::MakeSymlink { i } ==> course.runs[n].new.keys[i as int]
            != key,
        course.runs[n].phase matches Phase::MoveFile { i } ==> course.runs[n].new.keys[i as int]
            != key,
        course.runs[n].phase matches Phase::RemoveEmail { i }
            ==> course.runs[n].destroyed_local[i as int] != key,
        course.runs[n].phase matches Phase::RemoveFile { i }
            ==> course.runs[n].destroyed_local[i as int] != key,
{
    let run = course.runs[n];
    course::lemma_facts(course, settings, lock_path, state_path, n);
    assert(run.fits());
    if run.stage() <= 33 {
        law_new_emails_are_unknown_or_changed(course, settings, lock_path, state_path, n, key);
        run.new.lemma_listed();
        assert(!run.new.keys.contains(key));
        merge_laws::law_downloads_are_what_is_missing(run, action, key);
        step_laws::law_actions_say_what_the_run_knows(run, action);
        if 23 <= run.stage() <= 26 {
            merge_laws::law_removed_emails_are_gone_or_replaced(
                course,
                settings,
                lock_path,
                state_path,
                n,
                key,
            );
        }
        if let Phase::RemoveEmail { i } = run.phase {
            assert(run.destroyed_local.contains(run.destroyed_local[i as int]));
        }
        if let Phase::RemoveFile { i } = run.phase {
            assert(run.destroyed_local.contains(run.destroyed_local[i as int]));
        }
    }
}

/// With this event the run learns where the files of `email` are to be.
pub open spec fn locates<S>(
    run: Run<S>,
    event: Event<S>,
    email: remote::Email,
    location: Location,
) -> bool {
    &&& run.phase matches Phase::Locate { i }
    &&& run.remote[run.fresh[i as int] as int] == email
    &&& event == (Event::<S>::Located { location })
}

/// The files of a new email are where the run was told: the cached one always, the
/// one in the maildir until the database may have renamed it; and whether the
/// cache had it is what the run was told of it.
#[verifier::rlimit(40)]
pub proof fn law_new_files_are_where_was_told<S>(
    course: Course<S>,
    settings: Settings,
    lock_path: PathBuf,
    state_path: PathBuf,
    n: int,
    key: Seq<char>,
)
    requires
        course.valid(settings, lock_path, state_path),
        0 <= n < course.runs.len(),
        course.runs[n].new.map.contains_key(key),
    ensures
        exists|m: int, email: remote::Email, location: Location|
            0 <= m < n && #[trigger] locates(course.runs[m], course.events[m], email, location)
                && email.id@ == key
                && course.runs[n].remote[course.runs[n].new.map[key].remote as int] == email
                && course.runs[n].new.map[key].cached == location.cached
                && course.runs[n].new.map[key].cache_path == location.cache_path && (
            course.runs[n].stage() <= 21 ==> course.runs[n].new.map[key].maildir_path
                == location.maildir_path),
    decreases n,
{
    course::lemma_facts(course, settings, lock_path, state_path, n);
    if n > 0 {
        let k = n - 1;
        let run = course.runs[k];
        let next = course.runs[n];
        assert(course::steps(run, course.events[k], course.runs[k + 1]));
        course::lemma_facts(course, settings, lock_path, state_path, k);
        course::lemma_onward(course, settings, lock_path, state_path, k, n);
        assert(run.fits());
        run.new.lemma_listed();
        let fresh = match run.phase {
            Phase::Locate { i } => run.remote[run.fresh[i as int] as int].id@ == key,
            _ => false,
        };
        if fresh {
            if let Event::Located { location } = course.events[k] {
                if let Phase::Locate { i } = run.phase {
                    let email = run.remote[run.fresh[i as int] as int];
                    assert(locates(course.runs[k], course.events[k], email, location));
                }
            }
        } else {
            assert(run.new.map.contains_key(key)) by {
                assert(run.new.keys.contains(key) <==> run.new.map.contains_key(key));
            }
            law_new_files_are_where_was_told(course, settings, lock_path, state_path, k, key);
            let (m, email, location) = choose|m: int, email: remote::Email, location: Location|
                0 <= m < k && #[trigger] locates(course.runs[m], course.events[m], email, location)
                    && email.id@ == key && run.remote[run.new.map[key].remote as int] == email
                    && run.new.map[key].cached == location.cached && run.new.map[key].cache_path
                    == location.cache_path && (run.stage() <= 21 ==> run.new.map[key].maildir_path
                    == location.maildir_path);
            course::lemma_onward(course, settings, lock_path, state_path, m, k);
            assert(locates(course.runs[m], course.events[m], email, location));
        }
    } else {
        course.runs[0].new.lemma_listed();
    }
}

/// With this event the database tells that it has added `email`.
pub open spec fn tells_added<S>(run: Run<S>, event: Event<S>, email: local::Email) -> bool {
    run.phase is AddEmail && event == (Event::<S>::Added { result: Ok(email) })
}

/// What a step makes of the emails that the run takes for added.
proof fn lemma_added_step<S>(run: Run<S>, event: Event<S>, next: Run<S>)
    requires
        course::steps(run, event, next),
    ensures
        next.new_local.map == match (run.phase, event) {
            (Phase::AddEmail { .. }, Event::Added { result: Ok(email) }) =>
                run.new_local.map.insert(email.id@, email),
            _ => run.new_local.map,
        },
{
}

/// The emails that a run takes for added are those that the database told it has
/// added, each as it was told.
pub proof fn law_added_emails_are_those_told<S>(
    course: Course<S>,
    settings: Settings,
    lock_path: PathBuf,
    state_path: PathBuf,
    n: int,
    key: Seq<char>,
)
    requires
        course.valid(settings, lock_path, state_path),
        0 <= n < course.runs.len(),
        course.runs[n].new_local.map.contains_key(key),
    ensures
        exists|m: int, email: local::Email|
            0 <= m < n && #[trigger] tells_added(course.runs[m], course.events[m], email)
                && email.id@ == key && course.runs[n].new_local.map[key] == email,
    decreases n,
{
    course::law_run_hangs_together(course, settings, lock_path, state_path, n);
    if n > 0 {
        let k = n - 1;
        let run = course.runs[k];
        let event = course.events[k];
        assert(course::steps(run, event, course.runs[k + 1]));
        lemma_added_step(run, event, course.runs[n]);
        if run.phase is AddEmail && (event matches Event::Added { result: Ok(email) } && email.id@
            == key) {
            let email = event->Added_result->Ok_0;
            assert(tells_added(course.runs[k], course.events[k], email));
        } else {
            law_added_emails_are_those_told(course, settings, lock_path, state_path, k, key);
            let (m, email) = choose|m: int, email: local::Email|
                0 <= m < k && #[trigger] tells_added(course.runs[m], course.events[m], email)
                    && email.id@ == key && run.new_local.map[key] == email;
            assert(tells_added(course.runs[m], course.events[m], email));
        }
    } else {
        course.runs[0].new_local.lemma_listed();
    }
}

/// What the database told it has added, the run takes for added, as long as the
/// database does not tell of another one of the same identifier.
pub proof fn law_what_was_added_is_kept<S>(
    course: Course<S>,
    settings: Settings,
    lock_path: PathBuf,
    state_path: PathBuf,
    m: int,
    email: local::Email,
    n: int,
)
    requires
        course.valid(settings, lock_path, state_path),
        0 <= m < n < course.runs.len(),
        tells_added(course.runs[m], course.events[m], email),
        forall|k: int, other: local::Email|
            m < k < n && #[trigger] tells_added(course.runs[k], course.events[k], other)
                ==> other.id@ != email.id@,
    ensures
        course.runs[n].new_local.map.contains_key(email.id@),
        course.runs[n].new_local.map[email.id@] == email,
    decreases n,
{
    let k = n - 1;
    let run = course.runs[k];
    let event = course.events[k];
    assert(course::steps(run, event, course.runs[k + 1]));
    lemma_added_step(run, event, course.runs[n]);
    if m < k {
        law_what_was_added_is_kept(course, settings, lock_path, state_path, m, email, k);
        if run.phase is AddEmail && (event matches Event::Added { result: Ok(_) }) {
            let other = event->Added_result->Ok_0;
            assert(tells_added(course.runs[k], course.events[k], other));
        }
    }
}

/// A run gives the server's tags to the emails that it got from the server and
/// was not told have changed locally, and to no others, nor to one twice.
pub proof fn law_tagged_emails_are_those_not_changed_locally<S>(
    course: Course<S>,
    settings: Settings,
    lock_path: PathBuf,
    state_path: PathBuf,
    n: int,
    p: usize,
)
    requires
        course.valid(settings, lock_path, state_path),
        0 <= n < course.runs.len(),
        18 <= course.runs[n].stage() <= 33,
    ensures
        course.runs[n].to_tag.contains(p) <==> p < course.runs[n].remote.len()
            && !course.runs[n].updated_local.map.contains_key(
            course.runs[n].remote[p as int].id@,
        ),
        course.runs[n].phase matches Phase::UpdateTags { i }
            ==> !course.runs[n].updated_local.map.contains_key(
            course.runs[n].remote[course.runs[n].to_tag[i as int] as int].id@,
        ),
        forall|i: int, j: int|
            0 <= i < j < course.runs[n].to_tag.len() ==> (#[trigger] course.runs[n].to_tag[i]) < (
            #[trigger] course.runs[n].to_tag[j]),
{
    let run = course.runs[n];
    course::lemma_facts(course, settings, lock_path, state_path, n);
    assert(run.fits());
    new_email::law_unchanged_emails_are_picked(run.remote, run.updated_local, p);
    if let Phase::UpdateTags { i } = run.phase {
        let q = run.to_tag[i as int];
        new_email::law_unchanged_emails_are_picked(run.remote, run.updated_local, q);
        assert(run.to_tag.contains(q));
    }
}

/// A run removes local emails, and their files, only if the server told it that
/// they are gone or it has added a new version of them.
#[verifier::rlimit(40)]
pub proof fn law_only_gone_or_replaced_emails_are_removed<S>(
    course: Course<S>,
    settings: Settings,
    lock_path: PathBuf,
    state_path: PathBuf,
    n: int,
    action: Action<S>,
)
    requires
        course.valid(settings, lock_path, state_path),
        0 <= n < course.runs.len(),
        course.runs[n].requests(action),
        action is RemoveEmail || action is RemoveFile,
    ensures
        exists|key: Seq<char>|
            {
                &&& #[trigger] course.runs[n].local.map.contains_key(key)
                &&& action matches Action::RemoveEmail { email } ==> *email
                    == course.runs[n].local.map[key]
                &&& action matches Action::RemoveFile { path } ==> *path
                    == course.runs[n].local.map[key].path
                &&& course.runs[n].destroyed.contains(key) || exists|p: int|
                    0 <= p < course.runs[n].remote.len() && (
                    #[trigger] course.runs[n].remote[p]).id@ == key
                        && course.runs[n].local.map[key].blob_id@
                        != course.runs[n].remote[p].blob_id@
            },
{
    let run = course.runs[n];
    course::lemma_facts(course, settings, lock_path, state_path, n);
    step_laws::law_actions_say_what_the_run_knows(run, action);
    let i = run.place();
    let key = run.destroyed_local[i];
    assert(run.destroyed_local.contains(key));
    merge_laws::law_removed_emails_are_gone_or_replaced(
        course,
        settings,
        lock_path,
        state_path,
        n,
        key,
    );
    law_new_emails_are_unknown_or_changed(course, settings, lock_path, state_path, n, key);
    assert(run.local.map.contains_key(key));
}

/// From which revision on local changes count: from the recorded one. Without one,
/// from the one that the database is at when the run asks for it, and it asks only
/// if there are no local emails, or if on a terminal the user has agreed.
pub proof fn law_local_changes_count_from_the_right_revision<S>(
    course: Course<S>,
    settings: Settings,
    lock_path: PathBuf,
    state_path: PathBuf,
    n: int,
    action: Action<S>,
)
    requires
        course.valid(settings, lock_path, state_path),
        0 <= n < course.runs.len(),
        course.runs[n].requests(action),
    ensures
        action matches Action::ListLocalUpdates { since } ==> match course.runs[n].latest.notmuch_revision {
            Some(revision) => since == revision,
            None => {
                &&& n > 0
                &&& course.events[n - 1] == (Event::<S>::Revision { revision: since })
                &&& course.runs[n].local.keys.len() == 0 || {
                    &&& n >= 3
                    &&& course.events[n - 3] == (Event::<S>::Terminal { is_terminal: true })
                    &&& course.events[n - 2] matches Event::Answer { answer }
                    &&& revision::is_yes(answer@)
                }
            },
        },
{
    course::lemma_facts(course, settings, lock_path, state_path, n);
    if course.runs[n].phase is ListLocalUpdates && course.runs[n].latest.notmuch_revision is None {
        let k = n - 1;
        assert(course::steps(course.runs[k], course.events[k], course.runs[k + 1]));
        lemma_before_updates(course.runs[k], course.events[k], course.runs[n]);
        if course.runs[n].local.keys.len() > 0 {
            let j = n - 2;
            assert(course::steps(course.runs[j], course.events[j], course.runs[j + 1]));
            lemma_before_reading(course.runs[j], course.events[j], course.runs[k]);
            let i = n - 3;
            assert(course::steps(course.runs[i], course.events[i], course.runs[i + 1]));
            lemma_before_asking(course.runs[i], course.events[i], course.runs[j]);
        }
    }
}

/// Without a recorded revision, the present one is read before local changes are
/// listed.
proof fn lemma_before_updates<S>(run: Run<S>, event: Event<S>, next: Run<S>)
    requires
        course::steps(run, event, next),
        next.phase is ListLocalUpdates,
        next.latest.notmuch_revision is None,
    ensures
        run.phase matches Phase::SearchRevision { query } && !(query is Warn) && !(query is Confirm)
            && !(query is Refuse),
        run.latest == next.latest,
        run.local == next.local,
        next.phase matches Phase::ListLocalUpdates { since } && event == (Event::<S>::Revision {
            revision: since,
        }),
{
}

/// With local emails, the user agrees before the present revision is read.
proof fn lemma_before_reading<S>(run: Run<S>, event: Event<S>, next: Run<S>)
    requires
        course::steps(run, event, next),
        next.phase matches Phase::SearchRevision { query } && !(query is Warn) && !(
        query is Confirm) && !(query is Refuse),
        next.latest.notmuch_revision is None,
        next.local.keys.len() > 0,
    ensures
        run.phase == (Phase::<S>::SearchRevision { query: RevisionQuery::Confirm }),
        event matches Event::Answer { answer } && revision::is_yes(answer@),
{
}

/// The user is asked only on a terminal.
proof fn lemma_before_asking<S>(run: Run<S>, event: Event<S>, next: Run<S>)
    requires
        course::steps(run, event, next),
        next.phase == (Phase::<S>::SearchRevision { query: RevisionQuery::Confirm }),
    ensures
        event == (Event::<S>::Terminal { is_terminal: true }),
{
}

/// What a run records: the revision after the one that the database told last, and
/// the state that the server's answer described if the run pulled; if it only
/// pushed, the state that it read when it began.
pub proof fn law_record_is_what_was_told<S>(
    course: Course<S>,
    settings: Settings,
    lock_path: PathBuf,
    state_path: PathBuf,
    n: int,
    action: Action<S>,
)
    requires
        course.valid(settings, lock_path, state_path),
        0 <= n < course.runs.len(),
        course.runs[n].requests(action),
    ensures
        action matches Action::SaveState { filename, state } ==> {
            &&& *filename == state_path
            &&& !settings.dry_run
            &&& n > 0
            &&& course.events[n - 1] matches Event::Revision { revision }
            &&& state.notmuch_revision matches Some(recorded)
            &&& recorded == revision + 1
            &&& !settings.pull ==> state.jmap_state == course.runs[n].latest.jmap_state
            &&& settings.pull ==> exists|m: int|
                0 <= m < n && finds_out(#[trigger] course.runs[m], course.events[m])
                    && state.jmap_state == state_of(course.events[m])
        },
{
    if action is SaveState {
        let k = n - 1;
        assert(course::steps(course.runs[k], course.events[k], course.runs[k + 1]));
        course::lemma_onward(course, settings, lock_path, state_path, n, n);
        course::lemma_onward(course, settings, lock_path, state_path, k, k);
        if settings.dry_run {
            crate::sync::laws::law_dry_run_changes_nothing(
                course,
                settings,
                lock_path,
                state_path,
                n,
                action,
            );
        }
        let m = lemma_found_out(course, settings, lock_path, state_path, n);
        law_changes_are_what_the_server_told(
            course,
            settings,
            lock_path,
            state_path,
            m,
            n,
            Seq::empty(),
        );
    }
}

} // verus!
