//! What holds of every single step: what an action is about, which answers it
//! takes, what comes after it, and what its failure is called.

use vstd::prelude::*;

use crate::local;
use crate::remote;
use crate::sync::course;
use crate::sync::download::AttemptFailure;
use crate::sync::error::Error;
use crate::sync::new_email;
use crate::sync::new_email::MessageFile;
use crate::sync::protocol::{Action, DownloadFailure, Event, FullSyncReason, Report};
use crate::sync::revision;
use crate::sync::revision::RevisionQuery;
use crate::sync::run::{Phase, Run};
use crate::sync::tags;

verus! {

/// Every action is about what the run has found out, and hands all of it on
/// unchanged.
#[verifier::rlimit(40)]
pub proof fn law_actions_say_what_the_run_knows<S>(run: Run<S>, action: Action<S>)
    requires
        run.inv(),
        run.requests(action),
    ensures
        match action {
            Action::OpenLockFile { path } => run.phase is OpenLockFile && *path == run.lock_path,
            Action::TryLock => run.phase is TryLock,
            Action::WaitForLock => run.phase is WaitForLock,
            Action::ReadState { filename } => run.phase is ReadState && *filename
                == run.state_path,
            Action::OpenLocal { read_only } => run.phase is OpenLocal && (read_only
                <==> run.settings.dry_run || !run.settings.pull),
            Action::OpenCache => run.phase is OpenCache,
            Action::OpenRemote => run.phase is OpenRemote,
            Action::GetMailboxes => run.phase is GetMailboxes,
            Action::ListLocalEmails => run.phase is ListLocalEmails,
            Action::ListChanges { since } => run.phase is ListChanges && run.latest.jmap_state
                == Some(*since),
            Action::ListRemoteIds { reason } => run.phase == (Phase::<S>::ListRemoteIds {
                reason: *reason,
            }),
            Action::Report { report } => match report {
                Report::Metadata { possibly_changed } => run.phase is ReportMetadata
                    && possibly_changed == run.updated.len(),
                Report::Download => run.phase is ReportDownload,
                Report::Merge { new, changed, destroyed } => {
                    &&& run.phase is ReportMerge
                    &&& new == run.new.keys.len()
                    &&& changed == run.remote.len()
                    &&& destroyed == run.destroyed.len()
                },
                Report::Push { changed } => run.phase is ReportPush && changed
                    == run.updated_local.keys.len(),
            },
            Action::GetRemoteEmails { ids, mailboxes } => {
                &&& run.phase is GetRemoteEmails
                &&& ids@ == run.updated
                &&& *mailboxes == run.mailboxes
            },
            Action::Locate { email } => run.phase matches Phase::Locate { i } && *email
                == run.remote[run.fresh[i as int] as int],
            Action::Download { emails, settings } => {
                &&& run.phase is Download
                &&& *settings == run.settings.downloads
                &&& forall|j: int|
                    0 <= j < emails@.len() ==> is_of_new(run, *(#[trigger] emails@[j]).remote_email)
                        && emails@[j].cache_path == run.new.map[emails@[j].remote_email.id@].cache_path
                        && emails@[j].maildir_path
                        == run.new.map[emails@[j].remote_email.id@].maildir_path
            },
            Action::ReadRevision => run.phase is ReadFinalRevision || (
            run.phase matches Phase::SearchRevision { query } && !(query is Warn) && !(
            query is Confirm) && !(query is Refuse)),
            Action::WarnRevisionLost { dry_run } => run.phase == (Phase::<S>::SearchRevision {
                query: RevisionQuery::Warn { dry_run },
            }),
            Action::ConfirmRevision => run.phase == (Phase::<S>::SearchRevision {
                query: RevisionQuery::Confirm,
            }),
            Action::RefuseRevision => run.phase == (Phase::<S>::SearchRevision {
                query: RevisionQuery::Refuse,
            }),
            Action::ListLocalUpdates { since } => run.phase == (Phase::<S>::ListLocalUpdates {
                since,
            }),
            Action::CheckMaildirFile { path } => run.phase matches Phase::CheckMaildirFile { i }
                && *path == run.new.map[run.new.keys[i as int]].maildir_path,
            Action::RemoveUnindexedFile { path } => run.phase matches Phase::RemoveUnindexedFile {
                i,
            } && *path == run.new.map[run.new.keys[i as int]].maildir_path,
            Action::MakeSymlink { from, to } => run.phase matches Phase::MakeSymlink { i } && *from
                == run.new.map[run.new.keys[i as int]].cache_path && *to
                == run.new.map[run.new.keys[i as int]].maildir_path,
            Action::BeginAtomic => run.phase is BeginAtomic,
            Action::AddEmail { email } => run.phase matches Phase::AddEmail { i }
                && email.remote_email.id@ == run.new.keys[i as int] && is_of_new(
                run,
                *email.remote_email,
            ) && email.cache_path == run.new.map[run.new.keys[i as int]].cache_path
                && email.maildir_path == run.new.map[run.new.keys[i as int]].maildir_path,
            Action::UpdateTags { email, .. } => run.phase matches Phase::UpdateTags { i }
                && is_ours(run, run.remote[run.to_tag[i as int] as int].id@, *email),
            Action::ReportMissingEmail { id } => run.phase matches Phase::ReportMissingEmail { i }
                && *id == run.remote[run.to_tag[i as int] as int].id
                && !run.new_local.map.contains_key(id@) && !run.local.map.contains_key(id@),
            Action::NameFile { path } => run.phase matches Phase::NameFile { i } && *path
                == run.new.map[run.remote[run.to_tag[i as int] as int].id@].maildir_path,
            Action::GetMessage { message_id } => run.phase matches Phase::GetMessage { i, .. }
                && exists|email: local::Email| #[trigger]
                is_ours(run, run.remote[run.to_tag[i as int] as int].id@, email)
                    && email.message_id == *message_id,
            Action::RemoveEmail { email } => run.phase matches Phase::RemoveEmail { i }
                && run.local.map.contains_key(run.destroyed_local[i as int]) && *email
                == run.local.map[run.destroyed_local[i as int]],
            Action::EndAtomic => run.phase is EndAtomic,
            Action::RemoveSymlink { path } => run.phase matches Phase::RollBack { i, .. } && *path
                == run.new.map[run.new.keys[i as int]].maildir_path,
            Action::MoveFile { from, to } => run.phase matches Phase::MoveFile { i } && *from
                == run.new.map[run.new.keys[i as int]].cache_path && *to
                == run.new.map[run.new.keys[i as int]].maildir_path,
            Action::RemoveFile { path } => run.phase matches Phase::RemoveFile { i }
                && run.local.map.contains_key(run.destroyed_local[i as int]) && *path
                == run.local.map[run.destroyed_local[i as int]].path,
            Action::ListTags => run.phase is ListTags,
            Action::CreateMailboxes { tags, mailboxes } => run.phase == (
            Phase::<S>::CreateMailboxes { tags: *tags }) && *mailboxes == run.mailboxes,
            Action::PushChanges { emails, mailboxes } => {
                &&& run.phase is PushChanges
                &&& emails@ == run.updated_local
                &&& *mailboxes == run.mailboxes
            },
            Action::SaveState { filename, state } => run.phase == (Phase::<S>::SaveState {
                state: *state,
            }) && *filename == run.state_path,
            Action::Finish => run.phase is Done,
        },
{
    run.new.lemma_listed();
    match action {
        Action::Download { emails, settings } => {
            let places = new_email::to_download(run.new);
            let keep = |i: usize| !run.new.at(i as int).cached;
            lemma_picked_places(run.new.keys.len(), keep);
            assert forall|j: int| 0 <= j < emails@.len() implies is_of_new(
                run,
                *(#[trigger] emails@[j]).remote_email,
            ) && emails@[j].cache_path == run.new.map[emails@[j].remote_email.id@].cache_path
                && emails@[j].maildir_path
                == run.new.map[emails@[j].remote_email.id@].maildir_path by {
                assert(run.is_new_email(emails@[j], places[j] as int));
                assert(run.new.contains(run.new.keys[places[j] as int]));
            }
        },
        Action::AddEmail { email } => {
            if let Phase::AddEmail { i } = run.phase {
                assert(run.new.contains(run.new.keys[i as int]));
            }
        },
        Action::GetMessage { message_id } => {
            if let Phase::GetMessage { i, .. } = run.phase {
                let email = run.local_email(i as int)->Some_0;
                assert(is_ours(run, run.remote[run.to_tag[i as int] as int].id@, email));
            }
        },
        _ => {},
    }
}

/// Places that were picked among any number are places.
proof fn lemma_picked_places(count: nat, keep: spec_fn(usize) -> bool)
    ensures
        forall|j: int|
            0 <= j < new_email::indices(count).filter(keep).len() ==> (
            #[trigger] new_email::indices(count).filter(keep)[j]) < count,
    decreases count,
{
    reveal(Seq::filter);
    if count > 0 {
        let rest = (count - 1) as nat;
        lemma_picked_places(rest, keep);
        assert(new_email::indices(count).drop_last() =~= new_email::indices(rest));
        let kept = new_email::indices(rest).filter(keep);
        assert forall|j: int| 0 <= j < new_email::indices(count).filter(keep).len() implies (
        #[trigger] new_email::indices(count).filter(keep)[j]) < count by {
            if j < kept.len() {
                assert(kept[j] < rest);
            }
        }
    }
}

/// `email` is the server's email that a new file is of.
pub open spec fn is_of_new<S>(run: Run<S>, email: remote::Email) -> bool {
    &&& run.new.map.contains_key(email.id@)
    &&& run.remote[run.new.map[email.id@].remote as int] == email
}

/// `email` is what the database has under the identifier `key`: what it has just
/// added, or else what it had.
pub open spec fn is_ours<S>(run: Run<S>, key: Seq<char>, email: local::Email) -> bool {
    if run.new_local.map.contains_key(key) {
        email == run.new_local.map[key]
    } else {
        run.local.map.contains_key(key) && email == run.local.map[key]
    }
}

/// Giving an email the server's tags: the tags of every known mailbox that it is
/// in and of all its keywords, and no others.
pub proof fn law_tags_given_are_those_of_the_server<S>(
    run: Run<S>,
    action: Action<S>,
    tag: Seq<char>,
)
    requires
        run.inv(),
        run.requests(action),
    ensures
        action matches Action::UpdateTags { email, tags } ==> {
            &&& run.phase matches Phase::UpdateTags { i }
            &&& {
                let source = run.remote[run.to_tag[i as int] as int];
                tags@.contains(tag) <==> {
                    ||| exists|j: int|
                        0 <= j < source.mailbox_ids@.len()
                            && run.mailboxes.mailboxes_by_id@.map.contains_key(
                            (#[trigger] source.mailbox_ids@[j])@,
                        ) && run.mailboxes.mailboxes_by_id@.map[source.mailbox_ids@[j]@].tag@
                            == tag
                    ||| exists|j: int|
                        0 <= j < source.builtin_keyword_tags@.len() && (
                        #[trigger] source.builtin_keyword_tags@[j])@ == tag
                    ||| exists|j: int|
                        0 <= j < source.custom_keyword_tags@.len() && (
                        #[trigger] source.custom_keyword_tags@[j])@ == tag
                }
            }
        },
{
    if let Action::UpdateTags { email, tags } = action {
        if let Phase::UpdateTags { i } = run.phase {
            let source = run.remote[run.to_tag[i as int] as int];
            remote::law_tags_come_from_mailboxes_and_keywords(source, run.mailboxes, tag);
            assert(tags@.to_set().contains(tag) <==> tags@.contains(tag));
        }
    }
}

/// `event` is an answer to `action`.
pub open spec fn answers<S>(action: Action<S>, event: Event<S>) -> bool {
    match action {
        Action::TryLock => event is Locked,
        Action::ReadState { .. } => event is StateRead,
        Action::GetMailboxes | Action::CreateMailboxes { .. } => event is GotMailboxes,
        Action::ListLocalEmails | Action::ListLocalUpdates { .. } => event is LocalEmails,
        Action::ListChanges { .. } => event is Changed,
        Action::ListRemoteIds { .. } => event is RemoteIds,
        Action::GetRemoteEmails { .. } => event is RemoteEmails,
        Action::Locate { .. } => event is Located,
        Action::Download { .. } => event is Downloaded,
        Action::ReadRevision => event is Revision,
        Action::WarnRevisionLost { .. } => event is Terminal,
        Action::ConfirmRevision => event is Answer,
        Action::RefuseRevision => event matches Event::Ack { result: Ok(_) },
        Action::CheckMaildirFile { .. } => event is Exists,
        Action::AddEmail { .. } => event is Added,
        Action::NameFile { .. } => event is FileName,
        Action::GetMessage { .. } => event is Message,
        Action::ListTags => event is Tags,
        Action::SaveState { .. } => event is StateSaved,
        Action::Finish => false,
        _ => event is Ack,
    }
}

/// A run takes every answer to what it asks for, and nothing else; only a final
/// revision without a successor it cannot take.
pub proof fn law_answers_are_taken<S>(run: Run<S>, action: Action<S>, event: Event<S>)
    requires
        run.requests(action),
    ensures
        run.accepts(event) <==> answers(action, event) && !(run.phase is ReadFinalRevision && (
        event matches Event::Revision { revision } && revision == u64::MAX)),
{
}

/// What is asked for next, where what was asked for went well, up to the merge.
#[verifier::rlimit(40)]
pub proof fn law_what_comes_next_before_the_merge<S>(
    run: Run<S>,
    action: Action<S>,
    event: Event<S>,
    next: Run<S>,
    then: Action<S>,
)
    requires
        run.inv(),
        run.fits(),
        next.inv(),
        next.fits(),
        run.requests(action),
        course::steps(run, event, next),
        next.requests(then),
        !event.fails(),
    ensures
        match action {
            Action::OpenLockFile { .. } => then is TryLock,
            Action::TryLock => if event == (Event::<S>::Locked { result: Ok(true) }) {
                then is ReadState
            } else {
                then is WaitForLock
            },
            Action::WaitForLock => then is ReadState,
            Action::ReadState { .. } => then is OpenLocal,
            Action::OpenLocal { .. } => then is OpenCache,
            Action::OpenCache => then is OpenRemote,
            Action::OpenRemote => then is GetMailboxes,
            Action::GetMailboxes => then is ListLocalEmails,
            Action::ListLocalEmails => if run.latest.jmap_state is Some {
                then is ListChanges
            } else {
                then matches Action::ListRemoteIds { reason } && *reason
                    == FullSyncReason::<S>::NoState
            },
            Action::ListChanges { .. } => match event {
                Event::Changed { result: Ok(changes) } => if forall|key: Seq<char>| #[trigger]
                    changes.updated@.contains(key) ==> run.local.map.contains_key(key) {
                    then matches Action::Report { report: Report::Metadata { .. } }
                } else {
                    then matches Action::ListRemoteIds { reason } && *reason
                        == FullSyncReason::<S>::UnknownUpdate
                },
                Event::Changed { result: Err(source) } => then matches Action::ListRemoteIds {
                    reason,
                } && *reason == (FullSyncReason::<S>::ChangesFailed { source }),
                _ => false,
            },
            Action::ListRemoteIds { .. } => then matches Action::Report {
                report: Report::Metadata { .. },
            },
            Action::Report { report: Report::Metadata { .. } } => then is GetRemoteEmails,
            Action::Report { report: Report::Download } => then is Download,
            Action::Download { .. } => searches(run, then),
            Action::WarnRevisionLost { .. } => if event == (Event::<S>::Terminal {
                is_terminal: true,
            }) {
                then is ConfirmRevision
            } else {
                then is RefuseRevision
            },
            Action::ConfirmRevision => if event matches Event::Answer { answer }
                && revision::is_yes(answer@) {
                then is ReadRevision
            } else {
                next.phase == (Phase::<S>::Done {
                    result: Err(Error::MissingNotmuchDatabaseRevision {  }),
                })
            },
            Action::RefuseRevision => next.phase == (Phase::<S>::Done {
                result: Err(Error::MissingNotmuchDatabaseRevision {  }),
            }),
            Action::ReadRevision => match (run.phase, event) {
                (Phase::SearchRevision { .. }, Event::Revision { revision }) => then
                    matches Action::ListLocalUpdates { since } && since == revision,
                _ => then is SaveState,
            },
            Action::ListLocalUpdates { .. } => if run.settings.pull {
                then matches Action::Report { report: Report::Merge { .. } }
            } else if run.settings.dry_run {
                then matches Action::Report { report: Report::Push { .. } }
            } else {
                then is ListTags
            },
            _ => true,
        },
{
    if let Event::Changed { result: Ok(changes) } = event {
        crate::sync::changes::law_updates_are_known(changes.updated@, run.local);
    }
}

/// The search for the revision begins: with the recorded one, else with the
/// present one if there are no local emails, else with a warning.
pub open spec fn searches<S>(run: Run<S>, action: Action<S>) -> bool {
    match run.latest.notmuch_revision {
        Some(revision) => action matches Action::ListLocalUpdates { since } && since == revision,
        None => if run.local.keys.len() == 0 {
            action is ReadRevision
        } else {
            action matches Action::WarnRevisionLost { dry_run } && dry_run == run.settings.dry_run
        },
    }
}

/// Once all that is to be known of the server's emails is known, what the cache
/// lacks is downloaded; if it lacks nothing, the search for the revision begins.
#[verifier::rlimit(40)]
pub proof fn law_what_comes_after_locating<S>(
    run: Run<S>,
    event: Event<S>,
    next: Run<S>,
    then: Action<S>,
)
    requires
        run.inv(),
        run.fits(),
        next.inv(),
        next.fits(),
        course::steps(run, event, next),
        next.requests(then),
        !event.fails(),
        run.phase is GetRemoteEmails || run.phase is Locate,
    ensures
        run.phase matches Phase::Locate { i } ==> (i + 1 < run.fresh.len() ==> next.phase == (
        Phase::<S>::Locate { i: (i + 1) as usize })),
        run.phase matches Phase::Locate { i } ==> (i + 1 == run.fresh.len() ==> !(then is Locate)),
        then is Locate || if exists|i: int|
            0 <= i < next.new.keys.len() && !next.new.map[#[trigger] next.new.keys[i]].cached {
            then matches Action::Report { report: Report::Download }
        } else {
            searches(next, then)
        },
        run.phase is GetRemoteEmails ==> (then is Locate <==> exists|p: int|
            0 <= p < next.remote.len() && (!run.local.map.contains_key(
                (#[trigger] next.remote[p]).id@,
            ) || run.local.map[next.remote[p].id@].blob_id@ != next.remote[p].blob_id@)),
{
    let picked = new_email::to_download(next.new);
    if exists|i: int|
        0 <= i < next.new.keys.len() && !next.new.map[#[trigger] next.new.keys[i]].cached {
        let i = choose|i: int|
            0 <= i < next.new.keys.len() && !next.new.map[#[trigger] next.new.keys[i]].cached;
        new_email::law_uncached_emails_are_picked(next.new, i as usize);
        assert(picked.len() > 0);
    } else if picked.len() > 0 {
        new_email::law_uncached_emails_are_picked(next.new, picked[0]);
        assert(picked.contains(picked[0]));
        assert(!next.new.map[next.new.keys[picked[0] as int]].cached);
    }
    if run.phase is GetRemoteEmails {
        if exists|p: int|
            0 <= p < next.remote.len() && (!run.local.map.contains_key(
                (#[trigger] next.remote[p]).id@,
            ) || run.local.map[next.remote[p].id@].blob_id@ != next.remote[p].blob_id@) {
            let p = choose|p: int|
                0 <= p < next.remote.len() && (!run.local.map.contains_key(
                    (#[trigger] next.remote[p]).id@,
                ) || run.local.map[next.remote[p].id@].blob_id@ != next.remote[p].blob_id@);
            new_email::law_new_emails_are_picked(next.remote, run.local, p as usize);
            assert(next.fresh.len() > 0);
        }
        if next.fresh.len() > 0 {
            new_email::law_new_emails_are_picked(next.remote, run.local, next.fresh[0]);
            assert(next.fresh.contains(next.fresh[0]));
            let p = next.fresh[0] as int;
            assert(next.remote[p] == next.remote[p]);
        }
    }
}

/// What is asked for next, where what was asked for went well, from the merge on.
#[verifier::rlimit(40)]
pub proof fn law_what_comes_next_from_the_merge_on<S>(
    run: Run<S>,
    action: Action<S>,
    event: Event<S>,
    next: Run<S>,
    then: Action<S>,
)
    requires
        run.inv(),
        run.fits(),
        next.inv(),
        next.fits(),
        run.requests(action),
        course::steps(run, event, next),
        next.requests(then),
        !event.fails(),
    ensures
        match action {
            Action::Report { report: Report::Merge { .. } } => if run.settings.dry_run {
                then matches Action::Report { report: Report::Push { .. } }
            } else if run.new.keys.len() > 0 {
                then is CheckMaildirFile
            } else {
                then is BeginAtomic
            },
            Action::CheckMaildirFile { path } => if event == (Event::<S>::Exists { exists: true }) {
                then matches Action::RemoveUnindexedFile { path: same } && *same == *path
            } else {
                then matches Action::MakeSymlink { to, .. } && *to == *path
            },
            Action::RemoveUnindexedFile { path } => then matches Action::MakeSymlink { to, .. }
                && *to == *path,
            Action::MakeSymlink { .. } => run.phase matches Phase::MakeSymlink { i } && if i + 1
                < run.new.keys.len() {
                next.phase == (Phase::<S>::CheckMaildirFile { i: (i + 1) as usize })
            } else {
                then is BeginAtomic
            },
            Action::BeginAtomic => if run.new.keys.len() > 0 {
                next.phase == (Phase::<S>::AddEmail { i: 0 })
            } else {
                tags_from(next, 0)
            },
            Action::AddEmail { .. } => run.phase matches Phase::AddEmail { i } && if i + 1
                < run.new.keys.len() {
                next.phase == (Phase::<S>::AddEmail { i: (i + 1) as usize })
            } else {
                tags_from(next, 0)
            },
            Action::UpdateTags { .. } => run.phase matches Phase::UpdateTags { i }
                && if run.new.map.contains_key(run.remote[run.to_tag[i as int] as int].id@) {
                next.phase == (Phase::<S>::NameFile { i })
            } else {
                tags_from(next, i + 1)
            },
            Action::NameFile { .. } => run.phase matches Phase::NameFile { i } && match event {
                Event::FileName { name: Some(name) } => next.phase == (Phase::<S>::GetMessage {
                    i,
                    name,
                }),
                _ => tags_from(next, i + 1),
            },
            Action::GetMessage { .. } => run.phase matches Phase::GetMessage { i, .. }
                && tags_from(next, i + 1),
            Action::RemoveEmail { .. } => run.phase matches Phase::RemoveEmail { i } && if i + 1
                < run.destroyed_local.len() {
                next.phase == (Phase::<S>::RemoveEmail { i: (i + 1) as usize })
            } else {
                then is EndAtomic
            },
            Action::EndAtomic => if run.new.keys.len() > 0 {
                next.phase == (Phase::<S>::MoveFile { i: 0 })
            } else {
                deletes_from(next, 0)
            },
            Action::MoveFile { .. } => run.phase matches Phase::MoveFile { i } && if i + 1
                < run.new.keys.len() {
                next.phase == (Phase::<S>::MoveFile { i: (i + 1) as usize })
            } else {
                deletes_from(next, 0)
            },
            Action::RemoveFile { .. } => run.phase matches Phase::RemoveFile { i } && deletes_from(
                next,
                i + 1,
            ),
            Action::ListTags => match event {
                Event::Tags { result: Ok(all) } => if tags::without_mailbox(
                    all@,
                    run.settings.tags,
                    run.mailboxes,
                ).len() == 0 {
                    then matches Action::Report { report: Report::Push { .. } }
                } else if run.settings.auto_create_new_mailboxes {
                    then matches Action::CreateMailboxes { tags: missing, .. } && missing@
                        == tags::without_mailbox(all@, run.settings.tags, run.mailboxes)
                } else {
                    next.phase matches Phase::Done {
                        result: Err(Error::MissingMailboxes { tags: missing }),
                    } && missing@ == tags::without_mailbox(
                        all@,
                        run.settings.tags,
                        run.mailboxes,
                    )
                },
                _ => false,
            },
            Action::CreateMailboxes { .. } => then matches Action::Report {
                report: Report::Push { .. },
            },
            Action::Report { report: Report::Push { .. } } => if run.settings.dry_run {
                next.phase == (Phase::<S>::Done { result: Ok(()) })
            } else {
                then is PushChanges
            },
            Action::PushChanges { .. } => then is ReadRevision,
            Action::SaveState { .. } => next.phase == (Phase::<S>::Done { result: Ok(()) }),
            _ => true,
        },
{
}

/// The run goes on with the email at place `i` of those that take the server's
/// tags, if the database has it; after the last of them it removes emails, and
/// after the last of those it ends the atomic operation.
pub open spec fn tags_from<S>(next: Run<S>, i: int) -> bool {
    if i < next.to_tag.len() {
        let key = next.remote[next.to_tag[i] as int].id@;
        if next.new_local.map.contains_key(key) || next.local.map.contains_key(key) {
            next.phase == (Phase::<S>::UpdateTags { i: i as usize })
        } else {
            next.phase == (Phase::<S>::ReportMissingEmail { i: i as usize })
        }
    } else if next.destroyed_local.len() > 0 {
        next.phase == (Phase::<S>::RemoveEmail { i: 0 })
    } else {
        next.phase is EndAtomic
    }
}

/// The run goes on with the file of the email to remove at place `i`; after the
/// last of them it publishes, or only says so if it is a dry run.
pub open spec fn deletes_from<S>(next: Run<S>, i: int) -> bool {
    if i < next.destroyed_local.len() {
        next.phase == (Phase::<S>::RemoveFile { i: i as usize })
    } else if next.settings.dry_run {
        next.phase is ReportPush
    } else {
        next.phase is ListTags
    }
}

/// The error that a run stops with, or gives the database operation up for.
pub open spec fn stopped_by<S>(next: Run<S>, error: Error<S>) -> bool {
    ||| next.phase == (Phase::<S>::Done { result: Err(error) })
    ||| next.phase matches Phase::RollBack { i, error: kept } && i == 0 && kept == error
}

/// The error of a run tells what failed, with what it was about and with the
/// outside world's own account of it.
#[verifier::rlimit(40)]
pub proof fn law_errors_tell_what_failed<S>(
    run: Run<S>,
    action: Action<S>,
    event: Event<S>,
    next: Run<S>,
)
    requires
        run.inv(),
        run.fits(),
        run.requests(action),
        course::steps(run, event, next),
    ensures
        match (action, event) {
            (Action::OpenLockFile { path }, Event::Ack { result: Err(source) }) => stopped_by(
                next,
                Error::OpenLockFile { path: *path, source },
            ),
            (Action::TryLock, Event::Locked { result: Err(source) }) => stopped_by(
                next,
                Error::Lock { source },
            ),
            (Action::WaitForLock, Event::Ack { result: Err(source) }) => stopped_by(
                next,
                Error::Lock { source },
            ),
            (Action::OpenLocal { .. }, Event::Ack { result: Err(source) }) => stopped_by(
                next,
                Error::OpenLocal { source },
            ),
            (Action::OpenCache, Event::Ack { result: Err(source) }) => stopped_by(
                next,
                Error::OpenCache { source },
            ),
            (Action::OpenRemote, Event::Ack { result: Err(source) }) => stopped_by(
                next,
                Error::OpenRemote { source },
            ),
            (Action::GetMailboxes, Event::GotMailboxes { result: Err(source) }) => stopped_by(
                next,
                Error::IndexMailboxes { source },
            ),
            (Action::ListLocalEmails, Event::LocalEmails { result: Err(source) }) => stopped_by(
                next,
                Error::IndexLocalEmails { source },
            ),
            (Action::ListRemoteIds { .. }, Event::RemoteIds { result: Err(source) }) => stopped_by(
                next,
                Error::IndexRemoteEmails { source },
            ),
            (Action::Report { .. }, Event::Ack { result: Err(source) }) => stopped_by(
                next,
                Error::Log { source },
            ),
            (Action::GetRemoteEmails { .. }, Event::RemoteEmails { result: Err(source) }) =>
                stopped_by(next, Error::GetRemoteEmails { source }),
            (Action::Download { .. }, Event::Downloaded { result: Err(failure) }) => stopped_by(
                next,
                match failure {
                    DownloadFailure::ThreadPool { source } => Error::CreateDownloadThreadPool {
                        source,
                    },
                    DownloadFailure::Email { failure: AttemptFailure::Read { source } } =>
                        Error::DownloadRemoteEmail { source },
                    DownloadFailure::Email { failure: AttemptFailure::Store { source } } =>
                        Error::CacheNewEmail { source },
                },
            ),
            (Action::ListLocalUpdates { .. }, Event::LocalEmails { result: Err(source) }) =>
                stopped_by(next, Error::IndexLocalUpdatedEmails { source }),
            (Action::RemoveUnindexedFile { path }, Event::Ack { result: Err(source) }) =>
                stopped_by(next, Error::RemoveUnindexedMailFile { path: *path, source }),
            (Action::MakeSymlink { from, to }, Event::Ack { result: Err(source) }) => stopped_by(
                next,
                Error::MakeMaildirSymlink { from: *from, to: *to, source },
            ),
            (Action::BeginAtomic, Event::Ack { result: Err(source) }) => stopped_by(
                next,
                Error::BeginAtomic { source },
            ),
            (Action::AddEmail { email }, Event::Added { result: Err(source) }) => stopped_by(
                next,
                Error::AddLocalEmail { filename: email.cache_path, source },
            ),
            (Action::UpdateTags { .. }, Event::Ack { result: Err(source) }) => stopped_by(
                next,
                Error::UpdateLocalEmail { source },
            ),
            (Action::ReportMissingEmail { .. }, _) => stopped_by(next, Error::Programmer {  }),
            (Action::GetMessage { .. }, Event::Message { result: Err(source) }) => stopped_by(
                next,
                Error::GetNotmuchMessage { source },
            ),
            (Action::RemoveEmail { .. }, Event::Ack { result: Err(source) }) => stopped_by(
                next,
                Error::RemoveLocalEmail { source },
            ),
            (Action::EndAtomic, Event::Ack { result: Err(source) }) => stopped_by(
                next,
                Error::EndAtomic { source },
            ),
            (Action::MoveFile { from, to }, Event::Ack { result: Err(source) }) => stopped_by(
                next,
                Error::RenameMailFile { from: *from, to: *to, source },
            ),
            (Action::RemoveFile { path }, Event::Ack { result: Err(source) }) => stopped_by(
                next,
                Error::RemoveMailFile { path: *path, source },
            ),
            (Action::ListTags, Event::Tags { result: Err(source) }) => stopped_by(
                next,
                Error::IndexTags { source },
            ),
            (Action::CreateMailboxes { tags, .. }, Event::GotMailboxes { result: Err(source) }) =>
                stopped_by(next, Error::CreateMailboxes { tags: *tags, source }),
            (Action::PushChanges { .. }, Event::Ack { result: Err(source) }) => stopped_by(
                next,
                Error::PushChanges { source },
            ),
            _ => true,
        },
{
}

/// A failure after the atomic operation has been asked for, and before it has
/// ended, has the links removed, from the first on, if there are any; a failure
/// anywhere else ends the run at once.
pub proof fn law_failed_commit_begins_with_the_first_link<S>(
    run: Run<S>,
    event: Event<S>,
    next: Run<S>,
)
    requires
        run.inv(),
        run.fits(),
        course::steps(run, event, next),
        !(run.phase is RollBack),
    ensures
        20 <= run.stage() <= 24 && run.new.keys.len() > 0 ==> !(next.phase is Done),
        next.phase matches Phase::RollBack { i, .. } ==> i == 0 && 20 <= run.stage() <= 24
            && next.new.keys.len() > 0,
        next.phase is RollBack || next.phase is Done ==> next.new == run.new,
{
    run.new.lemma_listed();
}

/// Links are removed one after the other, each whether or not the one before could
/// be removed; after the last one the run ends with the error that it was given
/// up for.
pub proof fn law_links_are_removed_to_the_last<S>(run: Run<S>, event: Event<S>, next: Run<S>)
    requires
        run.inv(),
        run.fits(),
        course::steps(run, event, next),
    ensures
        run.phase matches Phase::RollBack { i, error } ==> {
            &&& next.new == run.new
            &&& if i + 1 < run.new.keys.len() {
                next.phase == (Phase::<S>::RollBack { i: (i + 1) as usize, error })
            } else {
                next.phase == (Phase::<S>::Done { result: Err(error) })
            }
        },
{
}

/// The files of new emails stay where they are known to be, but for one: when the
/// database tells the files of a message, ours is the first of them whose name
/// begins with the name that was told for it, if there is one.
#[verifier::rlimit(40)]
pub proof fn law_renamed_files_are_followed<S>(
    run: Run<S>,
    event: Event<S>,
    next: Run<S>,
    key: Seq<char>,
)
    requires
        run.inv(),
        run.fits(),
        course::steps(run, event, next),
        !(run.phase is Locate),
        run.new.map.contains_key(key),
    ensures
        next.new.keys == run.new.keys,
        next.new.map.contains_key(key),
        next.new.map[key].remote == run.new.map[key].remote,
        next.new.map[key].cache_path == run.new.map[key].cache_path,
        next.new.map[key].cached == run.new.map[key].cached,
        match (run.phase, event) {
            (
                Phase::GetMessage { i, name },
                Event::Message { result: Ok(Some(files)) },
            ) => if run.remote[run.to_tag[i as int] as int].id@ == key {
                moved(files@, name@, run.new.map[key].maildir_path, next.new.map[key].maildir_path)
            } else {
                next.new.map[key] == run.new.map[key]
            },
            _ => next.new.map[key] == run.new.map[key],
        },
        run.phase matches Phase::NameFile { i } ==> (
        event matches Event::FileName { name: Some(told) } ==> next.phase == (
        Phase::<S>::GetMessage { i, name: told })),
{
    run.new.lemma_listed();
    if let Phase::GetMessage { i, name } = run.phase {
        if let Event::Message { result: Ok(Some(files)) } = event {
            new_email::law_our_file_is_the_first_of_our_name(files@, name@);
        }
    }
}

/// A file that was at `before` is at `after`: where the first of `files` is whose
/// name begins with `name`, or where it was if there is none.
pub open spec fn moved(
    files: Seq<MessageFile>,
    name: Seq<char>,
    before: std::path::PathBuf,
    after: std::path::PathBuf,
) -> bool {
    ||| after == before && forall|i: int|
        0 <= i < files.len() ==> !new_email::begins(#[trigger] files[i], name)
    ||| exists|i: int|
        {
            &&& 0 <= i < files.len()
            &&& new_email::begins(#[trigger] files[i], name)
            &&& files[i].path == after
            &&& forall|j: int| 0 <= j < i ==> !new_email::begins(#[trigger] files[j], name)
        }
}

} // verus!
