//! What holds of every run, whatever it is told.

use std::path::PathBuf;
use vstd::prelude::*;

use crate::sync::changes;
use crate::sync::course;
use crate::sync::course::Course;
use crate::sync::download;
use crate::sync::download::{AttemptFailure, Download, Stage};
use crate::sync::error::Error;
use crate::sync::latest_state::{LatestState, StateFileWrite};
use crate::sync::new_email;
use crate::sync::new_email::NewEmail;
use crate::sync::protocol::{Action, DownloadFailure, Event, Settings};
use crate::sync::revision;
use crate::sync::revision::RevisionQuery;
use crate::sync::run::{Phase, Run};
use crate::sync::tags;

verus! {

/// With this event the run takes the lock.
pub open spec fn takes_lock<S>(run: Run<S>, event: Event<S>) -> bool {
    ||| run.phase is TryLock && (event matches Event::Locked { result: Ok(taken) } && taken)
    ||| run.phase is WaitForLock && (event matches Event::Ack { result: Ok(_) })
}

/// A run does nothing before it has the lock.
pub proof fn law_lock_comes_first<S>(
    course: Course<S>,
    settings: Settings,
    lock_path: PathBuf,
    state_path: PathBuf,
    n: int,
    action: Action<S>,
)
    requires
        course.valid(settings, lock_path, state_path),
        0 <= n < course.runs.len(),
        course.runs[n].requests(action),
        !(action is OpenLockFile),
        !(action is TryLock),
        !(action is WaitForLock),
        !(action is Finish),
    ensures
        exists|m: int|
            0 <= m < n && takes_lock(#[trigger] course.runs[m], course.events[m]),
{
    let m = course::lemma_gate(
        course,
        settings,
        lock_path,
        state_path,
        |run: Run<S>, event: Event<S>| takes_lock(run, event),
        |run: Run<S>| 3 <= run.stage() <= 33,
        n,
    );
    assert(takes_lock(course.runs[m], course.events[m]));
}

/// With this event the run learns which emails changed locally.
pub open spec fn learns_local_changes<S>(run: Run<S>, event: Event<S>) -> bool {
    run.phase is ListLocalUpdates && (event matches Event::LocalEmails { result: Ok(_) })
}

/// A run changes nothing, on either side, before it knows what changed locally.
pub proof fn law_local_changes_are_known_first<S>(
    course: Course<S>,
    settings: Settings,
    lock_path: PathBuf,
    state_path: PathBuf,
    n: int,
    action: Action<S>,
)
    requires
        course.valid(settings, lock_path, state_path),
        0 <= n < course.runs.len(),
        course.runs[n].requests(action),
        action.changes_database() || action.changes_maildir() || action.changes_server()
            || action is SaveState,
    ensures
        exists|m: int|
            0 <= m < n && learns_local_changes(#[trigger] course.runs[m], course.events[m]),
{
    let m = course::lemma_gate(
        course,
        settings,
        lock_path,
        state_path,
        |run: Run<S>, event: Event<S>| learns_local_changes(run, event),
        |run: Run<S>| 18 <= run.stage() <= 33,
        n,
    );
    assert(learns_local_changes(course.runs[m], course.events[m]));
}

/// The run stays away from everything that a dry run must not do.
spec fn is_dry<S>(run: Run<S>) -> bool {
    run.stage() <= 18 || run.stage() == 29 || run.stage() == 34
}

proof fn lemma_stays_dry<S>(run: Run<S>, event: Event<S>, next: Run<S>)
    requires
        course::steps(run, event, next),
        run.settings.dry_run,
        is_dry(run),
    ensures
        is_dry(next),
{
}

/// A dry run changes neither the database nor the maildir nor the server, opens
/// the database for reading only, and leaves no record.
pub proof fn law_dry_run_changes_nothing<S>(
    course: Course<S>,
    settings: Settings,
    lock_path: PathBuf,
    state_path: PathBuf,
    n: int,
    action: Action<S>,
)
    requires
        course.valid(settings, lock_path, state_path),
        settings.dry_run,
        0 <= n < course.runs.len(),
        course.runs[n].requests(action),
    ensures
        !action.changes_database(),
        !action.changes_maildir(),
        !action.changes_server(),
        !(action is SaveState),
        !(action is BeginAtomic),
        action matches Action::OpenLocal { read_only } ==> read_only,
{
    lemma_dry(course, settings, lock_path, state_path, n);
    course::lemma_onward(course, settings, lock_path, state_path, n, n);
}

proof fn lemma_dry<S>(
    course: Course<S>,
    settings: Settings,
    lock_path: PathBuf,
    state_path: PathBuf,
    n: int,
)
    requires
        course.valid(settings, lock_path, state_path),
        settings.dry_run,
        0 <= n < course.runs.len(),
    ensures
        is_dry(course.runs[n]),
    decreases n,
{
    if n > 0 {
        let k = n - 1;
        lemma_dry(course, settings, lock_path, state_path, k);
        course::lemma_onward(course, settings, lock_path, state_path, k, k);
        assert(course::steps(course.runs[k], course.events[k], course.runs[k + 1]));
        lemma_stays_dry(course.runs[k], course.events[k], course.runs[k + 1]);
    }
}

/// The run stays away from everything that a run that only pushes must not do.
spec fn is_push<S>(run: Run<S>) -> bool {
    run.stage() <= 17 || 27 <= run.stage() <= 32 || run.stage() == 34
}

proof fn lemma_stays_push<S>(run: Run<S>, event: Event<S>, next: Run<S>)
    requires
        course::steps(run, event, next),
        !run.settings.pull,
        is_push(run),
    ensures
        is_push(next),
{
}

proof fn lemma_push<S>(
    course: Course<S>,
    settings: Settings,
    lock_path: PathBuf,
    state_path: PathBuf,
    n: int,
)
    requires
        course.valid(settings, lock_path, state_path),
        !settings.pull,
        0 <= n < course.runs.len(),
    ensures
        is_push(course.runs[n]),
    decreases n,
{
    if n > 0 {
        let k = n - 1;
        lemma_push(course, settings, lock_path, state_path, k);
        course::lemma_onward(course, settings, lock_path, state_path, k, k);
        assert(course::steps(course.runs[k], course.events[k], course.runs[k + 1]));
        lemma_stays_push(course.runs[k], course.events[k], course.runs[k + 1]);
    }
}

/// A run that only pushes changes neither the database nor the maildir, and
/// opens the database for reading only.
pub proof fn law_push_leaves_mail_alone<S>(
    course: Course<S>,
    settings: Settings,
    lock_path: PathBuf,
    state_path: PathBuf,
    n: int,
    action: Action<S>,
)
    requires
        course.valid(settings, lock_path, state_path),
        !settings.pull,
        0 <= n < course.runs.len(),
        course.runs[n].requests(action),
    ensures
        !action.changes_database(),
        !action.changes_maildir(),
        !(action is BeginAtomic),
        action matches Action::OpenLocal { read_only } ==> read_only,
{
    lemma_push(course, settings, lock_path, state_path, n);
    course::lemma_onward(course, settings, lock_path, state_path, n, n);
}

/// With this event the atomic operation on the database has begun.
pub open spec fn begins_atomic<S>(run: Run<S>, event: Event<S>) -> bool {
    run.phase is BeginAtomic && (event matches Event::Ack { result: Ok(_) })
}

/// With this event the atomic operation on the database has ended.
pub open spec fn ends_atomic<S>(run: Run<S>, event: Event<S>) -> bool {
    run.phase is EndAtomic && (event matches Event::Ack { result: Ok(_) })
}

/// The database is changed only inside of an atomic operation: one has begun
/// before, and since then the run has not asked for its end.
pub proof fn law_database_changes_are_atomic<S>(
    course: Course<S>,
    settings: Settings,
    lock_path: PathBuf,
    state_path: PathBuf,
    n: int,
    action: Action<S>,
)
    requires
        course.valid(settings, lock_path, state_path),
        0 <= n < course.runs.len(),
        course.runs[n].requests(action),
        action.changes_database(),
    ensures
        exists|m: int|
            0 <= m < n && begins_atomic(#[trigger] course.runs[m], course.events[m]) && forall|
                k: int,
            |
                m < k <= n ==> !((#[trigger] course.runs[k]).phase is EndAtomic),
{
    let m = course::lemma_gate(
        course,
        settings,
        lock_path,
        state_path,
        |run: Run<S>, event: Event<S>| begins_atomic(run, event),
        |run: Run<S>| 21 <= run.stage() <= 24,
        n,
    );
    assert forall|k: int| m < k <= n implies !((#[trigger] course.runs[k]).phase is EndAtomic) by {
        course::lemma_onward(course, settings, lock_path, state_path, k, n);
    }
    assert(begins_atomic(course.runs[m], course.events[m]));
}

/// Mail files are moved into the maildir and removed from it only once the
/// atomic operation on the database has ended.
pub proof fn law_files_follow_the_database<S>(
    course: Course<S>,
    settings: Settings,
    lock_path: PathBuf,
    state_path: PathBuf,
    n: int,
    action: Action<S>,
)
    requires
        course.valid(settings, lock_path, state_path),
        0 <= n < course.runs.len(),
        course.runs[n].requests(action),
        action is MoveFile || action is RemoveFile,
    ensures
        exists|m: int|
            0 <= m < n && ends_atomic(#[trigger] course.runs[m], course.events[m]),
{
    let m = course::lemma_gate(
        course,
        settings,
        lock_path,
        state_path,
        |run: Run<S>, event: Event<S>| ends_atomic(run, event),
        |run: Run<S>| 25 <= run.stage() <= 26,
        n,
    );
    assert(ends_atomic(course.runs[m], course.events[m]));
}

/// The database operation is given up because of `error`.
pub open spec fn gives_up<S>(run: Run<S>, next: Run<S>, error: Error<S>) -> bool {
    &&& 20 <= run.stage() <= 24
    &&& next.phase == next.rolling_back(0, error)
}

/// If the database operation fails, every link is removed from the maildir, one
/// after the other and whether or not that works, and then the run fails with
/// the error that it failed with.
pub proof fn law_failed_commit_is_undone<S>(
    course: Course<S>,
    settings: Settings,
    lock_path: PathBuf,
    state_path: PathBuf,
    n: int,
    error: Error<S>,
    i: int,
)
    requires
        course.valid(settings, lock_path, state_path),
        0 <= n < course.events.len(),
        gives_up(course.runs[n], course.runs[n + 1], error),
        0 <= i,
        n + 1 + i < course.runs.len(),
    ensures
        i <= course.runs[n].new.len(),
        course.runs[n + 1 + i] == course.runs[n + 1].to(course.runs[n + 1].rolling_back(i, error)),
        course.runs[n + 1].new.keys == course.runs[n].new.keys,
    decreases i,
{
    course::law_run_hangs_together(course, settings, lock_path, state_path, n);
    assert(course::steps(course.runs[n], course.events[n], course.runs[n + 1]));
    assert(course.runs[n].fits());
    assert(course.runs[n + 1].fits());
    if i > 0 {
        law_failed_commit_is_undone(course, settings, lock_path, state_path, n, error, i - 1);
        let k = n + i;
        assert(course::steps(course.runs[k], course.events[k], course.runs[k + 1]));
    }
}

/// With this event the run has made its record.
pub open spec fn records<S>(run: Run<S>, event: Event<S>, state: LatestState) -> bool {
    &&& run.phase == Phase::<S>::SaveState { state }
    &&& event matches Event::StateSaved { outcome } && outcome is Written
}

/// A run that ends well has recorded, at its very end, the revision after the
/// one that the local database is at, and the server's state: the one that it
/// pulled, or if it only pushed the one that it began with.
pub proof fn law_success_is_recorded<S>(
    course: Course<S>,
    settings: Settings,
    lock_path: PathBuf,
    state_path: PathBuf,
    n: int,
)
    requires
        course.valid(settings, lock_path, state_path),
        !settings.dry_run,
        0 <= n < course.runs.len(),
        course.runs[n].phase == (Phase::<S>::Done { result: Ok(()) }),
    ensures
        n >= 2,
        course.runs[n - 2].phase is ReadFinalRevision,
        course.events[n - 2] matches Event::Revision { revision } && course.runs[n].server_state
            is Some && records(
            course.runs[n - 1],
            course.events[n - 1],
            LatestState {
                notmuch_revision: Some((revision + 1) as u64),
                jmap_state: if settings.pull {
                    course.runs[n].server_state
                } else {
                    course.runs[n].latest.jmap_state
                },
            },
        ),
{
    let k = n - 1;
    assert(course::steps(course.runs[k], course.events[k], course.runs[k + 1]));
    course::lemma_onward(course, settings, lock_path, state_path, k, k);
    course::lemma_facts(course, settings, lock_path, state_path, k);
    assert(course.runs[k].phase is SaveState);
    let j = n - 2;
    assert(course::steps(course.runs[j], course.events[j], course.runs[j + 1]));
    course::lemma_onward(course, settings, lock_path, state_path, j, j);
    course::lemma_facts(course, settings, lock_path, state_path, j);
}

/// A run that fails has recorded nothing; unless it is the record itself that
/// failed, it has not even tried.
pub proof fn law_failure_is_not_recorded<S>(
    course: Course<S>,
    settings: Settings,
    lock_path: PathBuf,
    state_path: PathBuf,
    n: int,
    error: Error<S>,
    m: int,
    state: LatestState,
)
    requires
        course.valid(settings, lock_path, state_path),
        0 <= m < n < course.runs.len(),
        course.runs[n].phase == (Phase::<S>::Done { result: Err(error) }),
    ensures
        !records(course.runs[m], course.events[m], state),
        course.runs[m].phase is SaveState ==> m == n - 1,
{
    if course.runs[m].phase is SaveState {
        assert(course::steps(course.runs[m], course.events[m], course.runs[m + 1]));
        course::lemma_onward(course, settings, lock_path, state_path, m + 1, n);
    }
}

/// At the record a run comes to its end: well if and only if the state file is
/// written, else with the error of that file that tells whether it could not be
/// created or could not be written.
pub proof fn law_record_decides_the_end<S>(
    course: Course<S>,
    settings: Settings,
    lock_path: PathBuf,
    state_path: PathBuf,
    n: int,
)
    requires
        course.valid(settings, lock_path, state_path),
        0 <= n < course.events.len(),
        course.runs[n].phase is SaveState,
    ensures
        n + 2 == course.runs.len(),
        course.runs[n + 1].phase matches Phase::Done { result } && match result {
            Ok(_) => course.events[n] == (Event::<S>::StateSaved {
                outcome: StateFileWrite::Written,
            }),
            Err(Error::CreateStateFile { filename, source }) => filename == state_path
                && course.events[n] == (Event::<S>::StateSaved {
                outcome: StateFileWrite::Uncreated(source),
            }),
            Err(Error::WriteStateFile { filename, source }) => filename == state_path
                && course.events[n] == (Event::<S>::StateSaved {
                outcome: StateFileWrite::Unwritten(source),
            }),
            Err(_) => false,
        },
{
    assert(course::steps(course.runs[n], course.events[n], course.runs[n + 1]));
    course::lemma_onward(course, settings, lock_path, state_path, n, n);
    if n + 2 < course.runs.len() {
        course::lemma_onward(course, settings, lock_path, state_path, n + 1, n + 2);
    }
}

/// At the downloads a run fails only because the threads could not be started or
/// because an email could not be read or put into the cache, and its error tells
/// which.
pub proof fn law_download_errors_tell_the_cause<S>(run: Run<S>, event: Event<S>, next: Run<S>)
    requires
        course::steps(run, event, next),
        run.phase is Download,
    ensures
        next.phase matches Phase::Done { result: Err(error) } ==> (match error {
            Error::CreateDownloadThreadPool { source } => event == (Event::<S>::Downloaded {
                result: Err(DownloadFailure::ThreadPool { source }),
            }),
            Error::DownloadRemoteEmail { source } => event == (Event::<S>::Downloaded {
                result: Err(DownloadFailure::Email { failure: AttemptFailure::Read { source } }),
            }),
            Error::CacheNewEmail { source } => event == (Event::<S>::Downloaded {
                result: Err(DownloadFailure::Email { failure: AttemptFailure::Store { source } }),
            }),
            _ => false,
        }),
        next.phase matches Phase::Done { result } ==> result is Err,
{
}

/// A run that is told of a download that was given up fails with the error of
/// the last attempt that the limit allowed.
pub proof fn law_given_up_download_stops_the_run<S>(
    run: Run<S>,
    next: Run<S>,
    email: &NewEmail,
    outcomes: Seq<(Result<(), S>, Result<(), S>)>,
    failure: AttemptFailure<S>,
)
    requires
        run.phase is Download,
        0 < run.settings.downloads.retries <= outcomes.len() < usize::MAX,
        forall|i: int| 0 <= i < outcomes.len() ==> download::fails(#[trigger] outcomes[i]),
        Download::<S>::start(email, run.settings.downloads).attempts(outcomes).stage == (
        Stage::Failed { failure }),
        course::steps(
            run,
            Event::Downloaded { result: Err(DownloadFailure::Email { failure }) },
            next,
        ),
    ensures
        next.phase == (Phase::<S>::Done {
            result: Err(
                download::failure_of(outcomes[run.settings.downloads.retries - 1]).as_error(),
            ),
        }),
{
    download::law_download_gives_up(email, run.settings.downloads, outcomes);
}

/// With this event the server has taken the local changes.
pub open spec fn pushes<S>(run: Run<S>, event: Event<S>) -> bool {
    run.phase is PushChanges && (event matches Event::Ack { result: Ok(_) })
}

/// Nothing is recorded before the local changes are pushed.
pub proof fn law_push_precedes_record<S>(
    course: Course<S>,
    settings: Settings,
    lock_path: PathBuf,
    state_path: PathBuf,
    n: int,
    action: Action<S>,
)
    requires
        course.valid(settings, lock_path, state_path),
        0 <= n < course.runs.len(),
        course.runs[n].requests(action),
        action is SaveState,
    ensures
        exists|m: int| 0 <= m < n && pushes(#[trigger] course.runs[m], course.events[m]),
{
    let m = course::lemma_gate(
        course,
        settings,
        lock_path,
        state_path,
        |run: Run<S>, event: Event<S>| pushes(run, event),
        |run: Run<S>| 31 <= run.stage() <= 32,
        n,
    );
    assert(pushes(course.runs[m], course.events[m]));
}

/// Local changes win: an email whose tags are overwritten with those of the
/// server is none of those that are pushed.
pub proof fn law_local_changes_win<S>(
    course: Course<S>,
    settings: Settings,
    lock_path: PathBuf,
    state_path: PathBuf,
    m: int,
    i: usize,
    n: int,
    action: Action<S>,
)
    requires
        course.valid(settings, lock_path, state_path),
        0 <= m < course.runs.len(),
        course.runs[m].phase == (Phase::<S>::UpdateTags { i }),
        0 <= n < course.runs.len(),
        course.runs[n].requests(action),
    ensures
        action matches Action::PushChanges { emails, mailboxes } ==> !emails@.contains(
            course.runs[m].tagged(i as int).id@,
        ),
{
    if action is PushChanges {
        if n <= m {
            course::lemma_onward(course, settings, lock_path, state_path, n, m);
        }
        course::lemma_settled(course, settings, lock_path, state_path, m, n);
        course::lemma_facts(course, settings, lock_path, state_path, m);
        assert(course.runs[m].fits());
        let remote = course.runs[m].remote;
        let updated_local = course.runs[m].updated_local;
        new_email::lemma_places(
            remote.len(),
            |p: usize| !updated_local.contains(remote[p as int].id@),
        );
    }
}

/// An email that is no longer on the server is not pushed to it.
pub proof fn law_destroyed_emails_are_not_pushed<S>(
    course: Course<S>,
    settings: Settings,
    lock_path: PathBuf,
    state_path: PathBuf,
    n: int,
    action: Action<S>,
    key: Seq<char>,
)
    requires
        course.valid(settings, lock_path, state_path),
        0 <= n < course.runs.len(),
        course.runs[n].requests(action),
        course.runs[n].destroyed.contains(key),
    ensures
        action matches Action::PushChanges { emails, mailboxes } ==> !emails@.contains(key),
{
    course::lemma_facts(course, settings, lock_path, state_path, n);
    assert(course.runs[n].updated_local.contains(key) ==> !course.runs[n].destroyed.contains(key));
}

impl<S> Run<S> {
    /// How many steps there are at most before the run gets to another stage.
    pub open spec fn left(self) -> int {
        match self.phase {
            Phase::Locate { i } => self.fresh.len() - i,
            Phase::SearchRevision { query } => match query {
                RevisionQuery::Warn { .. } => 3,
                RevisionQuery::Confirm | RevisionQuery::Refuse => 2,
                _ => 1,
            },
            Phase::CheckMaildirFile { i } => 3 * (self.new.len() - i) + 2,
            Phase::RemoveUnindexedFile { i } => 3 * (self.new.len() - i) + 1,
            Phase::MakeSymlink { i } => 3 * (self.new.len() - i),
            Phase::AddEmail { i } => self.new.len() - i,
            Phase::UpdateTags { i } => 3 * (self.to_tag.len() - i) + 2,
            Phase::ReportMissingEmail { i } => 3 * (self.to_tag.len() - i),
            Phase::NameFile { i } => 3 * (self.to_tag.len() - i) + 1,
            Phase::GetMessage { i, .. } => 3 * (self.to_tag.len() - i),
            Phase::RemoveEmail { i } => self.destroyed_local.len() - i,
            Phase::MoveFile { i } => self.new.len() - i,
            Phase::RemoveFile { i } => self.destroyed_local.len() - i,
            Phase::RollBack { i, .. } => self.new.len() - i,
            _ => 0,
        }
    }
}

/// Every run ends: with each step it gets to a later stage, of which there are
/// finitely many, or has fewer steps left in its stage.
pub proof fn law_every_run_ends<S>(run: Run<S>, event: Event<S>, next: Run<S>)
    requires
        run.inv(),
        run.fits(),
        next.fits(),
        course::steps(run, event, next),
    ensures
        0 <= run.stage() <= 34,
        0 <= run.left(),
        next.stage() > run.stage() || next.stage() == run.stage() && next.left() < run.left(),
{
    run.new.lemma_listed();
    assert(run.phase is GetMessage ==> run.new.keys.contains(run.tagged(run.place()).id@));
}

/// Over any number of steps, too, a run gets closer to its end.
pub proof fn lemma_gets_closer<S>(
    course: Course<S>,
    settings: Settings,
    lock_path: PathBuf,
    state_path: PathBuf,
    m: int,
    n: int,
)
    requires
        course.valid(settings, lock_path, state_path),
        0 <= m < n < course.runs.len(),
    ensures
        course.runs[n].stage() > course.runs[m].stage() || course.runs[n].stage()
            == course.runs[m].stage() && course.runs[n].left() < course.runs[m].left(),
    decreases n,
{
    let k = n - 1;
    course::law_run_hangs_together(course, settings, lock_path, state_path, k);
    assert(course::steps(course.runs[k], course.events[k], course.runs[k + 1]));
    assert(course.runs[k].fits());
    assert(course.runs[k + 1].fits());
    law_every_run_ends(course.runs[k], course.events[k], course.runs[k + 1]);
    if m < k {
        lemma_gets_closer(course, settings, lock_path, state_path, m, k);
    }
}

/// What a run has read of the last one stays as it is.
proof fn lemma_latest<S>(
    course: Course<S>,
    settings: Settings,
    lock_path: PathBuf,
    state_path: PathBuf,
    m: int,
    n: int,
)
    requires
        course.valid(settings, lock_path, state_path),
        0 <= m <= n < course.runs.len(),
        course.runs[m].stage() >= 4,
    ensures
        course.runs[n].latest == course.runs[m].latest,
    decreases n,
{
    if m < n {
        let k = n - 1;
        lemma_latest(course, settings, lock_path, state_path, m, k);
        course::lemma_onward(course, settings, lock_path, state_path, m, k);
        assert(course::steps(course.runs[k], course.events[k], course.runs[k + 1]));
    }
}

/// A run that reads what an earlier one recorded goes on where that one ended: it
/// asks the local database for the changes after the revision at which that one
/// ended, and the server for the changes since the state that that one saw, or
/// began with if it only pushed. It looks at all the server's emails only where
/// there is no such state or the server is of no help with it.
pub proof fn law_run_resumes_where_the_last_ended<S, T>(
    earlier: Course<S>,
    earlier_settings: Settings,
    m: int,
    revision: u64,
    course: Course<T>,
    settings: Settings,
    lock_path: PathBuf,
    state_path: PathBuf,
    k: int,
    state: LatestState,
    n: int,
    action: Action<T>,
)
    requires
        earlier.valid(earlier_settings, lock_path, state_path),
        !earlier_settings.dry_run,
        2 <= m < earlier.runs.len(),
        earlier.runs[m].phase == (Phase::<S>::Done { result: Ok(()) }),
        earlier.events[m - 2] == (Event::<S>::Revision { revision }),
        records(earlier.runs[m - 1], earlier.events[m - 1], state),
        course.valid(settings, lock_path, state_path),
        0 <= k < n < course.runs.len(),
        course.events[k] == (Event::<T>::StateRead { result: Ok(state) }),
        course.runs[n].requests(action),
    ensures
        action matches Action::ListLocalUpdates { since } ==> since == revision + 1,
        action matches Action::ListChanges { since } ==> Some(*since) == if earlier_settings.pull {
            earlier.runs[m].server_state
        } else {
            earlier.runs[m].latest.jmap_state
        },
        earlier_settings.pull && action is ListRemoteIds ==> course.runs[n - 1].phase
            is ListChanges,
{
    law_success_is_recorded(earlier, earlier_settings, lock_path, state_path, m);
    let e = m - 2;
    assert(course::steps(earlier.runs[e], earlier.events[e], earlier.runs[e + 1]));
    assert(course::steps(course.runs[k], course.events[k], course.runs[k + 1]));
    lemma_latest(course, settings, lock_path, state_path, k + 1, n);
    course::lemma_facts(course, settings, lock_path, state_path, n);
    let j = n - 1;
    assert(course::steps(course.runs[j], course.events[j], course.runs[j + 1]));
    if k < j {
        lemma_latest(course, settings, lock_path, state_path, k + 1, j);
    }
}

/// A full sync misses nothing: every local email is among those that may have
/// changed or among those that are no longer on the server, and never in both.
pub proof fn law_full_sync_misses_nothing<S>(
    run: Run<S>,
    event: Event<S>,
    next: Run<S>,
    key: Seq<char>,
)
    requires
        run.inv(),
        course::steps(run, event, next),
        run.phase is ListRemoteIds,
        next.phase is ReportMetadata,
    ensures
        run.local.contains(key) ==> (next.updated.contains(key) <==> !next.destroyed.contains(key)),
        next.destroyed.contains(key) ==> run.local.contains(key),
{
    changes::lemma_not_among(run.local, next.updated);
    assert(next.destroyed.contains(key) <==> run.local.contains(key) && !next.updated.contains(
        key,
    ));
}

/// With this event the run learns that every one of `tags` that needs a mailbox
/// has one.
pub open spec fn finds_mailboxes<S>(run: Run<S>, event: Event<S>) -> bool {
    &&& run.phase is ListTags
    &&& event matches Event::Tags { result: Ok(tags) }
    &&& tags::without_mailbox(tags@, run.settings.tags, run.mailboxes).len() == 0
}

/// With this event the mailboxes are created that were missing.
pub open spec fn creates_mailboxes<S>(run: Run<S>, event: Event<S>) -> bool {
    run.phase is CreateMailboxes && (event matches Event::GotMailboxes { result: Ok(_) })
}

/// Nothing is pushed before every tag that needs a mailbox has one: either none
/// was missing, or those that were have been created.
pub proof fn law_mailboxes_precede_push<S>(
    course: Course<S>,
    settings: Settings,
    lock_path: PathBuf,
    state_path: PathBuf,
    n: int,
    action: Action<S>,
)
    requires
        course.valid(settings, lock_path, state_path),
        0 <= n < course.runs.len(),
        course.runs[n].requests(action),
        action is PushChanges,
    ensures
        exists|m: int|
            0 <= m < n && (finds_mailboxes(#[trigger] course.runs[m], course.events[m])
                || creates_mailboxes(course.runs[m], course.events[m])),
{
    course::lemma_onward(course, settings, lock_path, state_path, n, n);
    if settings.dry_run {
        law_dry_run_changes_nothing(course, settings, lock_path, state_path, n, action);
    }
    let m = course::lemma_gate(
        course,
        settings,
        lock_path,
        state_path,
        |run: Run<S>, event: Event<S>|
            finds_mailboxes(run, event) || creates_mailboxes(run, event),
        |run: Run<S>| 29 <= run.stage() <= 30 && !run.settings.dry_run,
        n,
    );
    assert(finds_mailboxes(course.runs[m], course.events[m]) || creates_mailboxes(
        course.runs[m],
        course.events[m],
    ));
}

/// The mailboxes that are created are those that were missing, and they are
/// created only if the settings say so.
pub proof fn law_missing_mailboxes_are_created<S>(
    course: Course<S>,
    settings: Settings,
    lock_path: PathBuf,
    state_path: PathBuf,
    n: int,
    action: Action<S>,
)
    requires
        course.valid(settings, lock_path, state_path),
        0 <= n < course.runs.len(),
        course.runs[n].requests(action),
    ensures
        action matches Action::CreateMailboxes { tags, mailboxes } ==> {
            &&& settings.auto_create_new_mailboxes
            &&& n > 0
            &&& course.runs[n - 1].phase is ListTags
            &&& course.events[n - 1] matches Event::Tags { result: Ok(all) }
            &&& tags@ == tags::without_mailbox(all@, settings.tags, *mailboxes)
            &&& tags@.len() > 0
        },
{
    if action is CreateMailboxes {
        let k = n - 1;
        assert(course::steps(course.runs[k], course.events[k], course.runs[k + 1]));
        course::lemma_onward(course, settings, lock_path, state_path, k, k);
    }
}

/// With this event the user is not there or does not agree to go on without a
/// recorded revision.
pub open spec fn refuses<S>(run: Run<S>, event: Event<S>) -> bool {
    &&& run.phase is SearchRevision
    &&& event is Ack || (event matches Event::Answer { answer } && !revision::is_yes(answer@))
}

/// With this event the run learns of tags that lack a mailbox, and must not
/// create any.
pub open spec fn lacks_mailboxes<S>(run: Run<S>, event: Event<S>) -> bool {
    &&& run.phase is ListTags
    &&& !run.settings.auto_create_new_mailboxes
    &&& event matches Event::Tags { result: Ok(tags) }
    &&& tags::without_mailbox(tags@, run.settings.tags, run.mailboxes).len() > 0
}

/// A run fails only for a cause: something that it asked for failed, the user did
/// not agree, a mailbox is missing, or the database lacks an email that it was
/// to have. That the record of the last run cannot be read, or that the server
/// cannot say what has changed, is none.
pub proof fn law_failure_has_a_cause<S>(run: Run<S>, event: Event<S>, next: Run<S>)
    requires
        course::steps(run, event, next),
        !(run.phase is RollBack),
        next.phase is RollBack || (next.phase matches Phase::Done { result: Err(_) }),
    ensures
        event.fails() || refuses(run, event) || lacks_mailboxes(run, event)
            || run.phase is ReportMissingEmail,
        !(event is StateRead),
        !(event is Changed),
{
}

/// A failure of anything that a run asked for stops it, but for the record of the
/// last run and for the server's list of changes, and but for the removal of the
/// links after a failure.
pub proof fn law_failures_stop_the_run<S>(run: Run<S>, event: Event<S>, next: Run<S>)
    requires
        course::steps(run, event, next),
        !(run.phase is RollBack),
        event.fails(),
    ensures
        next.phase is RollBack || (next.phase matches Phase::Done { result: Err(_) }),
{
}

} // verus!
