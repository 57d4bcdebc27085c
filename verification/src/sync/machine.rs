//! A run that is carried out: it says what to do next, and goes on with what
//! came of it.

use std::path::PathBuf;
use vstd::prelude::*;

use crate::jmap::{Id, IdMap, IdSet, State};
use crate::keyed::{Key, KeyMap, KeySet};
use crate::local;
use crate::remote;
use crate::remote::Mailboxes;
use crate::seqs;
use crate::sync::changes;
use crate::sync::changes::{Changes, ChangedIds};
use crate::sync::course;
use crate::sync::error::Error;
use crate::sync::latest_state::LatestState;
use crate::sync::new_email;
use crate::sync::new_email::{Location, MessageFile, NewEmail, NewFile};
use crate::sync::protocol::{
    Action, DownloadFailure, Event, FullSyncReason, Report, Settings,
};
use crate::sync::revision;
use crate::sync::revision::RevisionQuery;
use crate::sync::run::{Phase, Run};
use crate::sync::tags;

verus! {

/// The name of the lock file in the mail directory.
pub const LOCK_FILE_NAME: &'static str = "mujmap.lock";

/// One run of the synchronisation.
#[verifier::reject_recursive_types(S)]
pub struct SyncRun<S> {
    settings: Settings,
    lock_path: PathBuf,
    state_path: PathBuf,
    latest: LatestState,
    mailboxes: Mailboxes,
    local: IdMap<local::Email>,
    server_state: Option<State>,
    updated: IdSet,
    destroyed: IdSet,
    remote: Vec<remote::Email>,
    fresh: Vec<usize>,
    new: IdMap<NewFile>,
    updated_local: IdMap<local::Email>,
    to_tag: Vec<usize>,
    destroyed_local: Vec<Id>,
    new_local: IdMap<local::Email>,
    phase: Phase<S>,
}

impl<S> View for SyncRun<S> {
    type V = Run<S>;

    closed spec fn view(&self) -> Run<S> {
        Run {
            settings: self.settings,
            lock_path: self.lock_path,
            state_path: self.state_path,
            latest: self.latest,
            mailboxes: self.mailboxes,
            local: self.local@,
            server_state: self.server_state,
            updated: self.updated@,
            destroyed: self.destroyed@,
            remote: self.remote@,
            fresh: self.fresh@,
            new: self.new@,
            updated_local: self.updated_local@,
            to_tag: self.to_tag@,
            destroyed_local: ids_view(self.destroyed_local@),
            new_local: self.new_local@,
            phase: self.phase,
        }
    }
}

/// The texts of identifiers.
pub open spec fn ids_view(ids: Seq<Id>) -> Seq<Seq<char>> {
    Seq::new(ids.len(), |i: int| ids[i]@)
}

/// Begins a run. It is told where the lock file and the state file are.
pub fn sync<S>(settings: Settings, lock_path: PathBuf, state_path: PathBuf) -> (run: SyncRun<S>)
    ensures
        run@.starts(settings, lock_path, state_path),
{
    let local: IdMap<local::Email> = KeyMap::new();
    let updated: IdSet = KeySet::new();
    let destroyed: IdSet = KeySet::new();
    let new: IdMap<NewFile> = KeyMap::new();
    let updated_local: IdMap<local::Email> = KeyMap::new();
    let new_local: IdMap<local::Email> = KeyMap::new();
    proof {
        use_type_invariant(&local);
        local.lemma_wf();
        use_type_invariant(&new);
        new.lemma_wf();
        use_type_invariant(&updated_local);
        updated_local.lemma_wf();
        use_type_invariant(&new_local);
        new_local.lemma_wf();
    }
    let run = SyncRun {
        settings,
        lock_path,
        state_path,
        latest: LatestState::empty(),
        mailboxes: Mailboxes::new(),
        local,
        server_state: None,
        updated,
        destroyed,
        remote: Vec::new(),
        fresh: Vec::new(),
        new,
        updated_local,
        to_tag: Vec::new(),
        destroyed_local: Vec::new(),
        new_local,
        phase: Phase::OpenLockFile,
    };
    assert(run@.destroyed_local =~= Seq::empty());
    run
}

impl<S> SyncRun<S> {
    #[verifier::type_invariant]
    pub closed spec fn inv(self) -> bool {
        self@.inv()
    }

    /// The run with another phase.
    fn at(self, phase: Phase<S>) -> (next: Self)
        requires
            self@.to(phase).phase_inv(),
        ensures
            next@ == self@.to(phase),
    {
        proof {
            use_type_invariant(&self);
        }
        SyncRun { phase, ..self }
    }

    /// The run stopped by `error`.
    fn fail(self, error: Error<S>) -> (next: Self)
        ensures
            next@ == self@.fail(error),
    {
        self.at(Phase::Done { result: Err(error) })
    }

    fn listing(&self) -> (phase: Phase<S>)
        ensures
            phase == self@.listing(),
    {
        match self.latest.jmap_state {
            Some(_) => Phase::ListChanges,
            None => Phase::ListRemoteIds { reason: FullSyncReason::NoState },
        }
    }

    fn locating(&self, i: usize) -> (phase: Phase<S>)
        ensures
            phase == self@.locating(i as int),
            i <= self@.fresh.len() ==> self@.to(phase).phase_inv(),
    {
        if i < self.fresh.len() {
            Phase::Locate { i }
        } else if !new_email::missing_from_cache(&self.new).is_empty() {
            Phase::ReportDownload
        } else {
            self.searching(self.first_query())
        }
    }

    fn first_query(&self) -> (query: RevisionQuery)
        ensures
            query == self@.first_query(),
    {
        revision::get_notmuch_revision(
            self.local.is_empty(),
            self.latest.notmuch_revision,
            self.settings.dry_run,
        )
    }

    fn searching(&self, query: RevisionQuery) -> (phase: Phase<S>)
        ensures
            phase == self@.searching(query),
            self@.to(phase).phase_inv(),
    {
        match query {
            RevisionQuery::Known { revision } => Phase::ListLocalUpdates { since: revision },
            RevisionQuery::Missing => Phase::Done {
                result: Err(Error::MissingNotmuchDatabaseRevision {  }),
            },
            other => Phase::SearchRevision { query: other },
        }
    }

    fn publishing(&self) -> (phase: Phase<S>)
        ensures
            phase == self@.publishing(),
            self@.to(phase).phase_inv(),
    {
        if self.settings.dry_run {
            Phase::ReportPush
        } else {
            Phase::ListTags
        }
    }

    fn merging(&self) -> (phase: Phase<S>)
        ensures
            phase == self@.merging(),
            self@.to(phase).phase_inv(),
    {
        if self.settings.pull {
            Phase::ReportMerge
        } else {
            self.publishing()
        }
    }

    fn linking(&self, i: usize) -> (phase: Phase<S>)
        ensures
            phase == self@.linking(i as int),
            self@.to(phase).phase_inv(),
    {
        if i < self.new.len() {
            Phase::CheckMaildirFile { i }
        } else {
            Phase::BeginAtomic
        }
    }

    fn rolling_back(&self, i: usize, error: Error<S>) -> (phase: Phase<S>)
        ensures
            phase == self@.rolling_back(i as int, error),
            self@.to(phase).phase_inv(),
    {
        if i < self.new.len() {
            Phase::RollBack { i, error }
        } else {
            Phase::Done { result: Err(error) }
        }
    }

    fn removing(&self, i: usize) -> (phase: Phase<S>)
        ensures
            phase == self@.removing(i as int),
            self@.to(phase).phase_inv(),
    {
        if i < self.destroyed_local.len() {
            Phase::RemoveEmail { i }
        } else {
            Phase::EndAtomic
        }
    }

    fn local_email(&self, i: usize) -> (email: Option<&local::Email>)
        requires
            i < self@.to_tag.len(),
        ensures
            email matches Some(e) ==> self@.local_email(i as int) == Some(*e),
            email is None ==> self@.local_email(i as int) is None,
    {
        proof {
            use_type_invariant(self);
        }
        let id = self.remote[self.to_tag[i]].id.text();
        match self.new_local.get(id) {
            Some(email) => Some(email),
            None => self.local.get(id),
        }
    }

    fn tagging(&self, i: usize) -> (phase: Phase<S>)
        ensures
            phase == self@.tagging(i as int),
            self@.to(phase).phase_inv(),
    {
        if i < self.to_tag.len() {
            match self.local_email(i) {
                Some(_) => Phase::UpdateTags { i },
                None => Phase::ReportMissingEmail { i },
            }
        } else {
            self.removing(0)
        }
    }

    fn adding(&self, i: usize) -> (phase: Phase<S>)
        ensures
            phase == self@.adding(i as int),
            self@.to(phase).phase_inv(),
    {
        if i < self.new.len() {
            Phase::AddEmail { i }
        } else {
            self.tagging(0)
        }
    }

    fn deleting(&self, i: usize) -> (phase: Phase<S>)
        ensures
            phase == self@.deleting(i as int),
            self@.to(phase).phase_inv(),
    {
        if i < self.destroyed_local.len() {
            Phase::RemoveFile { i }
        } else {
            self.publishing()
        }
    }

    fn moving(&self, i: usize) -> (phase: Phase<S>)
        ensures
            phase == self@.moving(i as int),
            self@.to(phase).phase_inv(),
    {
        if i < self.new.len() {
            Phase::MoveFile { i }
        } else {
            self.deleting(0)
        }
    }

    /// The new email at place `i`.
    fn new_email(&self, i: usize) -> (email: NewEmail<'_>)
        requires
            i < self@.new.len(),
        ensures
            self@.is_new_email(email, i as int),
    {
        proof {
            use_type_invariant(self);
            self@.new.lemma_listed();
            assert(self@.new.contains(self@.new.keys[i as int]));
        }
        let file = self.new.value(i);
        NewEmail {
            remote_email: &self.remote[file.remote],
            cache_path: file.cache_path.clone(),
            maildir_path: file.maildir_path.clone(),
        }
    }

    /// The local email to remove at place `i`.
    fn doomed(&self, i: usize) -> (email: &local::Email)
        requires
            i < self@.destroyed_local.len(),
        ensures
            *email == self@.doomed(i as int),
    {
        proof {
            use_type_invariant(self);
            assert(self@.local.contains(self@.destroyed_local[i as int]));
        }
        self.local.get(self.destroyed_local[i].text()).unwrap()
    }

    /// The new emails to download.
    fn downloads(&self) -> (emails: Vec<NewEmail<'_>>)
        ensures
            self@.downloads(emails@),
    {
        let places = new_email::missing_from_cache(&self.new);
        proof {
            let all = new_email::indices(self@.new.len());
            let keep = |i: usize| !self@.new.at(i as int).cached;
            seqs::lemma_filter_members(all, keep);
            assert forall|j: int| 0 <= j < places@.len() implies (#[trigger] places@[j])
                < self@.new.len() by {
                assert(all.filter(keep).contains(places@[j]));
                assert(all.contains(places@[j]));
            }
        }
        let mut emails: Vec<NewEmail<'_>> = Vec::new();
        for j in 0..places.len()
            invariant
                forall|k: int|
                    0 <= k < places@.len() ==> (#[trigger] places@[k]) < self@.new.len(),
                emails@.len() == j,
                forall|k: int|
                    0 <= k < j ==> self@.is_new_email(#[trigger] emails@[k], places@[k] as int),
        {
            emails.push(self.new_email(places[j]));
        }
        emails
    }

    /// What the run knows hangs together and can be counted.
    fn counts(&self)
        ensures
            self@.inv(),
            self@.fits(),
    {
        proof {
            use_type_invariant(self);
            use_type_invariant(&self.new);
            self.new.lemma_wf();
            assert(self.remote.len() == self@.remote.len());
            assert(self.fresh.len() == self@.fresh.len());
            assert(self.to_tag.len() == self@.to_tag.len());
            assert(self.destroyed_local.len() == self@.destroyed_local.len());
        }
    }

    /// What to do next.
    pub fn action(&self) -> (action: Action<'_, S>)
        ensures
            self@.requests(action),
    {
        proof {
            use_type_invariant(self);
            self@.new.lemma_listed();
        }
        match &self.phase {
            Phase::OpenLockFile => Action::OpenLockFile { path: &self.lock_path },
            Phase::TryLock => Action::TryLock,
            Phase::WaitForLock => Action::WaitForLock,
            Phase::ReadState => Action::ReadState { filename: &self.state_path },
            Phase::OpenLocal => Action::OpenLocal {
                read_only: self.settings.dry_run || !self.settings.pull,
            },
            Phase::OpenCache => Action::OpenCache,
            Phase::OpenRemote => Action::OpenRemote,
            Phase::GetMailboxes => Action::GetMailboxes,
            Phase::ListLocalEmails => Action::ListLocalEmails,
            Phase::ListChanges => Action::ListChanges {
                since: self.latest.jmap_state.as_ref().unwrap(),
            },
            Phase::ListRemoteIds { reason } => Action::ListRemoteIds { reason },
            Phase::ReportMetadata => Action::Report {
                report: Report::Metadata { possibly_changed: self.updated.len() },
            },
            Phase::GetRemoteEmails => Action::GetRemoteEmails {
                ids: &self.updated,
                mailboxes: &self.mailboxes,
            },
            Phase::Locate { i } => Action::Locate { email: &self.remote[self.fresh[*i]] },
            Phase::ReportDownload => Action::Report { report: Report::Download },
            Phase::Download => Action::Download {
                emails: self.downloads(),
                settings: &self.settings.downloads,
            },
            Phase::SearchRevision { query } => match query {
                RevisionQuery::Warn { dry_run } => Action::WarnRevisionLost { dry_run: *dry_run },
                RevisionQuery::Confirm => Action::ConfirmRevision,
                RevisionQuery::Refuse => Action::RefuseRevision,
                _ => Action::ReadRevision,
            },
            Phase::ListLocalUpdates { since } => Action::ListLocalUpdates { since: *since },
            Phase::ReportMerge => Action::Report {
                report: Report::Merge {
                    new: self.new.len(),
                    changed: self.remote.len(),
                    destroyed: self.destroyed.len(),
                },
            },
            Phase::CheckMaildirFile { i } => Action::CheckMaildirFile {
                path: &self.new.value(*i).maildir_path,
            },
            Phase::RemoveUnindexedFile { i } => Action::RemoveUnindexedFile {
                path: &self.new.value(*i).maildir_path,
            },
            Phase::MakeSymlink { i } => Action::MakeSymlink {
                from: &self.new.value(*i).cache_path,
                to: &self.new.value(*i).maildir_path,
            },
            Phase::BeginAtomic => Action::BeginAtomic,
            Phase::AddEmail { i } => Action::AddEmail { email: self.new_email(*i) },
            Phase::UpdateTags { i } => Action::UpdateTags {
                email: self.local_email(*i).unwrap(),
                tags: remote::tags_of(&self.remote[self.to_tag[*i]], &self.mailboxes),
            },
            Phase::ReportMissingEmail { i } => Action::ReportMissingEmail {
                id: &self.remote[self.to_tag[*i]].id,
            },
            Phase::NameFile { i } => Action::NameFile {
                path: &self.new.get(self.remote[self.to_tag[*i]].id.text()).unwrap().maildir_path,
            },
            Phase::GetMessage { i, .. } => Action::GetMessage {
                message_id: &self.local_email(*i).unwrap().message_id,
            },
            Phase::RemoveEmail { i } => Action::RemoveEmail { email: self.doomed(*i) },
            Phase::EndAtomic => Action::EndAtomic,
            Phase::RollBack { i, .. } => Action::RemoveSymlink {
                path: &self.new.value(*i).maildir_path,
            },
            Phase::MoveFile { i } => Action::MoveFile {
                from: &self.new.value(*i).cache_path,
                to: &self.new.value(*i).maildir_path,
            },
            Phase::RemoveFile { i } => Action::RemoveFile { path: &self.doomed(*i).path },
            Phase::ListTags => Action::ListTags,
            Phase::CreateMailboxes { tags } => Action::CreateMailboxes {
                tags,
                mailboxes: &self.mailboxes,
            },
            Phase::ReportPush => Action::Report {
                report: Report::Push { changed: self.updated_local.len() },
            },
            Phase::PushChanges => Action::PushChanges {
                emails: &self.updated_local,
                mailboxes: &self.mailboxes,
            },
            Phase::ReadFinalRevision => Action::ReadRevision,
            Phase::SaveState { state } => Action::SaveState { filename: &self.state_path, state },
            Phase::Done { .. } => Action::Finish,
        }
    }

    /// Goes on after an operation of the setup that brings nothing.
    fn acknowledge_setup(self, result: Result<(), S>) -> (next: Self)
        requires
            self@.phase is OpenLockFile || self@.phase is WaitForLock || self@.phase is OpenLocal
                || self@.phase is OpenCache || self@.phase is OpenRemote,
        ensures
            next@ == self@.after_setup(Event::Ack { result }),
    {
        proof {
            use_type_invariant(&self);
        }
        match result {
            Ok(_) => {
                let phase = match self.phase {
                    Phase::OpenLockFile => Phase::TryLock,
                    Phase::WaitForLock => Phase::ReadState,
                    Phase::OpenLocal => Phase::OpenCache,
                    Phase::OpenCache => Phase::OpenRemote,
                    _ => Phase::GetMailboxes,
                };
                self.at(phase)
            },
            Err(source) => {
                let error = match self.phase {
                    Phase::OpenLockFile => Error::OpenLockFile {
                        path: self.lock_path.clone(),
                        source,
                    },
                    Phase::WaitForLock => Error::Lock { source },
                    Phase::OpenLocal => Error::OpenLocal { source },
                    Phase::OpenCache => Error::OpenCache { source },
                    _ => Error::OpenRemote { source },
                };
                self.fail(error)
            },
        }
    }

    /// Goes on with the state of the last run, or without any if it could not be
    /// read.
    fn take_state(self, result: Result<LatestState, Error<S>>) -> (next: Self)
        requires
            self@.phase is ReadState,
        ensures
            next@ == self@.after_setup(Event::StateRead { result }),
    {
        proof {
            use_type_invariant(&self);
        }
        let latest = match result {
            Ok(latest) => latest,
            Err(_) => LatestState::empty(),
        };
        SyncRun { latest, phase: Phase::OpenLocal, ..self }
    }

    /// Goes on with the server's mailboxes.
    fn take_mailboxes(self, result: Result<Mailboxes, S>) -> (next: Self)
        requires
            self@.phase is GetMailboxes,
        ensures
            next@ == self@.after_setup(Event::GotMailboxes { result }),
    {
        proof {
            use_type_invariant(&self);
        }
        match result {
            Ok(mailboxes) => SyncRun { mailboxes, phase: Phase::ListLocalEmails, ..self },
            Err(source) => self.fail(Error::IndexMailboxes { source }),
        }
    }

    /// Goes on with the emails of the local database.
    fn take_local_emails(self, result: Result<IdMap<local::Email>, S>) -> (next: Self)
        requires
            self@.phase is ListLocalEmails,
        ensures
            next@ == self@.after_setup(Event::LocalEmails { result }),
    {
        proof {
            use_type_invariant(&self);
        }
        match result {
            Ok(emails) => {
                proof {
                    use_type_invariant(&emails);
                    emails.lemma_wf();
                }
                let phase = self.listing();
                SyncRun { local: emails, phase, ..self }
            },
            Err(source) => self.fail(Error::IndexLocalEmails { source }),
        }
    }

    /// Takes in which emails to look at.
    fn take_ids(self, ids: ChangedIds) -> (next: Self)
        requires
            self@.is_early(),
        ensures
            next@ == self@.with_ids(ids.state, ids.updated@, ids.destroyed@),
    {
        let ChangedIds { state, updated, destroyed } = ids;
        proof {
            use_type_invariant(&self);
            use_type_invariant(&updated);
            updated.lemma_distinct();
            use_type_invariant(&destroyed);
            destroyed.lemma_distinct();
        }
        SyncRun {
            server_state: Some(state),
            updated,
            destroyed,
            phase: Phase::ReportMetadata,
            ..self
        }
    }

    /// Goes on with what changed on the server.
    fn take_changes(self, result: Result<Changes, S>) -> (next: Self)
        requires
            self@.phase is ListChanges,
        ensures
            next@ == self@.after_fetch(Event::Changed { result }),
    {
        proof {
            use_type_invariant(&self);
        }
        match result {
            Ok(changes) => match changes::resolve(changes, &self.local) {
                Some(ids) => self.take_ids(ids),
                None => self.at(Phase::ListRemoteIds { reason: FullSyncReason::UnknownUpdate }),
            },
            Err(source) => self.at(
                Phase::ListRemoteIds { reason: FullSyncReason::ChangesFailed { source } },
            ),
        }
    }

    /// Goes on with the list of all the server's emails.
    fn take_remote_ids(self, result: Result<(State, IdSet), S>) -> (next: Self)
        requires
            self@.phase is ListRemoteIds,
        ensures
            next@ == self@.after_fetch(Event::RemoteIds { result }),
    {
        match result {
            Ok((state, ids)) => {
                let ids = changes::full_sync(state, ids, &self.local);
                self.take_ids(ids)
            },
            Err(source) => self.fail(Error::IndexRemoteEmails { source }),
        }
    }

    /// Goes on with the properties of the server's emails.
    fn take_remote_emails(self, result: Result<IdMap<remote::Email>, S>) -> (next: Self)
        requires
            self@.phase is GetRemoteEmails,
        ensures
            next@ == self@.after_fetch(Event::RemoteEmails { result }),
    {
        proof {
            use_type_invariant(&self);
        }
        match result {
            Ok(emails) => {
                let remote = emails.into_values();
                let fresh = new_email::find_new(&remote, &self.local);
                proof {
                    new_email::lemma_places(
                        remote.len() as nat,
                        |i: usize| new_email::is_new(remote@[i as int], self@.local),
                    );
                    self@.new.lemma_listed();
                    assert forall|key: Seq<char>| !self@.new.contains(key) by {
                        if self@.new.keys.contains(key) {
                        }
                    }
                }
                let next = SyncRun { remote, fresh, ..self };
                let phase = next.locating(0);
                next.at(phase)
            },
            Err(source) => self.fail(Error::GetRemoteEmails { source }),
        }
    }

    /// Goes on with where the files of the new email at place `i` are to be.
    fn take_location(self, i: usize, location: Location) -> (next: Self)
        requires
            self@.phase == (Phase::<S>::Locate { i }),
        ensures
            next@ == self@.after_fetch(Event::Located { location }),
    {
        proof {
            use_type_invariant(&self);
        }
        let place = self.fresh[i];
        let id = self.remote[place].id.clone();
        let ghost before = self@;
        let mut new = self.new;
        let file = NewFile {
            remote: place,
            cache_path: location.cache_path,
            maildir_path: location.maildir_path,
            cached: location.cached,
        };
        proof {
            before.new.lemma_insert(id@, file);
        }
        new.insert(id, file);
        proof {
            assert forall|key: Seq<char>| #[trigger] new@.contains(key) implies new@.map[key].remote
                < before.remote.len() && before.remote[new@.map[key].remote as int].id@ == key by {
                if key != before.remote[place as int].id@ {
                    assert(before.new.contains(key));
                }
            }
            assert(i < self.fresh.len());
        }
        let next = SyncRun { new, ..self };
        let phase = next.locating(i + 1);
        next.at(phase)
    }

    /// Goes on with what came of the downloads.
    fn take_downloads(self, result: Result<(), DownloadFailure<S>>) -> (next: Self)
        requires
            self@.phase is Download,
        ensures
            next@ == self@.after_fetch(Event::Downloaded { result }),
    {
        match result {
            Ok(_) => {
                let phase = self.searching(self.first_query());
                self.at(phase)
            },
            Err(DownloadFailure::ThreadPool { source }) => self.fail(
                Error::CreateDownloadThreadPool { source },
            ),
            Err(DownloadFailure::Email { failure }) => self.fail(failure.into_error()),
        }
    }

    /// Goes on with the search for the revision.
    fn search(self, query: RevisionQuery) -> (next: Self)
        ensures
            next@ == self@.to(self@.searching(query)),
    {
        let phase = self.searching(query);
        self.at(phase)
    }

    /// Goes on with the emails that changed locally.
    fn take_local_updates(self, result: Result<IdMap<local::Email>, S>) -> (next: Self)
        requires
            self@.phase is ListLocalUpdates,
        ensures
            next@ == self@.after_fetch(Event::LocalEmails { result }),
    {
        proof {
            use_type_invariant(&self);
        }
        match result {
            Ok(emails) => {
                let updated_local = emails.without(&self.destroyed);
                let to_tag = new_email::find_unchanged_offline(&self.remote, &updated_local);
                proof {
                    use_type_invariant(&updated_local);
                    updated_local.lemma_wf();
                    new_email::lemma_places(
                        self.remote.len() as nat,
                        |i: usize| !updated_local@.contains(self@.remote[i as int].id@),
                    );
                }
                let phase = self.merging();
                SyncRun { updated_local, to_tag, phase, ..self }
            },
            Err(source) => self.fail(Error::IndexLocalUpdatedEmails { source }),
        }
    }

    /// Goes on once it is said that the database is about to be changed.
    fn begin_merge(self, result: Result<(), S>) -> (next: Self)
        requires
            self@.phase is ReportMerge,
        ensures
            next@ == self@.after_commit(Event::Ack { result }),
    {
        proof {
            use_type_invariant(&self);
        }
        if let Err(source) = result {
            return self.fail(Error::Log { source });
        }
        if self.settings.dry_run {
            let phase = self.publishing();
            return self.at(phase);
        }
        let mut destroyed_local: Vec<Id> = Vec::new();
        let ghost keys = self@.destroyed;
        let ghost keep = |key: Seq<char>| self@.local.contains(key);
        proof {
            seqs::lemma_filter_none(keys, keep);
            assert(ids_view(destroyed_local@) =~= keys.take(0).filter(keep));
        }
        let count: usize = self.destroyed.len();
        for i in 0..count
            invariant
                count == self.destroyed@.len(),
                keys == self.destroyed@,
                keep == (|key: Seq<char>| self@.local.contains(key)),
                self@.local == self.local@,
                ids_view(destroyed_local@) == keys.take(i as int).filter(keep),
        {
            proof {
                seqs::lemma_filter_next(keys, keep, i as int);
            }
            let id = self.destroyed.item(i);
            let ghost before = destroyed_local@;
            if self.local.contains_key(id.text()) {
                destroyed_local.push(id.clone());
                assert(ids_view(destroyed_local@) =~= ids_view(before).push(id@));
            }
        }
        proof {
            assert(keys.take(count as int) =~= keys);
            seqs::lemma_filter_members(keys, keep);
            assert forall|j: int|
                0 <= j < ids_view(destroyed_local@).len() implies self@.local.contains(
                #[trigger] ids_view(destroyed_local@)[j],
            ) by {
                assert(keys.filter(keep).contains(ids_view(destroyed_local@)[j]));
            }
        }
        let phase = self.linking(0);
        SyncRun { destroyed_local, phase, ..self }
    }

    /// Goes on after an operation on a file of the new email at place `i` that
    /// brings nothing.
    fn acknowledge_file(self, i: usize, result: Result<(), S>) -> (next: Self)
        requires
            self@.phase == (Phase::<S>::RemoveUnindexedFile { i }) || self@.phase == (
            Phase::<S>::MakeSymlink { i }),
        ensures
            next@ == self@.after_commit(Event::Ack { result }),
    {
        proof {
            use_type_invariant(&self);
            use_type_invariant(&self.new);
            self.new.lemma_wf();
        }
        let removed = match self.phase {
            Phase::RemoveUnindexedFile { .. } => true,
            _ => false,
        };
        let phase = match result {
            Ok(_) => if removed {
                Phase::MakeSymlink { i }
            } else {
                self.linking(i + 1)
            },
            Err(source) => {
                let file = self.new.value(i);
                let error = if removed {
                    Error::RemoveUnindexedMailFile { path: file.maildir_path.clone(), source }
                } else {
                    Error::MakeMaildirSymlink {
                        from: file.cache_path.clone(),
                        to: file.maildir_path.clone(),
                        source,
                    }
                };
                Phase::Done { result: Err(error) }
            },
        };
        self.at(phase)
    }

    /// Gives the database operation up because of `error`.
    fn roll_back(self, error: Error<S>) -> (next: Self)
        ensures
            next@ == self@.to(self@.rolling_back(0, error)),
    {
        let phase = self.rolling_back(0, error);
        self.at(phase)
    }

    /// Goes on after an operation on the database that brings nothing.
    fn acknowledge_commit(self, result: Result<(), S>) -> (next: Self)
        requires
            self@.phase is BeginAtomic || self@.phase is UpdateTags || self@.phase is RemoveEmail
                || self@.phase is EndAtomic,
        ensures
            next@ == self@.after_commit(Event::Ack { result }),
    {
        proof {
            use_type_invariant(&self);
        }
        match result {
            Ok(_) => {
                let phase = match self.phase {
                    Phase::BeginAtomic => self.adding(0),
                    Phase::UpdateTags { i } => {
                        assert(i < self.to_tag.len());
                        if self.new.contains_key(self.remote[self.to_tag[i]].id.text()) {
                            Phase::NameFile { i }
                        } else {
                            self.tagging(i + 1)
                        }
                    },
                    Phase::RemoveEmail { i } => {
                        assert(i < self.destroyed_local.len());
                        self.removing(i + 1)
                    },
                    _ => self.moving(0),
                };
                self.at(phase)
            },
            Err(source) => {
                let error = match self.phase {
                    Phase::BeginAtomic => Error::BeginAtomic { source },
                    Phase::UpdateTags { .. } => Error::UpdateLocalEmail { source },
                    Phase::RemoveEmail { .. } => Error::RemoveLocalEmail { source },
                    _ => Error::EndAtomic { source },
                };
                self.roll_back(error)
            },
        }
    }

    /// Goes on with the new email at place `i` as the database has it.
    fn take_added(self, i: usize, result: Result<local::Email, S>) -> (next: Self)
        requires
            self@.phase == (Phase::<S>::AddEmail { i }),
        ensures
            next@ == self@.after_commit(Event::Added { result }),
    {
        proof {
            use_type_invariant(&self);
            use_type_invariant(&self.new);
            self.new.lemma_wf();
        }
        match result {
            Ok(email) => {
                let ghost before = self@;
                let key = self.new.key(i).clone();
                let id = email.id.clone();
                let mut new_local = self.new_local;
                let mut destroyed_local = self.destroyed_local;
                let ghost ids = destroyed_local@;
                proof {
                    before.new_local.lemma_insert(email.id@, email);
                }
                new_local.insert(id, email);
                if self.local.contains_key(key.text()) {
                    destroyed_local.push(key);
                    assert(ids_view(destroyed_local@) =~= ids_view(ids).push(key@));
                }
                let next = SyncRun { new_local, destroyed_local, ..self };
                assert(next@ == before.with_added(i as int, email));
                let phase = next.adding(i + 1);
                next.at(phase)
            },
            Err(source) => {
                let filename = self.new.value(i).cache_path.clone();
                self.roll_back(Error::AddLocalEmail { filename, source })
            },
        }
    }

    /// Goes on with the last component of a path.
    fn take_name(self, i: usize, name: Option<String>) -> (next: Self)
        requires
            self@.phase == (Phase::<S>::NameFile { i }),
        ensures
            next@ == self@.after_commit(Event::FileName { name }),
    {
        proof {
            use_type_invariant(&self);
        }
        match name {
            Some(name) => self.at(Phase::GetMessage { i, name }),
            None => {
                assert(i < self.to_tag.len());
                let phase = self.tagging(i + 1);
                self.at(phase)
            },
        }
    }

    /// Goes on with the files of a message.
    fn take_message(self, result: Result<Option<Vec<MessageFile>>, S>) -> (next: Self)
        requires
            self@.phase is GetMessage,
        ensures
            next@ == self@.after_commit(Event::Message { result }),
    {
        proof {
            use_type_invariant(&self);
        }
        let (i, found) = match &self.phase {
            Phase::GetMessage { i, name } => match &result {
                Ok(Some(files)) => {
                    let found = new_email::find_our_file(files, name.as_str());
                    proof {
                        let place = match found {
                            Some(place) => place as int,
                            None => files@.len() as int,
                        };
                        new_email::lemma_first_named(files@, name@, place);
                    }
                    (*i, match found {
                        Some(place) => Some(files[place].path.clone()),
                        None => None,
                    })
                },
                _ => (*i, None),
            },
            _ => (0, None),
        };
        assert(i < self.to_tag.len());
        if let Err(source) = result {
            return self.roll_back(Error::GetNotmuchMessage { source });
        }
        match found {
            Some(path) => {
                let ghost before = self@;
                let id = self.remote[self.to_tag[i]].id.clone();
                let file = self.new.get(id.text()).unwrap();
                let moved = NewFile {
                    remote: file.remote,
                    cache_path: file.cache_path.clone(),
                    maildir_path: path,
                    cached: file.cached,
                };
                let mut new = self.new;
                proof {
                    before.new.lemma_insert(id@, moved);
                }
                new.insert(id, moved);
                proof {
                    assert forall|key: Seq<char>| #[trigger] new@.contains(key) implies new@.map[key].remote
                        < before.remote.len() && before.remote[new@.map[key].remote as int].id@
                        == key by {
                        assert(before.new.contains(key));
                    }
                }
                let next = SyncRun { new, ..self };
                let phase = next.tagging(i + 1);
                next.at(phase)
            },
            None => {
                let phase = self.tagging(i + 1);
                self.at(phase)
            },
        }
    }

    /// Goes on after the link at a place was removed, or could not be.
    fn keep_rolling_back(self) -> (next: Self)
        requires
            self@.phase is RollBack,
        ensures
            forall|result: Result<(), S>|
                next@ == #[trigger] self@.after_publish(Event::Ack { result }),
    {
        proof {
            use_type_invariant(&self);
        }
        let count: usize = self.new.len();
        let phase = match self.phase {
            Phase::RollBack { i, error } => if i + 1 < count {
                Phase::RollBack { i: i + 1, error }
            } else {
                Phase::Done { result: Err(error) }
            },
            other => other,
        };
        SyncRun { phase, ..self }
    }

    /// Goes on after a mail file was moved or removed, or could not be.
    fn acknowledge_mail_file(self, result: Result<(), S>) -> (next: Self)
        requires
            self@.phase is MoveFile || self@.phase is RemoveFile,
        ensures
            next@ == self@.after_publish(Event::Ack { result }),
    {
        proof {
            use_type_invariant(&self);
            use_type_invariant(&self.new);
            self.new.lemma_wf();
        }
        let phase = match self.phase {
            Phase::MoveFile { i } => match result {
                Ok(_) => self.moving(i + 1),
                Err(source) => {
                    let file = self.new.value(i);
                    Phase::Done {
                        result: Err(
                            Error::RenameMailFile {
                                from: file.cache_path.clone(),
                                to: file.maildir_path.clone(),
                                source,
                            },
                        ),
                    }
                },
            },
            Phase::RemoveFile { i } => match result {
                Ok(_) => {
                    assert(i < self.destroyed_local.len());
                    self.deleting(i + 1)
                },
                Err(source) => Phase::Done {
                    result: Err(
                        Error::RemoveMailFile { path: self.doomed(i).path.clone(), source },
                    ),
                },
            },
            _ => Phase::EndAtomic,
        };
        self.at(phase)
    }

    /// Goes on with the tags of the local database.
    fn take_tags(self, result: Result<Vec<String>, S>) -> (next: Self)
        requires
            self@.phase is ListTags,
        ensures
            self@.leads_to(Event::Tags { result }, next@),
    {
        match result {
            Ok(all) => {
                let missing = tags::tags_with_missing_mailboxes(
                    &all,
                    &self.settings.tags,
                    &self.mailboxes,
                );
                if missing.is_empty() {
                    self.at(Phase::ReportPush)
                } else if self.settings.auto_create_new_mailboxes {
                    self.at(Phase::CreateMailboxes { tags: missing })
                } else {
                    self.fail(Error::MissingMailboxes { tags: missing })
                }
            },
            Err(source) => self.fail(Error::IndexTags { source }),
        }
    }

    /// Goes on with the server's mailboxes after some were created.
    fn take_new_mailboxes(self, result: Result<Mailboxes, S>) -> (next: Self)
        requires
            self@.phase is CreateMailboxes,
        ensures
            next@ == self@.after_publish(Event::GotMailboxes { result }),
    {
        proof {
            use_type_invariant(&self);
        }
        match result {
            Ok(mailboxes) => SyncRun { mailboxes, phase: Phase::ReportPush, ..self },
            Err(source) => {
                let phase = match self.phase {
                    Phase::CreateMailboxes { tags } => Phase::Done {
                        result: Err(Error::CreateMailboxes { tags, source }),
                    },
                    other => other,
                };
                SyncRun { phase, ..self }
            },
        }
    }

    /// Goes on after an operation that has to do with the server and brings
    /// nothing.
    fn acknowledge_push(self, result: Result<(), S>) -> (next: Self)
        requires
            self@.phase is ReportPush || self@.phase is PushChanges,
        ensures
            next@ == self@.after_publish(Event::Ack { result }),
    {
        let reported = match self.phase {
            Phase::ReportPush => true,
            _ => false,
        };
        match result {
            Ok(_) => if !reported {
                self.at(Phase::ReadFinalRevision)
            } else if self.settings.dry_run {
                self.at(Phase::Done { result: Ok(()) })
            } else {
                self.at(Phase::PushChanges)
            },
            Err(source) => if reported {
                self.fail(Error::Log { source })
            } else {
                self.fail(Error::PushChanges { source })
            },
        }
    }

    /// Goes on with the revision that the database is at in the end.
    fn take_final_revision(self, revision: u64) -> (next: Self)
        requires
            self@.phase is ReadFinalRevision,
            revision < u64::MAX,
        ensures
            next@ == self@.after_publish(Event::Revision { revision }),
    {
        let state = self.latest.record(self.settings.pull, &self.server_state, revision);
        self.at(Phase::SaveState { state })
    }

    /// Goes on after an operation that brings nothing.
    fn acknowledge(self, result: Result<(), S>) -> (next: Self)
        requires
            self@.accepts(Event::Ack { result }),
        ensures
            next@ == self@.after(Event::Ack { result }),
    {
        proof {
            use_type_invariant(&self);
        }
        match self.phase {
            Phase::OpenLockFile
            | Phase::WaitForLock
            | Phase::OpenLocal
            | Phase::OpenCache
            | Phase::OpenRemote => self.acknowledge_setup(result),
            Phase::ReportMetadata => match result {
                Ok(_) => self.at(Phase::GetRemoteEmails),
                Err(source) => self.fail(Error::Log { source }),
            },
            Phase::ReportDownload => match result {
                Ok(_) => self.at(Phase::Download),
                Err(source) => self.fail(Error::Log { source }),
            },
            Phase::SearchRevision { .. } => self.search(RevisionQuery::Missing),
            Phase::ReportMerge => self.begin_merge(result),
            Phase::RemoveUnindexedFile { i } => self.acknowledge_file(i, result),
            Phase::MakeSymlink { i } => self.acknowledge_file(i, result),
            Phase::BeginAtomic
            | Phase::UpdateTags { .. }
            | Phase::RemoveEmail { .. }
            | Phase::EndAtomic => self.acknowledge_commit(result),
            Phase::ReportMissingEmail { .. } => self.roll_back(Error::Programmer {  }),
            Phase::RollBack { .. } => self.keep_rolling_back(),
            Phase::MoveFile { .. } | Phase::RemoveFile { .. } => self.acknowledge_mail_file(
                result,
            ),
            Phase::ReportPush | Phase::PushChanges => self.acknowledge_push(result),
            _ => self,
        }
    }

    /// Whether the run can be told `event` now: whether it is what came of the
    /// action that the run asks for.
    pub fn accepts(&self, event: &Event<S>) -> (accepted: bool)
        ensures
            accepted == self@.accepts(*event),
    {
        match &self.phase {
            Phase::TryLock => matches!(event, Event::Locked { .. }),
            Phase::ReadState => matches!(event, Event::StateRead { .. }),
            Phase::GetMailboxes | Phase::CreateMailboxes { .. } => matches!(
                event,
                Event::GotMailboxes { .. }
            ),
            Phase::ListLocalEmails | Phase::ListLocalUpdates { .. } => matches!(
                event,
                Event::LocalEmails { .. }
            ),
            Phase::ListChanges => matches!(event, Event::Changed { .. }),
            Phase::ListRemoteIds { .. } => matches!(event, Event::RemoteIds { .. }),
            Phase::GetRemoteEmails => matches!(event, Event::RemoteEmails { .. }),
            Phase::Locate { .. } => matches!(event, Event::Located { .. }),
            Phase::Download => matches!(event, Event::Downloaded { .. }),
            Phase::SearchRevision { query } => match query {
                RevisionQuery::Warn { .. } => matches!(event, Event::Terminal { .. }),
                RevisionQuery::Confirm => matches!(event, Event::Answer { .. }),
                RevisionQuery::Refuse => matches!(event, Event::Ack { result: Ok(_) }),
                _ => matches!(event, Event::Revision { .. }),
            },
            Phase::CheckMaildirFile { .. } => matches!(event, Event::Exists { .. }),
            Phase::AddEmail { .. } => matches!(event, Event::Added { .. }),
            Phase::NameFile { .. } => matches!(event, Event::FileName { .. }),
            Phase::GetMessage { .. } => matches!(event, Event::Message { .. }),
            Phase::ListTags => matches!(event, Event::Tags { .. }),
            Phase::ReadFinalRevision => match event {
                Event::Revision { revision } => *revision < u64::MAX,
                _ => false,
            },
            Phase::SaveState { .. } => matches!(event, Event::StateSaved { .. }),
            Phase::Done { .. } => false,
            _ => matches!(event, Event::Ack { .. }),
        }
    }

    /// Goes on with what came of the action that the run asked for.
    pub fn step(self, event: Event<S>) -> (next: Self)
        requires
            self@.accepts(event),
        ensures
            course::steps(self@, event, next@),
            next@.inv(),
            next@.fits(),
    {
        event.lists();
        let next = self.go_on(event);
        next.counts();
        next
    }

    fn go_on(self, event: Event<S>) -> (next: Self)
        requires
            self@.accepts(event),
        ensures
            self@.leads_to(event, next@),
    {
        proof {
            use_type_invariant(&self);
        }
        match event {
            Event::Ack { result } => self.acknowledge(result),
            Event::Locked { result } => match result {
                Ok(true) => self.at(Phase::ReadState),
                Ok(false) => self.at(Phase::WaitForLock),
                Err(source) => self.fail(Error::Lock { source }),
            },
            Event::StateRead { result } => self.take_state(result),
            Event::GotMailboxes { result } => match self.phase {
                Phase::GetMailboxes => self.take_mailboxes(result),
                _ => self.take_new_mailboxes(result),
            },
            Event::LocalEmails { result } => match self.phase {
                Phase::ListLocalEmails => self.take_local_emails(result),
                _ => self.take_local_updates(result),
            },
            Event::Changed { result } => self.take_changes(result),
            Event::RemoteIds { result } => self.take_remote_ids(result),
            Event::RemoteEmails { result } => self.take_remote_emails(result),
            Event::Located { location } => match self.phase {
                Phase::Locate { i } => self.take_location(i, location),
                _ => self,
            },
            Event::Downloaded { result } => self.take_downloads(result),
            Event::Revision { revision } => match self.phase {
                Phase::ReadFinalRevision => self.take_final_revision(revision),
                _ => self.search(RevisionQuery::Known { revision }),
            },
            Event::Terminal { is_terminal } => self.search(RevisionQuery::terminal(is_terminal)),
            Event::Answer { answer } => self.search(RevisionQuery::answered(answer.as_str())),
            Event::Exists { exists } => match self.phase {
                Phase::CheckMaildirFile { i } => if exists {
                    self.at(Phase::RemoveUnindexedFile { i })
                } else {
                    self.at(Phase::MakeSymlink { i })
                },
                _ => self,
            },
            Event::Added { result } => match self.phase {
                Phase::AddEmail { i } => self.take_added(i, result),
                _ => self,
            },
            Event::FileName { name } => match self.phase {
                Phase::NameFile { i } => self.take_name(i, name),
                _ => self,
            },
            Event::Message { result } => self.take_message(result),
            Event::Tags { result } => self.take_tags(result),
            Event::StateSaved { outcome } => {
                let result = LatestState::save(self.state_path.clone(), outcome);
                self.at(Phase::Done { result })
            },
        }
    }

    /// What the run came to, once it is over.
    pub fn result(self) -> (result: Option<Result<(), Error<S>>>)
        ensures
            result == match self@.phase {
                Phase::Done { result } => Some(result),
                _ => None,
            },
    {
        match self.phase {
            Phase::Done { result } => Some(result),
            _ => None,
        }
    }
}

} // verus!
