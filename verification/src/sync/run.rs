//! The course of a run: the phases that it goes through, what it knows in each
//! of them, and how it goes on.

use std::path::PathBuf;
use vstd::prelude::*;

use crate::jmap::{Id, State};
use crate::keyed;
use crate::keyed::Dict;
use crate::local;
use crate::remote;
use crate::remote::Mailboxes;
use crate::sync::changes;
use crate::sync::error::Error;
use crate::sync::latest_state::LatestState;
use crate::sync::new_email;
use crate::sync::new_email::{Location, MessageFile, NewEmail, NewFile};
use crate::sync::protocol::{
    Action, DownloadFailure, Event, FullSyncReason, Report, Settings,
};
use crate::sync::revision::RevisionQuery;
use crate::sync::tags;

verus! {

/// What a run waits for.
#[derive(Debug)]
pub enum Phase<S> {
    OpenLockFile,
    TryLock,
    WaitForLock,
    ReadState,
    OpenLocal,
    OpenCache,
    OpenRemote,
    GetMailboxes,
    ListLocalEmails,
    ListChanges,
    ListRemoteIds { reason: FullSyncReason<S> },
    ReportMetadata,
    GetRemoteEmails,
    /// The files of the new email at place `i`.
    Locate { i: usize },
    ReportDownload,
    Download,
    SearchRevision { query: RevisionQuery },
    ListLocalUpdates { since: u64 },
    ReportMerge,
    CheckMaildirFile { i: usize },
    RemoveUnindexedFile { i: usize },
    MakeSymlink { i: usize },
    BeginAtomic,
    AddEmail { i: usize },
    /// The email at place `i` among those that take the server's tags.
    UpdateTags { i: usize },
    /// The database does not have the email at place `i`.
    ReportMissingEmail { i: usize },
    NameFile { i: usize },
    GetMessage { i: usize, name: String },
    RemoveEmail { i: usize },
    EndAtomic,
    /// The links are being removed because of `error`.
    RollBack { i: usize, error: Error<S> },
    MoveFile { i: usize },
    RemoveFile { i: usize },
    ListTags,
    CreateMailboxes { tags: Vec<String> },
    ReportPush,
    PushChanges,
    ReadFinalRevision,
    SaveState { state: LatestState },
    Done { result: Result<(), Error<S>> },
}

/// All that a run knows.
#[verifier::reject_recursive_types(S)]
pub struct Run<S> {
    pub settings: Settings,
    pub lock_path: PathBuf,
    pub state_path: PathBuf,
    /// What the last run left behind.
    pub latest: LatestState,
    pub mailboxes: Mailboxes,
    /// All emails of the local database.
    pub local: Dict<local::Email>,
    /// The server's state that the lists below describe, once they are known.
    pub server_state: Option<State>,
    /// The emails that may have been created or changed on the server.
    pub updated: Seq<Seq<char>>,
    /// The emails that are no longer on the server.
    pub destroyed: Seq<Seq<char>>,
    /// The properties of the updated emails.
    pub remote: Seq<remote::Email>,
    /// The places of the new ones among the updated emails.
    pub fresh: Seq<usize>,
    /// The files of the new emails, by the identifier of the email.
    pub new: Dict<NewFile>,
    /// The emails that changed locally and are still on the server.
    pub updated_local: Dict<local::Email>,
    /// The places of the updated emails that take the server's tags.
    pub to_tag: Seq<usize>,
    /// The local emails to remove.
    pub destroyed_local: Seq<Seq<char>>,
    /// The new emails as the database has them, by identifier.
    pub new_local: Dict<local::Email>,
    pub phase: Phase<S>,
}

impl<S> Run<S> {
    /// A run that has not begun to do anything.
    pub open spec fn starts(
        self,
        settings: Settings,
        lock_path: PathBuf,
        state_path: PathBuf,
    ) -> bool {
        &&& self.settings == settings
        &&& self.lock_path == lock_path
        &&& self.state_path == state_path
        &&& self.latest == LatestState::nothing()
        &&& self.mailboxes.mailboxes_by_id@ == Dict::<remote::Mailbox>::empty()
        &&& self.mailboxes.ids_by_tag@ == Dict::<Id>::empty()
        &&& self.local == Dict::<local::Email>::empty()
        &&& self.server_state is None
        &&& self.updated == Seq::<Seq<char>>::empty()
        &&& self.destroyed == Seq::<Seq<char>>::empty()
        &&& self.remote == Seq::<remote::Email>::empty()
        &&& self.fresh == Seq::<usize>::empty()
        &&& self.new == Dict::<NewFile>::empty()
        &&& self.updated_local == Dict::<local::Email>::empty()
        &&& self.to_tag == Seq::<usize>::empty()
        &&& self.destroyed_local == Seq::<Seq<char>>::empty()
        &&& self.new_local == Dict::<local::Email>::empty()
        &&& self.phase == Phase::<S>::OpenLockFile
    }

    /// The run with another phase.
    pub open spec fn to(self, phase: Phase<S>) -> Self {
        Run { phase, ..self }
    }

    /// The run stopped by `error`.
    pub open spec fn fail(self, error: Error<S>) -> Self {
        self.to(Phase::Done { result: Err(error) })
    }

    /// The run at `next` if it went well, else stopped by `error`.
    pub open spec fn go(self, result: Result<(), S>, next: Phase<S>, error: Error<S>) -> Self {
        if result is Ok {
            self.to(next)
        } else {
            self.fail(error)
        }
    }

    /// The run at `next` if it went well, else with the database operation given
    /// up because of `error`.
    pub open spec fn commit(self, result: Result<(), S>, next: Phase<S>, error: Error<S>) -> Self {
        if result is Ok {
            self.to(next)
        } else {
            self.to(self.rolling_back(0, error))
        }
    }

    // Where the run goes on.

    /// Once the local emails are listed: ask for changes if a state is known.
    pub open spec fn listing(self) -> Phase<S> {
        match self.latest.jmap_state {
            Some(_) => Phase::ListChanges,
            None => Phase::ListRemoteIds { reason: FullSyncReason::NoState },
        }
    }

    pub open spec fn locating(self, i: int) -> Phase<S> {
        if i < self.fresh.len() {
            Phase::Locate { i: i as usize }
        } else if new_email::to_download(self.new).len() > 0 {
            Phase::ReportDownload
        } else {
            self.searching(self.first_query())
        }
    }

    pub open spec fn first_query(self) -> RevisionQuery {
        RevisionQuery::start(
            self.local.len() == 0,
            self.latest.notmuch_revision,
            self.settings.dry_run,
        )
    }

    pub open spec fn searching(self, query: RevisionQuery) -> Phase<S> {
        match query {
            RevisionQuery::Known { revision } => Phase::ListLocalUpdates { since: revision },
            RevisionQuery::Missing => Phase::Done {
                result: Err(Error::MissingNotmuchDatabaseRevision {  }),
            },
            _ => Phase::SearchRevision { query },
        }
    }

    pub open spec fn merging(self) -> Phase<S> {
        if self.settings.pull {
            Phase::ReportMerge
        } else {
            self.publishing()
        }
    }

    pub open spec fn linking(self, i: int) -> Phase<S> {
        if i < self.new.len() {
            Phase::CheckMaildirFile { i: i as usize }
        } else {
            Phase::BeginAtomic
        }
    }

    pub open spec fn adding(self, i: int) -> Phase<S> {
        if i < self.new.len() {
            Phase::AddEmail { i: i as usize }
        } else {
            self.tagging(0)
        }
    }

    pub open spec fn tagging(self, i: int) -> Phase<S> {
        if i < self.to_tag.len() {
            match self.local_email(i) {
                Some(_) => Phase::UpdateTags { i: i as usize },
                None => Phase::ReportMissingEmail { i: i as usize },
            }
        } else {
            self.removing(0)
        }
    }

    pub open spec fn removing(self, i: int) -> Phase<S> {
        if i < self.destroyed_local.len() {
            Phase::RemoveEmail { i: i as usize }
        } else {
            Phase::EndAtomic
        }
    }

    pub open spec fn rolling_back(self, i: int, error: Error<S>) -> Phase<S> {
        if i < self.new.len() {
            Phase::RollBack { i: i as usize, error }
        } else {
            Phase::Done { result: Err(error) }
        }
    }

    pub open spec fn moving(self, i: int) -> Phase<S> {
        if i < self.new.len() {
            Phase::MoveFile { i: i as usize }
        } else {
            self.deleting(0)
        }
    }

    pub open spec fn deleting(self, i: int) -> Phase<S> {
        if i < self.destroyed_local.len() {
            Phase::RemoveFile { i: i as usize }
        } else {
            self.publishing()
        }
    }

    pub open spec fn publishing(self) -> Phase<S> {
        if self.settings.dry_run {
            Phase::ReportPush
        } else {
            Phase::ListTags
        }
    }

    // What the run knows.

    /// The server's email at place `i` among those that take the server's tags.
    pub open spec fn tagged(self, i: int) -> remote::Email {
        self.remote[self.to_tag[i] as int]
    }

    /// The email of the database that `tagged(i)` is: the one just added, or else
    /// the one that was there.
    pub open spec fn local_email(self, i: int) -> Option<local::Email> {
        match self.new_local.get(self.tagged(i).id@) {
            Some(email) => Some(email),
            None => self.local.get(self.tagged(i).id@),
        }
    }

    /// The local email to remove at place `i`.
    pub open spec fn doomed(self, i: int) -> local::Email {
        self.local.map[self.destroyed_local[i]]
    }

    /// `email` is the new email at place `i`.
    pub open spec fn is_new_email(self, email: NewEmail, i: int) -> bool {
        &&& *email.remote_email == self.remote[self.new.at(i).remote as int]
        &&& email.cache_path == self.new.at(i).cache_path
        &&& email.maildir_path == self.new.at(i).maildir_path
    }

    /// Takes in which emails to look at.
    pub open spec fn with_ids(
        self,
        state: State,
        updated: Seq<Seq<char>>,
        destroyed: Seq<Seq<char>>,
    ) -> Self {
        Run {
            server_state: Some(state),
            updated,
            destroyed,
            phase: Phase::ReportMetadata,
            ..self
        }
    }

    /// Takes in where the files of the new email at place `i` are to be.
    pub open spec fn with_location(self, i: int, location: Location) -> Self {
        let place = self.fresh[i];
        Run {
            new: self.new.insert(
                self.remote[place as int].id@,
                NewFile {
                    remote: place,
                    cache_path: location.cache_path,
                    maildir_path: location.maildir_path,
                    cached: location.cached,
                },
            ),
            ..self
        }
    }

    /// Takes in which local emails changed.
    pub open spec fn with_updates(self, emails: Dict<local::Email>) -> Self {
        let updated_local = emails.without(self.destroyed);
        Run {
            updated_local,
            to_tag: new_email::unchanged_offline(self.remote, updated_local),
            ..self
        }
    }

    /// Takes the emails that are no longer on the server for those to remove.
    pub open spec fn with_destroyed(self) -> Self {
        Run {
            destroyed_local: self.destroyed.filter(|key: Seq<char>| self.local.contains(key)),
            ..self
        }
    }

    /// Takes in that the new email at place `i` was added to the database. If
    /// there was an older version of it, that one is to be removed.
    pub open spec fn with_added(self, i: int, email: local::Email) -> Self {
        Run {
            new_local: self.new_local.insert(email.id@, email),
            destroyed_local: if self.local.contains(self.new.keys[i]) {
                self.destroyed_local.push(self.new.keys[i])
            } else {
                self.destroyed_local
            },
            ..self
        }
    }

    /// Takes in which files the message at place `i` has: the first one whose
    /// name starts with `name` is where our file is now.
    pub open spec fn with_files(self, i: int, name: Seq<char>, files: Seq<MessageFile>) -> Self {
        let key = self.tagged(i).id@;
        match new_email::first_named(files, name) {
            Some(path) => Run {
                new: self.new.insert(key, NewFile { maildir_path: path, ..self.new.map[key] }),
                ..self
            },
            None => self,
        }
    }

    // How the run goes on with an event.

    /// The event is one that the run can be told now.
    pub open spec fn accepts(self, event: Event<S>) -> bool {
        match self.phase {
            Phase::TryLock => event is Locked,
            Phase::ReadState => event is StateRead,
            Phase::GetMailboxes | Phase::CreateMailboxes { .. } => event is GotMailboxes,
            Phase::ListLocalEmails | Phase::ListLocalUpdates { .. } => event is LocalEmails,
            Phase::ListChanges => event is Changed,
            Phase::ListRemoteIds { .. } => event is RemoteIds,
            Phase::GetRemoteEmails => event is RemoteEmails,
            Phase::Locate { .. } => event is Located,
            Phase::Download => event is Downloaded,
            Phase::SearchRevision { query } => match query {
                RevisionQuery::Warn { .. } => event is Terminal,
                RevisionQuery::Confirm => event is Answer,
                RevisionQuery::Refuse => event matches Event::Ack { result: Ok(_) },
                _ => event is Revision,
            },
            Phase::CheckMaildirFile { .. } => event is Exists,
            Phase::AddEmail { .. } => event is Added,
            Phase::NameFile { .. } => event is FileName,
            Phase::GetMessage { .. } => event is Message,
            Phase::ListTags => event is Tags,
            Phase::ReadFinalRevision => event matches Event::Revision { revision } && revision
                < u64::MAX,
            Phase::SaveState { .. } => event is StateSaved,
            Phase::Done { .. } => false,
            _ => event is Ack,
        }
    }

    /// Getting ready: up to the list of local emails.
    pub open spec fn after_setup(self, event: Event<S>) -> Self {
        match (self.phase, event) {
            (Phase::OpenLockFile, Event::Ack { result }) => self.go(
                result,
                Phase::TryLock,
                Error::OpenLockFile { path: self.lock_path, source: result->Err_0 },
            ),
            (Phase::TryLock, Event::Locked { result }) => match result {
                Ok(true) => self.to(Phase::ReadState),
                Ok(false) => self.to(Phase::WaitForLock),
                Err(source) => self.fail(Error::Lock { source }),
            },
            (Phase::WaitForLock, Event::Ack { result }) => self.go(
                result,
                Phase::ReadState,
                Error::Lock { source: result->Err_0 },
            ),
            (Phase::ReadState, Event::StateRead { result }) => match result {
                Ok(latest) => Run { latest, phase: Phase::OpenLocal, ..self },
                Err(_) => Run { latest: LatestState::nothing(), phase: Phase::OpenLocal, ..self },
            },
            (Phase::OpenLocal, Event::Ack { result }) => self.go(
                result,
                Phase::OpenCache,
                Error::OpenLocal { source: result->Err_0 },
            ),
            (Phase::OpenCache, Event::Ack { result }) => self.go(
                result,
                Phase::OpenRemote,
                Error::OpenCache { source: result->Err_0 },
            ),
            (Phase::OpenRemote, Event::Ack { result }) => self.go(
                result,
                Phase::GetMailboxes,
                Error::OpenRemote { source: result->Err_0 },
            ),
            (Phase::GetMailboxes, Event::GotMailboxes { result }) => match result {
                Ok(mailboxes) => Run { mailboxes, phase: Phase::ListLocalEmails, ..self },
                Err(source) => self.fail(Error::IndexMailboxes { source }),
            },
            (Phase::ListLocalEmails, Event::LocalEmails { result }) => match result {
                Ok(emails) => Run { local: emails@, phase: self.listing(), ..self },
                Err(source) => self.fail(Error::IndexLocalEmails { source }),
            },
            _ => self,
        }
    }

    /// Finding out what changed: up to the list of local changes.
    pub open spec fn after_fetch(self, event: Event<S>) -> Self {
        match (self.phase, event) {
            (Phase::ListChanges, Event::Changed { result }) => match result {
                Ok(changes) => if changes::all_known(changes.updated@, self.local) {
                    self.with_ids(
                        changes.state,
                        keyed::with_keys(changes.updated@, changes.created@),
                        changes.destroyed@,
                    )
                } else {
                    self.to(Phase::ListRemoteIds { reason: FullSyncReason::UnknownUpdate })
                },
                Err(source) => self.to(
                    Phase::ListRemoteIds { reason: FullSyncReason::ChangesFailed { source } },
                ),
            },
            (Phase::ListRemoteIds { .. }, Event::RemoteIds { result }) => match result {
                Ok((state, ids)) => self.with_ids(state, ids@, changes::not_among(self.local, ids@)),
                Err(source) => self.fail(Error::IndexRemoteEmails { source }),
            },
            (Phase::ReportMetadata, Event::Ack { result }) => self.go(
                result,
                Phase::GetRemoteEmails,
                Error::Log { source: result->Err_0 },
            ),
            (Phase::GetRemoteEmails, Event::RemoteEmails { result }) => match result {
                Ok(emails) => {
                    let next = Run {
                        remote: emails@.values(),
                        fresh: new_email::new_among(emails@.values(), self.local),
                        ..self
                    };
                    next.to(next.locating(0))
                },
                Err(source) => self.fail(Error::GetRemoteEmails { source }),
            },
            (Phase::Locate { i }, Event::Located { location }) => {
                let next = self.with_location(i as int, location);
                next.to(next.locating(i + 1))
            },
            (Phase::ReportDownload, Event::Ack { result }) => self.go(
                result,
                Phase::Download,
                Error::Log { source: result->Err_0 },
            ),
            (Phase::Download, Event::Downloaded { result }) => match result {
                Ok(_) => self.to(self.searching(self.first_query())),
                Err(DownloadFailure::ThreadPool { source }) => self.fail(
                    Error::CreateDownloadThreadPool { source },
                ),
                Err(DownloadFailure::Email { failure }) => self.fail(failure.as_error()),
            },
            (Phase::SearchRevision { query }, Event::Revision { revision }) => self.to(
                self.searching(RevisionQuery::Known { revision }),
            ),
            (Phase::SearchRevision { query }, Event::Terminal { is_terminal }) => self.to(
                self.searching(RevisionQuery::after_terminal(is_terminal)),
            ),
            (Phase::SearchRevision { query }, Event::Answer { answer }) => self.to(
                self.searching(RevisionQuery::after_answer(answer@)),
            ),
            (Phase::SearchRevision { query }, Event::Ack { result }) => self.to(
                self.searching(RevisionQuery::Missing),
            ),
            (Phase::ListLocalUpdates { .. }, Event::LocalEmails { result }) => match result {
                Ok(emails) => self.with_updates(emails@).to(self.merging()),
                Err(source) => self.fail(Error::IndexLocalUpdatedEmails { source }),
            },
            _ => self,
        }
    }

    /// Pulling: linking the new mail and changing the database.
    pub open spec fn after_commit(self, event: Event<S>) -> Self {
        match (self.phase, event) {
            (Phase::ReportMerge, Event::Ack { result }) => if result is Err {
                self.fail(Error::Log { source: result->Err_0 })
            } else if self.settings.dry_run {
                self.to(self.publishing())
            } else {
                self.with_destroyed().to(self.linking(0))
            },
            (Phase::CheckMaildirFile { i }, Event::Exists { exists }) => if exists {
                self.to(Phase::RemoveUnindexedFile { i })
            } else {
                self.to(Phase::MakeSymlink { i })
            },
            (Phase::RemoveUnindexedFile { i }, Event::Ack { result }) => self.go(
                result,
                Phase::MakeSymlink { i },
                Error::RemoveUnindexedMailFile {
                    path: self.new.at(i as int).maildir_path,
                    source: result->Err_0,
                },
            ),
            (Phase::MakeSymlink { i }, Event::Ack { result }) => self.go(
                result,
                self.linking(i + 1),
                Error::MakeMaildirSymlink {
                    from: self.new.at(i as int).cache_path,
                    to: self.new.at(i as int).maildir_path,
                    source: result->Err_0,
                },
            ),
            (Phase::BeginAtomic, Event::Ack { result }) => self.commit(
                result,
                self.adding(0),
                Error::BeginAtomic { source: result->Err_0 },
            ),
            (Phase::AddEmail { i }, Event::Added { result }) => match result {
                Ok(email) => {
                    let next = self.with_added(i as int, email);
                    next.to(next.adding(i + 1))
                },
                Err(source) => self.to(
                    self.rolling_back(
                        0,
                        Error::AddLocalEmail {
                            filename: self.new.at(i as int).cache_path,
                            source,
                        },
                    ),
                ),
            },
            (Phase::UpdateTags { i }, Event::Ack { result }) => self.commit(
                result,
                if self.new.contains(self.tagged(i as int).id@) {
                    Phase::NameFile { i }
                } else {
                    self.tagging(i + 1)
                },
                Error::UpdateLocalEmail { source: result->Err_0 },
            ),
            (Phase::ReportMissingEmail { i }, Event::Ack { result }) => self.to(
                self.rolling_back(0, Error::Programmer {  }),
            ),
            (Phase::NameFile { i }, Event::FileName { name }) => match name {
                Some(name) => self.to(Phase::GetMessage { i, name }),
                None => self.to(self.tagging(i + 1)),
            },
            (Phase::GetMessage { i, name }, Event::Message { result }) => match result {
                Ok(Some(files)) => {
                    let next = self.with_files(i as int, name@, files@);
                    next.to(next.tagging(i + 1))
                },
                Ok(None) => self.to(self.tagging(i + 1)),
                Err(source) => self.to(
                    self.rolling_back(0, Error::GetNotmuchMessage { source }),
                ),
            },
            (Phase::RemoveEmail { i }, Event::Ack { result }) => self.commit(
                result,
                self.removing(i + 1),
                Error::RemoveLocalEmail { source: result->Err_0 },
            ),
            (Phase::EndAtomic, Event::Ack { result }) => self.commit(
                result,
                self.moving(0),
                Error::EndAtomic { source: result->Err_0 },
            ),
            _ => self,
        }
    }

    /// Afterwards: the mail files, the server and the record.
    pub open spec fn after_publish(self, event: Event<S>) -> Self {
        match (self.phase, event) {
            (Phase::RollBack { i, error }, Event::Ack { result }) => self.to(
                self.rolling_back(i + 1, error),
            ),
            (Phase::MoveFile { i }, Event::Ack { result }) => self.go(
                result,
                self.moving(i + 1),
                Error::RenameMailFile {
                    from: self.new.at(i as int).cache_path,
                    to: self.new.at(i as int).maildir_path,
                    source: result->Err_0,
                },
            ),
            (Phase::RemoveFile { i }, Event::Ack { result }) => self.go(
                result,
                self.deleting(i + 1),
                Error::RemoveMailFile {
                    path: self.doomed(i as int).path,
                    source: result->Err_0,
                },
            ),
            (Phase::ListTags, Event::Tags { result: Err(source) }) => self.fail(
                Error::IndexTags { source },
            ),
            (Phase::CreateMailboxes { tags }, Event::GotMailboxes { result }) => match result {
                Ok(mailboxes) => Run { mailboxes, phase: Phase::ReportPush, ..self },
                Err(source) => self.fail(Error::CreateMailboxes { tags, source }),
            },
            (Phase::ReportPush, Event::Ack { result }) => self.go(
                result,
                if self.settings.dry_run {
                    Phase::Done { result: Ok(()) }
                } else {
                    Phase::PushChanges
                },
                Error::Log { source: result->Err_0 },
            ),
            (Phase::PushChanges, Event::Ack { result }) => self.go(
                result,
                Phase::ReadFinalRevision,
                Error::PushChanges { source: result->Err_0 },
            ),
            (Phase::ReadFinalRevision, Event::Revision { revision }) => self.to(
                Phase::SaveState {
                    state: self.latest.recorded(
                        self.settings.pull,
                        self.server_state,
                        revision,
                    ),
                },
            ),
            (Phase::SaveState { .. }, Event::StateSaved { outcome }) => self.to(
                Phase::Done { result: LatestState::saving(self.state_path, outcome) },
            ),
            _ => self,
        }
    }

    /// How the run goes on with `event`, other than with a list of tags.
    pub open spec fn after(self, event: Event<S>) -> Self {
        match self.phase {
            Phase::OpenLockFile
            | Phase::TryLock
            | Phase::WaitForLock
            | Phase::ReadState
            | Phase::OpenLocal
            | Phase::OpenCache
            | Phase::OpenRemote
            | Phase::GetMailboxes
            | Phase::ListLocalEmails => self.after_setup(event),
            Phase::ListChanges
            | Phase::ListRemoteIds { .. }
            | Phase::ReportMetadata
            | Phase::GetRemoteEmails
            | Phase::Locate { .. }
            | Phase::ReportDownload
            | Phase::Download
            | Phase::SearchRevision { .. }
            | Phase::ListLocalUpdates { .. } => self.after_fetch(event),
            Phase::ReportMerge
            | Phase::CheckMaildirFile { .. }
            | Phase::RemoveUnindexedFile { .. }
            | Phase::MakeSymlink { .. }
            | Phase::BeginAtomic
            | Phase::AddEmail { .. }
            | Phase::UpdateTags { .. }
            | Phase::ReportMissingEmail { .. }
            | Phase::NameFile { .. }
            | Phase::GetMessage { .. }
            | Phase::RemoveEmail { .. }
            | Phase::EndAtomic => self.after_commit(event),
            _ => self.after_publish(event),
        }
    }

    /// The run goes on as `next` once the tags are listed: tags that lack a
    /// mailbox stop it, unless mailboxes are to be created for them.
    pub open spec fn after_tags(self, tags: Seq<String>, next: Self) -> bool {
        let missing = tags::without_mailbox(tags, self.settings.tags, self.mailboxes);
        if missing.len() == 0 {
            next == self.to(Phase::ReportPush)
        } else if self.settings.auto_create_new_mailboxes {
            &&& next == self.to(next.phase)
            &&& next.phase matches Phase::CreateMailboxes { tags }
            &&& tags@ == missing
        } else {
            &&& next == self.to(next.phase)
            &&& next.phase matches Phase::Done { result: Err(Error::MissingMailboxes { tags }) }
            &&& tags@ == missing
        }
    }

    /// The run goes on with `event` as `next`.
    pub open spec fn leads_to(self, event: Event<S>, next: Self) -> bool {
        match (self.phase, event) {
            (Phase::ListTags, Event::Tags { result: Ok(tags) }) => self.after_tags(tags@, next),
            _ => next == self.after(event),
        }
    }

    /// `action` is what the run asks for.
    pub open spec fn requests(self, action: Action<S>) -> bool {
        match self.phase {
            Phase::OpenLockFile => action matches Action::OpenLockFile { path } && *path
                == self.lock_path,
            Phase::TryLock => action is TryLock,
            Phase::WaitForLock => action is WaitForLock,
            Phase::ReadState => action matches Action::ReadState { filename } && *filename
                == self.state_path,
            Phase::OpenLocal => action matches Action::OpenLocal { read_only } && read_only == (
            self.settings.dry_run || !self.settings.pull),
            Phase::OpenCache => action is OpenCache,
            Phase::OpenRemote => action is OpenRemote,
            Phase::GetMailboxes => action is GetMailboxes,
            Phase::ListLocalEmails => action is ListLocalEmails,
            Phase::ListChanges => action matches Action::ListChanges { since } && Some(*since)
                == self.latest.jmap_state,
            Phase::ListRemoteIds { reason } => action matches Action::ListRemoteIds { reason: given }
                && *given == reason,
            Phase::ReportMetadata => action matches Action::Report {
                report: Report::Metadata { possibly_changed },
            } && possibly_changed == self.updated.len(),
            Phase::GetRemoteEmails => action matches Action::GetRemoteEmails { ids, mailboxes }
                && ids@ == self.updated && *mailboxes == self.mailboxes,
            Phase::Locate { i } => action matches Action::Locate { email } && *email
                == self.remote[self.fresh[i as int] as int],
            Phase::ReportDownload => action matches Action::Report { report: Report::Download },
            Phase::Download => action matches Action::Download { emails, settings }
                && self.downloads(emails@) && *settings == self.settings.downloads,
            Phase::SearchRevision { query } => match query {
                RevisionQuery::Warn { dry_run } => action matches Action::WarnRevisionLost {
                    dry_run: given,
                } && given == dry_run,
                RevisionQuery::Confirm => action is ConfirmRevision,
                RevisionQuery::Refuse => action is RefuseRevision,
                _ => action is ReadRevision,
            },
            Phase::ListLocalUpdates { since } => action matches Action::ListLocalUpdates {
                since: given,
            } && given == since,
            Phase::ReportMerge => action matches Action::Report {
                report: Report::Merge { new, changed, destroyed },
            } && new == self.new.len() && changed == self.remote.len() && destroyed
                == self.destroyed.len(),
            Phase::CheckMaildirFile { i } => action matches Action::CheckMaildirFile { path }
                && *path == self.new.at(i as int).maildir_path,
            Phase::RemoveUnindexedFile { i } => action matches Action::RemoveUnindexedFile { path }
                && *path == self.new.at(i as int).maildir_path,
            Phase::MakeSymlink { i } => action matches Action::MakeSymlink { from, to } && *from
                == self.new.at(i as int).cache_path && *to == self.new.at(i as int).maildir_path,
            Phase::BeginAtomic => action is BeginAtomic,
            Phase::AddEmail { i } => action matches Action::AddEmail { email }
                && self.is_new_email(email, i as int),
            Phase::UpdateTags { i } => action matches Action::UpdateTags { email, tags } && Some(
                *email,
            ) == self.local_email(i as int) && tags@.to_set() == remote::server_tags(
                self.tagged(i as int),
                self.mailboxes,
            ),
            Phase::ReportMissingEmail { i } => action matches Action::ReportMissingEmail { id }
                && *id == self.tagged(i as int).id,
            Phase::NameFile { i } => action matches Action::NameFile { path } && *path
                == self.new.map[self.tagged(i as int).id@].maildir_path,
            Phase::GetMessage { i, .. } => action matches Action::GetMessage { message_id }
                && self.local_email(i as int) matches Some(email) && *message_id
                == email.message_id,
            Phase::RemoveEmail { i } => action matches Action::RemoveEmail { email } && *email
                == self.doomed(i as int),
            Phase::EndAtomic => action is EndAtomic,
            Phase::RollBack { i, .. } => action matches Action::RemoveSymlink { path } && *path
                == self.new.at(i as int).maildir_path,
            Phase::MoveFile { i } => action matches Action::MoveFile { from, to } && *from
                == self.new.at(i as int).cache_path && *to == self.new.at(i as int).maildir_path,
            Phase::RemoveFile { i } => action matches Action::RemoveFile { path } && *path
                == self.doomed(i as int).path,
            Phase::ListTags => action is ListTags,
            Phase::CreateMailboxes { tags } => action matches Action::CreateMailboxes {
                tags: given,
                mailboxes,
            } && *given == tags && *mailboxes == self.mailboxes,
            Phase::ReportPush => action matches Action::Report { report: Report::Push { changed } }
                && changed == self.updated_local.len(),
            Phase::PushChanges => action matches Action::PushChanges { emails, mailboxes }
                && emails@ == self.updated_local && *mailboxes == self.mailboxes,
            Phase::ReadFinalRevision => action is ReadRevision,
            Phase::SaveState { state } => action matches Action::SaveState {
                filename,
                state: given,
            } && *filename == self.state_path && *given == state,
            Phase::Done { .. } => action is Finish,
        }
    }

    /// `emails` are the new emails to download.
    pub open spec fn downloads(self, emails: Seq<NewEmail>) -> bool {
        let places = new_email::to_download(self.new);
        &&& emails.len() == places.len()
        &&& forall|j: int|
            0 <= j < emails.len() ==> self.is_new_email(#[trigger] emails[j], places[j] as int)
    }

    /// What holds of what the run knows, in every phase.
    pub open spec fn data_inv(self) -> bool {
        &&& self.local.wf()
        &&& self.new.wf()
        &&& self.updated_local.wf()
        &&& self.new_local.wf()
        &&& self.updated.no_duplicates()
        &&& self.destroyed.no_duplicates()
        &&& forall|j: int|
            0 <= j < self.fresh.len() ==> (#[trigger] self.fresh[j]) < self.remote.len()
        &&& forall|j: int|
            0 <= j < self.to_tag.len() ==> (#[trigger] self.to_tag[j]) < self.remote.len()
        &&& forall|key: Seq<char>| #[trigger]
            self.new.contains(key) ==> self.new.map[key].remote < self.remote.len()
                && self.remote[self.new.map[key].remote as int].id@ == key
        &&& forall|j: int|
            0 <= j < self.destroyed_local.len() ==> self.local.contains(
                #[trigger] self.destroyed_local[j],
            )
    }

    /// The run has not yet learned anything of the emails on the server.
    pub open spec fn is_early(self) -> bool {
        match self.phase {
            Phase::OpenLockFile
            | Phase::TryLock
            | Phase::WaitForLock
            | Phase::ReadState
            | Phase::OpenLocal
            | Phase::OpenCache
            | Phase::OpenRemote
            | Phase::GetMailboxes
            | Phase::ListLocalEmails
            | Phase::ListChanges
            | Phase::ListRemoteIds { .. }
            | Phase::ReportMetadata
            | Phase::GetRemoteEmails => true,
            _ => false,
        }
    }

    /// What comes after the emails on the server are known is not there before.
    pub open spec fn early_inv(self) -> bool {
        self.is_early() ==> {
            &&& self.new.len() == 0
            &&& self.updated_local.len() == 0
            &&& self.to_tag.len() == 0
            &&& self.destroyed_local.len() == 0
            &&& self.new_local.len() == 0
        }
    }

    /// What holds of the place that the run is at.
    pub open spec fn phase_inv(self) -> bool {
        &&& self.early_inv()
        &&& self.place_inv()
    }

    /// The place that the run is at is there.
    pub open spec fn place_inv(self) -> bool {
        match self.phase {
            Phase::ListChanges => self.latest.jmap_state is Some,
            Phase::Locate { i } => i < self.fresh.len(),
            Phase::CheckMaildirFile { i } => i < self.new.len(),
            Phase::RemoveUnindexedFile { i } => i < self.new.len(),
            Phase::MakeSymlink { i } => i < self.new.len(),
            Phase::AddEmail { i } => i < self.new.len(),
            Phase::UpdateTags { i } => i < self.to_tag.len() && self.local_email(i as int) is Some,
            Phase::ReportMissingEmail { i } => i < self.to_tag.len() && self.local_email(
                i as int,
            ) is None,
            Phase::NameFile { i } => i < self.to_tag.len() && self.local_email(i as int) is Some
                && self.new.contains(self.tagged(i as int).id@),
            Phase::GetMessage { i, .. } => i < self.to_tag.len() && self.local_email(
                i as int,
            ) is Some && self.new.contains(self.tagged(i as int).id@),
            Phase::RemoveEmail { i } => i < self.destroyed_local.len(),
            Phase::RollBack { i, .. } => i < self.new.len(),
            Phase::MoveFile { i } => i < self.new.len(),
            Phase::RemoveFile { i } => i < self.destroyed_local.len(),
            _ => true,
        }
    }

    /// The places that the run goes through can be counted.
    pub open spec fn fits(self) -> bool {
        &&& self.remote.len() <= usize::MAX
        &&& self.fresh.len() <= usize::MAX
        &&& self.new.len() <= usize::MAX
        &&& self.to_tag.len() <= usize::MAX
        &&& self.destroyed_local.len() <= usize::MAX
    }

    /// What holds of a run.
    pub open spec fn inv(self) -> bool {
        self.data_inv() && self.phase_inv()
    }
}

} // verus!
