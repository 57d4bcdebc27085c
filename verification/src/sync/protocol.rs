//! What a run asks of the outside world, and what it is told in return.

use std::path::PathBuf;
use vstd::prelude::*;

use crate::jmap::{Id, IdMap, IdSet, State};
use crate::keyed::KeySet;
use crate::local;
use crate::remote;
use crate::remote::Mailboxes;
use crate::sync::changes::Changes;
use crate::sync::download::{AttemptFailure, DownloadSettings};
use crate::sync::error::Error;
use crate::sync::latest_state::{LatestState, StateFileWrite};
use crate::sync::new_email::{Location, MessageFile, NewEmail};
use crate::sync::tags::TagRules;

verus! {

/// What the user wants of a run.
pub struct Settings {
    /// Nothing is to be changed on either side.
    pub dry_run: bool,
    /// Changes are to be pulled from the server as well as pushed to it.
    pub pull: bool,
    /// Mailboxes are to be created for tags that lack one.
    pub auto_create_new_mailboxes: bool,
    pub downloads: DownloadSettings,
    pub tags: TagRules,
}

/// Why all the server's emails are looked at.
#[derive(Debug)]
pub enum FullSyncReason<S> {
    /// No state of the server is known.
    NoState,
    /// The server sent an update of an email that the local database does not have.
    UnknownUpdate,
    /// The server could not say what has changed.
    ChangesFailed { source: S },
}

/// A message on the progress of a run.
#[derive(Debug)]
pub enum Report {
    /// The emails' metadata is about to be retrieved.
    Metadata { possibly_changed: usize },
    /// New mail is about to be downloaded.
    Download,
    /// The notmuch database is about to be changed.
    Merge { new: usize, changed: usize, destroyed: usize },
    /// The changes are about to be pushed to the server.
    Push { changed: usize },
}

/// What a run asks to be done next.
#[allow(inconsistent_fields)]
pub enum Action<'a, S> {
    /// Open the lock file.
    OpenLockFile { path: &'a PathBuf },
    /// Take the lock, if no other process has it.
    TryLock,
    /// Say that another process has the lock, and wait for it.
    WaitForLock,
    /// Read the state file.
    ReadState { filename: &'a PathBuf },
    /// Open the local database.
    OpenLocal { read_only: bool },
    /// Open the local cache.
    OpenCache,
    /// Open the session with the server.
    OpenRemote,
    /// List the server's mailboxes.
    GetMailboxes,
    /// List all emails of the local database.
    ListLocalEmails,
    /// List what changed on the server.
    ListChanges { since: &'a State },
    /// List all emails of the server.
    ListRemoteIds { reason: &'a FullSyncReason<S> },
    /// Show a message.
    Report { report: Report },
    /// Retrieve the properties of these emails.
    GetRemoteEmails { ids: &'a IdSet, mailboxes: &'a Mailboxes },
    /// Work out where the files of this email are to be.
    Locate { email: &'a remote::Email },
    /// Download these emails into the cache.
    Download { emails: Vec<NewEmail<'a>>, settings: &'a DownloadSettings },
    /// Tell the revision that the local database is at.
    ReadRevision,
    /// Warn that the recorded revision is lost, and tell whether there is a
    /// terminal.
    WarnRevisionLost { dry_run: bool },
    /// Ask the user whether to go on.
    ConfirmRevision,
    /// Tell the user to come back on a terminal.
    RefuseRevision,
    /// List the emails of the local database that changed.
    ListLocalUpdates { since: u64 },
    /// Tell whether there is such a file in the maildir.
    CheckMaildirFile { path: &'a PathBuf },
    /// Remove a file of the maildir that the database does not know.
    RemoveUnindexedFile { path: &'a PathBuf },
    /// Link a cached mail file into the maildir.
    MakeSymlink { from: &'a PathBuf, to: &'a PathBuf },
    /// Begin an atomic operation on the database.
    BeginAtomic,
    /// Add an email to the database.
    AddEmail { email: NewEmail<'a> },
    /// Give an email of the database these tags and no others.
    UpdateTags { email: &'a local::Email, tags: KeySet<String> },
    /// Say that the database lacks an email that it was to have.
    ReportMissingEmail { id: &'a Id },
    /// Tell the last component of this path.
    NameFile { path: &'a PathBuf },
    /// Look a message up in the database.
    GetMessage { message_id: &'a String },
    /// Remove an email from the database.
    RemoveEmail { email: &'a local::Email },
    /// End the atomic operation on the database.
    EndAtomic,
    /// Remove a link from the maildir.
    RemoveSymlink { path: &'a PathBuf },
    /// Move a mail file from the cache to the maildir.
    MoveFile { from: &'a PathBuf, to: &'a PathBuf },
    /// Remove a mail file from the maildir.
    RemoveFile { path: &'a PathBuf },
    /// List the tags of the local database.
    ListTags,
    /// Create mailboxes for these tags.
    CreateMailboxes { tags: &'a Vec<String>, mailboxes: &'a Mailboxes },
    /// Push these emails to the server.
    PushChanges { emails: &'a IdMap<local::Email>, mailboxes: &'a Mailboxes },
    /// Write the state file.
    SaveState { filename: &'a PathBuf, state: &'a LatestState },
    /// The run is over.
    Finish,
}

impl<'a, S> Action<'a, S> {
    /// The action changes the notmuch database.
    pub open spec fn changes_database(self) -> bool {
        self is AddEmail || self is UpdateTags || self is RemoveEmail
    }

    /// The action changes the maildir.
    pub open spec fn changes_maildir(self) -> bool {
        self is RemoveUnindexedFile || self is MakeSymlink || self is RemoveSymlink
            || self is MoveFile || self is RemoveFile
    }

    /// The action changes the server.
    pub open spec fn changes_server(self) -> bool {
        self is CreateMailboxes || self is PushChanges
    }
}

/// Why the downloads as a whole failed.
#[derive(Debug)]
pub enum DownloadFailure<S> {
    /// The threads could not be started.
    ThreadPool { source: S },
    /// The download of an email failed.
    Email { failure: AttemptFailure<S> },
}

/// What a run is told.
#[allow(inconsistent_fields)]
pub enum Event<S> {
    /// It is done, or it failed.
    Ack { result: Result<(), S> },
    /// Whether the lock is taken.
    Locked { result: Result<bool, S> },
    /// The state of the last run.
    StateRead { result: Result<LatestState, Error<S>> },
    /// The server's mailboxes.
    GotMailboxes { result: Result<Mailboxes, S> },
    /// Emails of the local database.
    LocalEmails { result: Result<IdMap<local::Email>, S> },
    /// What changed on the server.
    Changed { result: Result<Changes, S> },
    /// The emails of the server, and the state that this describes.
    RemoteIds { result: Result<(State, IdSet), S> },
    /// The properties of emails of the server.
    RemoteEmails { result: Result<IdMap<remote::Email>, S> },
    /// Where the files of an email are to be.
    Located { location: Location },
    /// What came of the downloads.
    Downloaded { result: Result<(), DownloadFailure<S>> },
    /// The revision that the local database is at.
    Revision { revision: u64 },
    /// Whether there is a terminal.
    Terminal { is_terminal: bool },
    /// What the user answered.
    Answer { answer: String },
    /// Whether there is such a file.
    Exists { exists: bool },
    /// The email as the database has it now.
    Added { result: Result<local::Email, S> },
    /// The last component of a path.
    FileName { name: Option<String> },
    /// The files of a message, if there is such a message.
    Message { result: Result<Option<Vec<MessageFile>>, S> },
    /// The tags of the local database.
    Tags { result: Result<Vec<String>, S> },
    /// What came of writing the state file.
    StateSaved { outcome: StateFileWrite<S> },
}

impl<S> Event<S> {
    /// What the event brings is listed without duplicates.
    pub open spec fn wf(self) -> bool {
        match self {
            Event::LocalEmails { result: Ok(emails) } => emails@.wf(),
            Event::Changed { result: Ok(changes) } => {
                &&& changes.created@.no_duplicates()
                &&& changes.updated@.no_duplicates()
                &&& changes.destroyed@.no_duplicates()
            },
            Event::RemoteIds { result: Ok((state, ids)) } => ids@.no_duplicates(),
            _ => true,
        }
    }

    /// The event tells of a failure that stops a run.
    pub open spec fn fails(self) -> bool {
        match self {
            Event::Ack { result } => result is Err,
            Event::Locked { result } => result is Err,
            Event::GotMailboxes { result } => result is Err,
            Event::LocalEmails { result } => result is Err,
            Event::RemoteIds { result } => result is Err,
            Event::RemoteEmails { result } => result is Err,
            Event::Downloaded { result } => result is Err,
            Event::Added { result } => result is Err,
            Event::Message { result } => result is Err,
            Event::Tags { result } => result is Err,
            Event::StateSaved { outcome } => !(outcome is Written),
            _ => false,
        }
    }

    /// What an event brings is always listed without duplicates.
    pub(crate) fn lists(&self)
        ensures
            self.wf(),
    {
        match self {
            Event::LocalEmails { result: Ok(emails) } => {
                proof {
                    use_type_invariant(emails);
                    emails.lemma_wf();
                }
            },
            Event::Changed { result: Ok(changes) } => {
                proof {
                    use_type_invariant(&changes.created);
                    changes.created.lemma_distinct();
                    use_type_invariant(&changes.updated);
                    changes.updated.lemma_distinct();
                    use_type_invariant(&changes.destroyed);
                    changes.destroyed.lemma_distinct();
                }
            },
            Event::RemoteIds { result: Ok((state, ids)) } => {
                proof {
                    use_type_invariant(ids);
                    ids.lemma_distinct();
                }
            },
            _ => {},
        }
    }
}

} // verus!
