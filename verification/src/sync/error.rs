//! How a synchronisation fails.

use std::path::PathBuf;
use vstd::prelude::*;

verus! {

/// Why a synchronisation stopped. `S` is what the outside world reports of an
/// operation that failed.
#[derive(Debug)]
pub enum Error<S> {
    /// The lock file could not be opened.
    OpenLockFile { path: PathBuf, source: S },
    /// The lock could not be taken.
    Lock { source: S },
    /// A message could not be shown.
    Log { source: S },
    /// The state file could not be opened for reading.
    ReadStateFile { filename: PathBuf, source: S },
    /// The state file could not be parsed.
    ParseStateFile { filename: PathBuf, source: S },
    /// The state file could not be created.
    CreateStateFile { filename: PathBuf, source: S },
    /// The state file could not be written.
    WriteStateFile { filename: PathBuf, source: S },
    /// The local database could not be opened.
    OpenLocal { source: S },
    /// The local cache could not be opened.
    OpenCache { source: S },
    /// The session with the server could not be opened.
    OpenRemote { source: S },
    /// The mailboxes could not be listed.
    IndexMailboxes { source: S },
    /// The server has no mailboxes for these tags.
    MissingMailboxes { tags: Vec<String> },
    /// The missing mailboxes for these tags could not be created.
    CreateMailboxes { tags: Vec<String>, source: S },
    /// The notmuch tags could not be listed.
    IndexTags { source: S },
    /// The local emails could not be listed.
    IndexLocalEmails { source: S },
    /// The identifiers of all the server's emails could not be listed.
    IndexRemoteEmails { source: S },
    /// The properties of emails could not be retrieved from the server.
    GetRemoteEmails { source: S },
    /// The threads for the downloads could not be started.
    CreateDownloadThreadPool { source: S },
    /// An email could not be downloaded.
    DownloadRemoteEmail { source: S },
    /// An email could not be saved to the cache.
    CacheNewEmail { source: S },
    /// The revision of the notmuch database at the last run is not known.
    MissingNotmuchDatabaseRevision {  },
    /// The local emails that changed could not be listed.
    IndexLocalUpdatedEmails { source: S },
    /// A new email could not be added to the database.
    AddLocalEmail { filename: PathBuf, source: S },
    /// An email could not be updated in the database.
    UpdateLocalEmail { source: S },
    /// An email could not be removed from the database.
    RemoveLocalEmail { source: S },
    /// A message could not be looked up in the database.
    GetNotmuchMessage { source: S },
    /// A mail file that is in the way could not be removed.
    RemoveUnindexedMailFile { path: PathBuf, source: S },
    /// A cached mail file could not be linked into the maildir.
    MakeMaildirSymlink { from: PathBuf, to: PathBuf, source: S },
    /// A mail file could not be moved into the maildir.
    RenameMailFile { from: PathBuf, to: PathBuf, source: S },
    /// A mail file could not be removed.
    RemoveMailFile { path: PathBuf, source: S },
    /// The atomic database operation could not be begun.
    BeginAtomic { source: S },
    /// The atomic database operation could not be ended.
    EndAtomic { source: S },
    /// The changes could not be pushed to the server.
    PushChanges { source: S },
    /// The database handed back something other than what was put into it.
    Programmer {  },
}

} // verus!
