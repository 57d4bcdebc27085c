//! What a synchronisation reads of the emails in the notmuch database.

use std::path::PathBuf;
use vstd::prelude::*;

use crate::jmap::Id;

verus! {

/// An email of the notmuch database.
#[derive(Debug)]
pub struct Email {
    /// The JMAP identifier of the email.
    pub id: Id,
    /// The JMAP identifier of the email's contents.
    pub blob_id: Id,
    /// The identifier of the message in the database.
    pub message_id: String,
    /// The mail file.
    pub path: PathBuf,
    /// The notmuch tags of the message.
    pub tags: Vec<String>,
}

} // verus!
