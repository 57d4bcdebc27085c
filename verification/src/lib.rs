//! Two-way synchronisation of a notmuch mail database with a JMAP server.

pub mod jmap;
pub mod keyed;
pub mod local;
pub mod path;
pub mod remote;
pub mod seqs;
pub mod sync;
pub mod text;
