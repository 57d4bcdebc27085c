//! One run of the synchronisation: what it decides, and in which order it acts.
//!
//! A run is carried out in steps. [`machine`] says what to do next and goes on
//! with what came of it; [`protocol`] holds what is said in both directions, and
//! [`run`] the model that says how a run goes on. The modules before them hold
//! the decisions that a run makes on the way, those after them what holds of
//! every run.

pub mod changes;
pub mod download;
pub mod error;
pub mod latest_state;
pub mod new_email;
pub mod revision;
pub mod tags;

pub mod machine;
pub mod protocol;
pub mod run;

pub mod course;
pub mod laws;
pub mod merge_laws;
pub mod step_laws;
pub mod told_laws;

pub use self::error::Error;
pub use self::latest_state::LatestState;
pub use self::machine::{sync, SyncRun};
pub use self::new_email::NewEmail;
