//! What one run of the synchronisation leaves behind for the next.

use std::path::PathBuf;
use vstd::prelude::*;

use crate::jmap::State;
use crate::sync::error::Error;

verus! {

/// The name of the state file in the mail directory.
pub const STATE_FILE_NAME: &'static str = "mujmap.state.json";

/// The state of both sides as of the last run.
#[derive(Debug)]
pub struct LatestState {
    /// Latest revision of the notmuch database since the last time mujmap was run.
    pub notmuch_revision: Option<u64>,
    /// Latest JMAP Email state returned by `Email/get`.
    pub jmap_state: Option<State>,
}

/// What came of reading the state file.
pub enum StateFileRead<S> {
    /// The file could not be opened.
    Unopened(S),
    /// The file holds something other than a state.
    Malformed(S),
    Parsed(LatestState),
}

/// What came of writing the state file.
pub enum StateFileWrite<S> {
    /// The file could not be created.
    Uncreated(S),
    /// The state could not be written to it.
    Unwritten(S),
    Written,
}

impl LatestState {
    /// The state that the file `filename` holds, by what came of reading it.
    pub fn open<S>(filename: PathBuf, outcome: StateFileRead<S>) -> (state: Result<Self, Error<S>>)
        ensures
            state == match outcome {
                StateFileRead::Unopened(source) => Err(Error::ReadStateFile { filename, source }),
                StateFileRead::Malformed(source) => Err(
                    Error::ParseStateFile { filename, source },
                ),
                StateFileRead::Parsed(parsed) => Ok(parsed),
            },
    {
        match outcome {
            StateFileRead::Unopened(source) => Err(Error::ReadStateFile { filename, source }),
            StateFileRead::Malformed(source) => Err(Error::ParseStateFile { filename, source }),
            StateFileRead::Parsed(parsed) => Ok(parsed),
        }
    }

    /// Whether the state was saved to the file `filename`, by what came of
    /// writing it.
    pub open spec fn saving<S>(filename: PathBuf, outcome: StateFileWrite<S>) -> Result<
        (),
        Error<S>,
    > {
        match outcome {
            StateFileWrite::Uncreated(source) => Err(Error::CreateStateFile { filename, source }),
            StateFileWrite::Unwritten(source) => Err(Error::WriteStateFile { filename, source }),
            StateFileWrite::Written => Ok(()),
        }
    }

    /// Whether the state was saved to the file `filename`, by what came of
    /// writing it.
    pub fn save<S>(filename: PathBuf, outcome: StateFileWrite<S>) -> (saved: Result<(), Error<S>>)
        ensures
            saved == Self::saving(filename, outcome),
    {
        match outcome {
            StateFileWrite::Uncreated(source) => Err(Error::CreateStateFile { filename, source }),
            StateFileWrite::Unwritten(source) => Err(Error::WriteStateFile { filename, source }),
            StateFileWrite::Written => Ok(()),
        }
    }

    /// The state when nothing is known of an earlier run.
    pub open spec fn nothing() -> Self {
        LatestState { notmuch_revision: None, jmap_state: None }
    }

    /// The state when nothing is known of an earlier run.
    pub fn empty() -> (state: Self)
        ensures
            state == Self::nothing(),
    {
        LatestState { notmuch_revision: None, jmap_state: None }
    }

    /// What to record when a run has ended: the first revision that the run has
    /// not seen, and the server's state if the run pulled it. A run that only
    /// pushed leaves the server's state as it was, so that the next pull misses
    /// nothing.
    pub open spec fn recorded(
        self,
        pull: bool,
        server_state: Option<State>,
        revision: u64,
    ) -> Self {
        LatestState {
            notmuch_revision: Some((revision + 1) as u64),
            jmap_state: if pull {
                server_state
            } else {
                self.jmap_state
            },
        }
    }

    /// What to record when a run has ended.
    pub fn record(&self, pull: bool, server_state: &Option<State>, revision: u64) -> (state: Self)
        requires
            revision < u64::MAX,
        ensures
            state == self.recorded(pull, *server_state, revision),
    {
        let kept = if pull {
            server_state
        } else {
            &self.jmap_state
        };
        let jmap_state = match kept {
            Some(state) => Some(state.clone()),
            None => None,
        };
        LatestState { notmuch_revision: Some(revision + 1), jmap_state }
    }
}

} // verus!
