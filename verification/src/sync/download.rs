//! The download of one email into the cache.

use vstd::prelude::*;

use crate::jmap::Id;
use crate::sync::error::Error;
use crate::sync::new_email::NewEmail;

verus! {

/// What the user wants of the downloads.
#[derive(Clone, Copy, Debug)]
pub struct DownloadSettings {
    /// How many emails are downloaded at a time.
    pub concurrent_downloads: usize,
    /// How many attempts at an email may fail; without a limit if it is 0.
    pub retries: usize,
    /// Mail files get Unix line endings.
    pub convert_dos_to_unix: bool,
}

/// Why an attempt at a download failed.
#[derive(Clone, Debug)]
pub enum AttemptFailure<S> {
    /// The email's blob could not be read from the server.
    Read { source: S },
    /// What was read could not be put into the cache.
    Store { source: S },
}

impl<S> AttemptFailure<S> {
    /// The error that stops a run when no further attempt is made.
    pub open spec fn as_error(self) -> Error<S> {
        match self {
            AttemptFailure::Read { source } => Error::DownloadRemoteEmail { source },
            AttemptFailure::Store { source } => Error::CacheNewEmail { source },
        }
    }

    /// The error that stops a run when no further attempt is made.
    pub fn into_error(self) -> (error: Error<S>)
        ensures
            error == self.as_error(),
    {
        match self {
            AttemptFailure::Read { source } => Error::DownloadRemoteEmail { source },
            AttemptFailure::Store { source } => Error::CacheNewEmail { source },
        }
    }
}

/// How far a download has come.
#[derive(Debug)]
pub enum Stage<S> {
    /// The email's blob has to be read from the server.
    Reading,
    /// What was read has to be put into the cache.
    Storing,
    /// The attempt failed, and another one is due.
    Retrying { failure: AttemptFailure<S> },
    /// The email is in the cache.
    Succeeded,
    /// The last attempt failed.
    Failed { failure: AttemptFailure<S> },
}

/// What has to be put into the cache.
#[derive(Debug)]
pub struct Store<'a, B> {
    /// The email that it is the contents of.
    pub email: &'a NewEmail<'a>,
    /// What was read from the server.
    pub blob: B,
    /// The mail file gets Unix line endings.
    pub convert_dos_to_unix: bool,
}

/// The download of one email.
#[derive(Debug)]
pub struct Download<'a, S> {
    pub email: &'a NewEmail<'a>,
    /// The mail file gets Unix line endings.
    pub convert_dos_to_unix: bool,
    /// How many attempts may fail; without a limit if it is 0.
    pub retries: usize,
    /// How many attempts have failed.
    pub failures: usize,
    pub stage: Stage<S>,
}

impl<'a, S> Download<'a, S> {
    /// While the download is not over, the attempts are not used up.
    pub open spec fn wf(self) -> bool {
        self.retries > 0 && !(self.stage is Failed) && !(self.stage is Succeeded) ==> self.failures
            < self.retries
    }

    /// The download before its first attempt.
    pub open spec fn start(email: &'a NewEmail<'a>, settings: DownloadSettings) -> Self {
        Download {
            email,
            convert_dos_to_unix: settings.convert_dos_to_unix,
            retries: settings.retries,
            failures: 0,
            stage: Stage::Reading,
        }
    }

    /// The download after an attempt failed with `failure`.
    pub open spec fn failing(self, failure: AttemptFailure<S>) -> Self {
        let failures = (self.failures + 1) as usize;
        Download {
            failures,
            stage: if self.retries > 0 && failures >= self.retries {
                Stage::Failed { failure }
            } else {
                Stage::Retrying { failure }
            },
            ..self
        }
    }

    /// The download after what it waited for came to `outcome`.
    pub open spec fn after(self, outcome: Result<(), S>) -> Self {
        match (self.stage, outcome) {
            (Stage::Reading, Ok(_)) => Download { stage: Stage::Storing, ..self },
            (Stage::Reading, Err(source)) => self.failing(AttemptFailure::Read { source }),
            (Stage::Storing, Ok(_)) => Download { stage: Stage::Succeeded, ..self },
            (Stage::Storing, Err(source)) => self.failing(AttemptFailure::Store { source }),
            _ => self,
        }
    }

    /// The download at its next attempt.
    pub open spec fn resumed(self) -> Self {
        match self.stage {
            Stage::Retrying { .. } => Download { stage: Stage::Reading, ..self },
            _ => self,
        }
    }

    fn fail(self, failure: AttemptFailure<S>) -> (next: Self)
        requires
            self.failures < usize::MAX,
        ensures
            next == self.failing(failure),
    {
        let failures: usize = self.failures + 1;
        if self.retries > 0 && failures >= self.retries {
            Download { failures, stage: Stage::Failed { failure }, ..self }
        } else {
            Download { failures, stage: Stage::Retrying { failure }, ..self }
        }
    }

    /// A failure can be counted. Only a download without a limit can run out of
    /// numbers to count its failures with.
    pub open spec fn countable(self) -> bool {
        self.retries > 0 || self.failures < usize::MAX
    }

    /// The blob to read from the server: the contents of the email.
    pub fn blob_to_read(&self) -> (blob_id: &'a Id)
        ensures
            *blob_id == self.email.remote_email.blob_id,
    {
        &self.email.remote_email.blob_id
    }

    /// Goes on with what came of reading the blob. If there is one, it is to be
    /// put into the cache for the email, with the line endings that were asked for.
    pub fn read<B>(self, outcome: Result<B, S>) -> (next: (Self, Option<Store<'a, B>>))
        requires
            self.wf(),
            self.stage is Reading,
            outcome is Ok || self.countable(),
        ensures
            next.0.wf(),
            next.0 == self.after(
                match outcome {
                    Ok(_) => Ok(()),
                    Err(source) => Err(source),
                },
            ),
            next.1 == match outcome {
                Ok(blob) => Some(
                    Store {
                        email: self.email,
                        blob,
                        convert_dos_to_unix: self.convert_dos_to_unix,
                    },
                ),
                Err(_) => None,
            },
    {
        match outcome {
            Ok(blob) => {
                let store = Store {
                    email: self.email,
                    blob,
                    convert_dos_to_unix: self.convert_dos_to_unix,
                };
                (Download { stage: Stage::Storing, ..self }, Some(store))
            },
            Err(source) => (self.fail(AttemptFailure::Read { source }), None),
        }
    }

    /// Goes on with what came of putting the blob into the cache.
    pub fn stored(self, outcome: Result<(), S>) -> (next: Self)
        requires
            self.wf(),
            self.stage is Storing,
            outcome is Ok || self.countable(),
        ensures
            next.wf(),
            next == self.after(outcome),
    {
        match outcome {
            Ok(_) => Download { stage: Stage::Succeeded, ..self },
            Err(source) => self.fail(AttemptFailure::Store { source }),
        }
    }

    /// Begins the next attempt.
    pub fn resume(self) -> (next: Self)
        requires
            self.wf(),
            self.stage is Retrying,
        ensures
            next.wf(),
            next == self.resumed(),
            next.stage is Reading,
    {
        Download { stage: Stage::Reading, ..self }
    }

    /// One whole attempt: the blob is read with the one outcome, and if that
    /// went well, stored with the other.
    pub open spec fn attempt(self, read: Result<(), S>, store: Result<(), S>) -> Self {
        if read is Ok {
            self.after(read).after(store)
        } else {
            self.after(read)
        }
    }

    /// Attempts with these outcomes, one after the other, as long as another one
    /// is due.
    pub open spec fn attempts(self, outcomes: Seq<(Result<(), S>, Result<(), S>)>) -> Self
        decreases outcomes.len(),
    {
        if outcomes.len() == 0 {
            self
        } else {
            let before = self.attempts(outcomes.drop_last()).resumed();
            if before.stage is Reading {
                before.attempt(outcomes.last().0, outcomes.last().1)
            } else {
                before
            }
        }
    }
}

/// Begins the download of an email.
pub fn download<'a, S>(email: &'a NewEmail<'a>, settings: &DownloadSettings) -> (download: Download<
    'a,
    S,
>)
    ensures
        download == Download::<'a, S>::start(email, *settings),
        download.wf(),
{
    Download {
        email,
        convert_dos_to_unix: settings.convert_dos_to_unix,
        retries: settings.retries,
        failures: 0,
        stage: Stage::Reading,
    }
}

/// An attempt with these outcomes fails.
pub open spec fn fails<S>(outcome: (Result<(), S>, Result<(), S>)) -> bool {
    outcome.0 is Err || outcome.1 is Err
}

/// How an attempt fails with these outcomes.
pub open spec fn failure_of<S>(outcome: (Result<(), S>, Result<(), S>)) -> AttemptFailure<S> {
    match outcome.0 {
        Err(source) => AttemptFailure::Read { source },
        Ok(_) => AttemptFailure::Store { source: outcome.1->Err_0 },
    }
}

/// A download whose attempts all fail is given up after as many of them as the
/// limit says, for the reason that the last one failed; without a limit it never is.
pub proof fn law_download_gives_up<S>(
    email: &NewEmail,
    settings: DownloadSettings,
    outcomes: Seq<(Result<(), S>, Result<(), S>)>,
)
    requires
        outcomes.len() < usize::MAX,
        forall|i: int| 0 <= i < outcomes.len() ==> fails(#[trigger] outcomes[i]),
    ensures
        ({
            let retries = settings.retries;
            let end = Download::<S>::start(email, settings).attempts(outcomes);
            if retries > 0 && outcomes.len() >= retries {
                end.stage == Stage::Failed { failure: failure_of(outcomes[retries - 1]) }
                    && end.failures == retries
            } else {
                end.resumed().stage is Reading && end.failures == outcomes.len()
            }
        }),
        Download::<S>::start(email, settings).attempts(outcomes).retries == settings.retries,
    decreases outcomes.len(),
{
    if outcomes.len() > 0 {
        let rest = outcomes.drop_last();
        assert forall|i: int| 0 <= i < rest.len() implies fails(#[trigger] rest[i]) by {
            assert(fails(outcomes[i]));
        }
        law_download_gives_up(email, settings, rest);
        let last = outcomes.last();
        assert(fails(outcomes[outcomes.len() - 1]));
        if settings.retries > 0 && rest.len() >= settings.retries {
            assert(rest[settings.retries - 1] == outcomes[settings.retries - 1]);
        }
    }
}

/// A download succeeds with its first attempt that does, unless it was given up
/// before.
pub proof fn law_download_succeeds<S>(
    email: &NewEmail,
    settings: DownloadSettings,
    outcomes: Seq<(Result<(), S>, Result<(), S>)>,
)
    requires
        0 < outcomes.len() < usize::MAX,
        forall|i: int| 0 <= i < outcomes.len() - 1 ==> fails(#[trigger] outcomes[i]),
        !fails(outcomes.last()),
        settings.retries == 0 || outcomes.len() <= settings.retries,
    ensures
        Download::<S>::start(email, settings).attempts(outcomes).stage is Succeeded,
{
    let rest = outcomes.drop_last();
    assert forall|i: int| 0 <= i < rest.len() implies fails(#[trigger] rest[i]) by {
        assert(fails(outcomes[i]));
    }
    law_download_gives_up(email, settings, rest);
}

/// Whatever happens, a download stays one of the same email, with the same line
/// endings and the same limit.
pub proof fn law_download_stays_with_its_email<S>(
    email: &NewEmail,
    settings: DownloadSettings,
    outcomes: Seq<(Result<(), S>, Result<(), S>)>,
)
    ensures
        Download::<S>::start(email, settings).attempts(outcomes).email == email,
        Download::<S>::start(email, settings).attempts(outcomes).convert_dos_to_unix
            == settings.convert_dos_to_unix,
        Download::<S>::start(email, settings).attempts(outcomes).retries == settings.retries,
    decreases outcomes.len(),
{
    if outcomes.len() > 0 {
        law_download_stays_with_its_email(email, settings, outcomes.drop_last());
    }
}

/// As long as another attempt is due, the download holds why the last one failed.
pub proof fn law_download_holds_its_last_failure<S>(
    email: &NewEmail,
    settings: DownloadSettings,
    outcomes: Seq<(Result<(), S>, Result<(), S>)>,
)
    requires
        0 < outcomes.len() < usize::MAX,
        settings.retries == 0 || outcomes.len() < settings.retries,
        forall|i: int| 0 <= i < outcomes.len() ==> fails(#[trigger] outcomes[i]),
    ensures
        Download::<S>::start(email, settings).attempts(outcomes).stage == (Stage::Retrying {
            failure: failure_of(outcomes.last()),
        }),
{
    let rest = outcomes.drop_last();
    assert forall|i: int| 0 <= i < rest.len() implies fails(#[trigger] rest[i]) by {
        assert(fails(outcomes[i]));
    }
    law_download_gives_up(email, settings, rest);
    assert(fails(outcomes[outcomes.len() - 1]));
}

/// One operation after the other: what was read has to be stored, what is stored
/// is done, and a failure of either is counted, once.
pub proof fn law_download_goes_on_by_outcomes<S>(download: Download<S>, outcome: Result<(), S>)
    requires
        download.failures < usize::MAX,
    ensures
        download.stage is Reading && outcome is Ok ==> download.after(outcome).stage is Storing,
        download.stage is Storing && outcome is Ok ==> download.after(outcome).stage is Succeeded,
        outcome is Ok ==> download.after(outcome).failures == download.failures,
        (download.stage is Reading || download.stage is Storing) && outcome is Err
            ==> download.after(outcome).failures == download.failures + 1 && (download.after(
            outcome,
        ).stage is Failed <==> 0 < download.retries <= download.failures + 1) && (download.after(
            outcome,
        ).stage is Failed || download.after(outcome).stage is Retrying),
        download.after(outcome).retries == download.retries,
        download.after(outcome).email == download.email,
        download.after(outcome).convert_dos_to_unix == download.convert_dos_to_unix,
        download.stage is Retrying ==> download.resumed().stage is Reading
            && download.resumed().failures == download.failures,
{
}

} // verus!
