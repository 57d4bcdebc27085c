//! From which revision of the notmuch database on local changes count.

use vstd::prelude::*;

use crate::text;

verus! {

/// How far the search for the revision has come.
#[derive(Debug)]
pub enum RevisionQuery {
    /// The revision is found.
    Known { revision: u64 },
    /// It is the one that the database has now.
    ReadRevision,
    /// The user has to be warned that it is lost; is there a terminal to ask
    /// them on?
    Warn { dry_run: bool },
    /// The user has to be asked whether to go on.
    Confirm,
    /// The user has to be told to come back on a terminal.
    Refuse,
    /// There is no revision to go by.
    Missing,
}

/// Whether `answer` says to go on.
pub open spec fn is_yes(answer: Seq<char>) -> bool {
    text::trimmed(answer) == seq!['y'] || text::trimmed(answer) == seq!['Y']
}

/// Whether `answer` says to go on.
pub fn confirms(answer: &str) -> (yes: bool)
    ensures
        yes == is_yes(answer@),
{
    let inner = text::trim(answer);
    let yes = inner.len() == 1 && (inner[0] == 'y' || inner[0] == 'Y');
    proof {
        if inner@.len() == 1 {
            assert(inner@ =~= seq![inner@[0]]);
        }
        if inner@ == seq!['y'] {
            assert(inner@[0] == 'y');
        }
        if inner@ == seq!['Y'] {
            assert(inner@[0] == 'Y');
        }
    }
    yes
}

impl RevisionQuery {
    /// Where the search begins.
    pub open spec fn start(
        has_no_local_emails: bool,
        notmuch_revision: Option<u64>,
        dry_run: bool,
    ) -> Self {
        match notmuch_revision {
            Some(revision) => RevisionQuery::Known { revision },
            None => if has_no_local_emails {
                RevisionQuery::ReadRevision
            } else {
                RevisionQuery::Warn { dry_run }
            },
        }
    }

    /// How the search goes on once it is known whether there is a terminal.
    pub open spec fn after_terminal(is_terminal: bool) -> Self {
        if is_terminal {
            RevisionQuery::Confirm
        } else {
            RevisionQuery::Refuse
        }
    }

    /// How the search goes on once the user has answered.
    pub open spec fn after_answer(answer: Seq<char>) -> Self {
        if is_yes(answer) {
            RevisionQuery::ReadRevision
        } else {
            RevisionQuery::Missing
        }
    }

    /// What the search comes to when the database is at `current`, there is a
    /// terminal or not, and the user gives `answer` if they are asked.
    pub open spec fn outcome(self, current: u64, is_terminal: bool, answer: Seq<char>) -> Option<
        u64,
    >
        decreases
                match self {
                    RevisionQuery::Warn { .. } => 3int,
                    RevisionQuery::Confirm | RevisionQuery::Refuse => 2int,
                    RevisionQuery::ReadRevision => 1int,
                    _ => 0int,
                },
    {
        match self {
            RevisionQuery::Known { revision } => Some(revision),
            RevisionQuery::ReadRevision => (RevisionQuery::Known { revision: current }).outcome(
                current,
                is_terminal,
                answer,
            ),
            RevisionQuery::Warn { .. } => Self::after_terminal(is_terminal).outcome(
                current,
                is_terminal,
                answer,
            ),
            RevisionQuery::Confirm => Self::after_answer(answer).outcome(
                current,
                is_terminal,
                answer,
            ),
            RevisionQuery::Refuse => RevisionQuery::Missing.outcome(current, is_terminal, answer),
            RevisionQuery::Missing => None,
        }
    }

    /// Goes on once it is known whether there is a terminal.
    pub fn terminal(is_terminal: bool) -> (next: Self)
        ensures
            next == Self::after_terminal(is_terminal),
    {
        if is_terminal {
            RevisionQuery::Confirm
        } else {
            RevisionQuery::Refuse
        }
    }

    /// Goes on once the user has answered.
    pub fn answered(answer: &str) -> (next: Self)
        ensures
            next == Self::after_answer(answer@),
    {
        if confirms(answer) {
            RevisionQuery::ReadRevision
        } else {
            RevisionQuery::Missing
        }
    }
}

/// Begins the search for the revision from which on local changes count: the
/// recorded one; if there is none, the present one, provided that there is
/// nothing that could have changed or that the user agrees.
pub fn get_notmuch_revision(
    has_no_local_emails: bool,
    notmuch_revision: Option<u64>,
    dry_run: bool,
) -> (query: RevisionQuery)
    ensures
        query == RevisionQuery::start(has_no_local_emails, notmuch_revision, dry_run),
{
    match notmuch_revision {
        Some(revision) => RevisionQuery::Known { revision },
        None => if has_no_local_emails {
            RevisionQuery::ReadRevision
        } else {
            RevisionQuery::Warn { dry_run }
        },
    }
}

/// A recorded revision is taken as it is. Without one, the present revision is
/// taken if there are no local emails, or if there is a terminal on which the
/// user says yes; else there is no revision. Whether the run is dry plays no part.
pub proof fn law_revision_found(
    has_no_local_emails: bool,
    notmuch_revision: Option<u64>,
    dry_run: bool,
    current: u64,
    is_terminal: bool,
    answer: Seq<char>,
)
    ensures
        RevisionQuery::start(has_no_local_emails, notmuch_revision, dry_run).outcome(
            current,
            is_terminal,
            answer,
        ) == match notmuch_revision {
            Some(revision) => Some(revision),
            None => if has_no_local_emails || (is_terminal && is_yes(answer)) {
                Some(current)
            } else {
                None
            },
        },
{
    reveal_with_fuel(RevisionQuery::outcome, 5);
}

/// The user agrees with one letter, a y of either case, and with nothing else
/// but white space around it.
pub proof fn law_yes_is_one_letter(answer: Seq<char>)
    ensures
        is_yes(answer) <==> exists|k: int|
            {
                &&& 0 <= k < answer.len()
                &&& #[trigger] answer[k] == 'y' || answer[k] == 'Y'
                &&& forall|j: int|
                    0 <= j < answer.len() && j != k ==> text::is_white_space(#[trigger] answer[j])
            },
{
    text::law_trimmed_is_the_inside(answer);
    let (i, j) = choose|i: int, j: int|
        {
            &&& 0 <= i <= j <= answer.len()
            &&& text::trimmed(answer) == #[trigger] answer.subrange(i, j)
            &&& forall|k: int|
                0 <= k < i || j <= k < answer.len() ==> text::is_white_space(#[trigger] answer[k])
            &&& i < j ==> !text::is_white_space(answer[i]) && !text::is_white_space(answer[j - 1])
        };
    let inner = answer.subrange(i, j);
    if is_yes(answer) {
        assert(inner.len() == 1);
        assert(inner[0] == answer[i]);
    }
    if exists|k: int|
        {
            &&& 0 <= k < answer.len()
            &&& #[trigger] answer[k] == 'y' || answer[k] == 'Y'
            &&& forall|j: int|
                0 <= j < answer.len() && j != k ==> text::is_white_space(#[trigger] answer[j])
        } {
        let k = choose|k: int|
            {
                &&& 0 <= k < answer.len()
                &&& #[trigger] answer[k] == 'y' || answer[k] == 'Y'
                &&& forall|j: int|
                    0 <= j < answer.len() && j != k ==> text::is_white_space(#[trigger] answer[j])
            };
        text::law_white_space_is_blank(answer[k]);
        assert(i <= k < j);
        assert(i == k && j == k + 1);
        assert(inner =~= seq![answer[k]]);
    }
}

/// Without a recorded revision the user is asked only if there are local emails;
/// the warning says whether the run is dry.
pub proof fn law_user_is_asked_only_if_needed(
    has_no_local_emails: bool,
    notmuch_revision: Option<u64>,
    dry_run: bool,
)
    ensures
        match RevisionQuery::start(has_no_local_emails, notmuch_revision, dry_run) {
            RevisionQuery::Known { revision } => notmuch_revision == Some(revision),
            RevisionQuery::ReadRevision => notmuch_revision is None && has_no_local_emails,
            RevisionQuery::Warn { dry_run: said } => notmuch_revision is None
                && !has_no_local_emails && said == dry_run,
            _ => false,
        },
        RevisionQuery::after_terminal(true) is Confirm,
        RevisionQuery::after_terminal(false) is Refuse,
{
}

} // verus!
