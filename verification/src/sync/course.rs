//! The course of a run from its beginning: how far it has come, and what it
//! knows by then.

use std::path::PathBuf;
use vstd::prelude::*;

use crate::keyed;
use crate::local;
use crate::seqs;
use crate::sync::changes;
use crate::sync::new_email;
use crate::sync::protocol::{Event, Settings};
use crate::sync::run::{Phase, Run};

verus! {

impl<S> Run<S> {
    /// How far the run has come.
    pub open spec fn stage(self) -> int {
        match self.phase {
            Phase::OpenLockFile => 0,
            Phase::TryLock => 1,
            Phase::WaitForLock => 2,
            Phase::ReadState => 3,
            Phase::OpenLocal => 4,
            Phase::OpenCache => 5,
            Phase::OpenRemote => 6,
            Phase::GetMailboxes => 7,
            Phase::ListLocalEmails => 8,
            Phase::ListChanges => 9,
            Phase::ListRemoteIds { .. } => 10,
            Phase::ReportMetadata => 11,
            Phase::GetRemoteEmails => 12,
            Phase::Locate { .. } => 13,
            Phase::ReportDownload => 14,
            Phase::Download => 15,
            Phase::SearchRevision { .. } => 16,
            Phase::ListLocalUpdates { .. } => 17,
            Phase::ReportMerge => 18,
            Phase::CheckMaildirFile { .. }
            | Phase::RemoveUnindexedFile { .. }
            | Phase::MakeSymlink { .. } => 19,
            Phase::BeginAtomic => 20,
            Phase::AddEmail { .. } => 21,
            Phase::UpdateTags { .. }
            | Phase::ReportMissingEmail { .. }
            | Phase::NameFile { .. }
            | Phase::GetMessage { .. } => 22,
            Phase::RemoveEmail { .. } => 23,
            Phase::EndAtomic => 24,
            Phase::MoveFile { .. } => 25,
            Phase::RemoveFile { .. } => 26,
            Phase::ListTags => 27,
            Phase::CreateMailboxes { .. } => 28,
            Phase::ReportPush => 29,
            Phase::PushChanges => 30,
            Phase::ReadFinalRevision => 31,
            Phase::SaveState { .. } => 32,
            Phase::RollBack { .. } => 33,
            Phase::Done { .. } => 34,
        }
    }
}

/// A step that a run can take.
pub open spec fn steps<S>(run: Run<S>, event: Event<S>, next: Run<S>) -> bool {
    &&& event.wf()
    &&& run.accepts(event)
    &&& run.leads_to(event, next)
}

/// The course of a run from its beginning: where it was, and with which event it
/// went on from there.
#[verifier::reject_recursive_types(S)]
pub struct Course<S> {
    pub runs: Seq<Run<S>>,
    pub events: Seq<Event<S>>,
}

impl<S> Course<S> {
    /// The run began with these settings, and took one step after the other.
    pub open spec fn valid(
        self,
        settings: Settings,
        lock_path: PathBuf,
        state_path: PathBuf,
    ) -> bool {
        &&& self.runs.len() == self.events.len() + 1
        &&& self.runs[0].starts(settings, lock_path, state_path)
        &&& forall|n: int|
            0 <= n < self.events.len() ==> steps(
                self.runs[n],
                #[trigger] self.events[n],
                self.runs[n + 1],
            )
        &&& forall|n: int| 0 <= n < self.runs.len() ==> (#[trigger] self.runs[n]).fits()
    }
}

/// With a step a run never gets to an earlier stage, and none is left once it is
/// over; what the user wants and the paths stay.
pub proof fn lemma_stage<S>(run: Run<S>, event: Event<S>, next: Run<S>)
    requires
        steps(run, event, next),
    ensures
        run.stage() <= next.stage(),
        run.stage() < 34,
        next.settings == run.settings,
        next.lock_path == run.lock_path,
        next.state_path == run.state_path,
{
}

/// Whatever a run is told, what it knows goes on hanging together.
pub proof fn law_step_keeps_invariant<S>(run: Run<S>, event: Event<S>, next: Run<S>)
    requires
        run.inv(),
        run.fits(),
        next.fits(),
        steps(run, event, next),
    ensures
        next.inv(),
{
    run.local.lemma_listed();
    run.new.lemma_listed();
    match (run.phase, event) {
        (Phase::ListChanges, Event::Changed { result: Ok(changes) }) => {
            keyed::lemma_with_keys(changes.updated@, changes.created@);
        },
        (Phase::ListRemoteIds { .. }, Event::RemoteIds { result: Ok((state, ids)) }) => {
            changes::lemma_not_among(run.local, ids@);
        },
        (Phase::GetRemoteEmails, Event::RemoteEmails { result: Ok(emails) }) => {
            new_email::lemma_places(
                next.remote.len(),
                |i: usize| new_email::is_new(next.remote[i as int], run.local),
            );
        },
        (Phase::Locate { i }, Event::Located { location }) => {
            let key = run.remote[run.fresh[i as int] as int].id@;
            run.new.lemma_insert(key, next.new.map[key]);
        },
        (Phase::ListLocalUpdates { .. }, Event::LocalEmails { result: Ok(emails) }) => {
            lemma_without(emails@, run.destroyed);
            new_email::lemma_places(
                run.remote.len(),
                |i: usize| !next.updated_local.contains(run.remote[i as int].id@),
            );
        },
        (Phase::ReportMerge, Event::Ack { result }) => {
            let keep = |key: Seq<char>| run.local.contains(key);
            seqs::lemma_filter_members(run.destroyed, keep);
            assert forall|j: int| 0 <= j < run.destroyed.filter(keep).len() implies keep(
                #[trigger] run.destroyed.filter(keep)[j],
            ) by {
                assert(run.destroyed.filter(keep).contains(run.destroyed.filter(keep)[j]));
            }
        },
        (Phase::AddEmail { i }, Event::Added { result: Ok(email) }) => {
            run.new_local.lemma_insert(email.id@, email);
        },
        (Phase::GetMessage { i, name }, Event::Message { result: Ok(Some(files)) }) => {
            let key = run.tagged(i as int).id@;
            run.new.lemma_insert(key, next.new.map[key]);
        },
        _ => {},
    }
    assert forall|key: Seq<char>| #[trigger] next.new.contains(key) implies next.new.map[key].remote
        < next.remote.len() && next.remote[next.new.map[key].remote as int].id@ == key by {
        assert(run.new.keys.contains(key) <==> run.new.contains(key));
    }
}

/// Taking keys away keeps every key listed once.
proof fn lemma_without(all: keyed::Dict<local::Email>, drop: Seq<Seq<char>>)
    requires
        all.wf(),
    ensures
        all.without(drop).wf(),
        forall|key: Seq<char>| #[trigger]
            all.without(drop).contains(key) <==> all.contains(key) && !drop.contains(key),
{
    let keep = |key: Seq<char>| !drop.contains(key);
    all.lemma_listed();
    seqs::lemma_filter_members(all.keys, keep);
    seqs::lemma_filter_distinct(all.keys, keep);
    assert(all.without(drop).keys.to_set() =~= all.without(drop).map.dom());
}

/// A run never goes back.
pub proof fn lemma_onward<S>(
    course: Course<S>,
    settings: Settings,
    lock_path: PathBuf,
    state_path: PathBuf,
    m: int,
    n: int,
)
    requires
        course.valid(settings, lock_path, state_path),
        0 <= m <= n < course.runs.len(),
    ensures
        course.runs[m].stage() <= course.runs[n].stage(),
        m < n ==> course.runs[m].stage() < 34,
        course.runs[n].settings == settings,
        course.runs[n].lock_path == lock_path,
        course.runs[n].state_path == state_path,
    decreases n,
{
    if n > 0 {
        let k = n - 1;
        assert(steps(course.runs[k], course.events[k], course.runs[k + 1]));
        lemma_stage(course.runs[k], course.events[k], course.runs[k + 1]);
        if m < n {
            lemma_onward(course, settings, lock_path, state_path, m, k);
        } else {
            lemma_onward(course, settings, lock_path, state_path, k, k);
        }
    }
}

/// Every run hangs together, from its beginning on.
pub proof fn law_run_hangs_together<S>(
    course: Course<S>,
    settings: Settings,
    lock_path: PathBuf,
    state_path: PathBuf,
    n: int,
)
    requires
        course.valid(settings, lock_path, state_path),
        0 <= n < course.runs.len(),
    ensures
        course.runs[n].inv(),
    decreases n,
{
    if n == 0 {
        let start = course.runs[0];
        assert(start.local.keys.to_set() =~= start.local.map.dom());
        assert(start.new.keys.to_set() =~= start.new.map.dom());
        assert(start.updated_local.keys.to_set() =~= start.updated_local.map.dom());
        assert(start.new_local.keys.to_set() =~= start.new_local.map.dom());
    } else {
        let k = n - 1;
        law_run_hangs_together(course, settings, lock_path, state_path, k);
        assert(steps(course.runs[k], course.events[k], course.runs[k + 1]));
        assert(course.runs[k].fits());
        assert(course.runs[k + 1].fits());
        law_step_keeps_invariant(course.runs[k], course.events[k], course.runs[k + 1]);
    }
}

impl<S> Run<S> {
    /// `key` is the identifier of one of the first `count` new emails.
    pub open spec fn is_fresh_id(self, key: Seq<char>, count: int) -> bool {
        exists|j: int|
            0 <= j < count && self.remote[#[trigger] self.fresh[j] as int].id@ == key
    }

    /// The files are known of the first `count` new emails, and of no others.
    pub open spec fn located(self, count: int) -> bool {
        forall|key: Seq<char>| #[trigger]
            self.new.contains(key) <==> self.is_fresh_id(key, count)
    }

    /// The emails to remove are those that are gone from the server and those that
    /// one of the first `count` new emails replaces.
    pub open spec fn replaced(self, count: int) -> bool {
        forall|key: Seq<char>| #[trigger]
            self.destroyed_local.contains(key) <==> self.local.contains(key) && (
            self.destroyed.contains(key) || self.new.keys.take(count).contains(key))
    }

    /// No new email has the identifier of one that is no longer on the server.
    pub open spec fn apart(self) -> bool {
        forall|key: Seq<char>| #[trigger] self.new.contains(key) ==> !self.destroyed.contains(key)
    }

    /// What the run knows is what it says it is.
    pub open spec fn facts(self) -> bool {
        &&& self.stage() <= 12 ==> self.remote.len() == 0
        &&& self.fresh == new_email::new_among(self.remote, self.local)
        &&& forall|key: Seq<char>|
            #![trigger self.updated_local.contains(key)]
            self.updated_local.contains(key) ==> !self.destroyed.contains(key)
        &&& 18 <= self.stage() <= 33 ==> self.to_tag == new_email::unchanged_offline(
            self.remote,
            self.updated_local,
        )
        &&& 11 <= self.stage() <= 33 ==> self.server_state is Some
        &&& self.phase matches Phase::Locate { i } ==> self.located(i as int)
        &&& 14 <= self.stage() <= 33 ==> self.located(self.fresh.len() as int)
        &&& self.stage() <= 20 ==> self.new_local.len() == 0
        &&& self.phase matches Phase::ListLocalUpdates { since } ==> (
        self.latest.notmuch_revision matches Some(revision) ==> since == revision)
        &&& self.phase is SearchRevision ==> self.latest.notmuch_revision is None
        &&& self.phase matches Phase::SaveState { state } ==> {
            &&& state.notmuch_revision is Some
            &&& state.jmap_state == if self.settings.pull {
                self.server_state
            } else {
                self.latest.jmap_state
            }
        }
        &&& 19 <= self.stage() <= 20 ==> self.replaced(0)
        &&& self.phase matches Phase::AddEmail { i } ==> self.replaced(i as int)
        &&& 22 <= self.stage() <= 32 && self.settings.pull && !self.settings.dry_run
            ==> self.replaced(self.new.len() as int)
        &&& 19 <= self.stage() <= 26 && self.apart() ==> self.destroyed_local.no_duplicates()
    }
}

/// What the emails to remove are, from one step to the next.
proof fn lemma_replaced_step<S>(run: Run<S>, event: Event<S>, next: Run<S>)
    requires
        run.inv(),
        run.fits(),
        next.fits(),
        run.facts(),
        steps(run, event, next),
    ensures
        19 <= next.stage() <= 20 ==> next.replaced(0),
        next.phase matches Phase::AddEmail { i } ==> next.replaced(i as int),
        22 <= next.stage() <= 32 && next.settings.pull && !next.settings.dry_run ==> next.replaced(
            next.new.len() as int,
        ),
        19 <= next.stage() <= 26 && next.apart() ==> next.destroyed_local.no_duplicates(),
{
    run.new.lemma_listed();
    if next.apart() && 19 <= run.stage() <= 26 {
        assert forall|key: Seq<char>| #[trigger]
            run.new.contains(key) implies !run.destroyed.contains(key) by {
            assert(next.new.contains(key));
        }
    }
    match (run.phase, event) {
        (Phase::ReportMerge, Event::Ack { result: Ok(_) }) => {
            let keep = |key: Seq<char>| run.local.contains(key);
            seqs::lemma_filter_members(run.destroyed, keep);
            seqs::lemma_filter_distinct(run.destroyed, keep);
            assert(next.new.keys.take(0) =~= Seq::empty());
        },
        (Phase::AddEmail { i }, Event::Added { result: Ok(email) }) => {
            let last = run.new.keys[i as int];
            let before = run.new.keys.take(i as int);
            assert(next.new.keys.take(i + 1) =~= before.push(last));
            assert forall|key: Seq<char>| #[trigger]
                next.destroyed_local.contains(key) <==> next.local.contains(key) && (
                next.destroyed.contains(key) || next.new.keys.take(i + 1).contains(key)) by {
                assert(run.destroyed_local.contains(key) <==> run.local.contains(key) && (
                run.destroyed.contains(key) || before.contains(key)));
                seqs::lemma_push_members(before, last, key);
                seqs::lemma_push_members(run.destroyed_local, last, key);
            }
            if next.apart() {
                assert(run.new.contains(last));
                assert(!run.destroyed_local.contains(last)) by {
                    assert(run.destroyed_local.contains(last) <==> run.local.contains(last) && (
                    run.destroyed.contains(last) || before.contains(last)));
                    if before.contains(last) {
                        let j = choose|j: int| 0 <= j < before.len() && before[j] == last;
                        assert(run.new.keys[j] == run.new.keys[i as int]);
                    }
                }
            }
        },
        _ => {},
    }
}

/// What the run knows is what it says it is, from one step to the next.
proof fn lemma_facts_step<S>(run: Run<S>, event: Event<S>, next: Run<S>)
    requires
        run.inv(),
        run.fits(),
        next.fits(),
        run.facts(),
        steps(run, event, next),
    ensures
        next.facts(),
{
    reveal(Seq::filter);
    run.updated_local.lemma_listed();
    run.new.lemma_listed();
    lemma_replaced_step(run, event, next);
    assert(next.fresh == new_email::new_among(next.remote, next.local));
    assert forall|key: Seq<char>|
        #![trigger next.updated_local.contains(key)]
        next.updated_local.contains(key) implies !next.destroyed.contains(key) by {
        assert(run.updated_local.keys.contains(key) <==> run.updated_local.map.contains_key(key));
    }
    match (run.phase, event) {
        (Phase::GetRemoteEmails, Event::RemoteEmails { result: Ok(emails) }) => {
            assert forall|key: Seq<char>| #[trigger] next.new.contains(key) <==> next.is_fresh_id(
                key,
                0,
            ) by {
                assert(run.new.keys.contains(key) <==> run.new.map.contains_key(key));
            }
        },
        (Phase::Locate { i }, Event::Located { location }) => {
            assert forall|key: Seq<char>| #[trigger] next.new.contains(key) <==> next.is_fresh_id(
                key,
                i + 1,
            ) by {
                let last = run.remote[run.fresh[i as int] as int].id@;
                assert(run.new.contains(key) <==> run.is_fresh_id(key, i as int));
                if run.is_fresh_id(key, i as int) {
                    let j = choose|j: int|
                        0 <= j < i && run.remote[#[trigger] run.fresh[j] as int].id@ == key;
                    assert(next.remote[next.fresh[j] as int].id@ == key);
                }
                if key == last {
                    assert(next.remote[next.fresh[i as int] as int].id@ == key);
                }
                if next.is_fresh_id(key, i + 1) {
                    let j = choose|j: int|
                        0 <= j < i + 1 && next.remote[#[trigger] next.fresh[j] as int].id@ == key;
                    if j < i {
                        assert(run.remote[run.fresh[j] as int].id@ == key);
                    }
                }
            }
        },
        _ => {
            if run.located(run.fresh.len() as int) && run.stage() >= 14 && next.stage() <= 33 {
                assert forall|key: Seq<char>| #[trigger]
                    next.new.contains(key) <==> next.is_fresh_id(key, next.fresh.len() as int) by {
                    assert(run.new.contains(key) <==> run.is_fresh_id(
                        key,
                        run.fresh.len() as int,
                    ));
                    assert(next.is_fresh_id(key, next.fresh.len() as int) == run.is_fresh_id(
                        key,
                        run.fresh.len() as int,
                    ));
                }
            }
        },
    }
}

/// What a run knows is what it says it is, from its beginning on.
pub proof fn lemma_facts<S>(
    course: Course<S>,
    settings: Settings,
    lock_path: PathBuf,
    state_path: PathBuf,
    n: int,
)
    requires
        course.valid(settings, lock_path, state_path),
        0 <= n < course.runs.len(),
    ensures
        course.runs[n].facts(),
        course.runs[n].inv(),
    decreases n,
{
    law_run_hangs_together(course, settings, lock_path, state_path, n);
    if n == 0 {
        reveal(Seq::filter);
        let start = course.runs[0];
        assert(new_email::indices(start.remote.len()) =~= Seq::empty());
    } else {
        let k = n - 1;
        lemma_facts(course, settings, lock_path, state_path, k);
        assert(steps(course.runs[k], course.events[k], course.runs[k + 1]));
        assert(course.runs[k].fits());
        assert(course.runs[k + 1].fits());
        lemma_facts_step(course.runs[k], course.events[k], course.runs[k + 1]);
    }
}

/// A run takes this step somewhere on its course.
pub open spec fn happens<S>(run: Run<S>, event: Event<S>, next: Run<S>) -> bool {
    &&& steps(run, event, next)
    &&& run.inv()
    &&& run.facts()
    &&& run.fits()
    &&& next.fits()
}

/// What lies `beyond` a gate is reached only through the `gate`.
pub proof fn lemma_gate<S>(
    course: Course<S>,
    settings: Settings,
    lock_path: PathBuf,
    state_path: PathBuf,
    gate: spec_fn(Run<S>, Event<S>) -> bool,
    beyond: spec_fn(Run<S>) -> bool,
    n: int,
) -> (at: int)
    requires
        course.valid(settings, lock_path, state_path),
        0 <= n < course.runs.len(),
        !beyond(course.runs[0]),
        beyond(course.runs[n]),
        forall|run: Run<S>, event: Event<S>, next: Run<S>| #[trigger]
            happens(run, event, next) && beyond(next) && !beyond(run) ==> gate(run, event),
    ensures
        0 <= at < n,
        gate(course.runs[at], course.events[at]),
        beyond(course.runs[at + 1]),
    decreases n,
{
    let k = n - 1;
    assert(steps(course.runs[k], course.events[k], course.runs[k + 1]));
    lemma_facts(course, settings, lock_path, state_path, k);
    assert(course.runs[k].fits());
    assert(course.runs[k + 1].fits());
    assert(happens(course.runs[k], course.events[k], course.runs[k + 1]));
    if beyond(course.runs[k]) {
        lemma_gate(course, settings, lock_path, state_path, gate, beyond, k)
    } else {
        k
    }
}

/// What was found out before the merge stays as it is.
pub proof fn lemma_settled<S>(
    course: Course<S>,
    settings: Settings,
    lock_path: PathBuf,
    state_path: PathBuf,
    m: int,
    n: int,
)
    requires
        course.valid(settings, lock_path, state_path),
        0 <= m <= n < course.runs.len(),
        course.runs[m].stage() >= 18,
    ensures
        course.runs[n].latest == course.runs[m].latest,
        course.runs[n].local == course.runs[m].local,
        course.runs[n].server_state == course.runs[m].server_state,
        course.runs[n].destroyed == course.runs[m].destroyed,
        course.runs[n].remote == course.runs[m].remote,
        course.runs[n].updated_local == course.runs[m].updated_local,
        course.runs[n].to_tag == course.runs[m].to_tag,
        course.runs[n].new.keys == course.runs[m].new.keys,
        course.runs[m].stage() >= 22 ==> course.runs[n].destroyed_local
            == course.runs[m].destroyed_local,
    decreases n,
{
    if m < n {
        let k = n - 1;
        lemma_settled(course, settings, lock_path, state_path, m, k);
        lemma_onward(course, settings, lock_path, state_path, m, k);
        law_run_hangs_together(course, settings, lock_path, state_path, k);
        assert(steps(course.runs[k], course.events[k], course.runs[k + 1]));
    }
}

/// What a run has found out stays as it is, from when on it is found out.
#[verifier::rlimit(40)]
pub proof fn lemma_kept<S>(
    course: Course<S>,
    settings: Settings,
    lock_path: PathBuf,
    state_path: PathBuf,
    m: int,
    n: int,
)
    requires
        course.valid(settings, lock_path, state_path),
        0 <= m <= n < course.runs.len(),
    ensures
        course.runs[m].stage() >= 4 ==> course.runs[n].latest == course.runs[m].latest,
        8 <= course.runs[m].stage() && course.runs[n].stage() <= 28 ==> course.runs[n].mailboxes
            == course.runs[m].mailboxes,
        course.runs[m].stage() >= 29 ==> course.runs[n].mailboxes == course.runs[m].mailboxes,
        course.runs[m].stage() >= 9 ==> course.runs[n].local == course.runs[m].local,
        course.runs[m].stage() >= 11 ==> {
            &&& course.runs[n].server_state == course.runs[m].server_state
            &&& course.runs[n].updated == course.runs[m].updated
            &&& course.runs[n].destroyed == course.runs[m].destroyed
        },
        course.runs[m].stage() >= 13 ==> {
            &&& course.runs[n].remote == course.runs[m].remote
            &&& course.runs[n].fresh == course.runs[m].fresh
        },
        14 <= course.runs[m].stage() && course.runs[n].stage() <= 21 ==> course.runs[n].new
            == course.runs[m].new,
        course.runs[m].stage() >= 14 ==> course.runs[n].new.keys == course.runs[m].new.keys,
        course.runs[m].stage() >= 18 ==> {
            &&& course.runs[n].updated_local == course.runs[m].updated_local
            &&& course.runs[n].to_tag == course.runs[m].to_tag
        },
        course.runs[m].stage() >= 22 ==> {
            &&& course.runs[n].destroyed_local == course.runs[m].destroyed_local
            &&& course.runs[n].new_local == course.runs[m].new_local
        },
        course.runs[m].stage() >= 23 ==> course.runs[n].new == course.runs[m].new,
    decreases n,
{
    if m < n {
        let k = n - 1;
        lemma_kept(course, settings, lock_path, state_path, m, k);
        lemma_onward(course, settings, lock_path, state_path, m, k);
        lemma_onward(course, settings, lock_path, state_path, k, n);
        law_run_hangs_together(course, settings, lock_path, state_path, k);
        assert(steps(course.runs[k], course.events[k], course.runs[k + 1]));
    }
}

} // verus!
