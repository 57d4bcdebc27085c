//! What holds of every merge of the server's changes into the local mail.

use std::path::PathBuf;
use vstd::prelude::*;

use crate::seqs;
use crate::sync::course;
use crate::sync::course::Course;
use crate::sync::laws;
use crate::sync::new_email;
use crate::sync::protocol::{Action, Event, Settings};
use crate::sync::run::{Phase, Run};

verus! {

/// The files that a run brings into the maildir are those of the server's emails
/// that the local database does not have or has with other contents.
pub proof fn law_new_emails_are_those_not_known<S>(
    course: Course<S>,
    settings: Settings,
    lock_path: PathBuf,
    state_path: PathBuf,
    n: int,
    key: Seq<char>,
)
    requires
        course.valid(settings, lock_path, state_path),
        0 <= n < course.runs.len(),
        14 <= course.runs[n].stage() <= 33,
    ensures
        course.runs[n].new.contains(key) <==> exists|p: int|
            0 <= p < course.runs[n].remote.len() && (#[trigger] course.runs[n].remote[p]).id@ == key
                && new_email::is_new(course.runs[n].remote[p], course.runs[n].local),
{
    let run = course.runs[n];
    course::lemma_facts(course, settings, lock_path, state_path, n);
    assert(run.fits());
    assert(run.new.contains(key) <==> run.is_fresh_id(key, run.fresh.len() as int));
    lemma_fresh(run);
    if run.is_fresh_id(key, run.fresh.len() as int) {
        let j = choose|j: int|
            0 <= j < run.fresh.len() && run.remote[#[trigger] run.fresh[j] as int].id@ == key;
        let p = run.fresh[j] as int;
        assert(run.remote[p].id@ == key);
    }
    if exists|p: int|
        0 <= p < run.remote.len() && (#[trigger] run.remote[p]).id@ == key && new_email::is_new(
            run.remote[p],
            run.local,
        ) {
        let p = choose|p: int|
            0 <= p < run.remote.len() && (#[trigger] run.remote[p]).id@ == key
                && new_email::is_new(run.remote[p], run.local);
        assert(run.fresh.contains(p as usize));
        let j = choose|j: int| 0 <= j < run.fresh.len() && run.fresh[j] == p as usize;
        assert(run.remote[run.fresh[j] as int].id@ == key);
    }
}

/// The places that the run has listed are those of the server's emails that the
/// local database does not have or has with other contents.
proof fn lemma_fresh<S>(run: Run<S>)
    requires
        run.remote.len() <= usize::MAX,
        run.fresh == new_email::new_among(run.remote, run.local),
    ensures
        forall|p: usize| #[trigger]
            run.fresh.contains(p) <==> p < run.remote.len() && new_email::is_new(
                run.remote[p as int],
                run.local,
            ),
        forall|j: int|
            0 <= j < run.fresh.len() ==> (#[trigger] run.fresh[j]) < run.remote.len()
                && new_email::is_new(run.remote[run.fresh[j] as int], run.local),
{
    let all = new_email::indices(run.remote.len());
    let keep = |i: usize| new_email::is_new(run.remote[i as int], run.local);
    seqs::lemma_filter_members(all, keep);
    new_email::lemma_places(run.remote.len(), keep);
    assert forall|p: usize| #[trigger] run.fresh.contains(p) <==> p < run.remote.len()
        && new_email::is_new(run.remote[p as int], run.local) by {
        if p < run.remote.len() {
            assert(all[p as int] == p);
        }
        assert(all.contains(p) <==> p < run.remote.len());
        assert(all.filter(keep).contains(p) <==> all.contains(p) && keep(p));
    }
}

/// What is downloaded is what is new and not yet in the cache, each email once.
pub proof fn law_downloads_are_what_is_missing<S>(
    run: Run<S>,
    action: Action<S>,
    key: Seq<char>,
)
    requires
        run.inv(),
        run.fits(),
        run.requests(action),
    ensures
        action matches Action::Download { emails, .. } ==> {
            &&& (exists|j: int|
                0 <= j < emails@.len() && (#[trigger] emails@[j]).remote_email.id@ == key) <==> {
                &&& run.new.contains(key)
                &&& !run.new.map[key].cached
            }
            &&& forall|i: int, j: int|
                0 <= i < j < emails@.len() ==> (#[trigger] emails@[i]).remote_email.id@ != (
                #[trigger] emails@[j]).remote_email.id@
        },
{
    if let Action::Download { emails, .. } = action {
        let places = new_email::to_download(run.new);
        let all = new_email::indices(run.new.len());
        let keep = |i: usize| !run.new.at(i as int).cached;
        seqs::lemma_filter_members(all, keep);
        seqs::lemma_filter_distinct(all, keep);
        new_email::lemma_places(run.new.len(), keep);
        run.new.lemma_listed();
        assert(run.new.keys.contains(key) <==> run.new.map.contains_key(key));
        assert forall|j: int| 0 <= j < emails@.len() implies (
        #[trigger] emails@[j]).remote_email.id@ == run.new.keys[places[j] as int] by {
            assert(run.is_new_email(emails@[j], places[j] as int));
            let name = run.new.keys[places[j] as int];
            assert(run.new.keys.contains(name));
            assert(run.new.contains(name));
        }
        assert forall|i: int, j: int| 0 <= i < j < emails@.len() implies (
        #[trigger] emails@[i]).remote_email.id@ != (#[trigger] emails@[j]).remote_email.id@ by {
            assert(places[i] != places[j]);
        }
        if run.new.contains(key) && !run.new.map[key].cached {
            let i = choose|i: int| 0 <= i < run.new.keys.len() && run.new.keys[i] == key;
            assert(all[i] == i as usize);
            assert(all.filter(keep).contains(i as usize));
            let j = choose|j: int| 0 <= j < places.len() && places[j] == i as usize;
            assert(emails@[j].remote_email.id@ == key);
        }
    }
}

/// With this event the new emails that the cache lacked have been downloaded.
pub open spec fn downloaded<S>(run: Run<S>, event: Event<S>) -> bool {
    run.phase is Download && (event matches Event::Downloaded { result: Ok(_) })
}

/// When the merge begins, the file of every new email is in the cache: it was
/// there before, or the downloads, which were of every new email that the cache
/// lacked, have succeeded.
pub proof fn law_new_emails_are_cached_before_the_merge<S>(
    course: Course<S>,
    settings: Settings,
    lock_path: PathBuf,
    state_path: PathBuf,
    n: int,
    action: Action<S>,
    key: Seq<char>,
)
    requires
        course.valid(settings, lock_path, state_path),
        0 <= n < course.runs.len(),
        course.runs[n].requests(action),
        action is RemoveUnindexedFile || action is MakeSymlink || action is BeginAtomic,
        course.runs[n].new.contains(key),
    ensures
        course.runs[n].new.map[key].cached || exists|m: int|
            0 <= m < n && downloaded(#[trigger] course.runs[m], course.events[m])
                && course.runs[m].new == course.runs[n].new,
{
    let new = course.runs[n].new;
    if !new.map[key].cached {
        course::lemma_facts(course, settings, lock_path, state_path, n);
        assert(course.runs[n].fits());
        new.lemma_listed();
        assert(new.keys.contains(key));
        let all = new_email::indices(new.len());
        let keep = |i: usize| !new.at(i as int).cached;
        seqs::lemma_filter_members(all, keep);
        let i = choose|i: int| 0 <= i < new.keys.len() && new.keys[i] == key;
        assert(all[i] == i as usize);
        assert(new_email::to_download(new).contains(i as usize));
        let m = course::lemma_gate(
            course,
            settings,
            lock_path,
            state_path,
            |run: Run<S>, event: Event<S>| downloaded(run, event) && run.new == new,
            |run: Run<S>|
                16 <= run.stage() <= 20 && run.new == new && new_email::to_download(new).len() > 0,
            n,
        );
        assert(downloaded(course.runs[m], course.events[m]));
    }
}

/// The local emails that a run removes are those that are no longer on the
/// server, and those of which it has added a new version.
pub proof fn law_removed_emails_are_gone_or_replaced<S>(
    course: Course<S>,
    settings: Settings,
    lock_path: PathBuf,
    state_path: PathBuf,
    n: int,
    key: Seq<char>,
)
    requires
        course.valid(settings, lock_path, state_path),
        0 <= n < course.runs.len(),
        23 <= course.runs[n].stage() <= 26,
    ensures
        course.runs[n].destroyed_local.contains(key) <==> course.runs[n].local.contains(key) && (
        course.runs[n].destroyed.contains(key) || course.runs[n].new.contains(key)),
{
    let run = course.runs[n];
    course::lemma_facts(course, settings, lock_path, state_path, n);
    lemma_pulls(course, settings, lock_path, state_path, n);
    run.new.lemma_listed();
    assert(run.new.keys.take(run.new.len() as int) =~= run.new.keys);
    assert(run.destroyed_local.contains(key) <==> run.local.contains(key) && (
    run.destroyed.contains(key) || run.new.keys.take(run.new.len() as int).contains(key)));
    assert(run.new.keys.contains(key) <==> run.new.map.contains_key(key));
}

/// The run pulls, and changes the local mail.
pub open spec fn pulls(settings: Settings) -> bool {
    settings.pull && !settings.dry_run
}

/// Only a run that pulls changes the local mail.
proof fn lemma_pulls<S>(
    course: Course<S>,
    settings: Settings,
    lock_path: PathBuf,
    state_path: PathBuf,
    n: int,
)
    requires
        course.valid(settings, lock_path, state_path),
        0 <= n < course.runs.len(),
        19 <= course.runs[n].stage() <= 26,
    ensures
        pulls(course.runs[n].settings),
    decreases n,
{
    let k = n - 1;
    assert(course::steps(course.runs[k], course.events[k], course.runs[k + 1]));
    course::lemma_onward(course, settings, lock_path, state_path, k, k);
    if course.runs[k].stage() >= 19 {
        lemma_pulls(course, settings, lock_path, state_path, k);
    } else {
        lemma_reports(course, settings, lock_path, state_path, k);
    }
}

/// Only a run that pulls reports a merge.
proof fn lemma_reports<S>(
    course: Course<S>,
    settings: Settings,
    lock_path: PathBuf,
    state_path: PathBuf,
    n: int,
)
    requires
        course.valid(settings, lock_path, state_path),
        0 <= n < course.runs.len(),
        course.runs[n].phase is ReportMerge,
    ensures
        course.runs[n].settings.pull,
{
    let k = n - 1;
    assert(course::steps(course.runs[k], course.events[k], course.runs[k + 1]));
}

impl<S> Run<S> {
    /// The place that the run is at, where it goes through places.
    pub open spec fn place(self) -> int {
        match self.phase {
            Phase::CheckMaildirFile { i } => i as int,
            Phase::RemoveUnindexedFile { i } => i as int,
            Phase::MakeSymlink { i } => i as int,
            Phase::AddEmail { i } => i as int,
            Phase::UpdateTags { i } => i as int,
            Phase::ReportMissingEmail { i } => i as int,
            Phase::NameFile { i } => i as int,
            Phase::GetMessage { i, .. } => i as int,
            Phase::RemoveEmail { i } => i as int,
            Phase::MoveFile { i } => i as int,
            Phase::RemoveFile { i } => i as int,
            _ => 0,
        }
    }

    /// The run pulls, and has got past place `i` of a stage without having failed.
    pub open spec fn past(self, stage: int, i: int) -> bool {
        &&& pulls(self.settings)
        &&& {
            ||| self.stage() == stage && self.place() > i
            ||| stage < self.stage() <= 32
            ||| self.phase == Phase::<S>::Done { result: Ok(()) }
        }
    }
}

/// With this event the new email at place `i` is linked into the maildir.
pub open spec fn links<S>(run: Run<S>, event: Event<S>, i: int) -> bool {
    &&& run.phase matches Phase::MakeSymlink { i: at } && at == i
    &&& event matches Event::Ack { result: Ok(_) }
}

/// With this event the new email at place `i` is added to the database.
pub open spec fn adds<S>(run: Run<S>, event: Event<S>, i: int) -> bool {
    &&& run.phase matches Phase::AddEmail { i: at } && at == i
    &&& event matches Event::Added { result: Ok(_) }
}

/// With this event the file of the new email at place `i` is moved into the
/// maildir.
pub open spec fn moves<S>(run: Run<S>, event: Event<S>, i: int) -> bool {
    &&& run.phase matches Phase::MoveFile { i: at } && at == i
    &&& event matches Event::Ack { result: Ok(_) }
}

/// With this event the email at place `i` has the server's tags.
pub open spec fn tags<S>(run: Run<S>, event: Event<S>, i: int) -> bool {
    &&& run.phase matches Phase::UpdateTags { i: at } && at == i
    &&& event matches Event::Ack { result: Ok(_) }
}

/// With this event the email to remove at place `i` is removed from the database.
pub open spec fn removes<S>(run: Run<S>, event: Event<S>, i: int) -> bool {
    &&& run.phase matches Phase::RemoveEmail { i: at } && at == i
    &&& event matches Event::Ack { result: Ok(_) }
}

/// With this event the file of the email to remove at place `i` is removed.
pub open spec fn deletes<S>(run: Run<S>, event: Event<S>, i: int) -> bool {
    &&& run.phase matches Phase::RemoveFile { i: at } && at == i
    &&& event matches Event::Ack { result: Ok(_) }
}

/// A pull that ends well has linked every new email into the maildir, then added
/// it to the database, and then moved its file into the maildir.
#[verifier::rlimit(40)]
pub proof fn law_new_emails_are_taken_in<S>(
    course: Course<S>,
    settings: Settings,
    lock_path: PathBuf,
    state_path: PathBuf,
    n: int,
    i: int,
)
    requires
        course.valid(settings, lock_path, state_path),
        pulls(settings),
        0 <= n < course.runs.len(),
        course.runs[n].phase == (Phase::<S>::Done { result: Ok(()) }),
        0 <= i < course.runs[n].new.len(),
    ensures
        exists|a: int, b: int, c: int|
            0 <= a < b < c < n && #[trigger] links(course.runs[a], course.events[a], i)
                && #[trigger] adds(course.runs[b], course.events[b], i) && #[trigger] moves(
                course.runs[c],
                course.events[c],
                i,
            ) && course.runs[a].new.keys == course.runs[n].new.keys && course.runs[b].new.keys
                == course.runs[n].new.keys && course.runs[c].new.keys == course.runs[n].new.keys,
{
    course::lemma_onward(course, settings, lock_path, state_path, n, n);
    let a = course::lemma_gate(
        course,
        settings,
        lock_path,
        state_path,
        |run: Run<S>, event: Event<S>| links(run, event, i),
        |run: Run<S>| run.past(19, i) && i < run.new.len(),
        n,
    );
    let b = course::lemma_gate(
        course,
        settings,
        lock_path,
        state_path,
        |run: Run<S>, event: Event<S>| adds(run, event, i),
        |run: Run<S>| run.past(21, i) && i < run.new.len(),
        n,
    );
    let c = course::lemma_gate(
        course,
        settings,
        lock_path,
        state_path,
        |run: Run<S>, event: Event<S>| moves(run, event, i),
        |run: Run<S>| run.past(25, i) && i < run.new.len(),
        n,
    );
    if b <= a {
        course::lemma_onward(course, settings, lock_path, state_path, b, a);
    }
    if c <= b {
        course::lemma_onward(course, settings, lock_path, state_path, c, b);
    }
    course::lemma_settled(course, settings, lock_path, state_path, a, n);
    course::lemma_settled(course, settings, lock_path, state_path, b, n);
    course::lemma_settled(course, settings, lock_path, state_path, c, n);
    assert(links(course.runs[a], course.events[a], i));
    assert(adds(course.runs[b], course.events[b], i));
    assert(moves(course.runs[c], course.events[c], i));
}

/// A pull that ends well has given the server's tags to every email that it got
/// from the server and that had not changed locally.
#[verifier::rlimit(40)]
pub proof fn law_tags_are_taken_over<S>(
    course: Course<S>,
    settings: Settings,
    lock_path: PathBuf,
    state_path: PathBuf,
    n: int,
    p: int,
)
    requires
        course.valid(settings, lock_path, state_path),
        pulls(settings),
        0 <= n < course.runs.len(),
        course.runs[n].phase == (Phase::<S>::Done { result: Ok(()) }),
        0 <= p < course.runs[n].remote.len(),
        !course.runs[n].updated_local.contains(course.runs[n].remote[p].id@),
    ensures
        exists|m: int, i: int|
            0 <= m < n && #[trigger] tags(course.runs[m], course.events[m], i)
                && course.runs[m].tagged(i) == course.runs[n].remote[p],
{
    let k = n - 1;
    assert(course::steps(course.runs[k], course.events[k], course.runs[k + 1]));
    course::lemma_onward(course, settings, lock_path, state_path, k, k);
    course::lemma_facts(course, settings, lock_path, state_path, k);
    let run = course.runs[n];
    assert(run.fits());
    let all = new_email::indices(run.remote.len());
    let keep = |i: usize| !run.updated_local.contains(run.remote[i as int].id@);
    seqs::lemma_filter_members(all, keep);
    assert(all[p] == p as usize);
    assert(run.to_tag.contains(p as usize));
    let i = choose|i: int| 0 <= i < run.to_tag.len() && run.to_tag[i] == p as usize;
    let m = course::lemma_gate(
        course,
        settings,
        lock_path,
        state_path,
        |run: Run<S>, event: Event<S>| tags(run, event, i),
        |run: Run<S>|
            (run.past(22, i) || (pulls(run.settings) && run.place() == i && (
            run.phase is NameFile || run.phase is GetMessage))) && i < run.to_tag.len(),
        n,
    );
    assert(tags(course.runs[m], course.events[m], i));
    course::lemma_settled(course, settings, lock_path, state_path, m, n);
}

/// A pull that ends well has removed from the database every local email that is
/// no longer on the server or that it has added a new version of, and then has
/// removed its file from the maildir.
#[verifier::rlimit(40)]
pub proof fn law_destroyed_emails_are_removed<S>(
    course: Course<S>,
    settings: Settings,
    lock_path: PathBuf,
    state_path: PathBuf,
    n: int,
    key: Seq<char>,
)
    requires
        course.valid(settings, lock_path, state_path),
        pulls(settings),
        0 <= n < course.runs.len(),
        course.runs[n].phase == (Phase::<S>::Done { result: Ok(()) }),
        course.runs[n].local.contains(key),
        course.runs[n].destroyed.contains(key) || course.runs[n].new.contains(key),
    ensures
        exists|a: int, b: int, i: int|
            0 <= a < b < n && #[trigger] removes(course.runs[a], course.events[a], i)
                && #[trigger] deletes(course.runs[b], course.events[b], i)
                && course.runs[a].doomed(i) == course.runs[n].local.map[key]
                && course.runs[b].doomed(i) == course.runs[n].local.map[key],
{
    let k = n - 1;
    let run = course.runs[n];
    assert(course::steps(course.runs[k], course.events[k], course.runs[k + 1]));
    course::lemma_onward(course, settings, lock_path, state_path, k, k);
    course::lemma_facts(course, settings, lock_path, state_path, k);
    run.new.lemma_listed();
    assert(run.new.keys.take(run.new.len() as int) =~= run.new.keys);
    assert(run.new.keys.contains(key) <==> run.new.map.contains_key(key));
    assert(run.destroyed_local.contains(key));
    let i = choose|i: int| 0 <= i < run.destroyed_local.len() && run.destroyed_local[i] == key;
    let a = course::lemma_gate(
        course,
        settings,
        lock_path,
        state_path,
        |run: Run<S>, event: Event<S>| removes(run, event, i),
        |run: Run<S>| run.past(23, i) && i < run.destroyed_local.len(),
        n,
    );
    let b = course::lemma_gate(
        course,
        settings,
        lock_path,
        state_path,
        |run: Run<S>, event: Event<S>| deletes(run, event, i),
        |run: Run<S>| run.past(26, i) && i < run.destroyed_local.len(),
        n,
    );
    if b <= a {
        course::lemma_onward(course, settings, lock_path, state_path, b, a);
    }
    course::lemma_settled(course, settings, lock_path, state_path, a, n);
    course::lemma_settled(course, settings, lock_path, state_path, b, n);
    assert(removes(course.runs[a], course.events[a], i));
    assert(deletes(course.runs[b], course.events[b], i));
}

/// What the database says it has added is what it was asked to add.
pub open spec fn adds_faithfully<S>(run: Run<S>, event: Event<S>) -> bool {
    match (run.phase, event) {
        (Phase::AddEmail { i }, Event::Added { result: Ok(email) }) => email.id@
            == run.new.keys[i as int],
        _ => true,
    }
}

/// The database has told of the first `count` new emails.
spec fn has_told<S>(run: Run<S>, count: int) -> bool {
    forall|j: int| 0 <= j < count ==> run.new_local.contains(#[trigger] run.new.keys[j])
}

proof fn lemma_told<S>(
    course: Course<S>,
    settings: Settings,
    lock_path: PathBuf,
    state_path: PathBuf,
    n: int,
)
    requires
        course.valid(settings, lock_path, state_path),
        forall|k: int|
            0 <= k < course.events.len() ==> adds_faithfully(
                course.runs[k],
                #[trigger] course.events[k],
            ),
        0 <= n < course.runs.len(),
    ensures
        course.runs[n].phase matches Phase::AddEmail { i } ==> has_told(course.runs[n], i as int),
        22 <= course.runs[n].stage() <= 24 ==> has_told(
            course.runs[n],
            course.runs[n].new.len() as int,
        ),
    decreases n,
{
    if n > 0 {
        let k = n - 1;
        lemma_told(course, settings, lock_path, state_path, k);
        course::law_run_hangs_together(course, settings, lock_path, state_path, k);
        assert(course.runs[k].fits());
        assert(course::steps(course.runs[k], course.events[k], course.runs[k + 1]));
        assert(adds_faithfully(course.runs[k], course.events[k]));
    }
}

/// As long as the database tells the truth of what it adds, it has every email
/// that is to get the server's tags: the merge never fails for lack of one.
pub proof fn law_every_email_to_tag_is_there<S>(
    course: Course<S>,
    settings: Settings,
    lock_path: PathBuf,
    state_path: PathBuf,
    n: int,
)
    requires
        course.valid(settings, lock_path, state_path),
        forall|k: int|
            0 <= k < course.events.len() ==> adds_faithfully(
                course.runs[k],
                #[trigger] course.events[k],
            ),
        0 <= n < course.runs.len(),
    ensures
        !(course.runs[n].phase is ReportMissingEmail),
{
    let run = course.runs[n];
    course::lemma_facts(course, settings, lock_path, state_path, n);
    lemma_told(course, settings, lock_path, state_path, n);
    assert(run.fits());
    lemma_fresh(run);
    run.new.lemma_listed();
    if let Phase::ReportMissingEmail { i } = run.phase {
        let p = run.to_tag[i as int];
        let key = run.remote[p as int].id@;
        assert(!run.local.contains(key));
        assert(run.fresh.contains(p));
        let j = choose|j: int| 0 <= j < run.fresh.len() && run.fresh[j] == p;
        assert(run.remote[run.fresh[j] as int].id@ == key);
        assert(run.is_fresh_id(key, run.fresh.len() as int));
        assert(run.new.contains(key));
        assert(run.new.keys.contains(key));
        let t = choose|t: int| 0 <= t < run.new.keys.len() && run.new.keys[t] == key;
        assert(run.new_local.contains(run.new.keys[t]));
    }
}

/// Nothing is done twice: of two times that a run asks to add an email, the
/// emails differ; of two times that it asks to give an email the server's tags,
/// the places of the emails differ; of two times that it asks to remove an email,
/// the emails differ, provided that no new email has the identifier of a destroyed
/// one; and it asks only once to push.
pub proof fn law_nothing_is_done_twice<S>(
    course: Course<S>,
    settings: Settings,
    lock_path: PathBuf,
    state_path: PathBuf,
    a: int,
    b: int,
)
    requires
        course.valid(settings, lock_path, state_path),
        0 <= a < b < course.runs.len(),
    ensures
        course.runs[a].phase matches Phase::AddEmail { i } ==> (
        course.runs[b].phase matches Phase::AddEmail { i: j } ==> i != j
            && course.runs[a].new.keys[i as int] != course.runs[b].new.keys[j as int]),
        course.runs[a].phase matches Phase::UpdateTags { i } ==> (
        course.runs[b].phase matches Phase::UpdateTags { i: j } ==> i != j
            && course.runs[a].to_tag[i as int] != course.runs[b].to_tag[j as int]),
        course.runs[a].phase matches Phase::RemoveEmail { i } ==> (
        course.runs[b].phase matches Phase::RemoveEmail { i: j } ==> i != j && (
        course.runs[a].apart() ==> course.runs[a].destroyed_local[i as int]
            != course.runs[b].destroyed_local[j as int])),
        !(course.runs[a].phase is PushChanges && course.runs[b].phase is PushChanges),
{
    let one = course.runs[a];
    let other = course.runs[b];
    laws::lemma_gets_closer(course, settings, lock_path, state_path, a, b);
    course::lemma_facts(course, settings, lock_path, state_path, a);
    course::lemma_facts(course, settings, lock_path, state_path, b);
    assert(one.fits());
    if one.stage() >= 18 {
        course::lemma_settled(course, settings, lock_path, state_path, a, b);
    }
    if one.phase is UpdateTags {
        let all = new_email::indices(one.remote.len());
        let keep = |i: usize| !one.updated_local.contains(one.remote[i as int].id@);
        assert(all.no_duplicates());
        seqs::lemma_filter_distinct(all, keep);
    }
    if one.phase is RemoveEmail && one.apart() {
        lemma_pulls(course, settings, lock_path, state_path, a);
        assert(one.destroyed_local.no_duplicates());
    }
}

} // verus!
