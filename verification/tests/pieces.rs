use std::path::PathBuf;

use mujmap::jmap::{Id, IdMap, IdSet, State};
use mujmap::keyed::{KeyMap, KeySet};
use mujmap::local;
use mujmap::remote;
use mujmap::remote::{tags_of, Mailbox, Mailboxes};
use mujmap::sync::changes::{full_sync, knows_all, resolve, Changes};
use mujmap::sync::download::{
    download, AttemptFailure, Download, DownloadSettings, Stage, Store,
};
use mujmap::sync::error::Error;
use mujmap::sync::latest_state::{LatestState, StateFileRead, StateFileWrite};
use mujmap::sync::new_email::{
    find_new, find_our_file, find_unchanged_offline, missing_from_cache, needs_adding, MessageFile,
    NewEmail, NewFile,
};
use mujmap::sync::revision::{confirms, get_notmuch_revision, RevisionQuery};
use mujmap::sync::tags::{tags_with_missing_mailboxes, TagRules};

fn id(text: &str) -> Id {
    Id(String::from(text))
}

fn ids(texts: &[&str]) -> IdSet {
    let mut set = KeySet::new();
    for text in texts {
        set.insert(id(text));
    }
    set
}

fn listed(set: &IdSet) -> Vec<String> {
    (0..set.len()).map(|i| set.item(i).to_string()).collect()
}

fn strings(texts: &[&str]) -> Vec<String> {
    texts.iter().map(|text| String::from(*text)).collect()
}

fn tag_set(texts: &[&str]) -> KeySet<String> {
    let mut set = KeySet::new();
    for text in texts {
        set.insert(String::from(*text));
    }
    set
}

fn local_email(name: &str, blob: &str) -> local::Email {
    local::Email {
        id: id(name),
        blob_id: id(blob),
        message_id: format!("{name}@example"),
        path: PathBuf::from(format!("maildir/{name}.{blob}")),
        tags: Vec::new(),
    }
}

fn local_emails(emails: &[(&str, &str)]) -> IdMap<local::Email> {
    let mut map = KeyMap::new();
    for (name, blob) in emails {
        map.insert(id(name), local_email(name, blob));
    }
    map
}

fn remote_email(name: &str, blob: &str) -> remote::Email {
    remote::Email {
        id: id(name),
        blob_id: id(blob),
        mailbox_ids: Vec::new(),
        builtin_keyword_tags: Vec::new(),
        custom_keyword_tags: Vec::new(),
    }
}

fn mailboxes(pairs: &[(&str, &str)]) -> Mailboxes {
    let mut mailboxes = Mailboxes::new();
    for (name, tag) in pairs {
        let mailbox = Mailbox { id: id(name), tag: String::from(*tag) };
        mailboxes.mailboxes_by_id.insert(id(name), mailbox);
        mailboxes.ids_by_tag.insert(String::from(*tag), id(name));
    }
    mailboxes
}

fn sorted(tags: &KeySet<String>) -> Vec<String> {
    let mut all: Vec<String> = (0..tags.len()).map(|i| tags.item(i).clone()).collect();
    all.sort();
    all
}

fn changes(created: &[&str], updated: &[&str], destroyed: &[&str]) -> Changes {
    Changes {
        state: State(String::from("s2")),
        created: ids(created),
        updated: ids(updated),
        destroyed: ids(destroyed),
    }
}

// Changes on the server.

#[test]
fn known_updates_are_resolved() {
    let local = local_emails(&[("a", "1"), ("b", "1")]);
    let resolved = resolve(changes(&["c"], &["b"], &["a", "z"]), &local).unwrap();
    assert_eq!(resolved.state.to_string(), "s2");
    assert_eq!(listed(&resolved.updated), ["b", "c"]);
    assert_eq!(listed(&resolved.destroyed), ["a", "z"]);
}

#[test]
fn created_emails_need_not_be_known() {
    let resolved = resolve(changes(&["c", "d"], &[], &[]), &local_emails(&[])).unwrap();
    assert_eq!(listed(&resolved.updated), ["c", "d"]);
    assert!(resolved.destroyed.is_empty());
}

#[test]
fn unknown_updates_are_not_resolved() {
    let local = local_emails(&[("a", "1")]);
    assert!(resolve(changes(&[], &["a", "x"], &[]), &local).is_none());
    assert!(!knows_all(&ids(&["a", "x"]), &local));
    assert!(knows_all(&ids(&["a"]), &local));
    assert!(knows_all(&ids(&[]), &local));
}

#[test]
fn full_sync_takes_what_is_missing_for_destroyed() {
    let local = local_emails(&[("a", "1"), ("b", "1"), ("c", "1")]);
    let found = full_sync(State(String::from("s9")), ids(&["b", "d"]), &local);
    assert_eq!(found.state.to_string(), "s9");
    assert_eq!(listed(&found.updated), ["b", "d"]);
    assert_eq!(listed(&found.destroyed), ["a", "c"]);
}

// New emails.

#[test]
fn emails_are_new_by_identifier_or_blob() {
    let local = local_emails(&[("a", "1"), ("b", "1")]);
    assert!(!needs_adding(&remote_email("a", "1"), &local));
    assert!(needs_adding(&remote_email("a", "2"), &local));
    assert!(needs_adding(&remote_email("c", "1"), &local));
    let remote = vec![remote_email("a", "1"), remote_email("b", "2"), remote_email("c", "1")];
    assert_eq!(find_new(&remote, &local), [1, 2]);
}

#[test]
fn emails_changed_offline_are_passed_over() {
    let remote = vec![remote_email("a", "1"), remote_email("b", "2"), remote_email("c", "1")];
    assert_eq!(find_unchanged_offline(&remote, &local_emails(&[("b", "1")])), [0, 2]);
    assert_eq!(find_unchanged_offline(&remote, &local_emails(&[])), [0, 1, 2]);
}

#[test]
fn new_emails_that_the_cache_lacks_are_downloaded() {
    let mut new: IdMap<NewFile> = KeyMap::new();
    for (i, (name, cached)) in [("a", false), ("b", true), ("c", false)].iter().enumerate() {
        let file = NewFile {
            remote: i,
            cache_path: PathBuf::from("cache"),
            maildir_path: PathBuf::from("maildir"),
            cached: *cached,
        };
        new.insert(id(name), file);
    }
    assert_eq!(missing_from_cache(&new), [0, 2]);
    assert!(missing_from_cache(&KeyMap::new()).is_empty());
}

#[test]
fn our_file_is_the_first_whose_name_starts_with_ours() {
    let file = |path: &str, name: Option<&str>| MessageFile {
        path: PathBuf::from(path),
        name: name.map(String::from),
    };
    let files = vec![
        file("/", None),
        file("cur/M2.B2:2,S", Some("M2.B2:2,S")),
        file("cur/M1.B1:2,F", Some("M1.B1:2,F")),
        file("cur/M1.B1", Some("M1.B1")),
    ];
    assert_eq!(find_our_file(&files, "M1.B1"), Some(2));
    assert_eq!(find_our_file(&files, "M2"), Some(1));
    assert_eq!(find_our_file(&files, "M3"), None);
    assert_eq!(find_our_file(&files, ""), Some(1));
}

// Tags.

#[test]
fn tags_come_from_mailboxes_and_keywords() {
    let known = mailboxes(&[("m1", "inbox"), ("m2", "work")]);
    let email = remote::Email {
        mailbox_ids: vec![id("m2"), id("unknown"), id("m1")],
        builtin_keyword_tags: strings(&["flagged", "inbox"]),
        custom_keyword_tags: strings(&["todo", "flagged"]),
        ..remote_email("a", "1")
    };
    let tags = tags_of(&email, &known);
    assert_eq!(sorted(&tags), ["flagged", "inbox", "todo", "work"]);
}

#[test]
fn tags_do_not_depend_on_order() {
    let known = mailboxes(&[("m1", "inbox"), ("m2", "work")]);
    let one = remote::Email {
        mailbox_ids: vec![id("m1"), id("m2")],
        builtin_keyword_tags: strings(&["a", "b"]),
        custom_keyword_tags: strings(&["c"]),
        ..remote_email("x", "1")
    };
    let other = remote::Email {
        mailbox_ids: vec![id("m2"), id("m1"), id("m2")],
        builtin_keyword_tags: strings(&["c", "a"]),
        custom_keyword_tags: strings(&["b", "a"]),
        ..remote_email("x", "1")
    };
    assert_eq!(sorted(&tags_of(&one, &known)), sorted(&tags_of(&other, &known)));
    assert!(tags_of(&remote_email("x", "1"), &known).is_empty());
}

#[test]
fn tags_of_keywords_need_no_mailbox() {
    let rules = TagRules {
        builtin_keyword_tags: tag_set(&["draft", "flagged"]),
        custom_keywords: tag_set(&["todo"]),
        automatic_tags: tag_set(&["attachment", "signed"]),
    };
    let known = mailboxes(&[("m1", "inbox")]);
    let tags = strings(&["new", "inbox", "flagged", "todo", "signed", "work", "new"]);
    let missing = tags_with_missing_mailboxes(&tags, &rules, &known);
    assert_eq!(missing, ["new", "work", "new"]);
    assert!(tags_with_missing_mailboxes(&strings(&[]), &rules, &known).is_empty());
}

// The download of an email.

fn with_retries(retries: usize) -> DownloadSettings {
    DownloadSettings { concurrent_downloads: 8, retries, convert_dos_to_unix: true }
}

fn new_email(email: &remote::Email) -> NewEmail<'_> {
    NewEmail {
        remote_email: email,
        cache_path: PathBuf::from("cache/M1.B1"),
        maildir_path: PathBuf::from("cur/M1.B1"),
    }
}

/// The download after its blob was read.
fn read<'a>(run: Download<'a, &'static str>) -> Download<'a, &'static str> {
    let (next, store) = run.read(Ok("blob"));
    assert!(store.is_some());
    next
}

/// The download after its blob could not be read.
fn unread<'a>(
    run: Download<'a, &'static str>,
    source: &'static str,
) -> Download<'a, &'static str> {
    let (next, store): (_, Option<Store<&str>>) = run.read(Err(source));
    assert!(store.is_none());
    next
}

#[test]
fn a_download_reads_and_then_stores() {
    let remote = remote_email("M1", "B1");
    let email = new_email(&remote);
    let begun: Download<&str> = download(&email, &with_retries(3));
    assert!(matches!(begun.stage, Stage::Reading));
    let read = read(begun);
    assert!(matches!(read.stage, Stage::Storing));
    let stored = read.stored(Ok(()));
    assert!(matches!(stored.stage, Stage::Succeeded));
    assert_eq!(stored.failures, 0);
}

#[test]
fn a_download_reads_the_blob_and_stores_it_for_its_email() {
    let remote = remote_email("M1", "B1");
    let email = new_email(&remote);
    for convert_dos_to_unix in [true, false] {
        let settings = DownloadSettings { convert_dos_to_unix, ..with_retries(3) };
        let begun: Download<&str> = download(&email, &settings);
        assert_eq!(begun.blob_to_read().to_string(), "B1");
        let (_, store) = begun.read(Ok("contents"));
        let store = store.unwrap();
        assert_eq!(store.blob, "contents");
        assert_eq!(store.email.remote_email.id.to_string(), "M1");
        assert_eq!(store.email.cache_path, PathBuf::from("cache/M1.B1"));
        assert_eq!(store.convert_dos_to_unix, convert_dos_to_unix);
    }
}

#[test]
fn a_download_stays_with_its_email() {
    let remote = remote_email("M1", "B1");
    let email = new_email(&remote);
    let mut run: Download<&str> = download(&email, &with_retries(0));
    run = unread(run, "gone").resume();
    run = read(run).stored(Err("full")).resume();
    assert_eq!(run.blob_to_read().to_string(), "B1");
    assert_eq!(run.email.remote_email.id.to_string(), "M1");
    assert!(run.convert_dos_to_unix);
    assert_eq!(run.retries, 0);
}

#[test]
fn a_download_is_given_up_after_its_retries() {
    let remote = remote_email("M1", "B1");
    let email = new_email(&remote);
    let mut run: Download<&str> = download(&email, &with_retries(2));
    run = unread(run, "gone");
    assert!(matches!(
        run.stage,
        Stage::Retrying { failure: AttemptFailure::Read { source: "gone" } }
    ));
    run = read(run.resume()).stored(Err("full"));
    assert!(matches!(
        run.stage,
        Stage::Failed { failure: AttemptFailure::Store { source: "full" } }
    ));
    assert_eq!(run.failures, 2);
}

#[test]
fn a_failed_attempt_has_its_error() {
    let failure = AttemptFailure::Read { source: "gone" };
    assert!(matches!(failure.into_error(), Error::DownloadRemoteEmail { source: "gone" }));
    let failure = AttemptFailure::Store { source: "full" };
    assert!(matches!(failure.into_error(), Error::CacheNewEmail { source: "full" }));
}

#[test]
fn a_single_try_is_never_retried() {
    let remote = remote_email("M1", "B1");
    let email = new_email(&remote);
    let run: Download<&str> = download(&email, &with_retries(1));
    let run = unread(run, "gone");
    assert!(matches!(
        run.stage,
        Stage::Failed { failure: AttemptFailure::Read { source: "gone" } }
    ));
}

#[test]
fn a_download_without_a_limit_is_not_given_up() {
    let remote = remote_email("M1", "B1");
    let email = new_email(&remote);
    let mut run: Download<&str> = download(&email, &with_retries(0));
    for _ in 0..50 {
        run = unread(run, "gone");
        assert!(matches!(run.stage, Stage::Retrying { .. }));
        run = run.resume();
    }
    assert_eq!(run.failures, 50);
    let run = read(run).stored(Ok(()));
    assert!(matches!(run.stage, Stage::Succeeded));
}

#[test]
fn a_download_succeeds_with_its_last_try() {
    let remote = remote_email("M1", "B1");
    let email = new_email(&remote);
    let mut run: Download<&str> = download(&email, &with_retries(3));
    run = unread(run, "one").resume();
    run = read(run).stored(Err("two")).resume();
    run = read(run).stored(Ok(()));
    assert!(matches!(run.stage, Stage::Succeeded));
    assert_eq!(run.failures, 2);
}

// The revision.

#[test]
fn only_a_clear_yes_confirms() {
    for answer in ["y", "Y", "y\n", "  Y \r\n"] {
        assert!(confirms(answer));
    }
    for answer in ["", "\n", "n", "yes", "yy", "y y", "\u{ff59}"] {
        assert!(!confirms(answer));
    }
}

#[test]
fn a_recorded_revision_is_taken() {
    for (empty, dry_run) in [(true, true), (true, false), (false, true), (false, false)] {
        let query = get_notmuch_revision(empty, Some(41), dry_run);
        assert!(matches!(query, RevisionQuery::Known { revision: 41 }));
    }
}

#[test]
fn without_local_emails_the_present_revision_is_taken() {
    assert!(matches!(get_notmuch_revision(true, None, false), RevisionQuery::ReadRevision));
    assert!(matches!(get_notmuch_revision(true, None, true), RevisionQuery::ReadRevision));
}

#[test]
fn a_lost_revision_is_asked_about() {
    let query = get_notmuch_revision(false, None, true);
    assert!(matches!(query, RevisionQuery::Warn { dry_run: true }));
    let query = get_notmuch_revision(false, None, false);
    assert!(matches!(query, RevisionQuery::Warn { dry_run: false }));
    assert!(matches!(RevisionQuery::terminal(true), RevisionQuery::Confirm));
    assert!(matches!(RevisionQuery::terminal(false), RevisionQuery::Refuse));
    assert!(matches!(RevisionQuery::answered("Y\n"), RevisionQuery::ReadRevision));
    assert!(matches!(RevisionQuery::answered("N\n"), RevisionQuery::Missing));
}

// The record.

fn state_file() -> PathBuf {
    PathBuf::from("mail/mujmap.state.json")
}

#[test]
fn a_state_file_is_opened() {
    let parsed = LatestState { notmuch_revision: Some(5), jmap_state: None };
    let state = LatestState::open(state_file(), StateFileRead::<&str>::Parsed(parsed)).unwrap();
    assert_eq!(state.notmuch_revision, Some(5));
    assert_eq!(state.jmap_state, None);
    let state = LatestState::open(state_file(), StateFileRead::Unopened("absent"));
    assert!(matches!(
        state,
        Err(Error::ReadStateFile { filename, source: "absent" }) if filename == state_file()
    ));
    let state = LatestState::open(state_file(), StateFileRead::Malformed("comma"));
    assert!(matches!(
        state,
        Err(Error::ParseStateFile { filename, source: "comma" }) if filename == state_file()
    ));
}

#[test]
fn a_state_file_is_saved() {
    assert!(LatestState::save(state_file(), StateFileWrite::<&str>::Written).is_ok());
    assert!(matches!(
        LatestState::save(state_file(), StateFileWrite::Uncreated("denied")),
        Err(Error::CreateStateFile { filename, source: "denied" }) if filename == state_file()
    ));
    assert!(matches!(
        LatestState::save(state_file(), StateFileWrite::Unwritten("full")),
        Err(Error::WriteStateFile { filename, source: "full" }) if filename == state_file()
    ));
}

#[test]
fn nothing_is_known_at_first() {
    let state = LatestState::empty();
    assert_eq!(state.notmuch_revision, None);
    assert_eq!(state.jmap_state, None);
}

#[test]
fn the_next_revision_is_recorded() {
    let old = LatestState {
        notmuch_revision: Some(7),
        jmap_state: Some(State(String::from("old"))),
    };
    let seen = Some(State(String::from("new")));
    let pulled = old.record(true, &seen, 11);
    assert_eq!(pulled.notmuch_revision, Some(12));
    assert_eq!(pulled.jmap_state, Some(State(String::from("new"))));
    let pushed = old.record(false, &seen, 11);
    assert_eq!(pushed.notmuch_revision, Some(12));
    assert_eq!(pushed.jmap_state, Some(State(String::from("old"))));
    let first = LatestState::empty().record(false, &seen, u64::MAX - 1);
    assert_eq!(first.notmuch_revision, Some(u64::MAX));
    assert_eq!(first.jmap_state, None);
}
