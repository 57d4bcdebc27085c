use std::path::PathBuf;

use mujmap::jmap::{Id, IdMap, IdSet, State};
use mujmap::keyed::{KeyMap, KeySet};
use mujmap::local;
use mujmap::remote;
use mujmap::remote::{Mailbox, Mailboxes};
use mujmap::sync::changes::Changes;
use mujmap::sync::download::{AttemptFailure, DownloadSettings};
use mujmap::sync::latest_state::{StateFileRead, StateFileWrite, STATE_FILE_NAME};
use mujmap::sync::machine::LOCK_FILE_NAME;
use mujmap::sync::new_email::{Location, MessageFile};
use mujmap::sync::protocol::{Action, DownloadFailure, Event, FullSyncReason, Report, Settings};
use mujmap::sync::tags::TagRules;
use mujmap::sync::{sync, Error, LatestState, NewEmail, SyncRun};

fn id(text: &str) -> Id {
    Id(String::from(text))
}

fn state(text: &str) -> State {
    State(String::from(text))
}

fn ids(texts: &[&str]) -> IdSet {
    let mut set = KeySet::new();
    for text in texts {
        set.insert(id(text));
    }
    set
}

fn strings(texts: &[&str]) -> Vec<String> {
    texts.iter().map(|text| String::from(*text)).collect()
}

fn tag_set(texts: &[&str]) -> KeySet<String> {
    let mut set = KeySet::new();
    for text in texts {
        set.insert(String::from(*text));
    }
    set
}

fn local_email(name: &str, blob: &str) -> local::Email {
    local::Email {
        id: id(name),
        blob_id: id(blob),
        message_id: format!("{name}@example"),
        path: PathBuf::from(format!("cur/{name}.{blob}:2,S")),
        tags: Vec::new(),
    }
}

fn local_emails(emails: &[(&str, &str)]) -> IdMap<local::Email> {
    let mut map = KeyMap::new();
    for (name, blob) in emails {
        map.insert(id(name), local_email(name, blob));
    }
    map
}

fn mailboxes(pairs: &[(&str, &str)]) -> Mailboxes {
    let mut mailboxes = Mailboxes::new();
    for (name, tag) in pairs {
        let mailbox = Mailbox { id: id(name), tag: String::from(*tag) };
        mailboxes.mailboxes_by_id.insert(id(name), mailbox);
        mailboxes.ids_by_tag.insert(String::from(*tag), id(name));
    }
    mailboxes
}

fn joined(items: Vec<String>) -> String {
    items.join(",")
}

/// What the outside world is like.
struct World {
    /// The line of the log at which an operation fails.
    failing: &'static str,
    locked: bool,
    latest: Option<(Option<u64>, Option<&'static str>)>,
    local: Vec<(&'static str, &'static str)>,
    /// The created, updated and destroyed emails, if the server can tell.
    changes: Option<(&'static [&'static str], &'static [&'static str], &'static [&'static str])>,
    remote_ids: Vec<&'static str>,
    /// The identifiers and the blobs of the server's emails.
    remote: Vec<(&'static str, &'static str)>,
    cached: Vec<&'static str>,
    in_maildir: Vec<&'static str>,
    revision: u64,
    terminal: bool,
    answer: &'static str,
    local_updates: Vec<(&'static str, &'static str)>,
    tags: Vec<&'static str>,
    /// The names that the database gives to new mail files.
    renamed: bool,
    /// The identifier that the database tells for a new email.
    added_as: Option<&'static str>,
}

fn world() -> World {
    World {
        failing: "",
        locked: true,
        latest: Some((Some(10), Some("s1"))),
        local: vec![("a", "1"), ("b", "1"), ("c", "1")],
        changes: Some((&["n"], &["a", "b"], &["c"])),
        remote_ids: vec!["a", "b", "n"],
        remote: vec![("a", "1"), ("b", "2"), ("n", "1")],
        cached: vec![],
        in_maildir: vec![],
        revision: 20,
        terminal: true,
        answer: "y\n",
        local_updates: vec![],
        tags: vec!["inbox", "flagged"],
        renamed: false,
        added_as: None,
    }
}

fn settings(pull: bool, dry_run: bool) -> Settings {
    Settings {
        dry_run,
        pull,
        auto_create_new_mailboxes: false,
        downloads: DownloadSettings {
            concurrent_downloads: 4,
            retries: 5,
            convert_dos_to_unix: true,
        },
        tags: TagRules {
            builtin_keyword_tags: tag_set(&["flagged"]),
            custom_keywords: tag_set(&["todo"]),
            automatic_tags: tag_set(&["attachment"]),
        },
    }
}

/// The action in one line.
fn line(action: &Action<String>) -> String {
    match action {
        Action::OpenLockFile { path } => format!("open lock {}", path.display()),
        Action::TryLock => String::from("try lock"),
        Action::WaitForLock => String::from("wait for lock"),
        Action::ReadState { filename } => format!("read {}", filename.display()),
        Action::OpenLocal { read_only } => format!("open local {read_only}"),
        Action::OpenCache => String::from("open cache"),
        Action::OpenRemote => String::from("open remote"),
        Action::GetMailboxes => String::from("mailboxes"),
        Action::ListLocalEmails => String::from("local emails"),
        Action::ListChanges { since } => format!("changes {}", since.to_string()),
        Action::ListRemoteIds { reason } => match reason {
            FullSyncReason::NoState => String::from("all ids: no state"),
            FullSyncReason::UnknownUpdate => String::from("all ids: unknown update"),
            FullSyncReason::ChangesFailed { source } => format!("all ids: {source}"),
        },
        Action::Report { report } => match report {
            Report::Metadata { possibly_changed } => format!("report {possibly_changed}"),
            Report::Download => String::from("report download"),
            Report::Merge { new, changed, destroyed } => {
                format!("report merge {new} {changed} {destroyed}")
            }
            Report::Push { changed } => format!("report push {changed}"),
        },
        Action::GetRemoteEmails { ids, .. } => format!(
            "get {}",
            joined((0..ids.len()).map(|i| ids.item(i).to_string()).collect())
        ),
        Action::Locate { email } => format!("locate {}", email.id.to_string()),
        Action::Download { emails, .. } => format!(
            "download {}",
            joined(
                emails
                    .iter()
                    .map(|new: &NewEmail| {
                        let name = new.remote_email.id.to_string();
                        format!("{}:{}:{}", name, new.cache_path.display(), new.maildir_path.display())
                    })
                    .collect()
            )
        ),
        Action::ReadRevision => String::from("revision"),
        Action::WarnRevisionLost { dry_run } => format!("warn {dry_run}"),
        Action::ConfirmRevision => String::from("confirm"),
        Action::RefuseRevision => String::from("refuse"),
        Action::ListLocalUpdates { since } => format!("updates since {since}"),
        Action::CheckMaildirFile { path } => format!("check {}", path.display()),
        Action::RemoveUnindexedFile { path } => format!("remove unindexed {}", path.display()),
        Action::MakeSymlink { from, to } => format!("link {} {}", from.display(), to.display()),
        Action::BeginAtomic => String::from("begin"),
        Action::AddEmail { email } => format!("add {}", email.remote_email.id.to_string()),
        Action::UpdateTags { email, tags } => {
            let mut all: Vec<String> = (0..tags.len()).map(|i| tags.item(i).clone()).collect();
            all.sort();
            format!("tag {}.{} {}", email.id.to_string(), email.blob_id.to_string(), joined(all))
        }
        Action::ReportMissingEmail { id } => format!("missing {}", id.to_string()),
        Action::NameFile { path } => format!("name {}", path.display()),
        Action::GetMessage { message_id } => format!("message {message_id}"),
        Action::RemoveEmail { email } => {
            format!("remove {}.{}", email.id.to_string(), email.blob_id.to_string())
        }
        Action::EndAtomic => String::from("end"),
        Action::RemoveSymlink { path } => format!("unlink {}", path.display()),
        Action::MoveFile { from, to } => format!("move {} {}", from.display(), to.display()),
        Action::RemoveFile { path } => format!("delete {}", path.display()),
        Action::ListTags => String::from("tags"),
        Action::CreateMailboxes { tags, .. } => format!("create {}", tags.join(",")),
        Action::PushChanges { emails, mailboxes } => format!(
            "push {} {}",
            joined((0..emails.len()).map(|i| emails.key(i).to_string()).collect()),
            mailboxes.ids_by_tag.len()
        ),
        Action::SaveState { filename, state } => format!(
            "save {} {:?} {:?}",
            filename.display(),
            state.notmuch_revision,
            state.jmap_state.as_ref().map(State::to_string)
        ),
        Action::Finish => String::from("finish"),
    }
}

/// What the world tells when it is asked for the action.
fn answer(world: &World, action: &Action<String>) -> Event<String> {
    let fails = line(action) == world.failing;
    let source = String::from("boom");
    let ack = if fails { Err(source.clone()) } else { Ok(()) };
    match action {
        Action::TryLock => Event::Locked {
            result: if fails { Err(source) } else { Ok(world.locked) },
        },
        Action::ReadState { filename } => {
            let outcome = match world.latest {
                Some((notmuch_revision, jmap_state)) => StateFileRead::Parsed(LatestState {
                    notmuch_revision,
                    jmap_state: jmap_state.map(state),
                }),
                None => StateFileRead::Unopened(source),
            };
            Event::StateRead { result: LatestState::open((*filename).clone(), outcome) }
        }
        Action::GetMailboxes => Event::GotMailboxes {
            result: if fails { Err(source) } else { Ok(mailboxes(&[("m1", "inbox")])) },
        },
        Action::CreateMailboxes { .. } => Event::GotMailboxes {
            result: if fails {
                Err(source)
            } else {
                Ok(mailboxes(&[("m1", "inbox"), ("m2", "work")]))
            },
        },
        Action::ListLocalEmails => Event::LocalEmails {
            result: if fails { Err(source) } else { Ok(local_emails(&world.local)) },
        },
        Action::ListLocalUpdates { .. } => Event::LocalEmails {
            result: if fails { Err(source) } else { Ok(local_emails(&world.local_updates)) },
        },
        Action::ListChanges { .. } => Event::Changed {
            result: match world.changes {
                Some((created, updated, destroyed)) => Ok(Changes {
                    state: state("s2"),
                    created: ids(created),
                    updated: ids(updated),
                    destroyed: ids(destroyed),
                }),
                None => Err(source),
            },
        },
        Action::ListRemoteIds { .. } => Event::RemoteIds {
            result: if fails { Err(source) } else { Ok((state("s3"), ids(&world.remote_ids))) },
        },
        Action::GetRemoteEmails { .. } => Event::RemoteEmails {
            result: if fails {
                Err(source)
            } else {
                let mut emails = KeyMap::new();
                for (name, blob) in &world.remote {
                    let email = remote::Email {
                        id: id(name),
                        blob_id: id(blob),
                        mailbox_ids: vec![id("m1")],
                        builtin_keyword_tags: strings(&["flagged"]),
                        custom_keyword_tags: Vec::new(),
                    };
                    emails.insert(id(name), email);
                }
                Ok(emails)
            },
        },
        Action::Locate { email } => {
            let name = format!("{}.{}", email.id.to_string(), email.blob_id.to_string());
            Event::Located {
                location: Location {
                    cached: world.cached.contains(&name.as_str()),
                    cache_path: PathBuf::from(format!("cache/{name}")),
                    maildir_path: PathBuf::from(format!("cur/{name}")),
                },
            }
        }
        Action::Download { .. } => Event::Downloaded {
            result: if fails {
                Err(DownloadFailure::Email { failure: AttemptFailure::Store { source } })
            } else {
                Ok(())
            },
        },
        Action::ReadRevision => Event::Revision { revision: world.revision },
        Action::WarnRevisionLost { .. } => Event::Terminal { is_terminal: world.terminal },
        Action::ConfirmRevision => Event::Answer { answer: String::from(world.answer) },
        Action::CheckMaildirFile { path } => Event::Exists {
            exists: world.in_maildir.iter().any(|known| PathBuf::from(known) == **path),
        },
        Action::AddEmail { email } => Event::Added {
            result: if fails {
                Err(source)
            } else {
                let name = email.remote_email.id.to_string();
                let told = world.added_as.unwrap_or(name.as_str());
                Ok(local_email(told, "added"))
            },
        },
        Action::NameFile { path } => Event::FileName {
            name: path.file_name().map(|name| name.to_string_lossy().into_owned()),
        },
        Action::GetMessage { message_id } => Event::Message {
            result: if fails {
                Err(source)
            } else if world.renamed {
                let names = match message_id.as_str() {
                    "b@example" => ["other", "b.2:2,F"],
                    _ => ["n.1:2,F", "n.1"],
                };
                Ok(Some(
                    names
                        .iter()
                        .map(|name| MessageFile {
                            path: PathBuf::from(format!("cur/{name}")),
                            name: Some(String::from(*name)),
                        })
                        .collect(),
                ))
            } else {
                Ok(None)
            },
        },
        Action::ListTags => Event::Tags {
            result: if fails { Err(source) } else { Ok(strings(&world.tags)) },
        },
        Action::SaveState { .. } => Event::StateSaved {
            outcome: if fails {
                StateFileWrite::Unwritten(source)
            } else {
                StateFileWrite::Written
            },
        },
        _ => Event::Ack { result: ack },
    }
}

/// Carries a run out in this world: what it asked for, and what it came to.
fn carry_out(settings: Settings, world: &World) -> (Vec<String>, Result<(), Error<String>>) {
    let lock = PathBuf::from("mail").join(LOCK_FILE_NAME);
    let record = PathBuf::from("mail").join(STATE_FILE_NAME);
    let mut run: SyncRun<String> = sync(settings, lock, record);
    let mut log = Vec::new();
    loop {
        let action = run.action();
        if matches!(action, Action::Finish) {
            break;
        }
        log.push(line(&action));
        let event = answer(world, &action);
        assert!(run.accepts(&event));
        run = run.step(event);
        assert!(log.len() < 1000);
    }
    (log, run.result().unwrap())
}

fn opening(read_only: bool) -> Vec<String> {
    vec![
        String::from("open lock mail/mujmap.lock"),
        String::from("try lock"),
        String::from("read mail/mujmap.state.json"),
        format!("open local {read_only}"),
        String::from("open cache"),
        String::from("open remote"),
        String::from("mailboxes"),
        String::from("local emails"),
    ]
}

fn fetching() -> Vec<String> {
    strings(&[
        "changes s1",
        "report 3",
        "get a,b,n",
        "locate b",
        "locate n",
        "report download",
        "download b:cache/b.2:cur/b.2,n:cache/n.1:cur/n.1",
        "updates since 10",
    ])
}

#[test]
fn a_pull_does_everything_in_order() {
    let (log, result) = carry_out(settings(true, false), &world());
    assert!(result.is_ok());
    let mut expected = opening(false);
    expected.extend(fetching());
    expected.extend(strings(&[
        "report merge 2 3 1",
        "check cur/b.2",
        "link cache/b.2 cur/b.2",
        "check cur/n.1",
        "link cache/n.1 cur/n.1",
        "begin",
        "add b",
        "add n",
        "tag a.1 flagged,inbox",
        "tag b.added flagged,inbox",
        "name cur/b.2",
        "message b@example",
        "tag n.added flagged,inbox",
        "name cur/n.1",
        "message n@example",
        "remove c.1",
        "remove b.1",
        "end",
        "move cache/b.2 cur/b.2",
        "move cache/n.1 cur/n.1",
        "delete cur/c.1:2,S",
        "delete cur/b.1:2,S",
        "tags",
        "report push 0",
        "push  1",
        "revision",
        "save mail/mujmap.state.json Some(21) Some(\"s2\")",
    ]));
    assert_eq!(log, expected);
}

#[test]
fn a_push_leaves_the_mail_alone() {
    let mut there = world();
    there.local_updates = vec![("a", "1"), ("c", "1")];
    let (log, result) = carry_out(settings(false, false), &there);
    assert!(result.is_ok());
    let mut expected = opening(true);
    expected.extend(fetching());
    expected.extend(strings(&[
        "tags",
        "report push 1",
        "push a 1",
        "revision",
        "save mail/mujmap.state.json Some(21) Some(\"s1\")",
    ]));
    assert_eq!(log, expected);
}

#[test]
fn a_dry_pull_changes_nothing() {
    let (log, result) = carry_out(settings(true, true), &world());
    assert!(result.is_ok());
    let mut expected = opening(true);
    expected.extend(fetching());
    expected.extend(strings(&["report merge 2 3 1", "report push 0"]));
    assert_eq!(log, expected);
}

#[test]
fn a_dry_push_changes_nothing() {
    let (log, result) = carry_out(settings(false, true), &world());
    assert!(result.is_ok());
    assert_eq!(log.last().unwrap(), "report push 0");
    assert!(!log.contains(&String::from("tags")));
}

#[test]
fn a_taken_lock_is_waited_for() {
    let mut there = world();
    there.locked = false;
    let (log, result) = carry_out(settings(false, true), &there);
    assert!(result.is_ok());
    assert_eq!(log[1..4], ["try lock", "wait for lock", "read mail/mujmap.state.json"]);
}

#[test]
fn local_changes_win_over_the_server() {
    let mut there = world();
    there.local_updates = vec![("a", "1"), ("b", "1")];
    let (log, result) = carry_out(settings(true, false), &there);
    assert!(result.is_ok());
    let tagged: Vec<&String> = log.iter().filter(|line| line.starts_with("tag ")).collect();
    assert_eq!(tagged, ["tag n.added flagged,inbox"]);
    assert!(log.contains(&String::from("push a,b 1")));
}

#[test]
fn destroyed_emails_are_not_pushed() {
    let mut there = world();
    there.local_updates = vec![("c", "1"), ("a", "1")];
    let (log, result) = carry_out(settings(true, false), &there);
    assert!(result.is_ok());
    assert!(log.contains(&String::from("push a 1")));
}

#[test]
fn without_a_state_all_emails_are_looked_at() {
    let mut there = world();
    there.latest = Some((Some(10), None));
    there.remote_ids = vec!["b", "n"];
    there.remote = vec![("b", "1"), ("n", "1")];
    let (log, result) = carry_out(settings(true, false), &there);
    assert!(result.is_ok());
    assert_eq!(log[8..11], ["all ids: no state", "report 2", "get b,n"]);
    assert!(log.contains(&String::from("remove a.1")));
    assert!(log.contains(&String::from("remove c.1")));
    assert!(!log.contains(&String::from("remove b.1")));
    assert!(log.contains(&String::from("save mail/mujmap.state.json Some(21) Some(\"s3\")")));
}

#[test]
fn an_unknown_update_leads_to_a_full_sync() {
    let mut there = world();
    there.changes = Some((&[], &["a", "x"], &[]));
    let (log, result) = carry_out(settings(true, false), &there);
    assert!(result.is_ok());
    assert_eq!(log[8..11], ["changes s1", "all ids: unknown update", "report 3"]);
}

#[test]
fn failed_changes_lead_to_a_full_sync() {
    let mut there = world();
    there.changes = None;
    let (log, result) = carry_out(settings(true, false), &there);
    assert!(result.is_ok());
    assert_eq!(log[8..11], ["changes s1", "all ids: boom", "report 3"]);
}

#[test]
fn an_unreadable_state_is_no_failure() {
    let mut there = world();
    there.latest = None;
    let (log, result) = carry_out(settings(true, false), &there);
    assert!(result.is_ok());
    assert_eq!(log[8], "all ids: no state");
    let at = log.iter().position(|line| line == "warn false").unwrap();
    assert_eq!(log[at..at + 4], ["warn false", "confirm", "revision", "updates since 20"]);
}

#[test]
fn a_first_run_takes_the_present_revision() {
    let mut there = world();
    there.latest = Some((None, None));
    there.local = vec![];
    let (log, result) = carry_out(settings(true, false), &there);
    assert!(result.is_ok());
    let at = log.iter().position(|line| line == "updates since 20").unwrap();
    assert_eq!(log[at - 1], "revision");
    assert!(!log.iter().any(|line| line.starts_with("warn")));
}

#[test]
fn a_lost_revision_needs_a_yes() {
    let mut there = world();
    there.latest = Some((None, Some("s1")));
    there.answer = "n\n";
    let (log, result) = carry_out(settings(true, true), &there);
    assert!(matches!(result, Err(Error::MissingNotmuchDatabaseRevision {})));
    assert_eq!(log[log.len() - 2..], ["warn true", "confirm"]);
}

#[test]
fn a_lost_revision_needs_a_terminal() {
    let mut there = world();
    there.latest = Some((None, Some("s1")));
    there.terminal = false;
    let (log, result) = carry_out(settings(true, false), &there);
    assert!(matches!(result, Err(Error::MissingNotmuchDatabaseRevision {})));
    assert_eq!(log[log.len() - 2..], ["warn false", "refuse"]);
}

#[test]
fn cached_mail_is_not_downloaded_again() {
    let mut there = world();
    there.cached = vec!["n.1"];
    let (log, result) = carry_out(settings(true, false), &there);
    assert!(result.is_ok());
    assert!(log.contains(&String::from("download b:cache/b.2:cur/b.2")));
    there.cached = vec!["n.1", "b.2"];
    let (log, result) = carry_out(settings(true, false), &there);
    assert!(result.is_ok());
    assert!(!log.iter().any(|line| line.contains("download")));
    assert!(log.contains(&String::from("link cache/n.1 cur/n.1")));
}

#[test]
fn every_linked_file_is_in_the_cache() {
    for cached in [vec![], vec!["b.2"], vec!["n.1"], vec!["b.2", "n.1"]] {
        let mut there = world();
        there.cached = cached.clone();
        let (log, result) = carry_out(settings(true, false), &there);
        assert!(result.is_ok());
        let fetched = log.iter().find(|line| line.starts_with("download "));
        for name in ["b.2", "n.1"] {
            assert!(log.contains(&format!("link cache/{name} cur/{name}")));
            let path = format!("cache/{name}:");
            let fetched = fetched.is_some_and(|line| line.contains(&path));
            assert_eq!(fetched, !cached.contains(&name));
        }
    }
}

#[test]
fn downloads_go_by_the_settings() {
    let there = world();
    let lock = PathBuf::from("lock");
    let mut run: SyncRun<String> = sync(settings(true, false), lock, PathBuf::from("state"));
    loop {
        let event = match run.action() {
            Action::Download { settings, .. } => {
                assert_eq!(settings.concurrent_downloads, 4);
                assert_eq!(settings.retries, 5);
                assert!(settings.convert_dos_to_unix);
                break;
            }
            action => answer(&there, &action),
        };
        run = run.step(event);
    }
}

#[test]
fn nothing_is_done_twice() {
    let mut there = world();
    there.renamed = true;
    there.local_updates = vec![("a", "1")];
    let (log, result) = carry_out(settings(true, false), &there);
    assert!(result.is_ok());
    for kind in ["add ", "tag ", "remove ", "push ", "move ", "delete ", "save "] {
        let lines: Vec<&String> = log.iter().filter(|line| line.starts_with(kind)).collect();
        assert!(!lines.is_empty());
        for (i, line) in lines.iter().enumerate() {
            assert!(!lines[i + 1..].contains(line));
        }
    }
}

#[test]
fn unindexed_files_are_replaced() {
    let mut there = world();
    there.in_maildir = vec!["cur/n.1"];
    let (log, result) = carry_out(settings(true, false), &there);
    assert!(result.is_ok());
    let at = log.iter().position(|line| line == "check cur/n.1").unwrap();
    assert_eq!(log[at + 1..at + 3], ["remove unindexed cur/n.1", "link cache/n.1 cur/n.1"]);
}

#[test]
fn renamed_files_are_followed() {
    let mut there = world();
    there.renamed = true;
    let (log, result) = carry_out(settings(true, false), &there);
    assert!(result.is_ok());
    assert!(log.contains(&String::from("move cache/b.2 cur/b.2:2,F")));
    assert!(log.contains(&String::from("move cache/n.1 cur/n.1:2,F")));
}

#[test]
fn a_failed_commit_removes_every_link() {
    for failing in ["begin", "add n", "tag a.1 flagged,inbox", "remove b.1", "end"] {
        let mut there = world();
        there.failing = failing;
        let (log, result) = carry_out(settings(true, false), &there);
        assert!(result.is_err());
        let at = log.iter().position(|line| line == failing).unwrap();
        assert_eq!(log[at + 1..], ["unlink cur/b.2", "unlink cur/n.1"]);
    }
}

#[test]
fn a_failed_commit_removes_links_under_their_new_names() {
    let mut there = world();
    there.renamed = true;
    there.failing = "end";
    let (log, result) = carry_out(settings(true, false), &there);
    assert!(matches!(result, Err(Error::EndAtomic { .. })));
    assert_eq!(log[log.len() - 2..], ["unlink cur/b.2:2,F", "unlink cur/n.1:2,F"]);
}

#[test]
fn links_that_stay_do_not_change_the_error() {
    let mut there = world();
    there.failing = "begin";
    let lock = PathBuf::from("lock");
    let mut run: SyncRun<String> = sync(settings(true, false), lock, PathBuf::from("state"));
    loop {
        let event = match run.action() {
            Action::Finish => break,
            Action::RemoveSymlink { .. } => Event::Ack { result: Err(String::from("stuck")) },
            action => answer(&there, &action),
        };
        run = run.step(event);
    }
    assert!(matches!(run.result(), Some(Err(Error::BeginAtomic { source })) if source == "boom"));
}

#[test]
fn missing_mailboxes_stop_the_run() {
    let mut there = world();
    there.tags = vec!["inbox", "work", "todo", "attachment"];
    let (log, result) = carry_out(settings(true, false), &there);
    assert!(matches!(result, Err(Error::MissingMailboxes { tags }) if tags == ["work"]));
    assert_eq!(log.last().unwrap(), "tags");
}

#[test]
fn missing_mailboxes_are_created_on_demand() {
    let mut there = world();
    there.tags = vec!["inbox", "work"];
    let mut wishes = settings(true, false);
    wishes.auto_create_new_mailboxes = true;
    let (log, result) = carry_out(wishes, &there);
    assert!(result.is_ok());
    let at = log.iter().position(|line| line == "tags").unwrap();
    assert_eq!(log[at + 1..at + 4], ["create work", "report push 0", "push  2"]);
}

#[test]
fn an_email_that_the_database_lacks_is_a_bug() {
    let mut there = world();
    there.added_as = Some("somebody-else");
    there.local = vec![("a", "1")];
    there.changes = Some((&["n"], &["a"], &[]));
    there.remote = vec![("a", "1"), ("n", "1")];
    let (log, result) = carry_out(settings(true, false), &there);
    assert!(matches!(result, Err(Error::Programmer {})));
    let end = ["tag a.1 flagged,inbox", "missing n", "unlink cur/n.1"];
    assert_eq!(log[log.len() - 3..], end);
}

#[test]
fn every_failure_has_its_error() {
    let failures: [(&'static str, fn(&Error<String>) -> bool); 28] = [
        ("open lock mail/mujmap.lock", |e| matches!(e, Error::OpenLockFile { .. })),
        ("try lock", |e| matches!(e, Error::Lock { .. })),
        ("open local false", |e| matches!(e, Error::OpenLocal { .. })),
        ("open cache", |e| matches!(e, Error::OpenCache { .. })),
        ("open remote", |e| matches!(e, Error::OpenRemote { .. })),
        ("mailboxes", |e| matches!(e, Error::IndexMailboxes { .. })),
        ("local emails", |e| matches!(e, Error::IndexLocalEmails { .. })),
        ("report 3", |e| matches!(e, Error::Log { .. })),
        ("get a,b,n", |e| matches!(e, Error::GetRemoteEmails { .. })),
        ("report download", |e| matches!(e, Error::Log { .. })),
        ("download b:cache/b.2:cur/b.2,n:cache/n.1:cur/n.1", |e| matches!(e, Error::CacheNewEmail { .. })),
        ("updates since 10", |e| matches!(e, Error::IndexLocalUpdatedEmails { .. })),
        ("report merge 2 3 1", |e| matches!(e, Error::Log { .. })),
        ("link cache/n.1 cur/n.1", |e| matches!(e, Error::MakeMaildirSymlink { .. })),
        ("begin", |e| matches!(e, Error::BeginAtomic { .. })),
        ("add b", |e| matches!(e, Error::AddLocalEmail { .. })),
        ("tag n.added flagged,inbox", |e| matches!(e, Error::UpdateLocalEmail { .. })),
        ("message b@example", |e| matches!(e, Error::GetNotmuchMessage { .. })),
        ("remove c.1", |e| matches!(e, Error::RemoveLocalEmail { .. })),
        ("end", |e| matches!(e, Error::EndAtomic { .. })),
        ("move cache/b.2 cur/b.2", |e| matches!(e, Error::RenameMailFile { .. })),
        ("delete cur/c.1:2,S", |e| matches!(e, Error::RemoveMailFile { .. })),
        ("tags", |e| matches!(e, Error::IndexTags { .. })),
        ("report push 0", |e| matches!(e, Error::Log { .. })),
        ("push  1", |e| matches!(e, Error::PushChanges { .. })),
        ("save mail/mujmap.state.json Some(21) Some(\"s2\")", |e| {
            matches!(e, Error::WriteStateFile { .. })
        }),
        ("wait for lock", |e| matches!(e, Error::Lock { .. })),
        ("remove unindexed cur/b.2", |e| matches!(e, Error::RemoveUnindexedMailFile { .. })),
    ];
    for (failing, is_expected) in failures {
        let mut there = world();
        there.failing = failing;
        there.locked = failing != "wait for lock";
        there.in_maildir = vec!["cur/b.2"];
        let (log, result) = carry_out(settings(true, false), &there);
        assert!(log.contains(&String::from(failing)), "{failing} in {log:?}");
        assert!(is_expected(&result.unwrap_err()), "{failing}");
        let saved = log.iter().any(|line| line.starts_with("save"));
        assert_eq!(saved, failing.starts_with("save"));
    }
}

#[test]
fn errors_tell_the_paths() {
    let mut there = world();
    there.failing = "move cache/n.1 cur/n.1";
    let (_, result) = carry_out(settings(true, false), &there);
    assert!(matches!(
        result,
        Err(Error::RenameMailFile { from, to, source })
            if from == PathBuf::from("cache/n.1") && to == PathBuf::from("cur/n.1")
                && source == "boom"
    ));
    there.failing = "add n";
    let (_, result) = carry_out(settings(true, false), &there);
    assert!(matches!(
        result,
        Err(Error::AddLocalEmail { filename, .. }) if filename == PathBuf::from("cache/n.1")
    ));
    there.failing = "delete cur/b.1:2,S";
    let (_, result) = carry_out(settings(true, false), &there);
    assert!(matches!(
        result,
        Err(Error::RemoveMailFile { path, .. }) if path == PathBuf::from("cur/b.1:2,S")
    ));
}

#[test]
fn failures_of_a_full_sync_and_of_new_mailboxes() {
    let mut there = world();
    there.latest = Some((Some(10), None));
    there.failing = "all ids: no state";
    let (_, result) = carry_out(settings(true, false), &there);
    assert!(matches!(result, Err(Error::IndexRemoteEmails { .. })));
    let mut there = world();
    there.tags = vec!["work"];
    there.failing = "create work";
    let mut wishes = settings(false, false);
    wishes.auto_create_new_mailboxes = true;
    let (_, result) = carry_out(wishes, &there);
    assert!(matches!(
        result,
        Err(Error::CreateMailboxes { tags, source }) if tags == ["work"] && source == "boom"
    ));
}

#[test]
fn a_thread_pool_that_cannot_start_stops_the_run() {
    let there = world();
    let lock = PathBuf::from("lock");
    let mut run: SyncRun<String> = sync(settings(true, false), lock, PathBuf::from("state"));
    loop {
        let event = match run.action() {
            Action::Finish => break,
            Action::Download { .. } => Event::Downloaded {
                result: Err(DownloadFailure::ThreadPool { source: String::from("threads") }),
            },
            action => answer(&there, &action),
        };
        run = run.step(event);
    }
    assert!(matches!(
        run.result(),
        Some(Err(Error::CreateDownloadThreadPool { source })) if source == "threads"
    ));
}

/// Carries a run out with `told` in place of what the world tells of the downloads
/// or of the record.
fn carry_out_with(told: fn() -> Event<String>) -> Option<Result<(), Error<String>>> {
    let there = world();
    let lock = PathBuf::from("lock");
    let mut run: SyncRun<String> = sync(settings(true, false), lock, PathBuf::from("state"));
    loop {
        let action = run.action();
        if matches!(action, Action::Finish) {
            return run.result();
        }
        let event = answer(&there, &action);
        let event = if run.accepts(&told()) { told() } else { event };
        run = run.step(event);
    }
}

#[test]
fn the_record_decides_the_end() {
    let result = carry_out_with(|| Event::StateSaved { outcome: StateFileWrite::Written });
    assert!(matches!(result, Some(Ok(()))));
    let result = carry_out_with(|| Event::StateSaved {
        outcome: StateFileWrite::Uncreated(String::from("denied")),
    });
    assert!(matches!(
        result,
        Some(Err(Error::CreateStateFile { filename, source }))
            if filename == PathBuf::from("state") && source == "denied"
    ));
    let result = carry_out_with(|| Event::StateSaved {
        outcome: StateFileWrite::Unwritten(String::from("full")),
    });
    assert!(matches!(
        result,
        Some(Err(Error::WriteStateFile { filename, source }))
            if filename == PathBuf::from("state") && source == "full"
    ));
}

#[test]
fn failed_downloads_tell_their_cause() {
    let result = carry_out_with(|| Event::Downloaded {
        result: Err(DownloadFailure::Email {
            failure: AttemptFailure::Read { source: String::from("gone") },
        }),
    });
    assert!(matches!(
        result,
        Some(Err(Error::DownloadRemoteEmail { source })) if source == "gone"
    ));
    let result = carry_out_with(|| Event::Downloaded {
        result: Err(DownloadFailure::Email {
            failure: AttemptFailure::Store { source: String::from("full") },
        }),
    });
    assert!(matches!(result, Some(Err(Error::CacheNewEmail { source })) if source == "full"));
}

#[test]
fn the_next_run_goes_on_where_the_last_ended() {
    let (log, result) = carry_out(settings(true, false), &world());
    assert!(result.is_ok());
    assert_eq!(log.last().unwrap(), "save mail/mujmap.state.json Some(21) Some(\"s2\")");
    let mut there = world();
    there.latest = Some((Some(21), Some("s2")));
    let (log, result) = carry_out(settings(true, false), &there);
    assert!(result.is_ok());
    assert!(log.contains(&String::from("changes s2")));
    assert!(log.contains(&String::from("updates since 21")));
}

#[test]
fn only_what_was_asked_for_is_accepted() {
    let run: SyncRun<String> =
        sync(settings(true, false), PathBuf::from("lock"), PathBuf::from("state"));
    assert!(run.accepts(&Event::Ack { result: Ok(()) }));
    assert!(run.accepts(&Event::Ack { result: Err(String::from("boom")) }));
    assert!(!run.accepts(&Event::Locked { result: Ok(true) }));
    assert!(!run.accepts(&Event::Revision { revision: 1 }));
    assert!(run.result().is_none());
}

#[test]
fn a_revision_without_a_successor_is_not_accepted() {
    let mut there = world();
    there.revision = u64::MAX;
    let mut run: SyncRun<String> =
        sync(settings(false, false), PathBuf::from("lock"), PathBuf::from("state"));
    loop {
        let event = match run.action() {
            Action::ReadRevision => break,
            action => answer(&there, &action),
        };
        run = run.step(event);
    }
    assert!(!run.accepts(&Event::Revision { revision: u64::MAX }));
    assert!(run.accepts(&Event::Revision { revision: u64::MAX - 1 }));
}
