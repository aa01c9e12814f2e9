use backend_service::cache::DataStorageCache;
use backend_service::git::GitOutput;
use backend_service::path_guard::SafeFsError;
use backend_service::transactionalfs::{
    parse_commit_log, Action, CommitInfo, Event, GitTransactionalFs, Progress, Request, Stage,
    TransactionalFs, TransactionalFsError,
};

fn store() -> GitTransactionalFs {
    GitTransactionalFs::new("/srv/data/users/alice".to_string(), "alice@example.com".to_string())
}

fn ok(stdout: &str) -> Event {
    Event::GitOutcome {
        output: GitOutput { success: true, stdout: stdout.to_string(), stderr: String::new() },
    }
}

fn failed(stderr: &str) -> Event {
    Event::GitOutcome {
        output: GitOutput { success: false, stdout: String::new(), stderr: stderr.to_string() },
    }
}

fn args(action: &Action) -> Vec<String> {
    match action {
        Action::RunGit { args } => args.clone(),
        other => panic!("no command: {:?}", other),
    }
}

fn strings(items: &[&str]) -> Vec<String> {
    items.iter().map(|s| s.to_string()).collect()
}

fn commit(hash: &str, author: &str, message: &str, files: &[&str]) -> CommitInfo {
    CommitInfo {
        hash: hash.to_string(),
        author: author.to_string(),
        message: message.to_string(),
        files: strings(files),
    }
}

fn drive(
    store: &GitTransactionalFs,
    request: &Request,
    events: Vec<Event>,
    cache: &mut DataStorageCache,
) -> (Progress, Vec<Action>) {
    let mut progress = GitTransactionalFs::begin();
    let mut actions = Vec::new();
    let mut all = vec![Event::Begin];
    all.extend(events);
    for event in all {
        let (next, action) = store.step(request, progress, event, cache);
        progress = next;
        actions.push(action);
    }
    (progress, actions)
}

#[test]
fn two_commits_are_listed_most_recent_first_each_with_its_file() {
    let log = "bbb222\nalice@example.com\nsecond write\n\nnotes/a.txt\n\naaa111\nalice@example.com\nfirst write\n\nnotes/a.txt";
    let commits = parse_commit_log(log).unwrap();
    assert_eq!(
        commits,
        vec![
            commit("bbb222", "alice@example.com", "second write", &["notes/a.txt"]),
            commit("aaa111", "alice@example.com", "first write", &["notes/a.txt"]),
        ]
    );
}

#[test]
fn a_commit_may_touch_several_files_or_none() {
    let log = "c3\nbob\nthree files\n\na.txt\nb/c.txt\nd.csv\n\nc2\nbob\nnothing changed\n\n\nc1\nbob\nlast line is a file\nz.txt";
    let commits = parse_commit_log(log).unwrap();
    assert_eq!(
        commits,
        vec![
            commit("c3", "bob", "three files", &["a.txt", "b/c.txt", "d.csv"]),
            commit("c2", "bob", "nothing changed", &[]),
            commit("c1", "bob", "last line is a file", &["z.txt"]),
        ]
    );
}

#[test]
fn an_empty_log_holds_no_commits() {
    assert_eq!(parse_commit_log("").unwrap(), Vec::<CommitInfo>::new());
}

#[test]
fn a_log_that_breaks_off_is_refused() {
    assert!(matches!(
        parse_commit_log("abc"),
        Err(TransactionalFsError::GitLogParseError(detail)) if detail == "missing author"
    ));
    assert!(matches!(
        parse_commit_log("abc\nbob"),
        Err(TransactionalFsError::GitLogParseError(detail)) if detail == "missing message"
    ));
    assert!(matches!(
        parse_commit_log("c2\nbob\nfine\n\na.txt\n\nc1"),
        Err(TransactionalFsError::GitLogParseError(detail)) if detail == "missing author"
    ));
}

#[test]
fn a_log_with_carriage_returns() {
    let commits = parse_commit_log("c1\r\nbob\r\nmsg\r\n\r\na.txt\r\n").unwrap();
    assert_eq!(commits, vec![commit("c1", "bob", "msg", &["a.txt"])]);
}

#[test]
fn a_write_writes_forgets_and_commits_once() {
    let store = store();
    let mut cache = DataStorageCache::new(4, 4, 4);
    let path = "/srv/data/users/alice/tables/t1.csv";
    cache.put_bytes(path.to_string(), vec![1, 2, 3]);
    cache.put_text(path.to_string(), "old".to_string());
    cache.put_text("/srv/data/users/alice/other.txt".to_string(), "kept".to_string());
    let request = store.write_file("tables/./t1.csv", "update t1");
    let mut progress = GitTransactionalFs::begin();

    let (next, action) = store.step(&request, progress, Event::Begin, &mut cache);
    progress = next;
    assert!(matches!(&action, Action::WriteFile { path: p } if p == path));
    assert_eq!(progress.stage, Stage::Written);
    assert_eq!(cache.get_bytes(path), Some(vec![1, 2, 3]));

    let (next, action) =
        store.step(&request, progress, Event::FileOutcome { error: None }, &mut cache);
    progress = next;
    assert_eq!(args(&action), strings(&["config", "user.email", "alice@example.com"]));
    assert_eq!(cache.get_bytes(path), None);
    assert_eq!(cache.get_text(path), None);
    assert_eq!(
        cache.get_text("/srv/data/users/alice/other.txt"),
        Some("kept".to_string())
    );

    let (next, action) = store.step(&request, progress, ok(""), &mut cache);
    progress = next;
    assert_eq!(args(&action), strings(&["config", "user.name", "alice@example.com"]));
    let (next, action) = store.step(&request, progress, ok(""), &mut cache);
    progress = next;
    assert_eq!(args(&action), strings(&["add", "."]));
    let (next, action) = store.step(&request, progress, ok(""), &mut cache);
    progress = next;
    assert_eq!(args(&action), strings(&["commit", "-m", "update t1"]));
    assert_eq!(progress.stage, Stage::Commit);
    let (next, action) = store.step(&request, progress, ok("1 file changed"), &mut cache);
    assert_eq!(next.stage, Stage::Finished);
    assert!(matches!(action, Action::Finish { outcome: Ok(commits) } if commits.is_empty()));
}

#[test]
fn a_write_outside_the_root_touches_nothing() {
    let store = store();
    let mut cache = DataStorageCache::new(4, 4, 4);
    let request = store.write_file("../../etc/passwd", "sneaky");
    let (progress, actions) = drive(&store, &request, vec![], &mut cache);
    assert_eq!(progress.stage, Stage::Finished);
    assert!(matches!(
        &actions[0],
        Action::Finish {
            outcome: Err(TransactionalFsError::SafetyError(SafeFsError::PathTraversalDetected))
        }
    ));
}

#[test]
fn a_write_that_fails_on_disk_is_not_committed() {
    let store = store();
    let mut cache = DataStorageCache::new(4, 4, 4);
    let request = store.write_file("a.txt", "m");
    let events = vec![Event::FileOutcome { error: Some("disk full".to_string()) }];
    let (progress, actions) = drive(&store, &request, events, &mut cache);
    assert_eq!(progress.stage, Stage::Finished);
    assert!(matches!(
        &actions[1],
        Action::Finish { outcome: Err(TransactionalFsError::SafetyError(SafeFsError::Io(text))) }
            if text == "disk full"
    ));
}

#[test]
fn a_failed_commit_ends_the_write_with_the_diagnostics() {
    let store = store();
    let mut cache = DataStorageCache::new(4, 4, 4);
    let request = store.write_file("a.txt", "same again");
    let events = vec![
        Event::FileOutcome { error: None },
        ok(""),
        ok(""),
        ok(""),
        Event::GitOutcome {
            output: GitOutput {
                success: false,
                stdout: "nothing to commit".to_string(),
                stderr: "warn".to_string(),
            },
        },
    ];
    let (progress, actions) = drive(&store, &request, events, &mut cache);
    assert_eq!(progress.stage, Stage::Finished);
    match &actions[5] {
        Action::Finish { outcome: Err(TransactionalFsError::GitCommand(text)) } => {
            assert_eq!(
                text,
                "Failed to execute git command: [\"commit\", \"-m\", \"same again\"] in \"/srv/data/users/alice\". Stderr: warn, Stdout: nothing to commit"
            );
        }
        other => panic!("unexpected: {:?}", other),
    }
}

#[test]
fn deleting_a_missing_file_is_file_not_found_without_any_command() {
    let store = store();
    let mut cache = DataStorageCache::new(4, 4, 4);
    let path = "/srv/data/users/alice/gone.txt";
    cache.put_text(path.to_string(), "cached".to_string());
    let request = store.delete_file("gone.txt", "remove");
    let events = vec![Event::Probed { exists: false }];
    let (progress, actions) = drive(&store, &request, events, &mut cache);
    assert_eq!(progress.stage, Stage::Finished);
    assert!(matches!(&actions[0], Action::ProbeFile { path: p } if p == path));
    assert!(matches!(
        &actions[1],
        Action::Finish { outcome: Err(TransactionalFsError::FileNotFound(p)) } if p == path
    ));
    assert!(actions.iter().all(|action| !matches!(action, Action::RunGit { .. })));
    assert_eq!(cache.get_text(path), Some("cached".to_string()));
}

#[test]
fn a_delete_forgets_removes_and_commits_once() {
    let store = store();
    let mut cache = DataStorageCache::new(4, 4, 4);
    let path = "/srv/data/users/alice/old.txt";
    cache.put_text(path.to_string(), "cached".to_string());
    let request = store.delete_file("old.txt", "File old.txt deleted.");
    let mut progress = GitTransactionalFs::begin();
    let (next, _) = store.step(&request, progress, Event::Begin, &mut cache);
    progress = next;
    let (next, action) =
        store.step(&request, progress, Event::Probed { exists: true }, &mut cache);
    progress = next;
    assert!(matches!(&action, Action::RemoveFile { path: p } if p == path));
    assert_eq!(cache.get_text(path), None);
    let (next, action) =
        store.step(&request, progress, Event::FileOutcome { error: None }, &mut cache);
    progress = next;
    assert_eq!(args(&action), strings(&["config", "user.email", "alice@example.com"]));
    let (next, _) = store.step(&request, progress, ok(""), &mut cache);
    progress = next;
    let (next, _) = store.step(&request, progress, ok(""), &mut cache);
    progress = next;
    let (next, action) = store.step(&request, progress, ok(""), &mut cache);
    progress = next;
    assert_eq!(args(&action), strings(&["commit", "-m", "File old.txt deleted."]));
    let (_, action) = store.step(&request, progress, ok(""), &mut cache);
    assert!(matches!(action, Action::Finish { outcome: Ok(_) }));
}

#[test]
fn a_delete_that_fails_on_disk_is_an_io_error() {
    let store = store();
    let mut cache = DataStorageCache::new(4, 4, 4);
    let request = store.delete_file("old.txt", "m");
    let events = vec![
        Event::Probed { exists: true },
        Event::FileOutcome { error: Some("denied".to_string()) },
    ];
    let (_, actions) = drive(&store, &request, events, &mut cache);
    assert!(matches!(
        &actions[2],
        Action::Finish { outcome: Err(TransactionalFsError::Io(text)) } if text == "denied"
    ));
}

#[test]
fn listing_a_root_without_a_repository_gives_no_commits() {
    let store = store();
    let mut cache = DataStorageCache::new(4, 4, 4);
    let request = store.list_commits();
    let (progress, actions) =
        drive(&store, &request, vec![Event::Probed { exists: false }], &mut cache);
    assert_eq!(progress.stage, Stage::Finished);
    assert!(matches!(&actions[0], Action::ProbeRepository));
    assert!(matches!(&actions[1], Action::Finish { outcome: Ok(commits) } if commits.is_empty()));
}

#[test]
fn listing_a_repository_without_commits_gives_no_commits() {
    let store = store();
    let mut cache = DataStorageCache::new(4, 4, 4);
    let request = store.list_commits();
    let stderr = "fatal: your current branch 'master' does not have any commits yet";
    let events = vec![Event::Probed { exists: true }, failed(stderr)];
    let (_, actions) = drive(&store, &request, events, &mut cache);
    assert_eq!(
        args(&actions[1]),
        strings(&["log", "--pretty=format:%H%n%an%n%s", "--name-only"])
    );
    assert!(matches!(&actions[2], Action::Finish { outcome: Ok(commits) } if commits.is_empty()));
}

#[test]
fn listing_reads_the_log() {
    let store = store();
    let mut cache = DataStorageCache::new(4, 4, 4);
    let request = store.list_commits();
    let events = vec![Event::Probed { exists: true }, ok("\nc1\nbob\nmsg\n\na.txt\n\n")];
    let (_, actions) = drive(&store, &request, events, &mut cache);
    match &actions[2] {
        Action::Finish { outcome: Ok(commits) } => {
            assert_eq!(commits, &vec![commit("c1", "bob", "msg", &["a.txt"])]);
        }
        other => panic!("unexpected: {:?}", other),
    }
}

#[test]
fn a_failed_log_is_a_command_error() {
    let store = store();
    let mut cache = DataStorageCache::new(4, 4, 4);
    let request = store.list_commits();
    let events = vec![Event::Probed { exists: true }, failed("fatal: not a git repository")];
    let (_, actions) = drive(&store, &request, events, &mut cache);
    match &actions[2] {
        Action::Finish { outcome: Err(TransactionalFsError::GitCommand(text)) } => {
            assert_eq!(
                text,
                "Failed to execute git command: [\"log\", \"--pretty=format:%H%n%an%n%s\", \"--name-only\"] in \"/srv/data/users/alice\". Stderr: fatal: not a git repository"
            );
        }
        other => panic!("unexpected: {:?}", other),
    }
}

#[test]
fn reverting_the_last_commit_resets_the_history() {
    let store = store();
    let mut cache = DataStorageCache::new(4, 4, 4);
    let request = store.revert_last_commit();
    let events = vec![Event::Probed { exists: true }, ok("HEAD is now at aaa111")];
    let (progress, actions) = drive(&store, &request, events, &mut cache);
    assert_eq!(args(&actions[1]), strings(&["reset", "--hard", "HEAD~1"]));
    assert!(matches!(&actions[2], Action::Finish { outcome: Ok(_) }));
    assert_eq!(progress.stage, Stage::Finished);
}

#[test]
fn reverting_a_commit_checks_the_hash_and_adds_a_commit() {
    let store = store();
    let mut cache = DataStorageCache::new(4, 4, 4);
    let request = store.revert_commit("bbb222");
    let events = vec![Event::Probed { exists: true }, ok("commit\n"), ok("")];
    let (_, actions) = drive(&store, &request, events, &mut cache);
    assert_eq!(args(&actions[1]), strings(&["cat-file", "-t", "bbb222"]));
    assert_eq!(args(&actions[2]), strings(&["revert", "--no-edit", "bbb222"]));
    assert!(matches!(&actions[3], Action::Finish { outcome: Ok(_) }));
}

#[test]
fn reverting_what_is_no_commit_is_commit_not_found() {
    let store = store();
    let mut cache = DataStorageCache::new(4, 4, 4);
    let request = store.revert_commit("ccc333");
    let events = vec![Event::Probed { exists: true }, ok("tree\n")];
    let (_, actions) = drive(&store, &request, events, &mut cache);
    assert!(matches!(
        &actions[2],
        Action::Finish { outcome: Err(TransactionalFsError::CommitNotFound(hash)) }
            if hash == "ccc333"
    ));
}

#[test]
fn reverting_a_hash_that_names_no_object_is_commit_not_found() {
    let store = store();
    let mut cache = DataStorageCache::new(4, 4, 4);
    let request = store.revert_commit("nope");
    let events = vec![Event::Probed { exists: true }, failed("fatal: Not a valid object name nope")];
    let (progress, actions) = drive(&store, &request, events, &mut cache);
    assert_eq!(progress.stage, Stage::Finished);
    assert_eq!(actions.len(), 3);
    assert_eq!(args(&actions[1]), strings(&["cat-file", "-t", "nope"]));
    assert!(matches!(
        &actions[2],
        Action::Finish { outcome: Err(TransactionalFsError::CommitNotFound(hash)) }
            if hash == "nope"
    ));
    let commands: Vec<&Action> =
        actions.iter().filter(|action| matches!(action, Action::RunGit { .. })).collect();
    assert_eq!(commands.len(), 1);
}

#[test]
fn a_failed_object_query_counts_for_nothing_even_where_it_prints_commit() {
    let store = store();
    let mut cache = DataStorageCache::new(4, 4, 4);
    let request = store.revert_commit("abc");
    let events = vec![
        Event::Probed { exists: true },
        Event::GitOutcome {
            output: GitOutput {
                success: false,
                stdout: "commit\n".to_string(),
                stderr: String::new(),
            },
        },
    ];
    let (_, actions) = drive(&store, &request, events, &mut cache);
    assert!(matches!(
        &actions[2],
        Action::Finish { outcome: Err(TransactionalFsError::CommitNotFound(hash)) }
            if hash == "abc"
    ));
}

#[test]
fn an_object_query_that_cannot_run_is_an_io_error() {
    let store = store();
    let mut cache = DataStorageCache::new(4, 4, 4);
    let request = store.revert_commit("abc");
    let events = vec![
        Event::Probed { exists: true },
        Event::GitUnavailable { reason: "No such file or directory".to_string() },
    ];
    let (_, actions) = drive(&store, &request, events, &mut cache);
    assert!(matches!(
        &actions[2],
        Action::Finish { outcome: Err(TransactionalFsError::Io(text)) }
            if text == "No such file or directory"
    ));
}

#[test]
fn reverting_without_a_repository_does_nothing() {
    let store = store();
    let mut cache = DataStorageCache::new(4, 4, 4);
    for request in [store.revert_last_commit(), store.revert_commit("abc")] {
        let (_, actions) =
            drive(&store, &request, vec![Event::Probed { exists: false }], &mut cache);
        assert_eq!(actions.len(), 2);
        assert!(matches!(&actions[1], Action::Finish { outcome: Ok(_) }));
    }
}

#[test]
fn opening_a_root_makes_a_repository_where_there_is_none() {
    let store = store();
    let mut cache = DataStorageCache::new(4, 4, 4);
    let (_, actions) =
        drive(&store, &Request::Open, vec![Event::Probed { exists: false }, ok("")], &mut cache);
    assert_eq!(args(&actions[1]), strings(&["init"]));
    assert!(matches!(&actions[2], Action::Finish { outcome: Ok(_) }));
    let (_, actions) =
        drive(&store, &Request::Open, vec![Event::Probed { exists: true }], &mut cache);
    assert!(matches!(&actions[1], Action::Finish { outcome: Ok(_) }));
}

#[test]
fn a_command_that_cannot_run_is_an_io_error() {
    let store = store();
    let mut cache = DataStorageCache::new(4, 4, 4);
    let events = vec![
        Event::Probed { exists: true },
        Event::GitUnavailable { reason: "No such file or directory".to_string() },
    ];
    let (_, actions) = drive(&store, &store.revert_last_commit(), events, &mut cache);
    assert!(matches!(
        &actions[2],
        Action::Finish { outcome: Err(TransactionalFsError::Io(text)) }
            if text == "No such file or directory"
    ));
}

#[test]
fn an_event_out_of_turn_ends_the_operation() {
    let store = store();
    let mut cache = DataStorageCache::new(4, 4, 4);
    let (progress, actions) = drive(&store, &store.list_commits(), vec![ok("")], &mut cache);
    assert_eq!(progress.stage, Stage::Finished);
    assert!(matches!(
        &actions[1],
        Action::Finish { outcome: Err(TransactionalFsError::Io(text)) } if text == "unexpected event"
    ));
    let (progress, action) = store.step(&store.list_commits(), progress, Event::Begin, &mut cache);
    assert_eq!(progress.stage, Stage::Finished);
    assert!(matches!(action, Action::Finish { outcome: Err(_) }));
}

#[test]
fn messages_of_store_errors() {
    assert_eq!(TransactionalFsError::Io("x".to_string()).message(), "IO error: x");
    assert_eq!(
        TransactionalFsError::SafetyError(SafeFsError::PathTraversalDetected).message(),
        "Safety error: Path traversal attempt detected: target is outside base directory"
    );
    assert_eq!(
        TransactionalFsError::SafetyError(SafeFsError::Io("e".to_string())).message(),
        "Safety error: IO error: e"
    );
    assert_eq!(TransactionalFsError::GitCommand("g".to_string()).message(), "Git command error: g");
    assert_eq!(
        TransactionalFsError::CommitNotFound("abc".to_string()).message(),
        "Commit not found: abc"
    );
    assert_eq!(
        TransactionalFsError::GitLogParseError("p".to_string()).message(),
        "Failed to parse git log output: p"
    );
    assert_eq!(
        TransactionalFsError::FileNotFound("/a/b".to_string()).message(),
        "File not found: /a/b"
    );
}

#[test]
fn the_store_knows_its_root_and_its_user() {
    let store = store();
    assert_eq!(store.root_path(), "/srv/data/users/alice");
    assert_eq!(store.author_email(), "alice@example.com");
}

#[test]
fn a_refused_write_or_delete_is_a_security_event() {
    let store = store();
    let mut cache = DataStorageCache::new(4, 4, 4);
    for request in [
        store.write_file("../../etc/passwd", "sneaky"),
        store.delete_file("../../etc/passwd", "sneaky"),
    ] {
        let (_, mut actions) = drive(&store, &request, vec![], &mut cache);
        match actions.pop().unwrap() {
            Action::Finish { outcome } => {
                assert_eq!(
                    store.security_event(&request, &outcome),
                    Some(
                        "Path traversal detected: /srv/data/users/alice <- /srv/data/etc/passwd"
                            .to_string()
                    )
                );
            }
            other => panic!("unexpected: {:?}", other),
        }
    }
}

#[test]
fn other_outcomes_are_no_security_event() {
    let store = store();
    let write = store.write_file("a.txt", "m");
    assert_eq!(store.security_event(&write, &Ok(Vec::new())), None);
    assert_eq!(
        store.security_event(
            &write,
            &Err(TransactionalFsError::SafetyError(SafeFsError::Io("disk full".to_string())))
        ),
        None
    );
    assert_eq!(
        store.security_event(&write, &Err(TransactionalFsError::FileNotFound("/a".to_string()))),
        None
    );
    assert_eq!(
        store.security_event(
            &store.list_commits(),
            &Err(TransactionalFsError::SafetyError(SafeFsError::PathTraversalDetected))
        ),
        None
    );
}
