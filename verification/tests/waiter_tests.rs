use std::path::Path;

use messenger::waiter::{BackoffPolicy, BackoffWaiter, TickAction};

fn path_string(path: &Path) -> String {
    path.to_str().unwrap().to_string()
}

fn create_file(dir: &Path, name: &str) {
    tempfile::Builder::new()
        .prefix(name)
        .rand_bytes(0)
        .tempfile_in(dir)
        .unwrap()
        .keep()
        .unwrap();
}

#[test]
fn test_default_policy() {
    let policy = BackoffPolicy::default();
    assert_eq!(policy.initial_interval_ms, 500);
    assert_eq!(policy.max_interval_ms, 60_000);
    assert_eq!(policy.max_elapsed_ms, 900_000);
}

#[test]
fn test_schedule_doubles_and_caps() {
    let paths = vec!["never".to_string()];
    let mut waiter = BackoffWaiter::new(paths.clone(), BackoffPolicy::default());
    let mut delays = Vec::new();
    loop {
        match waiter.step(paths.clone()) {
            TickAction::Ready => panic!("a non-empty poll result must never succeed"),
            TickAction::Sleep(ms) => delays.push(ms),
            TickAction::TimedOut => break,
        }
    }
    // Doubling from the initial half second up to the one-minute cap.
    assert_eq!(delays[..8], [500, 1000, 2000, 4000, 8000, 16000, 32000, 60000]);
    assert!(delays[8..].iter().all(|&ms| ms == 60_000));
    // The scheduled sleeps fit the fifteen-minute budget, and one more
    // interval would overrun it.
    let total: u64 = delays.iter().sum();
    assert!(total <= 900_000);
    assert!(total + 60_000 > 900_000);
    assert_eq!(waiter.elapsed_ms(), total);
}

#[test]
fn test_poll_reports_exactly_still_missing() {
    let one = "one".to_string();
    let two = "two".to_string();
    let three = "three".to_string();
    let paths = vec![one.clone(), two.clone(), three.clone()];
    let mut waiter = BackoffWaiter::new(paths.clone(), BackoffPolicy::default());

    // All three still missing.
    assert_eq!(waiter.step(paths), TickAction::Sleep(500));
    assert_eq!(waiter.pending(), &vec![one, two.clone(), three.clone()]);

    // One appeared: the next poll reports exactly the other two.
    assert_eq!(waiter.step(vec![two, three.clone()]), TickAction::Sleep(1000));
    assert_eq!(waiter.pending().len(), 2);

    // Another appeared: exactly one left.
    assert_eq!(waiter.step(vec![three]), TickAction::Sleep(2000));
    assert_eq!(waiter.pending().len(), 1);

    // All exist: success, and nothing remains pending.
    assert_eq!(waiter.step(Vec::new()), TickAction::Ready);
    assert!(waiter.pending().is_empty());
}

#[test]
fn test_backoff_until_files_exist() {
    let temp_dir = tempfile::tempdir().unwrap();
    let files = vec![
        path_string(&temp_dir.path().join("file1")),
        path_string(&temp_dir.path().join("file2")),
        path_string(&temp_dir.path().join("file3")),
    ];

    let mut waiter = BackoffWaiter::new(files, BackoffPolicy::default());

    // The files do not exist yet, so the waiter asks for at least one sleep.
    assert!(matches!(waiter.tick(), TickAction::Sleep(_)));

    for name in ["file1", "file2", "file3"] {
        create_file(temp_dir.path(), name);
    }

    // The driver would sleep here; once all files exist the wait succeeds.
    assert_eq!(waiter.tick(), TickAction::Ready);
}

#[test]
fn test_timeout_with_path_still_missing() {
    let temp_dir = tempfile::tempdir().unwrap();
    let absent = path_string(&temp_dir.path().join("absent"));
    let policy = BackoffPolicy { initial_interval_ms: 1, max_interval_ms: 1, max_elapsed_ms: 3 };
    let mut waiter = BackoffWaiter::new(vec![absent], policy);

    let mut sleeps: u32 = 0;
    let ended = loop {
        match waiter.tick() {
            TickAction::Ready => panic!("the wait must not succeed while a path is missing"),
            TickAction::Sleep(ms) => {
                assert_eq!(ms, 1);
                sleeps += 1;
            }
            TickAction::TimedOut => break true,
        }
    };
    assert!(ended);
    assert_eq!(sleeps, 3);
    assert_eq!(waiter.elapsed_ms(), 3);
}

#[test]
fn test_pending_monotonic_after_deletion() {
    let temp_dir = tempfile::tempdir().unwrap();
    let seen = tempfile::Builder::new()
        .prefix("seen")
        .rand_bytes(0)
        .tempfile_in(temp_dir.path())
        .unwrap();
    let seen_path = path_string(&temp_dir.path().join("seen"));
    let absent_path = path_string(&temp_dir.path().join("absent"));

    let mut waiter =
        BackoffWaiter::new(vec![seen_path, absent_path.clone()], BackoffPolicy::default());

    // The existing path is observed and permanently dropped from the watch set.
    assert!(matches!(waiter.tick(), TickAction::Sleep(_)));
    assert_eq!(waiter.pending(), &vec![absent_path.clone()]);

    // Even after the observed file is deleted it never reappears.
    drop(seen);
    assert!(matches!(waiter.tick(), TickAction::Sleep(_)));
    assert_eq!(waiter.pending(), &vec![absent_path]);
}
