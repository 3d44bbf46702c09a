use std::path::Path;

use messenger::poller::ExistencePoller;

fn path_string(path: &Path) -> String {
    path.to_str().unwrap().to_string()
}

fn create_file(dir: &Path, name: &str) {
    tempfile::Builder::new()
        .prefix(name)
        .rand_bytes(0)
        .tempfile_in(dir)
        .unwrap()
        .keep()
        .unwrap();
}

#[test]
fn test_filter_missing_exact() {
    let paths = vec!["a".to_string(), "b".to_string(), "c".to_string()];
    let flags = vec![true, false, true];
    let missing = ExistencePoller::filter_missing(&paths, &flags);
    assert_eq!(missing, vec!["b".to_string()]);
}

#[test]
fn test_filter_missing_none_exist() {
    let paths = vec!["a".to_string(), "b".to_string()];
    let flags = vec![false, false];
    let missing = ExistencePoller::filter_missing(&paths, &flags);
    assert_eq!(missing, paths);
}

#[test]
fn test_filter_missing_all_exist() {
    let paths = vec!["a".to_string(), "b".to_string()];
    let flags = vec![true, true];
    let missing = ExistencePoller::filter_missing(&paths, &flags);
    assert!(missing.is_empty());
}

#[test]
fn test_check_if_files_exist() {
    let temp_dir = tempfile::tempdir().unwrap();
    let files = vec![
        path_string(&temp_dir.path().join("file1")),
        path_string(&temp_dir.path().join("file2")),
        path_string(&temp_dir.path().join("file3")),
    ];

    let not_exist = ExistencePoller::check(&files);
    assert_eq!(files, not_exist);

    for name in ["file1", "file2", "file3"] {
        create_file(temp_dir.path(), name);
    }

    let not_exist = ExistencePoller::check(&files);
    assert!(not_exist.is_empty());
}

#[test]
fn test_check_preserves_input_order() {
    let temp_dir = tempfile::tempdir().unwrap();
    let existing = path_string(temp_dir.path());
    let missing_one = path_string(&temp_dir.path().join("gone1"));
    let missing_two = path_string(&temp_dir.path().join("gone2"));
    let paths = vec![missing_one.clone(), existing, missing_two.clone()];

    let missing = ExistencePoller::check(&paths);
    assert_eq!(missing, vec![missing_one, missing_two]);
}

#[test]
fn test_check_idempotent_without_change() {
    let temp_dir = tempfile::tempdir().unwrap();
    create_file(temp_dir.path(), "present");
    let paths = vec![
        path_string(&temp_dir.path().join("present")),
        path_string(&temp_dir.path().join("absent")),
    ];

    let first = ExistencePoller::check(&paths);
    let second = ExistencePoller::check(&paths);
    assert_eq!(first, second);
    assert_eq!(first, vec![path_string(&temp_dir.path().join("absent"))]);
}
