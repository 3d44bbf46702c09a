use messenger::manifest::MonitoredPathList;

#[test]
fn test_manifest_skips_empty_lines() {
    let lines = vec!["/a".to_string(), "".to_string(), "/b".to_string()];
    let list = MonitoredPathList::from_lines(lines);
    assert_eq!(list.paths(), &vec!["/a".to_string(), "/b".to_string()]);
    assert_eq!(list.len(), 2);
}

#[test]
fn test_manifest_empty() {
    let list = MonitoredPathList::from_lines(Vec::new());
    assert_eq!(list.len(), 0);
    assert!(list.paths().is_empty());
}

#[test]
fn test_manifest_all_empty_lines() {
    let lines = vec!["".to_string(), "".to_string()];
    let list = MonitoredPathList::from_lines(lines);
    assert_eq!(list.len(), 0);
}

#[test]
fn test_manifest_keeps_order_and_duplicates() {
    let lines = vec![
        "/etc/b".to_string(),
        "/etc/a".to_string(),
        "".to_string(),
        "/etc/a".to_string(),
    ];
    let list = MonitoredPathList::from_lines(lines);
    assert_eq!(
        list.into_paths(),
        vec!["/etc/b".to_string(), "/etc/a".to_string(), "/etc/a".to_string()]
    );
}
