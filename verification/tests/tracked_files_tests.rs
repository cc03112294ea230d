use dbx_ignore::tracked_files::TrackedFiles;

#[test]
fn test_tracked_files_add_remove() {
    let mut record = TrackedFiles::default();

    // Add files
    let files = vec![
        "test1.txt".to_string(),
        "test2.txt".to_string(),
        "test3.txt".to_string(),
    ];
    record.add_files(&files);

    assert_eq!(record.marked_files.len(), 3);
    assert!(record.is_tracked(&files[0]));

    // Remove a file
    record.remove_files(&[files[1].clone()]);
    assert_eq!(record.marked_files.len(), 2);
    assert!(!record.is_tracked(&files[1]));
    assert!(record.is_tracked(&files[0]));
    assert!(record.is_tracked(&files[2]));
}

#[test]
fn test_tracked_files_remove_patterns() {
    let mut record = TrackedFiles::default();

    // Add patterns
    record.add_patterns(&[
        "*.log".to_string(),
        "*.tmp".to_string(),
        "*.cache".to_string(),
    ]);
    assert_eq!(record.patterns.len(), 3);

    // Remove some patterns
    record.remove_patterns(&["*.tmp".to_string(), "*.cache".to_string()]);

    // Verify only *.log remains
    assert_eq!(record.patterns.len(), 1);
    assert!(record.patterns.contains(&"*.log".to_string()));
    assert!(!record.patterns.contains(&"*.tmp".to_string()));
}

#[test]
fn test_tracked_files_duplicate_handling() {
    let mut record = TrackedFiles::default();

    // Add same file multiple times
    let file = "duplicate.txt".to_string();
    record.add_files(&[file.clone(), file.clone()]);

    // Should only be tracked once
    assert_eq!(record.marked_files.len(), 1);
}
