use file_x_sorter::file_ops::{
    generate_unique_path, unique_path_candidate, FileOperations, MoveOutcome, OperationResult,
};

#[test]
fn test_generate_unique_path() {
    let path = "/tmp/test.txt";
    let unique = generate_unique_path(path, &Vec::new());
    assert!(unique.contains("test_1.txt"));
}

#[test]
fn candidate_formats() {
    assert_eq!(unique_path_candidate("/a/b/report.pdf", 3), "/a/b/report_3.pdf");
    assert_eq!(unique_path_candidate("notes", 1), "notes_1");
    assert_eq!(unique_path_candidate("/etc/.bashrc", 2), "/etc/.bashrc_2");
    assert_eq!(unique_path_candidate("dir.v1/file.tar.gz", 7), "dir.v1/file.tar_7.gz");
}

#[test]
fn generate_unique_path_skips_taken_names() {
    let occupied = vec!["/tmp/test_1.txt".to_string(), "/tmp/test_2.txt".to_string()];
    let unique = generate_unique_path("/tmp/test.txt", &occupied);
    assert_eq!(unique, "/tmp/test_3.txt");
}

#[test]
fn delete_file_success_is_logged() {
    let mut ops = FileOperations::new();
    let r = ops.delete_file("/tmp/a.txt", Ok(()));
    match r {
        OperationResult::Success(msg) => assert_eq!(msg, "Deleted: /tmp/a.txt"),
        OperationResult::Error(msg) => panic!("unexpected error: {}", msg),
    }
    let logs = ops.get_logs();
    assert_eq!(logs.len(), 1);
    assert_eq!(logs[0].operation, "DELETE");
    assert_eq!(logs[0].source, "/tmp/a.txt");
    assert!(logs[0].destination.is_none());
    assert!(logs[0].success);
    assert_eq!(logs[0].message, "Deleted: /tmp/a.txt");
}

#[test]
fn delete_file_failure_is_logged() {
    let mut ops = FileOperations::new();
    let r = ops.delete_file("/tmp/a.txt", Err("permission denied".to_string()));
    match r {
        OperationResult::Error(msg) => {
            assert_eq!(msg, "Failed to delete /tmp/a.txt: permission denied")
        }
        OperationResult::Success(msg) => panic!("unexpected success: {}", msg),
    }
    let logs = ops.get_logs();
    assert_eq!(logs.len(), 1);
    assert!(!logs[0].success);
}

#[test]
fn delete_files_records_each_path_in_order() {
    let mut ops = FileOperations::new();
    let paths = vec!["/x/1".to_string(), "/x/2".to_string(), "/x/3".to_string()];
    let outcomes = vec![Ok(()), Err("busy".to_string()), Ok(())];
    let results = ops.delete_files(&paths, outcomes);
    assert_eq!(results.len(), 3);
    assert!(matches!(results[0], OperationResult::Success(_)));
    assert!(matches!(results[1], OperationResult::Error(_)));
    assert!(matches!(results[2], OperationResult::Success(_)));
    let logs = ops.get_logs();
    assert_eq!(logs.len(), 3);
    assert_eq!(logs[0].source, "/x/1");
    assert_eq!(logs[1].source, "/x/2");
    assert_eq!(logs[2].source, "/x/3");
}

#[test]
fn move_file_rename_success() {
    let mut ops = FileOperations::new();
    let r = ops.move_file("/src/a.txt", "/dst", MoveOutcome::Renamed("/dst/a.txt".to_string()));
    match r {
        OperationResult::Success(msg) => assert_eq!(msg, "Moved: /src/a.txt -> /dst/a.txt"),
        OperationResult::Error(msg) => panic!("unexpected error: {}", msg),
    }
    let logs = ops.get_logs();
    assert_eq!(logs.len(), 1);
    assert_eq!(logs[0].operation, "MOVE");
    assert_eq!(logs[0].destination.as_deref(), Some("/dst/a.txt"));
    assert!(logs[0].success);
}

#[test]
fn move_file_copy_fallback_success() {
    let mut ops = FileOperations::new();
    let r = ops.move_file(
        "/src/a.txt",
        "/dst",
        MoveOutcome::CopiedAndRemoved("/dst/a.txt".to_string()),
    );
    assert!(matches!(r, OperationResult::Success(_)));
    assert!(ops.get_logs()[0].success);
}

#[test]
fn move_file_dir_create_failure_is_not_logged() {
    let mut ops = FileOperations::new();
    let r = ops.move_file("/src/a.txt", "/dst", MoveOutcome::DirCreateFailed("no space".to_string()));
    match r {
        OperationResult::Error(msg) => {
            assert_eq!(msg, "Failed to create directory /dst: no space")
        }
        OperationResult::Success(msg) => panic!("unexpected success: {}", msg),
    }
    assert!(ops.get_logs().is_empty());
}

#[test]
fn move_file_remove_failure_after_copy() {
    let mut ops = FileOperations::new();
    let r = ops.move_file(
        "/src/a.txt",
        "/dst",
        MoveOutcome::CopyOkRemoveFailed("/dst/a.txt".to_string(), "locked".to_string()),
    );
    match r {
        OperationResult::Error(msg) => {
            assert_eq!(msg, "Failed to complete move of /src/a.txt: locked")
        }
        OperationResult::Success(msg) => panic!("unexpected success: {}", msg),
    }
    let logs = ops.get_logs();
    assert_eq!(logs.len(), 1);
    assert!(!logs[0].success);
    assert_eq!(logs[0].destination.as_deref(), Some("/dst/a.txt"));
}

#[test]
fn move_file_total_failure() {
    let mut ops = FileOperations::new();
    let r = ops.move_file(
        "/src/a.txt",
        "/dst",
        MoveOutcome::CopyFailed("/dst/a.txt".to_string(), "cross-device".to_string()),
    );
    match r {
        OperationResult::Error(msg) => {
            assert_eq!(msg, "Failed to move /src/a.txt: cross-device")
        }
        OperationResult::Success(msg) => panic!("unexpected success: {}", msg),
    }
    assert!(!ops.get_logs()[0].success);
}

#[test]
fn move_files_one_destination_many_sources() {
    let mut ops = FileOperations::new();
    let sources = vec!["/s/1".to_string(), "/s/2".to_string()];
    let outcomes = vec![
        MoveOutcome::Renamed("/d/1".to_string()),
        MoveOutcome::CopyFailed("/d/2".to_string(), "cross-device".to_string()),
    ];
    let results = ops.move_files(&sources, "/d", outcomes);
    assert_eq!(results.len(), 2);
    assert!(matches!(results[0], OperationResult::Success(_)));
    assert!(matches!(results[1], OperationResult::Error(_)));
    assert_eq!(ops.get_logs().len(), 2);
}

#[test]
fn generate_unique_path_falls_back_to_random_suffix() {
    let mut occupied: Vec<String> = Vec::new();
    for k in 1..=10000u64 {
        occupied.push(unique_path_candidate("/tmp/test.txt", k));
    }
    let unique = generate_unique_path("/tmp/test.txt", &occupied);
    assert!(unique.starts_with("/tmp/test_"));
    assert_eq!(unique.len(), "/tmp/test_".len() + 36);
    assert!(!occupied.contains(&unique));
}

#[test]
fn clear_logs_empties_the_log() {
    let mut ops = FileOperations::new();
    ops.delete_file("/tmp/a", Ok(()));
    assert_eq!(ops.get_logs().len(), 1);
    ops.clear_logs();
    assert!(ops.get_logs().is_empty());
}
