use file_x_sorter::assemble::ScanResult;
use file_x_sorter::collect::admit_entry;
use file_x_sorter::grouping::group_by_hash;
use file_x_sorter::hashing::{check_hashable_size, ContentHasher};
use file_x_sorter::records::{FileEntry, ScannerConfig, MAX_FILE_SIZE};
use file_x_sorter::scan::{assemble_result, collate_hash_results, HashOutcome, Scanner};
use file_x_sorter::size_filter::group_by_size;
use file_x_sorter::text_util::{hex_string, u64_to_string};
use file_x_sorter::assemble::sort_groups_by_wasted;
use file_x_sorter::grouping::DuplicateGroup;

fn entry(path: &str, size: u64) -> FileEntry {
    let name = path.rsplit('/').next().unwrap_or(path).to_string();
    FileEntry::new(path.to_string(), name, size)
}

fn hash_bytes(bytes: &[u8]) -> String {
    let mut h = ContentHasher::new();
    h.update(bytes);
    h.finalize_hex()
}

#[test]
fn sha256_known_vector() {
    assert_eq!(
        hash_bytes(b"hello"),
        "2cf24dba5fb0a30e26e83b2ac5b9e29e1b161e5c1fa7425e73043362938b9824"
    );
}

#[test]
fn digest_deterministic_and_chunking_invariant() {
    let whole = hash_bytes(b"hello world");
    let again = hash_bytes(b"hello world");
    assert_eq!(whole, again);

    let mut chunked = ContentHasher::new();
    chunked.update(b"hello ");
    chunked.update(b"world");
    assert_eq!(chunked.finalize_hex(), whole);
}

#[test]
fn hex_string_exact() {
    assert_eq!(hex_string(&vec![0x00u8, 0xff, 0x1a]), "00ff1a");
    assert_eq!(hex_string(&Vec::new()), "");
}

#[test]
fn u64_to_string_exact() {
    assert_eq!(u64_to_string(0), "0");
    assert_eq!(u64_to_string(10), "10");
    assert_eq!(u64_to_string(1536), "1536");
    assert_eq!(u64_to_string(u64::MAX), "18446744073709551615");
}

#[test]
fn size_filter_keeps_only_repeated_sizes() {
    let files = vec![
        entry("/d/a.txt", 10),
        entry("/d/b.bin", 7),
        entry("/d/c.txt", 10),
        entry("/d/d.bin", 9),
    ];
    let out = group_by_size(files);
    let paths: Vec<&str> = out.iter().map(|e| e.path.as_str()).collect();
    assert_eq!(paths, vec!["/d/a.txt", "/d/c.txt"]);
}

#[test]
fn distinct_sizes_mean_nothing_to_hash() {
    // Three files of distinct sizes: all filtered out before hashing.
    let files = vec![entry("/d/a", 5), entry("/d/b", 6), entry("/d/c", 7)];
    let candidates = group_by_size(files);
    assert!(candidates.is_empty());

    let partial = {
        let mut r = ScanResult::new();
        r.total_files = 3;
        r.total_size = 18;
        r
    };
    let result = assemble_result(partial, Vec::new());
    assert_eq!(result.duplicate_groups.len(), 0);
    assert_eq!(result.total_duplicates, 0);
    assert_eq!(result.wasted_space, 0);
    assert_eq!(result.total_files, 3);
    assert_eq!(result.total_size, 18);
}

fn scan_three_files() -> ScanResult {
    // a.txt and b.txt share content "hello"; c.txt differs but has the same
    // size, so all three survive the size filter and are hashed.
    let files = vec![entry("/d/a.txt", 10), entry("/d/b.txt", 10), entry("/d/c.txt", 10)];
    let mut partial = ScanResult::new();
    partial.total_files = files.len();
    partial.total_size = 30;
    let candidates = group_by_size(files);
    assert_eq!(candidates.len(), 3);
    let outcomes = vec![
        HashOutcome::Hashed(hash_bytes(b"hello")),
        HashOutcome::Hashed(hash_bytes(b"hello")),
        HashOutcome::Hashed(hash_bytes(b"world")),
    ];
    let mut errors = Vec::new();
    let hashed = collate_hash_results(candidates, outcomes, &mut errors);
    assert!(errors.is_empty());
    assert_eq!(hashed.len(), 3);
    let mut result = assemble_result(partial, hashed);
    result.errors = errors;
    result
}

#[test]
fn two_identical_files_form_one_group() {
    let result = scan_three_files();
    assert_eq!(result.duplicate_groups.len(), 1);
    let group = &result.duplicate_groups[0];
    assert_eq!(group.files.len(), 2);
    assert_eq!(group.files[0].name, "a.txt");
    assert_eq!(group.files[1].name, "b.txt");
    assert_eq!(group.total_size, 20);
    assert_eq!(group.wasted_size, 10);
    assert_eq!(result.total_duplicates, 1);
    assert_eq!(result.wasted_space, 10);
    // The odd one out never appears in any group.
    for g in &result.duplicate_groups {
        assert!(g.files.iter().all(|f| f.name != "c.txt"));
    }
}

#[test]
fn scanning_twice_yields_identical_groups() {
    let first = scan_three_files();
    let second = scan_three_files();
    assert_eq!(first.duplicate_groups.len(), second.duplicate_groups.len());
    for (a, b) in first.duplicate_groups.iter().zip(second.duplicate_groups.iter()) {
        assert_eq!(a.hash, b.hash);
        assert_eq!(a.total_size, b.total_size);
        assert_eq!(a.wasted_size, b.wasted_size);
        let names_a: Vec<&str> = a.files.iter().map(|f| f.name.as_str()).collect();
        let names_b: Vec<&str> = b.files.iter().map(|f| f.name.as_str()).collect();
        assert_eq!(names_a, names_b);
    }
    assert_eq!(first.total_duplicates, second.total_duplicates);
    assert_eq!(first.wasted_space, second.wasted_space);
}

#[test]
fn oversize_file_is_reported_and_excluded() {
    let mut files = Vec::new();
    let mut errors = Vec::new();
    let big = MAX_FILE_SIZE + 1;
    admit_entry(
        1,
        "/d/huge.iso".to_string(),
        "huge.iso".to_string(),
        Ok(big),
        &mut files,
        &mut errors,
    );
    assert!(files.is_empty());
    assert_eq!(errors.len(), 1);
    assert!(errors[0].contains("/d/huge.iso"));
    assert!(errors[0].contains("File too large"));

    // Other files keep being processed after the oversize one.
    admit_entry(
        1,
        "/d/ok.txt".to_string(),
        "ok.txt".to_string(),
        Ok(10),
        &mut files,
        &mut errors,
    );
    assert_eq!(files.len(), 1);
    assert_eq!(errors.len(), 1);
}

#[test]
fn hash_time_size_gate() {
    assert!(check_hashable_size(MAX_FILE_SIZE).is_none());
    let msg = check_hashable_size(MAX_FILE_SIZE + 1).unwrap();
    assert_eq!(
        msg,
        format!("File too large ({} > {} bytes)", MAX_FILE_SIZE + 1, MAX_FILE_SIZE)
    );
}

#[test]
fn min_size_filter_drops_small_files() {
    let mut files = Vec::new();
    let mut errors = Vec::new();
    admit_entry(100, "/d/s.txt".to_string(), "s.txt".to_string(), Ok(99), &mut files, &mut errors);
    assert!(files.is_empty());
    assert!(errors.is_empty());
    admit_entry(100, "/d/t.txt".to_string(), "t.txt".to_string(), Ok(100), &mut files, &mut errors);
    assert_eq!(files.len(), 1);
}

#[test]
fn metadata_error_is_recorded() {
    let mut files = Vec::new();
    let mut errors = Vec::new();
    admit_entry(
        1,
        "/d/gone.txt".to_string(),
        "gone.txt".to_string(),
        Err("permission denied".to_string()),
        &mut files,
        &mut errors,
    );
    assert!(files.is_empty());
    assert_eq!(errors[0], "Failed to read /d/gone.txt: permission denied");
}

#[test]
fn hashing_failure_excludes_file_and_records_error() {
    let candidates = vec![entry("/d/a", 4), entry("/d/b", 4)];
    let outcomes = vec![
        HashOutcome::Failed("read failed".to_string()),
        HashOutcome::Hashed(hash_bytes(b"data")),
    ];
    let mut errors = Vec::new();
    let hashed = collate_hash_results(candidates, outcomes, &mut errors);
    assert_eq!(hashed.len(), 1);
    assert_eq!(hashed[0].path, "/d/b");
    assert!(hashed[0].hash.is_some());
    assert_eq!(errors, vec!["Failed to hash /d/a: read failed".to_string()]);
}

#[test]
fn cancellation_skips_are_not_errors_and_processed_stays_within_total() {
    let candidates = vec![entry("/d/a", 4), entry("/d/b", 4), entry("/d/c", 4)];
    let total = candidates.len();
    let outcomes = vec![
        HashOutcome::Hashed(hash_bytes(b"data")),
        HashOutcome::Skipped,
        HashOutcome::Skipped,
    ];
    let mut errors = Vec::new();
    let hashed = collate_hash_results(candidates, outcomes, &mut errors);
    assert!(errors.is_empty());
    assert!(hashed.len() <= total);
    assert_eq!(hashed.len(), 1);
}

#[test]
fn cancelled_scan_returns_promptly_with_empty_plan() {
    let scanner = Scanner::new(ScannerConfig::default());
    let cancel = scanner.get_cancel_flag();
    scanner.cancel();
    let current = std::sync::atomic::AtomicUsize::new(0);
    let total = std::sync::atomic::AtomicUsize::new(0);
    let plan = scanner.begin_scan(
        &vec!["/nonexistent-root-for-this-test".to_string()],
        &current,
        &total,
        &cancel,
    );
    assert!(plan.cancelled);
    assert!(plan.candidates.is_empty());
    assert_eq!(plan.partial.total_files, 0);

    scanner.reset();
    let (processed, to_hash) = scanner.get_progress();
    assert_eq!(processed, 0);
    assert_eq!(to_hash, 0);
}

#[test]
fn unreadable_root_is_a_nonfatal_error() {
    let scanner = Scanner::new(ScannerConfig::default());
    let cancel = scanner.get_cancel_flag();
    let current = std::sync::atomic::AtomicUsize::new(0);
    let total = std::sync::atomic::AtomicUsize::new(0);
    let root = "/this-root-does-not-exist-anywhere".to_string();
    let plan = scanner.begin_scan(&vec![root.clone()], &current, &total, &cancel);
    assert!(!plan.cancelled);
    assert!(plan.candidates.is_empty());
    assert_eq!(plan.partial.total_files, 0);
    assert_eq!(plan.partial.errors.len(), 1);
    assert!(plan.partial.errors[0].contains(&root));
}

#[test]
fn walking_a_real_tree_upholds_the_result_invariants() {
    // The crate's own directory is a real tree with at least one file.
    let scanner = Scanner::new(ScannerConfig::default());
    let cancel = scanner.get_cancel_flag();
    let current = std::sync::atomic::AtomicUsize::new(0);
    let total = std::sync::atomic::AtomicUsize::new(0);
    let plan = scanner.begin_scan(&vec![".".to_string()], &current, &total, &cancel);
    assert!(!plan.cancelled);
    assert!(plan.partial.total_files >= 1);
    assert!(plan.candidates.len() <= plan.partial.total_files);
    // Declining to hash anything (as a cancelled pool would) still yields a
    // well-formed result with no groups.
    let n = plan.candidates.len();
    let outcomes: Vec<HashOutcome> = (0..n).map(|_| HashOutcome::Skipped).collect();
    let result = scanner.finish_scan(plan.partial, plan.candidates, outcomes, &cancel);
    assert!(result.duplicate_groups.is_empty());
    assert_eq!(result.total_duplicates, 0);
    assert_eq!(result.wasted_space, 0);
    assert!(result.total_files >= 1);
}

#[test]
fn groups_sort_by_descending_wasted_size_stably() {
    let mk = |hash: &str, wasted: u64| DuplicateGroup {
        hash: hash.to_string(),
        files: vec![entry("/d/x", wasted), entry("/d/y", wasted)],
        total_size: 2 * wasted,
        wasted_size: wasted,
    };
    let groups = vec![mk("g1", 5), mk("g2", 9), mk("g3", 5), mk("g4", 12)];
    let sorted = sort_groups_by_wasted(groups);
    let order: Vec<&str> = sorted.iter().map(|g| g.hash.as_str()).collect();
    assert_eq!(order, vec!["g4", "g2", "g1", "g3"]);
}

#[test]
fn totals_match_group_sums() {
    // Four files in two duplicate pairs of different sizes.
    let files = vec![
        entry("/d/a1", 8),
        entry("/d/a2", 8),
        entry("/d/b1", 3),
        entry("/d/b2", 3),
    ];
    let candidates = group_by_size(files);
    assert_eq!(candidates.len(), 4);
    let outcomes = vec![
        HashOutcome::Hashed(hash_bytes(b"aaaaaaaa")),
        HashOutcome::Hashed(hash_bytes(b"aaaaaaaa")),
        HashOutcome::Hashed(hash_bytes(b"bbb")),
        HashOutcome::Hashed(hash_bytes(b"bbb")),
    ];
    let mut errors = Vec::new();
    let hashed = collate_hash_results(candidates, outcomes, &mut errors);
    let mut partial = ScanResult::new();
    partial.total_files = 4;
    partial.total_size = 22;
    let result = assemble_result(partial, hashed);

    assert_eq!(result.duplicate_groups.len(), 2);
    let sum_excess: usize = result.duplicate_groups.iter().map(|g| g.files.len() - 1).sum();
    let sum_wasted: u64 = result.duplicate_groups.iter().map(|g| g.wasted_size).sum();
    assert_eq!(result.total_duplicates, sum_excess);
    assert_eq!(result.wasted_space, sum_wasted);
    // Every group's members share one size, and total is size times count.
    for g in &result.duplicate_groups {
        let size = g.files[0].size;
        assert!(g.files.iter().all(|f| f.size == size));
        assert_eq!(g.total_size, size * g.files.len() as u64);
        assert_eq!(g.wasted_size, g.total_size - size);
    }
    // Larger wasted size first.
    assert_eq!(result.duplicate_groups[0].wasted_size, 8);
    assert_eq!(result.duplicate_groups[1].wasted_size, 3);
}

#[test]
fn same_content_different_sizes_never_grouped() {
    // Grouping keys on digest and size together: entries that somehow carry
    // one digest but different sizes stay apart.
    let d = hash_bytes(b"x");
    let mut e1 = entry("/d/a", 4);
    e1.hash = Some(d.clone());
    let mut e2 = entry("/d/b", 6);
    e2.hash = Some(d);
    let groups = group_by_hash(vec![e1, e2]);
    assert!(groups.is_empty());
}

#[test]
fn scan_result_default_is_empty() {
    let r = ScanResult::default();
    assert_eq!(r.total_files, 0);
    assert_eq!(r.total_size, 0);
    assert!(r.duplicate_groups.is_empty());
    assert_eq!(r.total_duplicates, 0);
    assert_eq!(r.wasted_space, 0);
    assert!(r.errors.is_empty());
}

#[test]
fn scanner_config_default() {
    let c = ScannerConfig::default();
    assert!(c.recursive);
    assert_eq!(c.min_size, 1);
}
