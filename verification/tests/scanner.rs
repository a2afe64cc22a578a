use smart_file_organizer::clock::Timestamp;
use smart_file_organizer::model::ScanOptions;
use smart_file_organizer::scanner::{
    build_file_item, is_hidden_path, should_descend, sort_by_path, walker_depth, EntryDecision,
    FileMetadata, ScanReport, ScanRun, ScanStatus,
};

const ROOT: &str = "/tmp/scan-root";

/// One entry of an in-memory tree: its path below the root, whether it is a
/// directory, and its size.
struct Entry {
    rel: &'static str,
    is_dir: bool,
    size: u64,
}

fn options(recursive: bool, max_depth: Option<usize>) -> ScanOptions {
    ScanOptions {
        root: ROOT.to_string(),
        recursive,
        max_depth,
        include_hidden: false,
        follow_symlinks: false,
    }
}

fn metadata(size: u64) -> FileMetadata {
    FileMetadata {
        size_bytes: size,
        created_at: None,
        modified_at: Some(Timestamp { seconds: 1_700_000_000, nanos: 0 }),
        accessed_at: None,
        is_symlink: false,
    }
}

/// Walks an in-memory tree the way the directory walker does: entries deeper
/// than the walk depth are not shown, nor anything below a directory the
/// scan does not descend into.
fn walk(options: ScanOptions, entries: &[Entry], cancel_at: Option<usize>) -> ScanReport {
    let mut run = ScanRun::start(options, true).unwrap();
    let depth_limit = run.depth();
    let mut pruned: Vec<String> = Vec::new();
    let mut shown = 0usize;
    for entry in entries {
        let path = format!("{}/{}", ROOT, entry.rel);
        let depth = entry.rel.split('/').count();
        if depth > depth_limit {
            continue;
        }
        if pruned.iter().any(|p| path.starts_with(&format!("{}/", p))) {
            continue;
        }
        if !run.descends_into(&path) {
            if entry.is_dir {
                pruned.push(path);
            }
            continue;
        }
        if cancel_at == Some(shown) {
            return run.cancel();
        }
        shown += 1;
        if run.visit(depth, !entry.is_dir, &path) == EntryDecision::Read {
            run.add_file(Some(metadata(entry.size)));
        }
    }
    run.finish()
}

fn nested_tree() -> Vec<Entry> {
    vec![
        Entry { rel: "root.txt", is_dir: false, size: 4 },
        Entry { rel: "nested", is_dir: true, size: 0 },
        Entry { rel: "nested/child.txt", is_dir: false, size: 5 },
    ]
}

#[test]
fn scans_temp_directory_without_file_contents() {
    let entries = vec![
        Entry { rel: "a.pdf", is_dir: false, size: 11 },
        Entry { rel: "nested", is_dir: true, size: 0 },
        Entry { rel: "nested/b.jpg", is_dir: false, size: 5 },
    ];
    let report = walk(options(true, None), &entries, None);
    let files = report.files;

    assert_eq!(files.len(), 2);
    assert!(files.iter().any(|file| file.file_name == "a.pdf"));
    assert!(files.iter().all(|file| file.size_bytes > 0));
    assert!(files.iter().all(|file| file.path_hash.len() == 64));
}

#[test]
fn skips_hidden_files_by_default() {
    let entries = vec![Entry { rel: ".hidden.txt", is_dir: false, size: 6 }];
    let report = walk(options(false, None), &entries, None);

    assert!(report.files.is_empty());
}

#[test]
fn non_recursive_scan_ignores_nested_files() {
    let report = walk(options(false, None), &nested_tree(), None);

    assert_eq!(report.files.len(), 1);
    assert_eq!(report.files[0].file_name, "root.txt");
}

#[test]
fn max_depth_limits_recursive_scan() {
    let report = walk(options(true, Some(0)), &nested_tree(), None);

    assert_eq!(report.files.len(), 1);
    assert_eq!(report.files[0].file_name, "root.txt");
}

#[test]
fn refuses_sensitive_scan_root() {
    let mut opts = options(true, None);
    opts.root = format!("{}/.ssh", ROOT);

    let error = ScanRun::start(opts, true).err().unwrap();

    assert!(error.contains("sensitive directory"));
}

#[test]
fn can_cancel_before_collecting_files() {
    let entries = vec![Entry { rel: "a.txt", is_dir: false, size: 1 }];
    let report = walk(options(true, None), &entries, Some(0));

    assert_eq!(report.status, ScanStatus::Cancelled);
    assert!(report.files.is_empty());
}

#[test]
fn refuses_a_root_that_is_not_a_directory() {
    let error = ScanRun::start(options(true, None), false).err().unwrap();
    assert_eq!(error, format!("scan root is not a directory: {}", ROOT));
}

#[test]
fn walk_depth_follows_recursion_and_max_depth() {
    assert_eq!(walker_depth(&options(false, Some(5))), 1);
    assert_eq!(walker_depth(&options(true, Some(0))), 1);
    assert_eq!(walker_depth(&options(true, Some(3))), 4);
    assert_eq!(walker_depth(&options(true, None)), usize::MAX);
    assert_eq!(walker_depth(&options(true, Some(usize::MAX))), usize::MAX);
}

#[test]
fn hidden_names_start_with_a_dot() {
    assert!(is_hidden_path("/tmp/x/.env.local"));
    assert!(!is_hidden_path("/tmp/x/report.pdf"));
    assert!(!is_hidden_path("/tmp/.cache/report.pdf"));
}

#[test]
fn descends_into_root_but_not_sensitive_or_hidden_directories() {
    let opts = options(true, None);
    assert!(should_descend(ROOT, &opts));
    assert!(!should_descend(&format!("{}/.git", ROOT), &opts));
    assert!(!should_descend(&format!("{}/.hidden", ROOT), &opts));
    assert!(should_descend(&format!("{}/docs", ROOT), &opts));
    let mut with_hidden = options(true, None);
    with_hidden.include_hidden = true;
    assert!(should_descend(&format!("{}/.hidden", ROOT), &with_hidden));
}

#[test]
fn hidden_files_are_counted_as_skipped() {
    let entries = vec![
        Entry { rel: ".hidden.txt", is_dir: false, size: 6 },
        Entry { rel: "shown.txt", is_dir: false, size: 6 },
    ];
    let report = walk(options(false, None), &entries, None);
    assert_eq!(report.files.len(), 1);
    assert_eq!(report.skipped_count, 0);
    let mut run = ScanRun::start(options(false, None), true).unwrap();
    let decision = run.visit(1, true, &format!("{}/.hidden.txt", ROOT));
    assert_eq!(decision, EntryDecision::Skip);
    let report = run.finish();
    assert_eq!(report.skipped_count, 1);
}

#[test]
fn unreadable_files_are_counted_as_errors() {
    let mut run = ScanRun::start(options(true, None), true).unwrap();
    run.walk_error();
    assert_eq!(run.visit(1, true, &format!("{}/gone.txt", ROOT)), EntryDecision::Read);
    run.add_file(None);
    run.add_file(Some(metadata(3)));
    let report = run.finish();
    assert!(report.files.is_empty());
    assert_eq!(report.error_count, 2);
    assert_eq!(report.status, ScanStatus::Completed);
}

#[test]
fn built_file_item_describes_the_path() {
    let item = build_file_item(ROOT, &format!("{}/Docs/Report.PDF", ROOT), &metadata(42));
    assert_eq!(item.root, ROOT);
    assert_eq!(item.relative_path, "Docs/Report.PDF");
    assert_eq!(item.file_name, "Report.PDF");
    assert_eq!(item.extension.as_deref(), Some("pdf"));
    assert_eq!(item.size_bytes, 42);
    assert!(!item.is_hidden);
    assert_eq!(item.mime_type.as_deref(), Some("application/pdf"));
    assert_eq!(item.path_hash.len(), 64);
}

#[test]
fn completed_scans_are_sorted_by_path() {
    let entries = vec![
        Entry { rel: "b.txt", is_dir: false, size: 1 },
        Entry { rel: "a.txt", is_dir: false, size: 1 },
        Entry { rel: "c", is_dir: true, size: 0 },
        Entry { rel: "c/a.txt", is_dir: false, size: 1 },
    ];
    let report = walk(options(true, None), &entries, None);
    let names: Vec<String> = report.files.iter().map(|f| f.relative_path.clone()).collect();
    assert_eq!(names, vec!["a.txt", "b.txt", "c/a.txt"]);
    let again = sort_by_path(&report.files);
    let names_again: Vec<String> = again.iter().map(|f| f.relative_path.clone()).collect();
    assert_eq!(names_again, names);
}

#[test]
fn sensitive_files_are_never_recorded() {
    let mut run = ScanRun::start(options(true, None), true).unwrap();
    let decision = run.visit(2, true, &format!("{}/Library/Keychains", ROOT));
    assert_eq!(decision, EntryDecision::Skip);
    run.add_file(Some(metadata(10)));
    let report = run.finish();
    assert!(report.files.is_empty());
    assert_eq!(report.skipped_count, 1);
}
