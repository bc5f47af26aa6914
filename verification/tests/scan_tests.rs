use cache_sweep::delete::{deletion_outcome, dry_run_result, should_remove, DeleteError};
use cache_sweep::events::{begin_delete, apply_delete_result, handle_event, AppEvent, CommandQueue, DeleteCommand, Effect};
use cache_sweep::scan::{walk_tree, DirTree, ResultBatcher, ScanResult, BATCH_SIZE};
use cache_sweep::size::{calculate_dir_size, FsTree, SizeLimiter};
use cache_sweep::state::{App, SortOrder};

fn dir(name: &str, children: Vec<DirTree>) -> DirTree {
    DirTree { name: name.to_string(), children }
}

fn strs(names: &[&str]) -> Vec<String> {
    names.iter().map(|n| n.to_string()).collect()
}

// === Walker scenarios ===

#[test]
fn test_walk_empty_root_yields_nothing() {
    let root = dir("root", vec![]);
    let found = walk_tree(&root, &strs(&["node_modules"]), &strs(&[]));
    assert!(found.is_empty());
}

#[test]
fn test_walk_finds_single_match() {
    let root = dir("root", vec![dir("project", vec![dir("node_modules", vec![])])]);
    let found = walk_tree(&root, &strs(&["node_modules"]), &strs(&[]));
    assert_eq!(found, vec!["root/project/node_modules".to_string()]);
}

#[test]
fn test_walk_never_descends_into_matches() {
    // A deeper node_modules inside a match is never independently reported
    let inner = dir("node_modules", vec![]);
    let outer = dir("node_modules", vec![dir("dep", vec![inner])]);
    let root = dir("root", vec![outer]);
    let found = walk_tree(&root, &strs(&["node_modules"]), &strs(&[]));
    assert_eq!(found, vec!["root/node_modules".to_string()]);
}

#[test]
fn test_walk_exclude_hides_whole_subtree() {
    let root = dir(
        "root",
        vec![
            dir("proj1", vec![dir("node_modules", vec![])]),
            dir("proj2", vec![dir("node_modules", vec![])]),
        ],
    );
    let found = walk_tree(&root, &strs(&["node_modules"]), &strs(&["proj1"]));
    assert_eq!(found, vec!["root/proj2/node_modules".to_string()]);
}

#[test]
fn test_walk_same_name_at_different_depths_both_reported() {
    let root = dir(
        "root",
        vec![
            dir("a", vec![dir("node_modules", vec![])]),
            dir("b", vec![dir("x", vec![dir("node_modules", vec![])])]),
        ],
    );
    let found = walk_tree(&root, &strs(&["node_modules"]), &strs(&[]));
    assert_eq!(
        found,
        vec![
            "root/a/node_modules".to_string(),
            "root/b/x/node_modules".to_string(),
        ]
    );
}

// === Batcher ===

#[test]
fn test_batcher_flushes_on_threshold() {
    let mut batcher = ResultBatcher::new();
    let mut batches: Vec<Vec<ScanResult>> = Vec::new();
    for i in 0..(BATCH_SIZE + 3) {
        let r = ScanResult::new(format!("/p{}/node_modules", i), None);
        if let Some(batch) = batcher.add(r) {
            batches.push(batch);
        }
    }
    assert_eq!(batches.len(), 1);
    assert_eq!(batches[0].len(), BATCH_SIZE);
    assert_eq!(batches[0][0].path, "/p0/node_modules");

    // The partial remainder comes out on flush, in arrival order
    let tail = batcher.flush().unwrap();
    assert_eq!(tail.len(), 3);
    assert_eq!(tail[0].path, format!("/p{}/node_modules", BATCH_SIZE));
    assert!(batcher.flush().is_none());
}

// === Size engine ===

#[test]
fn test_calculate_dir_size_single_file() {
    // one node_modules containing a single 5-byte file
    let tree = FsTree { files: vec![5], dirs: vec![] };
    let (size, count) = calculate_dir_size(&tree);
    assert_eq!(size, 5);
    assert_eq!(count, 1);
}

#[test]
fn test_calculate_dir_size_multiple_files() {
    let tree = FsTree { files: vec![3, 5], dirs: vec![] };
    let (size, count) = calculate_dir_size(&tree);
    assert_eq!(size, 8);
    assert_eq!(count, 2);
}

#[test]
fn test_calculate_dir_size_nested() {
    let sub = FsTree { files: vec![6], dirs: vec![] };
    let tree = FsTree { files: vec![4], dirs: vec![sub] };
    let (size, count) = calculate_dir_size(&tree);
    assert_eq!(size, 10);
    assert_eq!(count, 2);
}

#[test]
fn test_calculate_dir_size_empty() {
    let tree = FsTree { files: vec![], dirs: vec![] };
    let (size, count) = calculate_dir_size(&tree);
    assert_eq!(size, 0);
    assert_eq!(count, 0);
}

// === Admission control ===

#[test]
fn test_limiter_never_exceeds_bound() {
    let mut limiter = SizeLimiter::new(10);
    let mut admitted = 0;
    for _ in 0..25 {
        if limiter.try_acquire() {
            admitted += 1;
        }
    }
    // No matter how many requests arrive at once, at most 10 are in flight
    assert_eq!(admitted, 10);

    limiter.release();
    assert!(limiter.try_acquire());
    assert!(!limiter.try_acquire());
}

// === Deletion ===

#[test]
fn test_dry_run_reports_success_without_removal() {
    // Dry run: success, zero bytes freed, and no removal is even requested
    let result = dry_run_result();
    assert!(result.success);
    assert_eq!(result.size_freed, 0);
    assert!(result.error.is_none());
    assert!(!should_remove(true));
    assert!(should_remove(false));
}

#[test]
fn test_deletion_outcome_maps_failure() {
    let ok = deletion_outcome(Ok(()));
    assert!(ok.success);
    assert!(ok.error.is_none());

    let err = deletion_outcome(Err("permission denied".to_string()));
    assert!(!err.success);
    assert_eq!(err.error, Some("permission denied".to_string()));
}

#[test]
fn test_delete_error_messages() {
    assert_eq!(
        DeleteError::PermissionDenied("/x".to_string()).message(),
        "Permission denied: /x"
    );
    assert_eq!(DeleteError::NotFound("/x".to_string()).message(), "Path not found: /x");
    assert_eq!(DeleteError::Io("boom".to_string()).message(), "IO error: boom");
}

// === Command queue backpressure ===

#[test]
fn test_command_queue_backpressure() {
    let mut q = CommandQueue::new(2);
    assert!(q.try_push(DeleteCommand::One(0)));
    assert!(q.try_push(DeleteCommand::One(1)));
    // Full: a burst of requests cannot outrun sequential execution
    assert!(!q.try_push(DeleteCommand::One(2)));

    match q.pop_front() {
        Some(DeleteCommand::One(i)) => assert_eq!(i, 0),
        _ => panic!("expected the oldest command"),
    }
    assert!(q.try_push(DeleteCommand::One(3)));
}

// === Event-loop decisions ===

fn sr(path: &str, size: Option<u64>) -> ScanResult {
    ScanResult { path: path.to_string(), size, file_count: None, modified: None, is_sensitive: false }
}

#[test]
fn test_batch_event_requests_sizes_for_new_indices() {
    let mut app = App::new(false, SortOrder::Size);
    let effects = handle_event(
        &mut app,
        AppEvent::Batch(vec![sr("/a/node_modules", None), sr("/b/node_modules", None)]),
    );
    assert_eq!(effects.len(), 2);
    match &effects[0] {
        Effect::RequestSize { index, path } => {
            assert_eq!(*index, 0);
            assert_eq!(path, "/a/node_modules");
        },
        _ => panic!("expected a size request"),
    }
    match &effects[1] {
        Effect::RequestSize { index, path } => {
            assert_eq!(*index, 1);
            assert_eq!(path, "/b/node_modules");
        },
        _ => panic!("expected a size request"),
    }
}

#[test]
fn test_out_of_order_completions_land_on_their_items() {
    let mut app = App::new(false, SortOrder::Size);
    handle_event(&mut app, AppEvent::Batch(vec![
        sr("/a/node_modules", None),
        sr("/b/node_modules", None),
        sr("/c/node_modules", None),
    ]));

    // Completions arrive out of ingestion order
    handle_event(&mut app, AppEvent::SizeDone { index: 2, size: 300, file_count: 3 });
    handle_event(&mut app, AppEvent::SizeDone { index: 0, size: 100, file_count: 1 });
    handle_event(&mut app, AppEvent::Tick);

    assert_eq!(app.results[0].scan_result.size, Some(100));
    assert_eq!(app.results[1].scan_result.size, None);
    assert_eq!(app.results[2].scan_result.size, Some(300));
}

#[test]
fn test_group_totals_three_matches() {
    // three node_modules sized 100/200/300: group total 600, count 3
    let mut app = App::new(false, SortOrder::Size);
    app.add_results(vec![
        sr("/a/node_modules", Some(100)),
        sr("/b/node_modules", Some(200)),
        sr("/c/node_modules", Some(300)),
    ]);
    assert_eq!(app.target_groups.len(), 1);
    assert_eq!(app.target_groups[0].name, "node_modules");
    assert_eq!(app.target_groups[0].total_size, 600);
    assert_eq!(app.target_groups[0].count, 3);
}

#[test]
fn test_begin_and_apply_delete_roundtrip() {
    let mut app = App::new(false, SortOrder::Size);
    app.add_results(vec![sr("/a/node_modules", Some(100))]);

    let (path, size) = begin_delete(&mut app, 0).unwrap();
    assert_eq!(path, "/a/node_modules");
    assert_eq!(size, 100);
    assert!(app.results[0].is_deleting);

    apply_delete_result(&mut app, 0, path.as_str(), size, dry_run_result());
    assert!(app.results[0].is_deleted);
    assert!(!app.results[0].is_deleting);
    assert_eq!(app.freed_size, 100);
}

#[test]
fn test_failed_delete_appends_error() {
    let mut app = App::new(false, SortOrder::Size);
    app.add_results(vec![sr("/a/node_modules", Some(100))]);

    let outcome = deletion_outcome(Err("denied".to_string()));
    apply_delete_result(&mut app, 0, "/a/node_modules", 100, outcome);
    assert!(!app.results[0].is_deleted);
    assert_eq!(app.errors, vec!["/a/node_modules: denied".to_string()]);
}
