use cache_sweep::analytics::{AnalyticsData, TargetStats};

fn target<'a>(a: &'a AnalyticsData, name: &str) -> &'a TargetStats {
    a.by_target.iter().find(|t| t.name == name).unwrap()
}

// === new() tests ===

#[test]
fn test_new_initializes_defaults() {
    let analytics = AnalyticsData::new();
    assert_eq!(analytics.top_largest_limit, 5);
    assert!(!analytics.scan_complete);
    assert!(!analytics.sizes_complete);
    assert!(analytics.by_target.is_empty());
    assert!(analytics.by_profile.is_empty());
    assert!(analytics.top_largest.is_empty());
}

// === profile_for_target() tests ===

#[test]
fn test_profile_for_target_node_modules() {
    assert_eq!(AnalyticsData::profile_for_target("node_modules"), "node");
}

#[test]
fn test_profile_for_target_next() {
    assert_eq!(AnalyticsData::profile_for_target(".next"), "node");
}

#[test]
fn test_profile_for_target_venv() {
    assert_eq!(AnalyticsData::profile_for_target(".venv"), "python");
}

#[test]
fn test_profile_for_target_pycache() {
    assert_eq!(AnalyticsData::profile_for_target("__pycache__"), "python");
}

#[test]
fn test_profile_for_target_unknown() {
    assert_eq!(AnalyticsData::profile_for_target("unknown_dir"), "other");
}

// === record_result() tests ===

#[test]
fn test_record_result_creates_target_stats() {
    let mut analytics = AnalyticsData::new();

    analytics.record_result("/project/node_modules", Some(1000));

    assert_eq!(analytics.by_target.len(), 1);
    let t = target(&analytics, "node_modules");
    assert_eq!(t.name, "node_modules");
    assert_eq!(t.count, 1);
    assert_eq!(t.total_size, 1000);
    assert_eq!(t.size_known_count, 1);
}

#[test]
fn test_record_result_creates_profile_stats() {
    let mut analytics = AnalyticsData::new();

    analytics.record_result("/project/node_modules", Some(1000));

    assert_eq!(analytics.by_profile.len(), 1);
    let profile = analytics.by_profile.iter().find(|p| p.name == "node").unwrap();
    assert_eq!(profile.name, "node");
    assert_eq!(profile.count, 1);
    assert_eq!(profile.total_size, 1000);
}

#[test]
fn test_record_result_without_size() {
    let mut analytics = AnalyticsData::new();

    analytics.record_result("/project/node_modules", None);

    let t = target(&analytics, "node_modules");
    assert_eq!(t.count, 1);
    assert_eq!(t.total_size, 0);
    assert_eq!(t.size_known_count, 0);
}

#[test]
fn test_record_result_multiple_same_target() {
    let mut analytics = AnalyticsData::new();

    analytics.record_result("/a/node_modules", Some(100));
    analytics.record_result("/b/node_modules", Some(200));
    analytics.record_result("/c/node_modules", Some(300));

    let t = target(&analytics, "node_modules");
    assert_eq!(t.count, 3);
    assert_eq!(t.total_size, 600);
}

#[test]
fn test_record_result_multiple_profiles() {
    let mut analytics = AnalyticsData::new();

    analytics.record_result("/a/node_modules", Some(100));
    analytics.record_result("/b/.venv", Some(200));

    assert_eq!(analytics.by_profile.len(), 2);
    assert!(analytics.by_profile.iter().any(|p| p.name == "node"));
    assert!(analytics.by_profile.iter().any(|p| p.name == "python"));
}

#[test]
fn test_record_result_adds_to_top_largest() {
    let mut analytics = AnalyticsData::new();

    analytics.record_result("/a/node_modules", Some(1000));

    assert_eq!(analytics.top_largest.len(), 1);
    assert_eq!(analytics.top_largest[0].size, 1000);
}

// === update_size() tests ===

#[test]
fn test_update_size_when_old_size_none() {
    let mut analytics = AnalyticsData::new();

    // First record without size
    analytics.record_result("/project/node_modules", None);
    assert_eq!(target(&analytics, "node_modules").total_size, 0);

    // Then update with size
    analytics.update_size("/project/node_modules", None, 5000);
    assert_eq!(target(&analytics, "node_modules").total_size, 5000);
    assert_eq!(target(&analytics, "node_modules").size_known_count, 1);
}

#[test]
fn test_update_size_skips_when_old_size_some() {
    let mut analytics = AnalyticsData::new();

    // Record with size
    analytics.record_result("/project/node_modules", Some(1000));

    // Update should not double-count
    analytics.update_size("/project/node_modules", Some(1000), 2000);
    assert_eq!(target(&analytics, "node_modules").total_size, 1000);
}

#[test]
fn test_update_size_updates_top_largest() {
    let mut analytics = AnalyticsData::new();

    analytics.record_result("/project/node_modules", Some(100));
    assert_eq!(analytics.top_largest[0].size, 100);

    analytics.update_size("/project/node_modules", Some(100), 5000);
    assert_eq!(analytics.top_largest[0].size, 5000);
}

// === maybe_insert_largest() tests ===

#[test]
fn test_top_largest_sorted_descending() {
    let mut analytics = AnalyticsData::new();

    analytics.record_result("/a/node_modules", Some(100));
    analytics.record_result("/b/node_modules", Some(500));
    analytics.record_result("/c/node_modules", Some(200));

    assert_eq!(analytics.top_largest[0].size, 500);
    assert_eq!(analytics.top_largest[1].size, 200);
    assert_eq!(analytics.top_largest[2].size, 100);
}

#[test]
fn test_top_largest_respects_limit() {
    let mut analytics = AnalyticsData::new();
    analytics.top_largest_limit = 3;

    for i in 0..10u64 {
        analytics.record_result(&format!("/project{}/node_modules", i), Some(i * 100));
    }

    assert_eq!(analytics.top_largest.len(), 3);
    assert_eq!(analytics.top_largest[0].size, 900);
    assert_eq!(analytics.top_largest[1].size, 800);
    assert_eq!(analytics.top_largest[2].size, 700);
}

#[test]
fn test_top_largest_updates_existing_path() {
    let mut analytics = AnalyticsData::new();

    analytics.record_result("/project/node_modules", Some(100));
    analytics.record_result("/other/node_modules", Some(50));

    // Update the first path's size
    analytics.maybe_insert_largest(
        "/project/node_modules".to_string(),
        200,
        "node_modules".to_string(),
    );

    assert_eq!(analytics.top_largest.len(), 2);
    assert_eq!(analytics.top_largest[0].size, 200);
    assert_eq!(analytics.top_largest[0].path, "/project/node_modules".to_string());
}

// === total_count() / total_size() tests ===

#[test]
fn test_total_count() {
    let mut analytics = AnalyticsData::new();

    analytics.record_result("/a/node_modules", Some(100));
    analytics.record_result("/b/.venv", Some(200));
    analytics.record_result("/c/node_modules", Some(300));

    assert_eq!(analytics.total_count(), 3);
}

#[test]
fn test_total_size() {
    let mut analytics = AnalyticsData::new();

    analytics.record_result("/a/node_modules", Some(100));
    analytics.record_result("/b/.venv", Some(200));
    analytics.record_result("/c/node_modules", Some(300));

    assert_eq!(analytics.total_size(), 600);
}

// === targets_by_size() / profiles_by_size() tests ===

#[test]
fn test_targets_by_size_sorted() {
    let mut analytics = AnalyticsData::new();

    analytics.record_result("/a/node_modules", Some(100));
    analytics.record_result("/b/.next", Some(500));
    analytics.record_result("/c/.venv", Some(200));

    let targets = analytics.targets_by_size();
    assert_eq!(targets[0].total_size, 500);
    assert_eq!(targets[1].total_size, 200);
    assert_eq!(targets[2].total_size, 100);
}

#[test]
fn test_profiles_by_size_sorted() {
    let mut analytics = AnalyticsData::new();

    // node: 100, python: 700
    analytics.record_result("/a/node_modules", Some(100));
    analytics.record_result("/b/.venv", Some(200));
    analytics.record_result("/c/__pycache__", Some(500));

    let profiles = analytics.profiles_by_size();
    assert_eq!(profiles[0].name, "python");
    assert_eq!(profiles[0].total_size, 700);
    assert_eq!(profiles[1].name, "node");
    assert_eq!(profiles[1].total_size, 100);
}

// === mark_scan_complete() / mark_sizes_complete() tests ===

#[test]
fn test_mark_scan_complete() {
    let mut analytics = AnalyticsData::new();
    assert!(!analytics.scan_complete);

    analytics.mark_scan_complete();

    assert!(analytics.scan_complete);
    assert!(!analytics.sizes_complete); // sizes not complete yet
}

#[test]
fn test_mark_sizes_complete() {
    let mut analytics = AnalyticsData::new();

    analytics.mark_sizes_complete();

    assert!(analytics.sizes_complete);
}
