use cache_sweep::analytics::AnalyticsData;
use cache_sweep::display::{
    age_to_label, content_line_count, extract_json_field, extract_toml_name, format_file_count,
    size_bar, size_to_label, split_path, truncate_str, DualProgressBar, MB,
};
use cache_sweep::state::{App, SortOrder};

// truncate_str tests
#[test]
fn test_truncate_str_short_string() {
    assert_eq!(truncate_str("hello", 10), "hello");
}

#[test]
fn test_truncate_str_exact_length() {
    assert_eq!(truncate_str("hello", 5), "hello");
}

#[test]
fn test_truncate_str_long_string() {
    assert_eq!(truncate_str("hello world", 8), "hello...");
}

#[test]
fn test_truncate_str_very_short_max() {
    assert_eq!(truncate_str("hello", 3), "...");
}

// split_path tests
#[test]
fn test_split_path_basic() {
    let (parent, target) = split_path("/home/user/project/node_modules");
    assert_eq!(parent, "/home/user/project/");
    assert_eq!(target, "node_modules");
}

#[test]
fn test_split_path_root() {
    let (parent, target) = split_path("/node_modules");
    assert_eq!(parent, "/");
    assert_eq!(target, "node_modules");
}

// size_to_label tests
#[test]
fn test_size_to_label() {
    assert_eq!(size_to_label(50 * MB), "small");
    assert_eq!(size_to_label(100 * MB), "small");
    assert_eq!(size_to_label(101 * MB), "medium");
    assert_eq!(size_to_label(600 * MB), "medium");
    assert_eq!(size_to_label(601 * MB), "large");
}

// age_to_label tests
#[test]
fn test_age_to_label() {
    assert_eq!(age_to_label(0), "recent");
    assert_eq!(age_to_label(29), "recent");
    assert_eq!(age_to_label(30), "moderate");
    assert_eq!(age_to_label(89), "moderate");
    assert_eq!(age_to_label(90), "stale");
    assert_eq!(age_to_label(365), "stale");
}

// format_file_count tests
#[test]
fn test_format_file_count_small() {
    assert_eq!(format_file_count(1), "1 files");
    assert_eq!(format_file_count(999), "999 files");
}

#[test]
fn test_format_file_count_thousands() {
    assert_eq!(format_file_count(1000), "1.0K files");
    assert_eq!(format_file_count(1500), "1.5K files");
    assert_eq!(format_file_count(999_999), "1000.0K files");
}

#[test]
fn test_format_file_count_millions() {
    assert_eq!(format_file_count(1_000_000), "1.0M files");
    assert_eq!(format_file_count(2_500_000), "2.5M files");
}

// size_bar tests
#[test]
fn info_test_size_bar_empty() {
    let bar = size_bar(0, 10);
    assert_eq!(bar, " ░░░░░░░░░░");
}

#[test]
fn test_size_bar_full() {
    let bar = size_bar(1024 * MB, 10); // 1GB = max
    assert_eq!(bar, " ██████████");
}

#[test]
fn info_test_size_bar_half() {
    let bar = size_bar(512 * MB, 10); // ~half of 1GB
    assert!(bar.contains("█") && bar.contains("░"));
}

// extract_json_field tests
#[test]
fn test_extract_json_field_basic() {
    let json = r#"{"name": "my-project", "version": "1.0.0"}"#;
    assert_eq!(extract_json_field(json, "name"), Some("my-project".to_string()));
}

#[test]
fn test_extract_json_field_with_whitespace() {
    let json = r#"{
        "name"  :  "spaced-project",
        "version": "1.0.0"
    }"#;
    assert_eq!(extract_json_field(json, "name"), Some("spaced-project".to_string()));
}

#[test]
fn test_extract_json_field_missing() {
    let json = r#"{"version": "1.0.0"}"#;
    assert_eq!(extract_json_field(json, "name"), None);
}

// extract_toml_name tests
#[test]
fn test_extract_toml_name_cargo() {
    let toml = r#"
[package]
name = "my-rust-project"
version = "0.1.0"
"#;
    assert_eq!(extract_toml_name(toml), Some("my-rust-project".to_string()));
}

#[test]
fn test_extract_toml_name_pyproject() {
    let toml = r#"
[project]
name = "my-python-project"
version = "1.0.0"
"#;
    assert_eq!(extract_toml_name(toml), Some("my-python-project".to_string()));
}

#[test]
fn test_extract_toml_name_single_quotes() {
    let toml = "name = 'single-quoted'";
    assert_eq!(extract_toml_name(toml), Some("single-quoted".to_string()));
}

#[test]
fn test_extract_toml_name_missing() {
    let toml = "[package]\nversion = \"1.0.0\"";
    assert_eq!(extract_toml_name(toml), None);
}

// content_line_count tests
#[test]
fn test_content_line_count_empty() {
    let app = App::new(false, SortOrder::Size);
    // 4 + (0+4) + (6+4) + (0+4) + (5+4) + 2 = 33
    assert_eq!(content_line_count(&app), 33);
}

#[test]
fn test_content_line_count_with_data() {
    let mut app = App::new(false, SortOrder::Size);

    // Add 3 different targets (2 profiles: node, python)
    app.analytics.record_result("/a/node_modules", Some(100));
    app.analytics.record_result("/b/.next", Some(200));
    app.analytics.record_result("/c/.venv", Some(300));

    // 4 + (3+4) + (6+4) + (2+4) + (5+4) + 2 = 38
    assert_eq!(content_line_count(&app), 38);
}

// DualProgressBar tests
#[test]
fn test_dual_bar_builders() {
    let bar = DualProgressBar::new()
        .scan_complete(true)
        .scan_count(847)
        .size_progress(423, 847)
        .spinner_frame(3);
    assert!(bar.scan_done);
    assert_eq!(bar.found, 847);
    assert_eq!(bar.size_done, 423);
    assert_eq!(bar.size_total, 847);
    assert_eq!(bar.frame, 3);
}

#[test]
fn test_dual_bar_spinner_cycles() {
    let a = DualProgressBar::new().spinner_frame(0).spinner_char();
    let b = DualProgressBar::new().spinner_frame(10).spinner_char();
    let c = DualProgressBar::new().spinner_frame(1).spinner_char();
    assert_eq!(a, b);
    assert_ne!(a, c);
}

#[test]
fn test_app_analytics_fold_matches_direct_fold() {
    let mut app = App::new(false, SortOrder::Size);
    app.add_results(vec![cache_sweep::scan::ScanResult {
        path: "/p/node_modules".to_string(),
        size: Some(10),
        file_count: None,
        modified: None,
        is_sensitive: false,
    }]);
    let mut direct = AnalyticsData::new();
    direct.record_result("/p/node_modules", Some(10));
    assert_eq!(app.analytics.by_target.len(), direct.by_target.len());
    assert_eq!(app.analytics.by_target[0].total_size, direct.by_target[0].total_size);
}
