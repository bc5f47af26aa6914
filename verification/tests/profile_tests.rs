use cache_sweep::config::Args;
use cache_sweep::profiles::{builtin_profiles, get_targets_for_profiles, list_profiles};

fn default_args() -> Args {
    Args {
        profiles: None,
        directory: ".".to_string(),
        delete_all: false,
        exclude: None,
        full: false,
        size_unit: "auto".to_string(),
        sort: "size".to_string(),
        targets: None,
        exclude_sensitive: false,
        dry_run: false,
        json_stream: false,
        json: false,
        follow_links: false,
        respect_ignore: false,
    }
}

#[test]
fn test_effective_targets_explicit() {
    let mut args = default_args();
    args.targets = Some(vec!["custom_target".to_string()]);
    assert_eq!(args.effective_targets(), vec!["custom_target".to_string()]);
}

#[test]
fn test_effective_targets_default_all_profiles() {
    let args = default_args();
    let targets = args.effective_targets();
    // Default is "all" - should include targets from multiple profiles
    assert!(targets.contains(&"node_modules".to_string()));
    assert!(targets.contains(&"__pycache__".to_string()));
    assert!(targets.contains(&"target".to_string()));
}

#[test]
fn test_effective_targets_python_profile() {
    let mut args = default_args();
    args.profiles = Some(vec!["python".to_string()]);
    let targets = args.effective_targets();
    assert!(targets.contains(&"__pycache__".to_string()));
    assert!(targets.contains(&".venv".to_string()));
}

#[test]
fn test_effective_targets_multiple_profiles() {
    let mut args = default_args();
    args.profiles = Some(vec!["node".to_string(), "rust".to_string()]);
    let targets = args.effective_targets();
    assert!(targets.contains(&"node_modules".to_string()));
    assert!(targets.contains(&"target".to_string()));
}

#[test]
fn test_effective_directory_default() {
    let args = default_args();
    assert_eq!(args.effective_directory(), ".".to_string());
}

#[test]
fn test_effective_directory_custom() {
    let mut args = default_args();
    args.directory = "/custom/path".to_string();
    assert_eq!(args.effective_directory(), "/custom/path".to_string());
}

#[test]
fn test_builtin_profiles_catalog() {
    let profiles = builtin_profiles();
    assert_eq!(profiles.len(), 17);
    assert_eq!(profiles[0].name, "node");
    assert!(profiles[0].targets.contains(&"node_modules".to_string()));
    assert_eq!(profiles[1].name, "python");
}

#[test]
fn test_list_profiles_sorted_by_name() {
    let profiles = list_profiles();
    assert_eq!(profiles.len(), 17);
    for pair in profiles.windows(2) {
        assert!(pair[0].name < pair[1].name);
    }
    assert_eq!(profiles[0].name, "android");
}

#[test]
fn test_get_targets_dedups_shared_targets() {
    // java, rust and scala all list `target`; it must appear once
    let names = vec!["java".to_string(), "rust".to_string(), "scala".to_string()];
    let targets = get_targets_for_profiles(&names);
    let count = targets.iter().filter(|t| t.as_str() == "target").count();
    assert_eq!(count, 1);
}

#[test]
fn test_get_targets_unknown_profile_is_empty() {
    let names = vec!["no-such-profile".to_string()];
    let targets = get_targets_for_profiles(&names);
    assert!(targets.is_empty());
}
