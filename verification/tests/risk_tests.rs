use cache_sweep::risk::{analyze_risk, analyze_risk_with_home, check_system_paths, is_user_library_path};

// === System paths (OS-level) ===

#[test]
fn test_system_path_applications() {
    let result = analyze_risk("/Applications/MyApp.app/node_modules");
    assert!(result.is_sensitive);
    assert!(result.reason.unwrap().contains("Applications"));
}

#[test]
fn test_system_path_program_files() {
    let result = analyze_risk("C:/Program Files/App/node_modules");
    assert!(result.is_sensitive);
    assert!(result.reason.unwrap().contains("Program Files"));
}

#[test]
fn test_system_path_appdata() {
    let result = analyze_risk("C:/Users/User/AppData/Local/App/node_modules");
    assert!(result.is_sensitive);
    assert!(result.reason.unwrap().contains("AppData"));
}

#[test]
fn test_case_insensitive_matching() {
    let result = analyze_risk("/APPLICATIONS/MyApp/node_modules");
    assert!(result.is_sensitive);
}

#[test]
fn test_system_path_usr() {
    let result = analyze_risk("/usr/bin/something");
    assert!(result.is_sensitive);
    assert!(result.reason.unwrap().contains("/usr"));
}

#[test]
fn test_system_path_usr_local_blocked() {
    // /usr/local is also blocked for safety
    let result = analyze_risk("/usr/local/lib/node_modules");
    assert!(result.is_sensitive);
    assert!(result.reason.unwrap().contains("/usr"));
}

#[test]
fn test_system_path_etc() {
    let result = analyze_risk("/etc/nginx/node_modules");
    assert!(result.is_sensitive);
    assert!(result.reason.unwrap().contains("configuration"));
}

#[test]
fn test_system_path_var() {
    let result = analyze_risk("/var/lib/something/cache");
    assert!(result.is_sensitive);
    assert!(result.reason.unwrap().contains("variable data"));
}

#[test]
fn test_system_path_opt() {
    let result = analyze_risk("/opt/someapp/node_modules");
    assert!(result.is_sensitive);
    assert!(result.reason.unwrap().contains("Optional packages"));
}

#[test]
fn test_windows_system32() {
    let result = analyze_risk("C:\\Windows\\System32\\something");
    assert!(result.is_sensitive);
}

#[test]
fn test_windows_programdata() {
    let result = analyze_risk("C:\\ProgramData\\App\\cache");
    assert!(result.is_sensitive);
}

// === macOS Library paths ===

#[test]
fn test_user_library_macos() {
    let result = analyze_risk("/Users/dev/Library/Caches/something");
    assert!(result.is_sensitive);
    assert!(result.reason.unwrap().contains("Library"));
}

#[test]
fn test_user_library_linux_style() {
    let result = analyze_risk("/home/user/Library/something");
    assert!(result.is_sensitive);
}

#[test]
fn test_system_library_macos() {
    // /Library (system) should be caught as system Library
    let result = analyze_risk("/Library/Something/node_modules");
    assert!(result.is_sensitive);
    assert!(result.reason.unwrap().contains("system Library"));
}

// === Desktop apps (non-system paths) ===

#[test]
fn test_vscode_app_pattern() {
    // Use a home directory path to avoid /usr system path match
    let result = analyze_risk("/home/user/.local/share/code/node_modules");
    assert!(result.is_sensitive);
    // Will be caught by .local/share pattern
}

#[test]
fn test_discord_pattern_electron() {
    // Discord in a non-system path (user's config)
    let result = analyze_risk("/home/user/.config/discord/node_modules");
    assert!(result.is_sensitive);
}

#[test]
fn test_slack_pattern() {
    let result = analyze_risk("/Applications/Slack.app/Contents/node_modules");
    assert!(result.is_sensitive);
    // Caught by /Applications/ rule
}

#[test]
fn test_obsidian_in_user_dir() {
    let result = analyze_risk_with_home(
        "/home/tester/.obsidian/plugins/node_modules",
        Some("/home/tester"),
    );
    assert!(result.is_sensitive);
    // Caught by dotfolder rule
}

// === Version managers ===

#[test]
fn test_asdf_version_manager() {
    let result = analyze_risk("/Users/dev/.asdf/installs/nodejs/24.4.1/lib/node_modules");
    assert!(result.is_sensitive);
    assert!(result.reason.unwrap().contains("asdf"));
}

#[test]
fn test_nvm_version_manager() {
    let result = analyze_risk("/home/user/.nvm/versions/node/v20.0.0/lib/node_modules");
    assert!(result.is_sensitive);
    assert!(result.reason.unwrap().contains("Node Version Manager"));
}

#[test]
fn test_pyenv() {
    let result = analyze_risk("/home/user/.pyenv/versions/3.11.0/lib/python3.11");
    assert!(result.is_sensitive);
    assert!(result.reason.unwrap().contains("pyenv"));
}

#[test]
fn test_rustup() {
    let result = analyze_risk("/Users/dev/.rustup/toolchains/stable-x86_64/lib");
    assert!(result.is_sensitive);
    assert!(result.reason.unwrap().contains("rustup"));
}

// === Package managers ===

#[test]
fn test_bun_package_manager() {
    let result = analyze_risk("/Users/dev/.bun/install/global/node_modules");
    assert!(result.is_sensitive);
    assert!(result.reason.unwrap().contains("Bun"));
}

#[test]
fn test_cargo_registry() {
    let result = analyze_risk("/Users/dev/.cargo/registry/index/.cache");
    assert!(result.is_sensitive);
    assert!(result.reason.unwrap().contains("Cargo"));
}

#[test]
fn test_npm_cache() {
    let result = analyze_risk("/home/user/.npm/_cacache/content-v2");
    assert!(result.is_sensitive);
    assert!(result.reason.unwrap().contains("npm"));
}

#[test]
fn test_yarn_cache() {
    let result = analyze_risk("/home/user/.yarn/cache/lodash-npm-4.17.21");
    assert!(result.is_sensitive);
}

#[test]
fn test_gradle() {
    let result = analyze_risk("/Users/dev/.gradle/caches/modules-2");
    assert!(result.is_sensitive);
    assert!(result.reason.unwrap().contains("Gradle"));
}

// === IDEs ===

#[test]
fn test_windsurf_ide() {
    let result = analyze_risk("/Users/dev/.windsurf/extensions/some.extension/node_modules");
    assert!(result.is_sensitive);
    assert!(result.reason.unwrap().contains("Windsurf"));
}

#[test]
fn test_cursor_ide() {
    let result = analyze_risk("/Users/dev/.cursor/extensions/ms-python/node_modules");
    assert!(result.is_sensitive);
    assert!(result.reason.unwrap().contains("Cursor"));
}

#[test]
fn test_vscode_extensions() {
    let result = analyze_risk("/home/user/.vscode/extensions/some-ext/node_modules");
    assert!(result.is_sensitive);
}

#[test]
fn test_jetbrains_ide() {
    let result = analyze_risk("/Users/dev/.idea/libraries/some-lib");
    assert!(result.is_sensitive);
}

// === Dotfolder rule ===

#[test]
fn test_dotfolder_unknown_tool() {
    // Some hypothetical tool we haven't explicitly listed
    let result = analyze_risk_with_home(
        "/home/tester/.some-unknown-tool/cache/stuff",
        Some("/home/tester"),
    );
    assert!(result.is_sensitive);
    assert!(result.reason.unwrap().contains("some-unknown-tool"));
}

#[test]
fn test_dotfolder_cache_root() {
    let result = analyze_risk_with_home("/home/tester/.cache/some-app/data", Some("/home/tester"));
    assert!(result.is_sensitive);
    assert!(result.reason.unwrap().contains("cache"));
}

#[test]
fn test_dotfolder_local() {
    let result = analyze_risk_with_home(
        "/home/tester/.local/share/app/node_modules",
        Some("/home/tester"),
    );
    assert!(result.is_sensitive);
}

// === Normal project paths (should NOT be sensitive) ===

#[test]
fn test_normal_project_path() {
    let result = analyze_risk("/home/user/projects/myapp/node_modules");
    assert!(!result.is_sensitive);
    assert!(result.reason.is_none());
}

#[test]
fn test_normal_workspace_path() {
    let result = analyze_risk("/Users/dev/workspace/frontend/node_modules");
    assert!(!result.is_sensitive);
}

#[test]
fn test_documents_folder_ok() {
    let result = analyze_risk("/Users/dev/Documents/projects/app/node_modules");
    assert!(!result.is_sensitive);
}

#[test]
fn test_desktop_project_ok() {
    let result = analyze_risk("/Users/dev/Desktop/my-project/node_modules");
    assert!(!result.is_sensitive);
}

#[test]
fn test_nested_cache_in_project_ok() {
    // .cache inside a project is fine
    let result = analyze_risk("/Users/dev/projects/app/.cache/webpack");
    assert!(!result.is_sensitive);
}

// === Helper function tests ===

#[test]
fn test_is_user_library_path_macos() {
    assert!(is_user_library_path("/users/apozo/library/caches"));
    assert!(is_user_library_path("/users/john/library/application support"));
}

#[test]
fn test_is_user_library_path_linux() {
    assert!(is_user_library_path("/home/user/library/something"));
}

#[test]
fn test_is_user_library_path_not_user() {
    // System Library should not match
    assert!(!is_user_library_path("/library/something"));
    // Library in project name should not match
    assert!(!is_user_library_path("/users/dev/projects/library/src"));
}

// === Direct system-path checks ===

#[test]
fn test_check_system_paths_snap() {
    let reason = check_system_paths("/snap/app/current");
    assert!(reason.unwrap().contains("Snap"));
}

#[test]
fn test_check_system_paths_none_for_projects() {
    assert!(check_system_paths("/home/user/projects/app").is_none());
}
