use hybrid_llm_core::PermissionManager;
use hybrid_llm_core::PermissionScope;
use hybrid_llm_core::PermissionType;

#[test]
fn test_file_permission() {
    let mut manager = PermissionManager::new();

    let perm = PermissionType::FileRead {
        path: "/home/user/downloads/file.txt".to_string(),
    };

    let granted = manager.check_permission("test-llm", &perm, "Need to read file");

    assert!(granted);
}

#[test]
fn test_command_whitelist() {
    let mut manager = PermissionManager::new();

    let perm = PermissionType::Command {
        command: "git status".to_string(),
    };

    let granted = manager.check_permission("test-llm", &perm, "Check git status");

    assert!(granted);
}

#[test]
fn test_command_blacklist() {
    let mut manager = PermissionManager::new();

    let perm = PermissionType::Command {
        command: "rm -rf /".to_string(),
    };

    let granted = manager.check_permission("test-llm", &perm, "Delete files");

    assert!(!granted);
}

#[test]
fn path_pattern_grants_matching_prefix_and_denies_others() {
    let mut manager = PermissionManager::new();
    let mut scope = PermissionScope::default();
    scope.file_system.read_paths = vec!["/home/*/downloads/*".to_string()];
    manager.set_global_scope(scope);

    let granted = manager.check_permission(
        "alice",
        &PermissionType::FileRead { path: "/home/alice/downloads/report.pdf".to_string() },
        "read a report",
    );
    assert!(granted);

    let denied = manager.check_permission(
        "alice",
        &PermissionType::FileRead { path: "/etc/passwd".to_string() },
        "read system file",
    );
    assert!(!denied);
}

#[test]
fn blacklist_vetoes_whitelisted_binary() {
    let mut manager = PermissionManager::new();
    let mut scope = PermissionScope::default();
    scope.commands.whitelist = vec!["git".to_string()];
    scope.commands.blacklist = vec!["rm -rf /".to_string()];
    manager.set_global_scope(scope);

    let ok = manager.check_permission(
        "a",
        &PermissionType::Command { command: "git status".to_string() },
        "status",
    );
    assert!(ok);

    let vetoed = manager.check_permission(
        "a",
        &PermissionType::Command { command: "rm -rf /".to_string() },
        "cleanup",
    );
    assert!(!vetoed);
}

#[test]
fn network_access_follows_direction_flags() {
    let mut manager = PermissionManager::new();
    let granted = manager.check_permission(
        "n",
        &PermissionType::NetworkAccess { url: "https://example.com".to_string() },
        "fetch",
    );
    assert!(granted);

    let mut scope = PermissionScope::default();
    scope.network.inbound = false;
    scope.network.outbound = false;
    manager.set_global_scope(scope);
    let denied = manager.check_permission(
        "n",
        &PermissionType::NetworkAccess { url: "https://example.com".to_string() },
        "fetch",
    );
    assert!(!denied);
}

#[test]
fn resource_increase_within_and_beyond_limits() {
    let mut manager = PermissionManager::new();
    assert!(manager.check_permission(
        "r",
        &PermissionType::ResourceIncrease { resource: "cpu".to_string(), amount: 50 },
        "more cpu",
    ));
    assert!(!manager.check_permission(
        "r",
        &PermissionType::ResourceIncrease { resource: "cpu".to_string(), amount: 90 },
        "too much cpu",
    ));
    assert!(manager.check_permission(
        "r",
        &PermissionType::ResourceIncrease { resource: "memory".to_string(), amount: 8 },
        "all memory",
    ));
    assert!(!manager.check_permission(
        "r",
        &PermissionType::ResourceIncrease { resource: "gpus".to_string(), amount: 1 },
        "unknown resource",
    ));
}

#[test]
fn denial_counter_tracks_and_resets() {
    let mut manager = PermissionManager::new();
    let denied = PermissionType::FileRead { path: "/etc/shadow".to_string() };

    assert_eq!(manager.get_failed_count("x"), 0);
    manager.check_permission("x", &denied, "try");
    manager.check_permission("x", &denied, "try");
    assert_eq!(manager.get_failed_count("x"), 2);
    assert_eq!(manager.get_failed_count("other"), 0);

    manager.reset_failed_count("x");
    assert_eq!(manager.get_failed_count("x"), 0);
}

#[test]
fn override_scope_replaces_global() {
    let mut manager = PermissionManager::new();
    let mut strict = PermissionScope::default();
    strict.file_system.read_paths = vec![];
    manager.set_llm_scope("locked-down", strict);

    let denied = manager.check_permission(
        "locked-down",
        &PermissionType::FileRead { path: "/home/user/downloads/file.txt".to_string() },
        "read",
    );
    assert!(!denied);

    let granted = manager.check_permission(
        "free",
        &PermissionType::FileRead { path: "/home/user/downloads/file.txt".to_string() },
        "read",
    );
    assert!(granted);
}

#[test]
fn wildcard_matches_runs_of_characters_only_in_place() {
    let mut manager = PermissionManager::new();
    let mut scope = PermissionScope::default();
    scope.file_system.read_paths = vec!["/data/*/logs".to_string()];
    manager.set_global_scope(scope);

    let granted = manager.check_permission(
        "m",
        &PermissionType::FileRead { path: "/data/node-7/logs".to_string() },
        "read",
    );
    assert!(granted);

    let denied = manager.check_permission(
        "m",
        &PermissionType::FileRead { path: "/anything/at/all".to_string() },
        "read",
    );
    assert!(!denied);

    let exact_only = manager.check_permission(
        "m",
        &PermissionType::FileRead { path: "/data/x/logs/extra".to_string() },
        "read",
    );
    assert!(!exact_only);
}

#[test]
fn default_scope_matches_documented_seed() {
    let manager = PermissionManager::new();
    let scope = manager.get_global_scope();
    assert_eq!(scope.file_system.read_paths, vec![
        "/home/*/downloads/*".to_string(),
        "/rag/*".to_string(),
    ]);
    assert_eq!(scope.file_system.write_paths, vec!["/home/*/downloads/*".to_string()]);
    assert!(scope.file_system.execute_paths.is_empty());
    assert!(scope.network.inbound);
    assert!(scope.network.outbound);
    assert_eq!(scope.network.require_approval, vec!["*".to_string()]);
    assert_eq!(scope.commands.whitelist.len(), 6);
    assert_eq!(scope.commands.blacklist.len(), 4);
    assert!(scope.commands.require_explanation);
    assert_eq!(scope.resources.max_cpu_percent, 80);
    assert_eq!(scope.resources.max_memory_gb, 8);
    assert_eq!(scope.resources.max_disk_gb, 50);
}
