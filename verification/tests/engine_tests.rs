use hybrid_llm_core::HybridLLMError;
use hybrid_llm_core::LockdownReason;
use hybrid_llm_core::LockdownState;
use hybrid_llm_core::PermissionType;
use hybrid_llm_core::RiskLevel;
use hybrid_llm_core::SecurityEngineImpl;

#[test]
fn five_denials_trigger_lockdown_and_sixth_is_refused() {
    let mut engine = SecurityEngineImpl::new();
    let forbidden = PermissionType::FileRead { path: "/etc/passwd".to_string() };

    for _ in 0..4 {
        let granted = engine.check_permission("rogue", &forbidden, "poke");
        assert!(!granted);
        assert_eq!(engine.lockdown_state(), LockdownState::Normal);
    }

    let granted = engine.check_permission("rogue", &forbidden, "poke");
    assert!(!granted);
    assert_eq!(engine.lockdown_state(), LockdownState::Locked);

    // Even a request the scope would grant is refused without being audited.
    let entries_before = engine.audit().count();
    let allowed = PermissionType::FileRead {
        path: "/home/user/downloads/file.txt".to_string(),
    };
    let sixth = engine.check_permission("rogue", &allowed, "read");
    assert!(!sixth);
    assert_eq!(engine.audit().count(), entries_before);
}

#[test]
fn denials_by_different_actors_do_not_combine() {
    let mut engine = SecurityEngineImpl::new();
    let forbidden = PermissionType::FileRead { path: "/etc/passwd".to_string() };

    for actor in ["a", "b", "c", "d", "e"] {
        let granted = engine.check_permission(actor, &forbidden, "poke");
        assert!(!granted);
    }
    assert_eq!(engine.lockdown_state(), LockdownState::Normal);
}

#[test]
fn granted_check_is_audited_as_approved() {
    let mut engine = SecurityEngineImpl::new();
    let allowed = PermissionType::Command { command: "git status".to_string() };

    let granted = engine.check_permission("dev", &allowed, "status");
    assert!(granted);

    let log = engine.audit().get_all();
    assert_eq!(log.len(), 1);
    assert!(log[0].approved);
    assert_eq!(log[0].llm_id, Some("dev".to_string()));
    assert_eq!(log[0].action, "Permission request: command git status".to_string());
    assert_eq!(log[0].reason, None);
}

#[test]
fn denied_check_is_audited_with_reason() {
    let mut engine = SecurityEngineImpl::new();
    let denied = PermissionType::FileWrite { path: "/etc/hosts".to_string() };

    let granted = engine.check_permission("dev", &denied, "edit hosts");
    assert!(!granted);

    let log = engine.audit().get_denied();
    assert_eq!(log.len(), 1);
    assert_eq!(log[0].reason, Some("Permission denied by policy".to_string()));
}

#[test]
fn analyze_command_records_outcome() {
    let mut engine = SecurityEngineImpl::new();

    let analysis = engine.analyze_command("rm -rf /");
    assert!(!analysis.safe);
    assert_eq!(analysis.risk_level, RiskLevel::Critical);
    assert!(!analysis.issues.is_empty());

    let log = engine.audit().get_all();
    assert_eq!(log.len(), 1);
    assert!(!log[0].approved);
    assert_eq!(log[0].action, "Command analysis".to_string());
    assert_eq!(log[0].reason, Some("Risk level: Critical".to_string()));

    let safe = engine.analyze_command("ls -la");
    assert!(safe.safe);
    assert_eq!(safe.risk_level, RiskLevel::Low);
    assert!(safe.issues.is_empty());
    assert_eq!(engine.audit().count(), 2);
}

#[test]
fn empty_token_fails_and_leaves_state_locked() {
    let mut engine = SecurityEngineImpl::new();
    engine.trigger_lockdown(LockdownReason::UserPanicButton);
    assert_eq!(engine.lockdown_state(), LockdownState::Locked);
    let entries = engine.audit().count();

    let result = engine.release_lockdown("");
    assert!(matches!(result, Err(HybridLLMError::AuthenticationFailure(_))));
    assert_eq!(engine.lockdown_state(), LockdownState::Locked);
    assert_eq!(engine.audit().count(), entries);
}

#[test]
fn nonempty_token_releases_lockdown_with_approved_entry() {
    let mut engine = SecurityEngineImpl::new();
    engine.trigger_lockdown(LockdownReason::UserPanicButton);
    let entries = engine.audit().count();

    let result = engine.release_lockdown("token");
    assert!(result.is_ok());
    assert_eq!(engine.lockdown_state(), LockdownState::Normal);

    let log = engine.audit().get_all();
    assert_eq!(log.len(), entries + 1);
    let last = &log[log.len() - 1];
    assert!(last.approved);
    assert_eq!(last.action, "Lockdown released".to_string());
}

#[test]
fn trigger_while_locked_is_still_audited() {
    let mut engine = SecurityEngineImpl::new();
    engine.trigger_lockdown(LockdownReason::UserPanicButton);
    engine.trigger_lockdown(LockdownReason::SuspiciousPattern { pattern: "beacon".to_string() });
    assert_eq!(engine.lockdown_state(), LockdownState::Locked);
    assert_eq!(engine.audit().count(), 2);
    let log = engine.audit().get_all();
    assert!(!log[1].approved);
    assert_eq!(log[1].action, "Lockdown triggered".to_string());
}

#[test]
fn error_messages_name_their_kind() {
    let e = HybridLLMError::AuthenticationFailure("Invalid authentication token".to_string());
    assert_eq!(e.message(), "Authentication failure: Invalid authentication token".to_string());
    let nf = HybridLLMError::LLMNotFound("missing".to_string());
    assert_eq!(nf.message(), "LLM not found: missing".to_string());
}
