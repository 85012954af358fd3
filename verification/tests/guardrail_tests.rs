use hybrid_llm_core::GuardrailRule;
use hybrid_llm_core::Guardrails;
use hybrid_llm_core::RiskLevel;

#[test]
fn test_dangerous_rm() {
    let guardrails = Guardrails::new();
    let result = guardrails.analyze_command("rm -rf /");

    assert!(!result.safe);
    assert_eq!(result.risk_level, RiskLevel::Critical);
    assert!(!result.issues.is_empty());
}

#[test]
fn test_safe_command() {
    let guardrails = Guardrails::new();
    let result = guardrails.analyze_command("ls -la");

    assert!(result.safe);
    assert_eq!(result.risk_level, RiskLevel::Low);
    assert!(result.issues.is_empty());
}

#[test]
fn test_sudo() {
    let guardrails = Guardrails::new();
    let result = guardrails.analyze_command("sudo apt update");

    assert!(!result.safe);
    assert_eq!(result.risk_level, RiskLevel::High);
}

#[test]
fn dangerous_rm_issue_and_suggestions() {
    let guardrails = Guardrails::new();
    let result = guardrails.analyze_command("rm -rf /");

    assert_eq!(
        result.issues,
        vec!["dangerous_rm: Dangerous recursive file deletion detected".to_string()]
    );
    assert_eq!(result.suggestions, vec![
        "Use specific paths instead of wildcards".to_string(),
        "Consider using 'trash' or 'safe-rm' instead".to_string(),
    ]);
}

#[test]
fn medium_risk_is_still_safe() {
    let guardrails = Guardrails::new();
    let result = guardrails.analyze_command("nc -l 8080");

    assert!(result.safe);
    assert_eq!(result.risk_level, RiskLevel::Medium);
    assert_eq!(result.issues.len(), 1);
}

#[test]
fn credentials_in_command_are_flagged() {
    let guardrails = Guardrails::new();
    let result = guardrails.analyze_command("export api_key=SECRET-REDACTED");

    assert!(!result.safe);
    assert_eq!(result.risk_level, RiskLevel::High);
}

#[test]
fn added_rule_participates_in_analysis() {
    let mut guardrails = Guardrails::new();
    guardrails.add_rule(GuardrailRule {
        name: "forbidden_word".to_string(),
        pattern: "forbidden".to_string(),
        risk_level: RiskLevel::Critical,
        description: "Forbidden word used".to_string(),
    });

    let result = guardrails.analyze_command("echo forbidden");
    assert!(!result.safe);
    assert_eq!(result.risk_level, RiskLevel::Critical);
    assert_eq!(result.issues, vec!["forbidden_word: Forbidden word used".to_string()]);
}

#[test]
fn highest_matched_level_wins() {
    let guardrails = Guardrails::new();
    let result = guardrails.analyze_command("sudo dd if=/dev/zero of=/dev/sda");

    assert!(!result.safe);
    assert_eq!(result.risk_level, RiskLevel::Critical);
    assert_eq!(result.issues.len(), 2);
}
