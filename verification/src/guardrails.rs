//! The guardrail analyzer: a fixed list of pattern rules, each with a risk
//! level, evaluated against a command string. Pure and total: analysis never
//! fails.

use vstd::prelude::*;

use crate::text::str_eq;
use crate::types::RiskLevel;
use crate::types::SecurityAnalysis;
use crate::types::push_string;

verus! {

/// Whether `text` matches the regular expression `pattern`: the result of
/// `regex::Regex::is_match`, a function of the two strings alone.
pub uninterp spec fn regex_match(pattern: Seq<char>, text: Seq<char>) -> bool;

/// Relies on `regex::Regex::new` and `regex::Regex::is_match`: whether
/// `text` matches `pattern`, which depends on the two strings alone. A
/// pattern that does not compile matches no text.
#[verifier::external_body]
fn regex_is_match(pattern: &str, text: &str) -> (r: bool)
    ensures
        r == regex_match(pattern@, text@),
{
    match regex::Regex::new(pattern) {
        Ok(re) => re.is_match(text),
        Err(_) => false,
    }
}

/// One guardrail: a named regular-expression pattern with the risk level it
/// signals and a human-readable description. Immutable after construction.
#[derive(Debug)]
pub struct GuardrailRule {
    pub name: String,
    pub pattern: String,
    pub risk_level: RiskLevel,
    pub description: String,
}

/// Mathematical content of a `GuardrailRule`.
#[verifier::ext_equal]
pub ghost struct RuleView {
    pub name: Seq<char>,
    pub pattern: Seq<char>,
    pub risk_level: RiskLevel,
    pub description: Seq<char>,
}

impl View for GuardrailRule {
    type V = RuleView;

    open spec fn view(&self) -> RuleView {
        RuleView {
            name: self.name@,
            pattern: self.pattern@,
            risk_level: self.risk_level,
            description: self.description@,
        }
    }
}

impl DeepView for GuardrailRule {
    type V = RuleView;

    open spec fn deep_view(&self) -> RuleView {
        self.view()
    }
}

/// The issue line a matched rule contributes.
pub open spec fn issue_line(r: RuleView) -> Seq<char> {
    r.name + ": "@ + r.description
}

/// The remediation hints mapped to a rule name; most rules have none.
pub open spec fn suggestions_for(name: Seq<char>) -> Seq<Seq<char>> {
    if name == "dangerous_rm"@ {
        seq![
            "Use specific paths instead of wildcards"@,
            "Consider using 'trash' or 'safe-rm' instead"@,
        ]
    } else if name == "sudo_usage"@ {
        seq!["Explain why elevated privileges are needed"@]
    } else if name == "disk_operations"@ {
        seq!["Use file-level operations instead"@]
    } else {
        Seq::empty()
    }
}

/// The highest risk level among the first `n` rules that match `cmd`, with
/// `Low` when none matches; ties keep the earlier level.
pub open spec fn risk_after(rules: Seq<RuleView>, cmd: Seq<char>, n: int) -> RiskLevel
    decreases n,
{
    if n <= 0 {
        RiskLevel::Low
    } else {
        let prev = risk_after(rules, cmd, n - 1);
        if regex_match(rules[n - 1].pattern, cmd) && rules[n - 1].risk_level.rank() > prev.rank() {
            rules[n - 1].risk_level
        } else {
            prev
        }
    }
}

/// The issue lines of the matching rules among the first `n`, in rule order.
pub open spec fn issues_upto(rules: Seq<RuleView>, cmd: Seq<char>, n: int) -> Seq<Seq<char>>
    decreases n,
{
    if n <= 0 {
        Seq::empty()
    } else {
        issues_upto(rules, cmd, n - 1) + if regex_match(rules[n - 1].pattern, cmd) {
            seq![issue_line(rules[n - 1])]
        } else {
            Seq::empty()
        }
    }
}

/// The remediation hints of the matching rules among the first `n`, in rule
/// order.
pub open spec fn suggestions_upto(rules: Seq<RuleView>, cmd: Seq<char>, n: int) -> Seq<Seq<char>>
    decreases n,
{
    if n <= 0 {
        Seq::empty()
    } else {
        suggestions_upto(rules, cmd, n - 1) + if regex_match(rules[n - 1].pattern, cmd) {
            suggestions_for(rules[n - 1].name)
        } else {
            Seq::empty()
        }
    }
}

/// The risk a rule list assigns to a command: the highest matched level.
pub open spec fn command_risk(rules: Seq<RuleView>, cmd: Seq<char>) -> RiskLevel {
    risk_after(rules, cmd, rules.len() as int)
}

/// All issue lines a rule list raises for a command, in rule order.
pub open spec fn command_issues(rules: Seq<RuleView>, cmd: Seq<char>) -> Seq<Seq<char>> {
    issues_upto(rules, cmd, rules.len() as int)
}

/// All remediation hints a rule list offers for a command, in rule order.
pub open spec fn command_suggestions(rules: Seq<RuleView>, cmd: Seq<char>) -> Seq<Seq<char>> {
    suggestions_upto(rules, cmd, rules.len() as int)
}

/// The seeded rule set: dangerous recursive deletion, elevated privileges,
/// low-level disk tools, listening network tools, dangerous permission and
/// ownership changes, exfiltration pipelines, shell-injection markers and
/// hardcoded credentials.
pub open spec fn default_rule_views() -> Seq<RuleView> {
    seq![
        RuleView {
            name: "dangerous_rm"@,
            pattern: "rm\\s+(-rf?|--recursive|--force).*(/|\\*|\\$HOME)"@,
            risk_level: RiskLevel::Critical,
            description: "Dangerous recursive file deletion detected"@,
        },
        RuleView {
            name: "sudo_usage"@,
            pattern: "\\bsudo\\b"@,
            risk_level: RiskLevel::High,
            description: "Elevated privileges requested"@,
        },
        RuleView {
            name: "disk_operations"@,
            pattern: "\\b(dd|mkfs|fdisk)\\b"@,
            risk_level: RiskLevel::Critical,
            description: "Low-level disk operations detected"@,
        },
        RuleView {
            name: "network_exposure"@,
            pattern: "\\b(nc|netcat|ncat)\\b.*-l"@,
            risk_level: RiskLevel::Medium,
            description: "Network port listening detected"@,
        },
        RuleView {
            name: "system_modification"@,
            pattern: "\\b(chmod\\s+777|chown\\s+root)"@,
            risk_level: RiskLevel::High,
            description: "Dangerous permission changes detected"@,
        },
        RuleView {
            name: "data_exfiltration"@,
            pattern: "\\b(curl|wget|scp|rsync)\\b.*\\|.*\\b(nc|netcat|bash)\\b"@,
            risk_level: RiskLevel::Critical,
            description: "Potential data exfiltration pattern detected"@,
        },
        RuleView {
            name: "shell_injection"@,
            pattern: "[;&|`$]\\s*\\("@,
            risk_level: RiskLevel::High,
            description: "Potential shell injection detected"@,
        },
        RuleView {
            name: "password_exposure"@,
            pattern: "(password|passwd|secret|api[_-]?key)\\s*=\\s*['\"]?\\w+"@,
            risk_level: RiskLevel::High,
            description: "Hardcoded credentials detected"@,
        },
    ]
}

/// The guardrail rule set; seeded with the default rules, extended by
/// operator-added ones.
pub struct Guardrails {
    pub rules: Vec<GuardrailRule>,
}

impl Guardrails {
    /// A rule set holding exactly the default rules.
    pub fn new() -> (g: Self)
        ensures
            g.rules.deep_view() == default_rule_views(),
    {
        Guardrails { rules: Self::default_rules() }
    }

    /// Builds the default rules.
    fn default_rules() -> (rules: Vec<GuardrailRule>)
        ensures
            rules.deep_view() == default_rule_views(),
    {
        let mut rules: Vec<GuardrailRule> = Vec::new();
        rules.push(GuardrailRule {
            name: "dangerous_rm".to_owned(),
            pattern: "rm\\s+(-rf?|--recursive|--force).*(/|\\*|\\$HOME)".to_owned(),
            risk_level: RiskLevel::Critical,
            description: "Dangerous recursive file deletion detected".to_owned(),
        });
        rules.push(GuardrailRule {
            name: "sudo_usage".to_owned(),
            pattern: "\\bsudo\\b".to_owned(),
            risk_level: RiskLevel::High,
            description: "Elevated privileges requested".to_owned(),
        });
        rules.push(GuardrailRule {
            name: "disk_operations".to_owned(),
            pattern: "\\b(dd|mkfs|fdisk)\\b".to_owned(),
            risk_level: RiskLevel::Critical,
            description: "Low-level disk operations detected".to_owned(),
        });
        rules.push(GuardrailRule {
            name: "network_exposure".to_owned(),
            pattern: "\\b(nc|netcat|ncat)\\b.*-l".to_owned(),
            risk_level: RiskLevel::Medium,
            description: "Network port listening detected".to_owned(),
        });
        rules.push(GuardrailRule {
            name: "system_modification".to_owned(),
            pattern: "\\b(chmod\\s+777|chown\\s+root)".to_owned(),
            risk_level: RiskLevel::High,
            description: "Dangerous permission changes detected".to_owned(),
        });
        rules.push(GuardrailRule {
            name: "data_exfiltration".to_owned(),
            pattern: "\\b(curl|wget|scp|rsync)\\b.*\\|.*\\b(nc|netcat|bash)\\b".to_owned(),
            risk_level: RiskLevel::Critical,
            description: "Potential data exfiltration pattern detected".to_owned(),
        });
        rules.push(GuardrailRule {
            name: "shell_injection".to_owned(),
            pattern: "[;&|`$]\\s*\\(".to_owned(),
            risk_level: RiskLevel::High,
            description: "Potential shell injection detected".to_owned(),
        });
        rules.push(GuardrailRule {
            name: "password_exposure".to_owned(),
            pattern: "(password|passwd|secret|api[_-]?key)\\s*=\\s*['\"]?\\w+".to_owned(),
            risk_level: RiskLevel::High,
            description: "Hardcoded credentials detected".to_owned(),
        });
        proof {
            assert(rules.deep_view() =~= default_rule_views());
        }
        rules
    }

    /// Evaluates every rule against the command: collects an issue line and
    /// the rule's mapped suggestions for each match, takes the highest
    /// matched risk level (`Low` if none matched), and reports the command
    /// safe exactly when that level is at most `Medium`.
    pub fn analyze_command(&self, command: &str) -> (a: SecurityAnalysis)
        ensures
            a.risk_level == command_risk(self.rules.deep_view(), command@),
            a.safe == (a.risk_level.rank() <= RiskLevel::Medium.rank()),
            a.issues.deep_view() == command_issues(self.rules.deep_view(), command@),
            a.suggestions.deep_view() == command_suggestions(self.rules.deep_view(), command@),
    {
        let ghost rv = self.rules.deep_view();
        let mut issues: Vec<String> = Vec::new();
        let mut suggestions: Vec<String> = Vec::new();
        let mut max_risk = RiskLevel::Low;
        let n = self.rules.len();
        let mut i: usize = 0;
        while i < n
            invariant
                rv == self.rules.deep_view(),
                n == self.rules@.len(),
                i <= n,
                issues.deep_view() == issues_upto(rv, command@, i as int),
                suggestions.deep_view() == suggestions_upto(rv, command@, i as int),
                max_risk == risk_after(rv, command@, i as int),
            decreases n - i,
        {
            proof {
                assert(rv[i as int] == self.rules@[i as int]@);
            }
            let rule = &self.rules[i];
            if regex_is_match(rule.pattern.as_str(), command) {
                let mut issue = rule.name.clone();
                issue.append(": ");
                issue.append(rule.description.as_str());
                proof {
                    assert(issue@ == issue_line(rv[i as int]));
                }
                push_string(&mut issues, issue);
                if !rule.risk_level.le(max_risk) {
                    max_risk = rule.risk_level;
                }
                if str_eq(rule.name.as_str(), "dangerous_rm") {
                    push_string(
                        &mut suggestions,
                        "Use specific paths instead of wildcards".to_owned(),
                    );
                    push_string(
                        &mut suggestions,
                        "Consider using 'trash' or 'safe-rm' instead".to_owned(),
                    );
                } else if str_eq(rule.name.as_str(), "sudo_usage") {
                    push_string(
                        &mut suggestions,
                        "Explain why elevated privileges are needed".to_owned(),
                    );
                } else if str_eq(rule.name.as_str(), "disk_operations") {
                    push_string(&mut suggestions, "Use file-level operations instead".to_owned());
                }
                proof {
                    assert(issues.deep_view() =~= issues_upto(rv, command@, i + 1));
                    assert(suggestions.deep_view() =~= suggestions_upto(rv, command@, i + 1));
                }
            } else {
                proof {
                    assert(issues.deep_view() =~= issues_upto(rv, command@, i + 1));
                    assert(suggestions.deep_view() =~= suggestions_upto(rv, command@, i + 1));
                }
            }
            i += 1;
        }
        let safe = max_risk.le(RiskLevel::Medium);
        SecurityAnalysis { safe, risk_level: max_risk, issues, suggestions }
    }

    /// Appends an operator-defined rule to the set.
    pub fn add_rule(&mut self, rule: GuardrailRule)
        ensures
            final(self).rules.deep_view() == old(self).rules.deep_view().push(rule@),
    {
        let ghost rview = rule@;
        self.rules.push(rule);
        proof {
            let dv = self.rules.deep_view();
            let odv = old(self).rules.deep_view();
            assert(forall|j: int| 0 <= j < odv.len() ==> dv[j] == odv[j]);
            assert(dv[odv.len() as int] == rview);
            assert(dv =~= odv.push(rview));
        }
    }
}

impl Default for Guardrails {
    fn default() -> (g: Self)
        ensures
            g.rules.deep_view() == default_rule_views(),
    {
        Guardrails::new()
    }
}

} // verus!
