//! The security engine: one decision surface composing the permission
//! manager, the guardrail analyzer, the audit log and the lockdown state
//! machine, with automatic escalation after repeated denials.

use vstd::prelude::*;
use vstd::string::StrSliceExecFns;
use vstd::string::StringExecFns;

use crate::audit::AuditLogger;
use crate::audit::record_step;
use crate::errors::HybridLLMError;
use crate::guardrails::Guardrails;
use crate::guardrails::command_issues;
use crate::guardrails::command_risk;
use crate::guardrails::command_suggestions;
use crate::messages::PermTypeView;
use crate::messages::PermissionType;
use crate::permissions::PermissionManager;
use crate::permissions::inc_sat;
use crate::permissions::request_granted;
use crate::types::AuditEntryView;
use crate::types::LockdownReason;
use crate::types::LockdownState;
use crate::types::RiskLevel;
use crate::types::SecurityAnalysis;

verus! {

/// The number of consecutive denials that triggers a lockdown.
pub const LOCKDOWN_DENIAL_THRESHOLD: u64 = 5;

/// The action text recorded for a permission decision.
pub open spec fn perm_action(req: PermTypeView) -> Seq<char> {
    "Permission request: "@ + describe_request_view(req)
}

/// A short text identifying a permission request.
pub open spec fn describe_request_view(req: PermTypeView) -> Seq<char> {
    match req {
        PermTypeView::FileRead { path } => "file read "@ + path,
        PermTypeView::FileWrite { path } => "file write "@ + path,
        PermTypeView::FileExecute { path } => "file execute "@ + path,
        PermTypeView::Command { command } => "command "@ + command,
        PermTypeView::NetworkAccess { url } => "network access "@ + url,
        PermTypeView::ResourceIncrease { resource, amount: _ } => "resource increase "@
            + resource,
    }
}

/// The details text recorded for a permission decision.
pub open spec fn perm_details(req: PermTypeView, explanation: Seq<char>) -> Seq<char> {
    "permission: "@ + describe_request_view(req) + "; explanation: "@ + explanation
}

/// The reason text attached to a denied permission entry.
pub open spec fn denial_reason_text() -> Seq<char> {
    "Permission denied by policy"@
}

/// A short text identifying a lockdown reason.
pub open spec fn describe_reason(r: LockdownReason) -> Seq<char> {
    match r {
        LockdownReason::PolicyViolation { details } => "policy violation: "@ + details@,
        LockdownReason::SuspiciousPattern { pattern } => "suspicious pattern: "@ + pattern@,
        LockdownReason::ResourceExceeded { resource, limit: _, actual: _ } => {
            "resource exceeded: "@ + resource@
        },
        LockdownReason::UserPanicButton => "user panic button"@,
        LockdownReason::MultipleFailedRequests { count: _ } => "multiple failed requests"@,
    }
}

/// The name of a risk level.
pub open spec fn risk_name(r: RiskLevel) -> Seq<char> {
    match r {
        RiskLevel::Low => "Low"@,
        RiskLevel::Medium => "Medium"@,
        RiskLevel::High => "High"@,
        RiskLevel::Critical => "Critical"@,
    }
}

/// The details text recorded for a command analysis.
pub open spec fn analysis_details(cmd: Seq<char>, risk: RiskLevel) -> Seq<char> {
    "command: "@ + cmd + "; risk: "@ + risk_name(risk)
}

/// The policy-decision surface. `ReadOnly` is a declared third state that no
/// transition currently reaches; it is reserved for a partial-lockdown
/// policy.
pub struct SecurityEngineImpl {
    pub guardrails: Guardrails,
    pub permissions: PermissionManager,
    pub audit: AuditLogger,
    pub lockdown_state: LockdownState,
}

/// How one `check_permission` call moves the engine: a locked engine denies
/// and changes nothing, without consulting scope rules; otherwise the
/// applicable scope decides, the decision is audited, a denial increments
/// the actor's count, and a count reaching the threshold locks the system
/// with a second audit entry.
pub open spec fn check_step(
    pre: SecurityEngineImpl,
    post: SecurityEngineImpl,
    actor: Seq<char>,
    req: PermTypeView,
    expl: Seq<char>,
    granted: bool,
) -> bool {
    if pre.lockdown_state == LockdownState::Locked {
        &&& granted == false
        &&& post == pre
    } else {
        let g = request_granted(pre.permissions.scope_of(actor), req);
        let newc = inc_sat(pre.permissions.failed_count(actor));
        &&& granted == g
        &&& post.guardrails == pre.guardrails
        &&& post.permissions.global_scope == pre.permissions.global_scope
        &&& post.permissions.llm_scopes == pre.permissions.llm_scopes
        &&& if g {
            &&& post.permissions.failed_requests == pre.permissions.failed_requests
            &&& post.lockdown_state == pre.lockdown_state
            &&& record_step(
                pre.audit.log_view(),
                post.audit.log_view(),
                Some(actor),
                perm_action(req),
                perm_details(req, expl),
                true,
                None,
            )
        } else {
            &&& post.permissions.failed_count(actor) == newc
            &&& forall|o: Seq<char>|
                o != actor ==> post.permissions.failed_count(o) == pre.permissions.failed_count(o)
            &&& if newc >= LOCKDOWN_DENIAL_THRESHOLD {
                &&& post.lockdown_state == LockdownState::Locked
                &&& exists|mid: Seq<AuditEntryView>|
                    {
                        &&& #[trigger] record_step(
                            pre.audit.log_view(),
                            mid,
                            Some(actor),
                            perm_action(req),
                            perm_details(req, expl),
                            false,
                            Some(denial_reason_text()),
                        )
                        &&& record_step(
                            mid,
                            post.audit.log_view(),
                            None,
                            "Lockdown triggered"@,
                            describe_reason(
                                LockdownReason::MultipleFailedRequests { count: newc },
                            ),
                            false,
                            Some(
                                "Lockdown: "@ + describe_reason(
                                    LockdownReason::MultipleFailedRequests { count: newc },
                                ),
                            ),
                        )
                    }
            } else {
                &&& post.lockdown_state == pre.lockdown_state
                &&& record_step(
                    pre.audit.log_view(),
                    post.audit.log_view(),
                    Some(actor),
                    perm_action(req),
                    perm_details(req, expl),
                    false,
                    Some(denial_reason_text()),
                )
            }
        }
    }
}

impl SecurityEngineImpl {
    /// Component invariants hold.
    pub open spec fn wf(self) -> bool {
        self.permissions.wf() && self.audit.wf()
    }

    /// A fresh engine: default rules and scope, empty log, `Normal` state.
    pub fn new() -> (e: Self)
        ensures
            e.wf(),
            e.lockdown_state == LockdownState::Normal,
            e.permissions.global().is_default(),
            e.permissions.llm_scopes@.len() == 0,
            e.permissions.failed_requests@.len() == 0,
            e.audit.log_view().len() == 0,
            e.guardrails.rules.deep_view() == crate::guardrails::default_rule_views(),
    {
        SecurityEngineImpl {
            guardrails: Guardrails::new(),
            permissions: PermissionManager::new(),
            audit: AuditLogger::new(),
            lockdown_state: LockdownState::Normal,
        }
    }

    /// The permission manager.
    pub fn permissions(&self) -> (r: &PermissionManager)
        ensures
            r == &self.permissions,
    {
        &self.permissions
    }

    /// The audit logger.
    pub fn audit(&self) -> (r: &AuditLogger)
        ensures
            r == &self.audit,
    {
        &self.audit
    }

    /// Builds the short text identifying a permission request.
    fn describe_request(permission: &PermissionType) -> (r: String)
        ensures
            r@ == describe_request_view(permission@),
    {
        match permission {
            PermissionType::FileRead { path } => String::from_str("file read ").concat(
                path.as_str(),
            ),
            PermissionType::FileWrite { path } => String::from_str("file write ").concat(
                path.as_str(),
            ),
            PermissionType::FileExecute { path } => String::from_str("file execute ").concat(
                path.as_str(),
            ),
            PermissionType::Command { command } => String::from_str("command ").concat(
                command.as_str(),
            ),
            PermissionType::NetworkAccess { url } => String::from_str("network access ").concat(
                url.as_str(),
            ),
            PermissionType::ResourceIncrease { resource, amount: _ } => String::from_str(
                "resource increase ",
            ).concat(resource.as_str()),
        }
    }

    /// Builds the short text identifying a lockdown reason.
    fn describe_lockdown_reason(reason: &LockdownReason) -> (r: String)
        ensures
            r@ == describe_reason(*reason),
    {
        match reason {
            LockdownReason::PolicyViolation { details } => String::from_str(
                "policy violation: ",
            ).concat(details.as_str()),
            LockdownReason::SuspiciousPattern { pattern } => String::from_str(
                "suspicious pattern: ",
            ).concat(pattern.as_str()),
            LockdownReason::ResourceExceeded { resource, limit: _, actual: _ } => {
                String::from_str("resource exceeded: ").concat(resource.as_str())
            },
            LockdownReason::UserPanicButton => String::from_str("user panic button"),
            LockdownReason::MultipleFailedRequests { count: _ } => String::from_str(
                "multiple failed requests",
            ),
        }
    }

    /// Checks a permission request: a locked engine short-circuits to a
    /// denial without consulting the permission manager or writing audit
    /// entries; otherwise the decision is delegated to the permission
    /// manager, recorded, and a fifth consecutive denial locks the system.
    pub fn check_permission(
        &mut self,
        llm_id: &str,
        permission: &PermissionType,
        explanation: &str,
    ) -> (granted: bool)
        requires
            old(self).wf(),
        ensures
            final(self).wf(),
            check_step(*old(self), *final(self), llm_id@, permission@, explanation@, granted),
    {
        if self.lockdown_state == LockdownState::Locked {
            return false;
        }
        let ghost pre = *old(self);
        let granted = self.permissions.check_permission(llm_id, permission, explanation);
        let mut action = String::from_str("Permission request: ");
        let described = Self::describe_request(permission);
        action.append(described.as_str());
        let mut details = String::from_str("permission: ");
        details.append(described.as_str());
        details.append("; explanation: ");
        details.append(explanation);
        proof {
            assert(action@ =~= perm_action(permission@));
            assert(details@ =~= perm_details(permission@, explanation@));
        }
        let reason: Option<String> = if !granted {
            Some("Permission denied by policy".to_owned())
        } else {
            None
        };
        self.audit.log(Some(llm_id.to_owned()), action, details, granted, reason);
        let ghost mid = self.audit.log_view();
        proof {
            if granted {
                assert(record_step(
                    pre.audit.log_view(),
                    mid,
                    Some(llm_id@),
                    perm_action(permission@),
                    perm_details(permission@, explanation@),
                    true,
                    None,
                ));
            } else {
                assert(record_step(
                    pre.audit.log_view(),
                    mid,
                    Some(llm_id@),
                    perm_action(permission@),
                    perm_details(permission@, explanation@),
                    false,
                    Some(denial_reason_text()),
                ));
            }
        }
        if !granted {
            let failed_count = self.permissions.get_failed_count(llm_id);
            if failed_count >= LOCKDOWN_DENIAL_THRESHOLD {
                self.trigger_lockdown(
                    LockdownReason::MultipleFailedRequests { count: failed_count },
                );
                proof {
                    let reason_val = LockdownReason::MultipleFailedRequests { count: failed_count };
                    assert(record_step(
                        mid,
                        self.audit.log_view(),
                        None,
                        "Lockdown triggered"@,
                        describe_reason(reason_val),
                        false,
                        Some("Lockdown: "@ + describe_reason(reason_val)),
                    ));
                }
            }
        }
        granted
    }

    /// Analyzes a command with the guardrails and records the outcome; the
    /// entry is approved exactly when the analysis found the command safe.
    pub fn analyze_command(&mut self, command: &str) -> (analysis: SecurityAnalysis)
        requires
            old(self).wf(),
        ensures
            final(self).wf(),
            final(self).guardrails == old(self).guardrails,
            final(self).permissions == old(self).permissions,
            final(self).lockdown_state == old(self).lockdown_state,
            analysis.risk_level == command_risk(old(self).guardrails.rules.deep_view(), command@),
            analysis.safe == (analysis.risk_level.rank() <= RiskLevel::Medium.rank()),
            analysis.issues.deep_view() == command_issues(
                old(self).guardrails.rules.deep_view(),
                command@,
            ),
            analysis.suggestions.deep_view() == command_suggestions(
                old(self).guardrails.rules.deep_view(),
                command@,
            ),
            record_step(
                old(self).audit.log_view(),
                final(self).audit.log_view(),
                None,
                "Command analysis"@,
                analysis_details(command@, analysis.risk_level),
                analysis.safe,
                if analysis.safe {
                    None
                } else {
                    Some("Risk level: "@ + risk_name(analysis.risk_level))
                },
            ),
    {
        let analysis = self.guardrails.analyze_command(command);
        let risk_text = Self::risk_name_str(analysis.risk_level);
        let mut details = String::from_str("command: ");
        details.append(command);
        details.append("; risk: ");
        details.append(risk_text.as_str());
        let reason: Option<String> = if !analysis.safe {
            let mut r = String::from_str("Risk level: ");
            r.append(risk_text.as_str());
            Some(r)
        } else {
            None
        };
        self.audit.log(None, String::from_str("Command analysis"), details, analysis.safe, reason);
        analysis
    }

    /// The name of a risk level, as text.
    fn risk_name_str(r: RiskLevel) -> (s: String)
        ensures
            s@ == risk_name(r),
    {
        match r {
            RiskLevel::Low => String::from_str("Low"),
            RiskLevel::Medium => String::from_str("Medium"),
            RiskLevel::High => String::from_str("High"),
            RiskLevel::Critical => String::from_str("Critical"),
        }
    }

    /// Unconditionally locks the system and records an unapproved entry;
    /// triggering while already locked is a no-op transition, still audited.
    pub fn trigger_lockdown(&mut self, reason: LockdownReason)
        requires
            old(self).wf(),
        ensures
            final(self).wf(),
            final(self).lockdown_state == LockdownState::Locked,
            final(self).guardrails == old(self).guardrails,
            final(self).permissions == old(self).permissions,
            record_step(
                old(self).audit.log_view(),
                final(self).audit.log_view(),
                None,
                "Lockdown triggered"@,
                describe_reason(reason),
                false,
                Some("Lockdown: "@ + describe_reason(reason)),
            ),
    {
        self.lockdown_state = LockdownState::Locked;
        let described = Self::describe_lockdown_reason(&reason);
        let mut reason_text = String::from_str("Lockdown: ");
        reason_text.append(described.as_str());
        self.audit.log(
            None,
            String::from_str("Lockdown triggered"),
            described,
            false,
            Some(reason_text),
        );
    }

    /// Releases the lockdown when the token is non-empty, recording an
    /// approved entry; an empty token fails with `AuthenticationFailure`
    /// and leaves all state unchanged. Token validation beyond
    /// non-emptiness is a placeholder for real credential verification.
    pub fn release_lockdown(&mut self, auth_token: &str) -> (r: Result<(), HybridLLMError>)
        requires
            old(self).wf(),
        ensures
            final(self).wf(),
            auth_token@.len() == 0 ==> r is Err && (r matches Err(e)
                ==> e is AuthenticationFailure) && *final(self) == *old(self),
            auth_token@.len() > 0 ==> r is Ok && final(self).lockdown_state
                == LockdownState::Normal && final(self).guardrails == old(self).guardrails
                && final(self).permissions == old(self).permissions && record_step(
                old(self).audit.log_view(),
                final(self).audit.log_view(),
                None,
                "Lockdown released"@,
                "authenticated"@,
                true,
                Some("User authenticated"@),
            ),
    {
        if auth_token.unicode_len() == 0 {
            return Err(
                HybridLLMError::AuthenticationFailure(
                    "Invalid authentication token".to_owned(),
                ),
            );
        }
        self.lockdown_state = LockdownState::Normal;
        self.audit.log(
            None,
            String::from_str("Lockdown released"),
            String::from_str("authenticated"),
            true,
            Some(String::from_str("User authenticated")),
        );
        Ok(())
    }

    /// The current lockdown state.
    pub fn lockdown_state(&self) -> (s: LockdownState)
        ensures
            s == self.lockdown_state,
    {
        self.lockdown_state
    }
}

impl Default for SecurityEngineImpl {
    fn default() -> (e: Self)
        ensures
            e.wf(),
            e.lockdown_state == LockdownState::Normal,
            e.audit.log_view().len() == 0,
    {
        SecurityEngineImpl::new()
    }
}

/// Five consecutive denied permission checks for one actor, starting from a
/// clean denial count with no reset in between, leave the system locked;
/// any request checked afterwards is refused without consulting scope rules
/// and without any state change.
pub proof fn lemma_five_denials_lock(
    e0: SecurityEngineImpl,
    e1: SecurityEngineImpl,
    e2: SecurityEngineImpl,
    e3: SecurityEngineImpl,
    e4: SecurityEngineImpl,
    e5: SecurityEngineImpl,
    actor: Seq<char>,
    r1: PermTypeView,
    r2: PermTypeView,
    r3: PermTypeView,
    r4: PermTypeView,
    r5: PermTypeView,
    x1: Seq<char>,
    x2: Seq<char>,
    x3: Seq<char>,
    x4: Seq<char>,
    x5: Seq<char>,
)
    requires
        e0.permissions.failed_count(actor) == 0,
        check_step(e0, e1, actor, r1, x1, false),
        check_step(e1, e2, actor, r2, x2, false),
        check_step(e2, e3, actor, r3, x3, false),
        check_step(e3, e4, actor, r4, x4, false),
        check_step(e4, e5, actor, r5, x5, false),
    ensures
        e5.lockdown_state == LockdownState::Locked,
        forall|e6: SecurityEngineImpl, a: Seq<char>, r6: PermTypeView, x6: Seq<char>, g: bool|
            check_step(e5, e6, a, r6, x6, g) ==> !g && e6 == e5,
{
    assert(e1.lockdown_state == LockdownState::Locked || e1.permissions.failed_count(actor) == 1);
    assert(e2.lockdown_state == LockdownState::Locked || e2.permissions.failed_count(actor) == 2);
    assert(e3.lockdown_state == LockdownState::Locked || e3.permissions.failed_count(actor) == 3);
    assert(e4.lockdown_state == LockdownState::Locked || e4.permissions.failed_count(actor) == 4);
    assert(e5.lockdown_state == LockdownState::Locked);
}

} // verus!
