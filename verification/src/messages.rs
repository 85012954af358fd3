//! Messages carried by the orchestrator's bus, and the permission request
//! union evaluated by the permission manager.

use vstd::prelude::*;

use crate::types::Capability;
use crate::types::TaskType;
use crate::types::clone_string_vec;
use crate::types::opt_str_view;
use crate::types::clone_opt_string;

verus! {

/// A privileged action an actor asks to perform; constructed per check.
///
/// Resource amounts are integers in the units of `ResourceLimits`.
#[derive(Debug)]
pub enum PermissionType {
    FileRead { path: String },
    FileWrite { path: String },
    FileExecute { path: String },
    Command { command: String },
    NetworkAccess { url: String },
    ResourceIncrease { resource: String, amount: u64 },
}

/// Mathematical content of a `PermissionType`.
pub ghost enum PermTypeView {
    FileRead { path: Seq<char> },
    FileWrite { path: Seq<char> },
    FileExecute { path: Seq<char> },
    Command { command: Seq<char> },
    NetworkAccess { url: Seq<char> },
    ResourceIncrease { resource: Seq<char>, amount: u64 },
}

impl View for PermissionType {
    type V = PermTypeView;

    open spec fn view(&self) -> PermTypeView {
        match self {
            PermissionType::FileRead { path } => PermTypeView::FileRead { path: path@ },
            PermissionType::FileWrite { path } => PermTypeView::FileWrite { path: path@ },
            PermissionType::FileExecute { path } => PermTypeView::FileExecute { path: path@ },
            PermissionType::Command { command } => PermTypeView::Command { command: command@ },
            PermissionType::NetworkAccess { url } => PermTypeView::NetworkAccess { url: url@ },
            PermissionType::ResourceIncrease { resource, amount } => {
                PermTypeView::ResourceIncrease { resource: resource@, amount: *amount }
            },
        }
    }
}

impl Clone for PermissionType {
    fn clone(&self) -> (r: Self)
        ensures
            r@ == self@,
    {
        match self {
            PermissionType::FileRead { path } => {
                PermissionType::FileRead { path: path.clone() }
            },
            PermissionType::FileWrite { path } => {
                PermissionType::FileWrite { path: path.clone() }
            },
            PermissionType::FileExecute { path } => {
                PermissionType::FileExecute { path: path.clone() }
            },
            PermissionType::Command { command } => {
                PermissionType::Command { command: command.clone() }
            },
            PermissionType::NetworkAccess { url } => {
                PermissionType::NetworkAccess { url: url.clone() }
            },
            PermissionType::ResourceIncrease { resource, amount } => {
                PermissionType::ResourceIncrease { resource: resource.clone(), amount: *amount }
            },
        }
    }
}

/// Severity of a security alert.
#[derive(Debug, Clone, Copy, PartialEq, Eq, Structural)]
pub enum AlertSeverity {
    Info,
    Warning,
    Critical,
}

/// What the sender of a security alert suggests the receiver do.
#[derive(Debug, Clone, Copy, PartialEq, Eq, Structural)]
pub enum SuggestedAction {
    Allow,
    Deny,
    Lockdown,
    RequestHumanReview,
}

/// The kind of system state change announced on the bus.
#[derive(Debug, Clone, Copy, PartialEq, Eq, Structural)]
pub enum StateChangeType {
    LockdownTriggered,
    LockdownReleased,
    LLMLoaded,
    LLMUnloaded,
    PermissionGranted,
    PermissionDenied,
}

/// What a delegated task needs: free text, a classification, the capability
/// set a backend must cover, and free-form context and constraints.
#[derive(Debug)]
pub struct TaskDescription {
    pub description: String,
    pub task_type: TaskType,
    pub required_capabilities: Vec<Capability>,
    pub context: Vec<(String, String)>,
    pub constraints: Vec<String>,
}

/// Mathematical content of a `TaskDescription`.
#[verifier::ext_equal]
pub ghost struct TaskView {
    pub description: Seq<char>,
    pub task_type: TaskType,
    pub required_capabilities: Seq<Capability>,
    pub context: Seq<(Seq<char>, Seq<char>)>,
    pub constraints: Seq<Seq<char>>,
}

impl View for TaskDescription {
    type V = TaskView;

    open spec fn view(&self) -> TaskView {
        TaskView {
            description: self.description@,
            task_type: self.task_type,
            required_capabilities: self.required_capabilities@,
            context: self.context.deep_view(),
            constraints: self.constraints.deep_view(),
        }
    }
}

/// Copies a list of capabilities.
pub fn clone_capability_vec(v: &Vec<Capability>) -> (r: Vec<Capability>)
    ensures
        r@ == v@,
{
    let mut r: Vec<Capability> = Vec::new();
    let mut i: usize = 0;
    while i < v.len()
        invariant
            i <= v.len(),
            r@ =~= v@.subrange(0, i as int),
        decreases v.len() - i,
    {
        r.push(v[i]);
        i += 1;
    }
    proof {
        assert(r@ =~= v@);
    }
    r
}

/// Copies a list of string pairs, preserving its view.
pub fn clone_string_pairs(v: &Vec<(String, String)>) -> (r: Vec<(String, String)>)
    ensures
        r.deep_view() == v.deep_view(),
{
    let mut r: Vec<(String, String)> = Vec::new();
    let mut i: usize = 0;
    while i < v.len()
        invariant
            i <= v.len(),
            r.len() == i,
            forall|j: int| 0 <= j < i ==> r.deep_view()[j] == v.deep_view()[j],
        decreases v.len() - i,
    {
        let p = (v[i].0.clone(), v[i].1.clone());
        r.push(p);
        proof {
            assert(r.deep_view()[i as int] == (r@[i as int].0@, r@[i as int].1@));
            assert(v.deep_view()[i as int] == (v@[i as int].0@, v@[i as int].1@));
        }
        i += 1;
    }
    proof {
        assert(r.deep_view() =~= v.deep_view());
    }
    r
}

impl Clone for TaskDescription {
    fn clone(&self) -> (r: Self)
        ensures
            r@ == self@,
    {
        let r = TaskDescription {
            description: self.description.clone(),
            task_type: self.task_type,
            required_capabilities: clone_capability_vec(&self.required_capabilities),
            context: clone_string_pairs(&self.context),
            constraints: clone_string_vec(&self.constraints),
        };
        proof {
            assert(r@ =~= self@);
        }
        r
    }
}

/// A message on the orchestrator's bus. Consumers treat variants they do not
/// handle as a no-op rather than an error.
#[derive(Debug)]
pub enum OrchestratorMessage {
    /// User request to be routed to an appropriate backend.
    UserRequest { id: u64, content: String, context: Vec<(String, String)> },
    /// One backend delegating a task; `to` of `None` lets the router decide.
    LLMDelegation { id: u64, from: String, to: Option<String>, task: TaskDescription, callback: bool },
    /// A backend's answer to an earlier request.
    LLMResponse { id: u64, request_id: u64, llm_id: String, content: String, metadata: Vec<(String, String)> },
    /// A privileged action awaiting a decision.
    PermissionRequest { id: u64, llm_id: String, permission_type: PermissionType, explanation: String },
    /// The decision on an earlier permission request.
    PermissionResponse { id: u64, request_id: u64, granted: bool, reason: Option<String> },
    /// A detected threat and the action the sender suggests.
    SecurityAlert { id: u64, severity: AlertSeverity, reason: String, llm_id: Option<String>, suggested_action: SuggestedAction },
    /// A request for an isolated execution environment.
    SandboxRequest { id: u64, llm_id: String, purpose: String },
    /// A sandbox artifact awaiting transfer approval.
    ArtifactApproval { id: u64, sandbox_id: u64, file_path: String, destination: String, explanation: String },
    /// A system state transition being announced.
    StateChange { id: u64, change_type: StateChangeType, data: String },
}

/// Mathematical content of an `OrchestratorMessage`.
pub ghost enum MessageView {
    UserRequest { id: u64, content: Seq<char>, context: Seq<(Seq<char>, Seq<char>)> },
    LLMDelegation { id: u64, from: Seq<char>, to: Option<Seq<char>>, task: TaskView, callback: bool },
    LLMResponse { id: u64, request_id: u64, llm_id: Seq<char>, content: Seq<char>, metadata: Seq<(Seq<char>, Seq<char>)> },
    PermissionRequest { id: u64, llm_id: Seq<char>, permission_type: PermTypeView, explanation: Seq<char> },
    PermissionResponse { id: u64, request_id: u64, granted: bool, reason: Option<Seq<char>> },
    SecurityAlert { id: u64, severity: AlertSeverity, reason: Seq<char>, llm_id: Option<Seq<char>>, suggested_action: SuggestedAction },
    SandboxRequest { id: u64, llm_id: Seq<char>, purpose: Seq<char> },
    ArtifactApproval { id: u64, sandbox_id: u64, file_path: Seq<char>, destination: Seq<char>, explanation: Seq<char> },
    StateChange { id: u64, change_type: StateChangeType, data: Seq<char> },
}

impl View for OrchestratorMessage {
    type V = MessageView;

    open spec fn view(&self) -> MessageView {
        match self {
            OrchestratorMessage::UserRequest { id, content, context } => {
                MessageView::UserRequest { id: *id, content: content@, context: context.deep_view() }
            },
            OrchestratorMessage::LLMDelegation { id, from, to, task, callback } => {
                MessageView::LLMDelegation {
                    id: *id,
                    from: from@,
                    to: opt_str_view(*to),
                    task: task@,
                    callback: *callback,
                }
            },
            OrchestratorMessage::LLMResponse { id, request_id, llm_id, content, metadata } => {
                MessageView::LLMResponse {
                    id: *id,
                    request_id: *request_id,
                    llm_id: llm_id@,
                    content: content@,
                    metadata: metadata.deep_view(),
                }
            },
            OrchestratorMessage::PermissionRequest { id, llm_id, permission_type, explanation } => {
                MessageView::PermissionRequest {
                    id: *id,
                    llm_id: llm_id@,
                    permission_type: permission_type@,
                    explanation: explanation@,
                }
            },
            OrchestratorMessage::PermissionResponse { id, request_id, granted, reason } => {
                MessageView::PermissionResponse {
                    id: *id,
                    request_id: *request_id,
                    granted: *granted,
                    reason: opt_str_view(*reason),
                }
            },
            OrchestratorMessage::SecurityAlert { id, severity, reason, llm_id, suggested_action } => {
                MessageView::SecurityAlert {
                    id: *id,
                    severity: *severity,
                    reason: reason@,
                    llm_id: opt_str_view(*llm_id),
                    suggested_action: *suggested_action,
                }
            },
            OrchestratorMessage::SandboxRequest { id, llm_id, purpose } => {
                MessageView::SandboxRequest { id: *id, llm_id: llm_id@, purpose: purpose@ }
            },
            OrchestratorMessage::ArtifactApproval { id, sandbox_id, file_path, destination, explanation } => {
                MessageView::ArtifactApproval {
                    id: *id,
                    sandbox_id: *sandbox_id,
                    file_path: file_path@,
                    destination: destination@,
                    explanation: explanation@,
                }
            },
            OrchestratorMessage::StateChange { id, change_type, data } => {
                MessageView::StateChange { id: *id, change_type: *change_type, data: data@ }
            },
        }
    }
}

impl DeepView for OrchestratorMessage {
    type V = MessageView;

    open spec fn deep_view(&self) -> MessageView {
        self.view()
    }
}

impl Clone for OrchestratorMessage {
    fn clone(&self) -> (r: Self)
        ensures
            r@ == self@,
    {
        match self {
            OrchestratorMessage::UserRequest { id, content, context } => {
                OrchestratorMessage::UserRequest {
                    id: *id,
                    content: content.clone(),
                    context: clone_string_pairs(context),
                }
            },
            OrchestratorMessage::LLMDelegation { id, from, to, task, callback } => {
                OrchestratorMessage::LLMDelegation {
                    id: *id,
                    from: from.clone(),
                    to: clone_opt_string(to),
                    task: task.clone(),
                    callback: *callback,
                }
            },
            OrchestratorMessage::LLMResponse { id, request_id, llm_id, content, metadata } => {
                OrchestratorMessage::LLMResponse {
                    id: *id,
                    request_id: *request_id,
                    llm_id: llm_id.clone(),
                    content: content.clone(),
                    metadata: clone_string_pairs(metadata),
                }
            },
            OrchestratorMessage::PermissionRequest { id, llm_id, permission_type, explanation } => {
                OrchestratorMessage::PermissionRequest {
                    id: *id,
                    llm_id: llm_id.clone(),
                    permission_type: permission_type.clone(),
                    explanation: explanation.clone(),
                }
            },
            OrchestratorMessage::PermissionResponse { id, request_id, granted, reason } => {
                OrchestratorMessage::PermissionResponse {
                    id: *id,
                    request_id: *request_id,
                    granted: *granted,
                    reason: clone_opt_string(reason),
                }
            },
            OrchestratorMessage::SecurityAlert { id, severity, reason, llm_id, suggested_action } => {
                OrchestratorMessage::SecurityAlert {
                    id: *id,
                    severity: *severity,
                    reason: reason.clone(),
                    llm_id: clone_opt_string(llm_id),
                    suggested_action: *suggested_action,
                }
            },
            OrchestratorMessage::SandboxRequest { id, llm_id, purpose } => {
                OrchestratorMessage::SandboxRequest {
                    id: *id,
                    llm_id: llm_id.clone(),
                    purpose: purpose.clone(),
                }
            },
            OrchestratorMessage::ArtifactApproval { id, sandbox_id, file_path, destination, explanation } => {
                OrchestratorMessage::ArtifactApproval {
                    id: *id,
                    sandbox_id: *sandbox_id,
                    file_path: file_path.clone(),
                    destination: destination.clone(),
                    explanation: explanation.clone(),
                }
            },
            OrchestratorMessage::StateChange { id, change_type, data } => {
                OrchestratorMessage::StateChange {
                    id: *id,
                    change_type: *change_type,
                    data: data.clone(),
                }
            },
        }
    }
}

/// One message pushed to an external user interface over a live channel.
#[derive(Debug, Clone)]
pub enum WebSocketMessage {
    LlmStatus { llm_id: String, status: String, current_task: Option<String> },
    LlmResponse { llm_id: String, content: String, is_final: bool },
    DocumentIndexed { document_id: String, chunk_count: usize },
    AuditLogEntry { action: String, approved: bool },
    LockdownTriggered { reason: String },
}

/// A user interface request to send one message to a backend.
#[derive(Debug, Clone)]
pub struct SendMessageRequest {
    pub llm_id: String,
    pub content: String,
    pub conversation_id: Option<u64>,
}

/// The backend's reply to a sent message.
#[derive(Debug, Clone)]
pub struct SendMessageResponse {
    pub content: String,
    pub llm_id: String,
}

/// A user interface request to store a document.
#[derive(Debug, Clone)]
pub struct UploadDocumentRequest {
    pub filename: String,
    pub content: Vec<u8>,
}

/// A user interface request for an isolated execution environment.
#[derive(Debug, Clone)]
pub struct CreateSandboxRequest {
    pub llm_id: String,
    pub purpose: String,
}

/// The outcome of running code in a sandbox.
#[derive(Debug, Clone)]
pub struct ExecuteInSandboxResponse {
    pub output: String,
    pub exit_code: i32,
}

} // verus!
