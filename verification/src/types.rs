//! Shared data model: capabilities, backend instances, permission scopes,
//! lockdown states and audit entries.

use vstd::prelude::*;

verus! {

/// A functional tag describing what a backend instance can do; tasks are
/// matched to instances by capability-set inclusion, not by ranking.
#[derive(Debug, Clone, Copy, PartialEq, Eq, Hash, Structural)]
pub enum Capability {
    Code,
    Security,
    General,
    Analysis,
    Creative,
}

/// The kind of backend serving an instance.
#[derive(Debug, Clone, PartialEq, Eq, Hash)]
pub enum LLMProvider {
    /// Locally hosted model, tagged with its model name.
    Local(String),
    Claude,
    OpenAI,
    Gemini,
}

/// Identity and metadata of one registered backend instance.
#[derive(Debug, Clone)]
pub struct LLMInstance {
    pub id: String,
    pub provider: LLMProvider,
    pub capabilities: Vec<Capability>,
    pub model_name: String,
    pub max_context: usize,
    pub is_loaded: bool,
}

/// Task classification used by the router.
#[derive(Debug, Clone, Copy, PartialEq, Eq, Structural)]
pub enum TaskType {
    Code,
    Security,
    General,
    Analysis,
    MultiStep,
}

/// Which context store an operation addresses.
#[derive(Debug, Clone)]
pub enum ContextType {
    Global,
    PerLLM { llm_id: String },
}

/// Role of one conversation message.
#[derive(Debug, Clone, Copy, PartialEq, Eq, Structural)]
pub enum MessageRole {
    User,
    Assistant,
    System,
}

/// Path patterns an actor may read, write or execute.
#[derive(Debug)]
pub struct FileSystemPermissions {
    pub read_paths: Vec<String>,
    pub write_paths: Vec<String>,
    pub execute_paths: Vec<String>,
}

/// Network directions an actor may use. `require_approval` holds advisory
/// URL patterns: the field is kept as declared configuration for a future
/// per-URL approval layer, and deliberately so — the permission checks do
/// not consult it, and `request_granted` states that.
#[derive(Debug)]
pub struct NetworkPermissions {
    pub inbound: bool,
    pub outbound: bool,
    pub require_approval: Vec<String>,
}

/// Exact binary names an actor may run, and substrings that veto a command.
#[derive(Debug)]
pub struct CommandPermissions {
    pub whitelist: Vec<String>,
    pub blacklist: Vec<String>,
    pub require_explanation: bool,
}

/// Upper bounds on resources an actor may request.
///
/// Quantities are integers: CPU in percent, memory and disk in whole
/// gigabytes.
#[derive(Debug, Clone, Copy)]
pub struct ResourceLimits {
    pub max_cpu_percent: u64,
    pub max_memory_gb: u64,
    pub max_disk_gb: u64,
}

/// Everything one actor is allowed to do. An override scope, when present
/// for an actor, fully replaces the global scope for that actor's checks.
#[derive(Debug)]
pub struct PermissionScope {
    pub file_system: FileSystemPermissions,
    pub network: NetworkPermissions,
    pub commands: CommandPermissions,
    pub resources: ResourceLimits,
}

/// Mathematical content of a `PermissionScope`: every pattern list as a
/// sequence of character sequences.
#[verifier::ext_equal]
pub ghost struct ScopeView {
    pub read_paths: Seq<Seq<char>>,
    pub write_paths: Seq<Seq<char>>,
    pub execute_paths: Seq<Seq<char>>,
    pub inbound: bool,
    pub outbound: bool,
    pub require_approval: Seq<Seq<char>>,
    pub whitelist: Seq<Seq<char>>,
    pub blacklist: Seq<Seq<char>>,
    pub require_explanation: bool,
    pub max_cpu_percent: u64,
    pub max_memory_gb: u64,
    pub max_disk_gb: u64,
}

impl View for PermissionScope {
    type V = ScopeView;

    open spec fn view(&self) -> ScopeView {
        ScopeView {
            read_paths: self.file_system.read_paths.deep_view(),
            write_paths: self.file_system.write_paths.deep_view(),
            execute_paths: self.file_system.execute_paths.deep_view(),
            inbound: self.network.inbound,
            outbound: self.network.outbound,
            require_approval: self.network.require_approval.deep_view(),
            whitelist: self.commands.whitelist.deep_view(),
            blacklist: self.commands.blacklist.deep_view(),
            require_explanation: self.commands.require_explanation,
            max_cpu_percent: self.resources.max_cpu_percent,
            max_memory_gb: self.resources.max_memory_gb,
            max_disk_gb: self.resources.max_disk_gb,
        }
    }
}

/// Copies a list of strings, preserving its view.
pub fn clone_string_vec(v: &Vec<String>) -> (r: Vec<String>)
    ensures
        r.deep_view() == v.deep_view(),
{
    let mut r: Vec<String> = Vec::new();
    let mut i: usize = 0;
    while i < v.len()
        invariant
            i <= v.len(),
            r.len() == i,
            forall|j: int| 0 <= j < i ==> r.deep_view()[j] == v.deep_view()[j],
        decreases v.len() - i,
    {
        let s = v[i].clone();
        r.push(s);
        proof {
            assert(r.deep_view()[i as int] == r@[i as int]@);
        }
        i += 1;
    }
    proof {
        assert(r.deep_view() =~= v.deep_view());
    }
    r
}

/// Appends a string to a list, extending the list's view by the string's.
pub fn push_string(v: &mut Vec<String>, s: String)
    ensures
        final(v).deep_view() == old(v).deep_view().push(s@),
{
    let ghost snapshot = s@;
    v.push(s);
    proof {
        let dv = v.deep_view();
        let odv = old(v).deep_view();
        assert(forall|j: int| 0 <= j < odv.len() ==> dv[j] == odv[j]);
        assert(dv[odv.len() as int] == snapshot);
        assert(dv =~= odv.push(snapshot));
    }
}

impl Clone for FileSystemPermissions {
    fn clone(&self) -> (r: Self)
        ensures
            r.read_paths.deep_view() == self.read_paths.deep_view(),
            r.write_paths.deep_view() == self.write_paths.deep_view(),
            r.execute_paths.deep_view() == self.execute_paths.deep_view(),
    {
        FileSystemPermissions {
            read_paths: clone_string_vec(&self.read_paths),
            write_paths: clone_string_vec(&self.write_paths),
            execute_paths: clone_string_vec(&self.execute_paths),
        }
    }
}

impl Clone for NetworkPermissions {
    fn clone(&self) -> (r: Self)
        ensures
            r.inbound == self.inbound,
            r.outbound == self.outbound,
            r.require_approval.deep_view() == self.require_approval.deep_view(),
    {
        NetworkPermissions {
            inbound: self.inbound,
            outbound: self.outbound,
            require_approval: clone_string_vec(&self.require_approval),
        }
    }
}

impl Clone for CommandPermissions {
    fn clone(&self) -> (r: Self)
        ensures
            r.whitelist.deep_view() == self.whitelist.deep_view(),
            r.blacklist.deep_view() == self.blacklist.deep_view(),
            r.require_explanation == self.require_explanation,
    {
        CommandPermissions {
            whitelist: clone_string_vec(&self.whitelist),
            blacklist: clone_string_vec(&self.blacklist),
            require_explanation: self.require_explanation,
        }
    }
}

impl Clone for PermissionScope {
    fn clone(&self) -> (r: Self)
        ensures
            r@ == self@,
    {
        let r = PermissionScope {
            file_system: self.file_system.clone(),
            network: self.network.clone(),
            commands: self.commands.clone(),
            resources: self.resources,
        };
        proof {
            assert(r@ =~= self@);
        }
        r
    }
}

impl ScopeView {
    /// Path patterns of the default global scope.
    pub open spec fn default_read_paths() -> Seq<Seq<char>> {
        seq!["/home/*/downloads/*"@, "/rag/*"@]
    }

    pub open spec fn default_write_paths() -> Seq<Seq<char>> {
        seq!["/home/*/downloads/*"@]
    }

    pub open spec fn default_whitelist() -> Seq<Seq<char>> {
        seq!["git"@, "npm"@, "python"@, "cargo"@, "ls"@, "cat"@]
    }

    pub open spec fn default_blacklist() -> Seq<Seq<char>> {
        seq!["rm -rf /"@, "sudo"@, "dd"@, "mkfs"@]
    }

    /// What `PermissionScope::default()` returns, stated field by field.
    pub open spec fn is_default(self) -> bool {
        &&& self.read_paths == Self::default_read_paths()
        &&& self.write_paths == Self::default_write_paths()
        &&& self.execute_paths == Seq::<Seq<char>>::empty()
        &&& self.inbound == true
        &&& self.outbound == true
        &&& self.require_approval == seq!["*"@]
        &&& self.whitelist == Self::default_whitelist()
        &&& self.blacklist == Self::default_blacklist()
        &&& self.require_explanation == true
        &&& self.max_cpu_percent == 80
        &&& self.max_memory_gb == 8
        &&& self.max_disk_gb == 50
    }
}

impl Default for PermissionScope {
    /// The default global scope: download-like and RAG-like read roots,
    /// download-like write root, both network directions with all URLs
    /// marked for approval, a small command whitelist and blacklist, and
    /// 80% CPU / 8 GB memory / 50 GB disk limits.
    fn default() -> (s: Self)
        ensures
            s@.is_default(),
    {
        let read_paths: Vec<String> = vec![
            "/home/*/downloads/*".to_owned(),
            "/rag/*".to_owned(),
        ];
        let write_paths: Vec<String> = vec!["/home/*/downloads/*".to_owned()];
        let whitelist: Vec<String> = vec![
            "git".to_owned(),
            "npm".to_owned(),
            "python".to_owned(),
            "cargo".to_owned(),
            "ls".to_owned(),
            "cat".to_owned(),
        ];
        let blacklist: Vec<String> = vec![
            "rm -rf /".to_owned(),
            "sudo".to_owned(),
            "dd".to_owned(),
            "mkfs".to_owned(),
        ];
        let scope = PermissionScope {
            file_system: FileSystemPermissions {
                read_paths,
                write_paths,
                execute_paths: Vec::new(),
            },
            network: NetworkPermissions {
                inbound: true,
                outbound: true,
                require_approval: vec!["*".to_owned()],
            },
            commands: CommandPermissions {
                whitelist,
                blacklist,
                require_explanation: true,
            },
            resources: ResourceLimits {
                max_cpu_percent: 80,
                max_memory_gb: 8,
                max_disk_gb: 50,
            },
        };
        proof {
            assert(scope@.read_paths =~= ScopeView::default_read_paths());
            assert(scope@.write_paths =~= ScopeView::default_write_paths());
            assert(scope@.execute_paths =~= Seq::<Seq<char>>::empty());
            assert(scope@.require_approval =~= seq!["*"@]);
            assert(scope@.whitelist =~= ScopeView::default_whitelist());
            assert(scope@.blacklist =~= ScopeView::default_blacklist());
        }
        scope
    }
}

/// Global operating mode. `Normal` at startup; only the security engine's
/// trigger and release operations move it.
#[derive(Debug, Clone, Copy, PartialEq, Eq, Structural)]
pub enum LockdownState {
    Normal,
    ReadOnly,
    Locked,
}

/// Why a lockdown was triggered; attached to the triggering audit entry.
///
/// Resource quantities are integers in the units of `ResourceLimits`.
#[derive(Debug, Clone)]
pub enum LockdownReason {
    PolicyViolation { details: String },
    SuspiciousPattern { pattern: String },
    ResourceExceeded { resource: String, limit: u64, actual: u64 },
    UserPanicButton,
    MultipleFailedRequests { count: u64 },
}

/// Severity level assigned by a guardrail rule; totally ordered.
#[derive(Debug, Clone, Copy, PartialEq, Eq, Structural)]
pub enum RiskLevel {
    Low,
    Medium,
    High,
    Critical,
}

impl RiskLevel {
    /// Numeric rank realizing the total order Low < Medium < High < Critical.
    pub open spec fn rank(self) -> int {
        match self {
            RiskLevel::Low => 0,
            RiskLevel::Medium => 1,
            RiskLevel::High => 2,
            RiskLevel::Critical => 3,
        }
    }

    /// Whether `self` is at most `other` in the risk order.
    pub fn le(self, other: RiskLevel) -> (r: bool)
        ensures
            r == (self.rank() <= other.rank()),
    {
        let a: u8 = match self {
            RiskLevel::Low => 0,
            RiskLevel::Medium => 1,
            RiskLevel::High => 2,
            RiskLevel::Critical => 3,
        };
        let b: u8 = match other {
            RiskLevel::Low => 0,
            RiskLevel::Medium => 1,
            RiskLevel::High => 2,
            RiskLevel::Critical => 3,
        };
        a <= b
    }
}

/// Outcome of analyzing one command against the guardrail rules.
#[derive(Debug, Clone)]
pub struct SecurityAnalysis {
    /// Holds exactly when `risk_level` is at most `Medium`.
    pub safe: bool,
    pub risk_level: RiskLevel,
    pub issues: Vec<String>,
    pub suggestions: Vec<String>,
}

/// One record of a policy decision. Entries are only ever appended, and an
/// entry's `id` is its position in the log at the time it was recorded.
#[derive(Debug)]
pub struct AuditLogEntry {
    pub id: usize,
    /// Milliseconds since the Unix epoch at recording time.
    pub timestamp: i64,
    pub llm_id: Option<String>,
    pub action: String,
    /// Opaque structured details, carried as text.
    pub details: String,
    pub approved: bool,
    pub reason: Option<String>,
}

/// Mathematical content of an `AuditLogEntry`.
#[verifier::ext_equal]
pub ghost struct AuditEntryView {
    pub id: nat,
    pub timestamp: int,
    pub llm_id: Option<Seq<char>>,
    pub action: Seq<char>,
    pub details: Seq<char>,
    pub approved: bool,
    pub reason: Option<Seq<char>>,
}

/// The view of an optional string.
pub open spec fn opt_str_view(s: Option<String>) -> Option<Seq<char>> {
    match s {
        Some(v) => Some(v@),
        None => None,
    }
}

impl View for AuditLogEntry {
    type V = AuditEntryView;

    open spec fn view(&self) -> AuditEntryView {
        AuditEntryView {
            id: self.id as nat,
            timestamp: self.timestamp as int,
            llm_id: opt_str_view(self.llm_id),
            action: self.action@,
            details: self.details@,
            approved: self.approved,
            reason: opt_str_view(self.reason),
        }
    }
}

impl DeepView for AuditLogEntry {
    type V = AuditEntryView;

    open spec fn deep_view(&self) -> AuditEntryView {
        self.view()
    }
}

/// Copies an optional string, preserving its view.
pub fn clone_opt_string(s: &Option<String>) -> (r: Option<String>)
    ensures
        opt_str_view(r) == opt_str_view(*s),
{
    match s {
        Some(v) => Some(v.clone()),
        None => None,
    }
}

impl Clone for AuditLogEntry {
    fn clone(&self) -> (r: Self)
        ensures
            r@ == self@,
    {
        let r = AuditLogEntry {
            id: self.id,
            timestamp: self.timestamp,
            llm_id: clone_opt_string(&self.llm_id),
            action: self.action.clone(),
            details: self.details.clone(),
            approved: self.approved,
            reason: clone_opt_string(&self.reason),
        };
        proof {
            assert(r@ =~= self@);
        }
        r
    }
}

/// Snapshot of the whole system for an external interface.
#[derive(Debug, Clone)]
pub struct SystemState {
    pub lockdown: LockdownState,
    pub active_llms: Vec<String>,
    pub pending_approvals: usize,
}

} // verus!
