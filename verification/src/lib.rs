//! Policy and coordination core for a multi-backend language-model system.
//!
//! The crate verifies the security policy surface: permission scopes and
//! checks, a guardrail command analyzer, an append-only audit log, the
//! lockdown state machine, capability-based routing, load balancing and the
//! publish/subscribe message bus that ties them together.

mod audit;
mod bus;
mod embeddings;
mod engine;
mod errors;
mod fs_interface;
mod guardrails;
mod load_balancer;
mod messages;
mod orchestrator;
mod permissions;
mod pool;
mod router;
mod text;
mod types;

pub use audit::AuditLogger;
pub use audit::RecordCall;
pub use audit::by_actor_view;
pub use audit::denied_view;
pub use audit::entry_is_by;
pub use audit::lemma_audit_append_only;
pub use audit::record_chain;
pub use audit::record_step;

pub use bus::MessageBus;
pub use bus::bounded_push;

pub use embeddings::EmbeddingGenerator;
pub use embeddings::chunk_text;
pub use embeddings::chunks_of;
pub use embeddings::join_words;

pub use engine::LOCKDOWN_DENIAL_THRESHOLD;
pub use engine::SecurityEngineImpl;
pub use engine::analysis_details;
pub use engine::check_step;
pub use engine::denial_reason_text;
pub use engine::describe_reason;
pub use engine::describe_request_view;
pub use engine::lemma_five_denials_lock;
pub use engine::perm_action;
pub use engine::perm_details;
pub use engine::risk_name;

pub use errors::HybridLLMError;
pub use errors::error_text;

pub use fs_interface::FileSystemInterface;

pub use guardrails::GuardrailRule;
pub use guardrails::Guardrails;
pub use guardrails::RuleView;
pub use guardrails::command_issues;
pub use guardrails::command_risk;
pub use guardrails::command_suggestions;
pub use guardrails::default_rule_views;
pub use guardrails::issue_line;
pub use guardrails::regex_match;
pub use guardrails::suggestions_for;

pub use load_balancer::LoadBalancer;
pub use load_balancer::counter_iter;
pub use load_balancer::lemma_round_robin_cycle;
pub use load_balancer::next_counter;
pub use load_balancer::observed;
pub use load_balancer::prefer_local_post;
pub use load_balancer::prefer_local_choice;
pub use pool::resolved_instances;
pub use pool::resolved_upto;

pub use messages::AlertSeverity;
pub use messages::CreateSandboxRequest;
pub use messages::ExecuteInSandboxResponse;
pub use messages::MessageView;
pub use messages::OrchestratorMessage;
pub use messages::PermTypeView;
pub use messages::PermissionType;
pub use messages::SendMessageRequest;
pub use messages::SendMessageResponse;
pub use messages::StateChangeType;
pub use messages::SuggestedAction;
pub use messages::TaskDescription;
pub use messages::TaskView;
pub use messages::UploadDocumentRequest;
pub use messages::WebSocketMessage;
pub use messages::clone_capability_vec;
pub use messages::clone_string_pairs;

pub use orchestrator::MessageOutcome;
pub use orchestrator::ORCHESTRATOR_BUS_CAPACITY;
pub use orchestrator::Orchestrator;
pub use orchestrator::handle_rel;

pub use permissions::PermissionManager;
pub use permissions::command_granted;
pub use permissions::count_at;
pub use permissions::inc_sat;
pub use permissions::lemma_lookup_characterization;
pub use permissions::lemma_lookup_some;
pub use permissions::map_lookup;
pub use permissions::path_pattern_matches;
pub use permissions::request_granted;
pub use permissions::resource_granted;
pub use permissions::some_pattern_matches;
pub use permissions::unique_keys;

pub use pool::LLMPool;
pub use pool::PoolStats;
pub use pool::bucket_of;
pub use pool::cap_lookup;
pub use pool::count_cap;
pub use pool::index_extended;
pub use pool::index_step;
pub use pool::loaded_count;
pub use pool::unique_caps;
pub use pool::without_id;

pub use router::Router;
pub use router::covers;
pub use router::covers_all;
pub use router::eligible;
pub use router::has_capability;
pub use router::routed_choice;
pub use router::views_of;
pub use router::with_capability;

pub use text::contains_seq;
pub use text::first_token;
pub use text::first_token_str;
pub use text::is_space;
pub use text::is_space_char;
pub use text::split_whitespace_tokens;
pub use text::split_ws;
pub use text::str_contains;
pub use text::str_eq;
pub use text::take_token;

pub use types::AuditEntryView;
pub use types::AuditLogEntry;
pub use types::Capability;
pub use types::CommandPermissions;
pub use types::ContextType;
pub use types::FileSystemPermissions;
pub use types::LLMInstance;
pub use types::LLMProvider;
pub use types::LockdownReason;
pub use types::LockdownState;
pub use types::MessageRole;
pub use types::NetworkPermissions;
pub use types::PermissionScope;
pub use types::ResourceLimits;
pub use types::RiskLevel;
pub use types::ScopeView;
pub use types::SecurityAnalysis;
pub use types::SystemState;
pub use types::TaskType;
pub use types::clone_opt_string;
pub use types::clone_string_vec;
pub use types::opt_str_view;
pub use types::push_string;
