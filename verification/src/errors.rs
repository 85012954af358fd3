//! The error taxonomy. Permission and guardrail outcomes are domain results,
//! never errors; these variants cover refusals of whole operations and
//! infrastructure failures.

use vstd::prelude::*;
use vstd::string::StringExecFns;

verus! {

/// Why an operation failed or was refused.
///
/// Resource quantities are integers in the units of `ResourceLimits`.
#[derive(Debug)]
pub enum HybridLLMError {
    LLMError(String),
    PermissionDenied(String),
    SecurityViolation(String),
    LockdownActive(String),
    /// An empty or invalid lockdown-release token.
    AuthenticationFailure(String),
    SandboxError(String),
    DatabaseError(String),
    FileSystemError(String),
    NetworkError(String),
    ConfigError(String),
    LLMNotFound(String),
    InvalidRequest(String),
    ResourceLimitExceeded { resource: String, limit: u64, actual: u64 },
    Timeout(String),
    Other(String),
}

/// The text `HybridLLMError::message` produces for an error.
pub open spec fn error_text(e: HybridLLMError) -> Seq<char> {
    match e {
        HybridLLMError::LLMError(m) => "LLM error: "@ + m@,
        HybridLLMError::PermissionDenied(m) => "Permission denied: "@ + m@,
        HybridLLMError::SecurityViolation(m) => "Security violation: "@ + m@,
        HybridLLMError::LockdownActive(m) => "Lockdown active: "@ + m@,
        HybridLLMError::AuthenticationFailure(m) => "Authentication failure: "@ + m@,
        HybridLLMError::SandboxError(m) => "Sandbox error: "@ + m@,
        HybridLLMError::DatabaseError(m) => "Database error: "@ + m@,
        HybridLLMError::FileSystemError(m) => "File system error: "@ + m@,
        HybridLLMError::NetworkError(m) => "Network error: "@ + m@,
        HybridLLMError::ConfigError(m) => "Configuration error: "@ + m@,
        HybridLLMError::LLMNotFound(m) => "LLM not found: "@ + m@,
        HybridLLMError::InvalidRequest(m) => "Invalid request: "@ + m@,
        HybridLLMError::ResourceLimitExceeded { resource, limit: _, actual: _ } => {
            "Resource limit exceeded: "@ + resource@
        },
        HybridLLMError::Timeout(m) => "Timeout: "@ + m@,
        HybridLLMError::Other(m) => "Error: "@ + m@,
    }
}

impl HybridLLMError {
    /// A human-readable description of the error.
    pub fn message(&self) -> (r: String)
        ensures
            r@ == error_text(*self),
    {
        match self {
            HybridLLMError::LLMError(m) => String::from_str("LLM error: ").concat(m.as_str()),
            HybridLLMError::PermissionDenied(m) => String::from_str("Permission denied: ").concat(
                m.as_str(),
            ),
            HybridLLMError::SecurityViolation(m) => String::from_str(
                "Security violation: ",
            ).concat(m.as_str()),
            HybridLLMError::LockdownActive(m) => String::from_str("Lockdown active: ").concat(
                m.as_str(),
            ),
            HybridLLMError::AuthenticationFailure(m) => String::from_str(
                "Authentication failure: ",
            ).concat(m.as_str()),
            HybridLLMError::SandboxError(m) => String::from_str("Sandbox error: ").concat(
                m.as_str(),
            ),
            HybridLLMError::DatabaseError(m) => String::from_str("Database error: ").concat(
                m.as_str(),
            ),
            HybridLLMError::FileSystemError(m) => String::from_str("File system error: ").concat(
                m.as_str(),
            ),
            HybridLLMError::NetworkError(m) => String::from_str("Network error: ").concat(
                m.as_str(),
            ),
            HybridLLMError::ConfigError(m) => String::from_str("Configuration error: ").concat(
                m.as_str(),
            ),
            HybridLLMError::LLMNotFound(m) => String::from_str("LLM not found: ").concat(
                m.as_str(),
            ),
            HybridLLMError::InvalidRequest(m) => String::from_str("Invalid request: ").concat(
                m.as_str(),
            ),
            HybridLLMError::ResourceLimitExceeded { resource, limit: _, actual: _ } => {
                String::from_str("Resource limit exceeded: ").concat(resource.as_str())
            },
            HybridLLMError::Timeout(m) => String::from_str("Timeout: ").concat(m.as_str()),
            HybridLLMError::Other(m) => String::from_str("Error: ").concat(m.as_str()),
        }
    }
}

} // verus!
