use vstd::prelude::*;

verus! {

/// Result type alias for stun operations
pub type StunResult<T> = Result<T, StunError>;

/// Error kinds for the stun library; each carries a message
#[derive(Debug, Clone, PartialEq)]
pub enum StunError {
    /// Configuration related errors
    Config(String),
    /// SSH connection errors
    Ssh(String),
    /// Network connection errors
    Network(String),
    /// I/O errors
    Io(String),
    /// Tunnel management errors
    Tunnel(String),
    /// Health check errors
    HealthCheck(String),
    /// Timeout errors
    Timeout,
    /// Generic errors
    Other(String),
}

} // verus!
