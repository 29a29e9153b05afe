use vstd::prelude::*;

verus! {

/// Health status for a tunnel
#[derive(Debug, Clone, Copy, PartialEq, Eq, Structural)]
pub enum TunnelHealth {
    /// Tunnel is healthy and functioning
    Healthy,
    /// Tunnel is down or unreachable
    Down,
    /// Tunnel status is unknown (e.g., during startup)
    Unknown,
}

impl TunnelHealth {
    /// Check if the tunnel is in a healthy state
    pub fn is_healthy(&self) -> (r: bool)
        ensures
            r == (*self is Healthy),
    {
        matches!(self, TunnelHealth::Healthy)
    }

    /// Check if the tunnel is down
    pub fn is_down(&self) -> (r: bool)
        ensures
            r == (*self is Down),
    {
        matches!(self, TunnelHealth::Down)
    }
}

/// Health checker for port forwarding connections; holds the probe timeout
/// in seconds. The TCP connect itself is performed by the caller, bounded
/// by this timeout.
#[derive(Debug, Clone, Copy)]
pub struct HealthChecker {
    /// Connection timeout for health checks, in seconds
    pub timeout_secs: u64,
}

impl HealthChecker {
    /// Create a new health checker with the specified timeout
    pub fn new(timeout_secs: u64) -> (r: Self)
        ensures
            r.timeout_secs == timeout_secs,
    {
        HealthChecker { timeout_secs }
    }
}

} // verus!
