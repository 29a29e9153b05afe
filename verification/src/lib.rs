//! Supervisor for SSH port-forwarding tunnels.
//!
//! The library holds the verified core: forwarding-spec parsing, config
//! validation, SSH argument construction, and the per-tunnel health /
//! backoff / restart state machine. Process spawning, TCP probing and the
//! async management loop live outside the library and drive these
//! functions with the values they observe.

pub mod config;
pub mod error;
pub mod forwarding;
pub mod health;
pub mod manager;
pub mod ssh;
pub mod text;

pub use config::{Config, ForwardingMode, RemoteConfig};
pub use error::{StunError, StunResult};
pub use forwarding::ForwardingSpec;
pub use health::{HealthChecker, TunnelHealth};
pub use manager::{CheckAction, SupervisorParams, TunnelRecord};
pub use ssh::SshClient;
