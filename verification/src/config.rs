//! Configuration for the SSH tunneling and its validation.

use vstd::prelude::*;

use crate::error::{StunError, StunResult};
use crate::forwarding::{spec_parse, ForwardingSpec};
use crate::text::{last_colon, parse_u16_spec, parse_u16_str, rfind_colon};

verus! {

/// Forwarding mode enumeration
#[derive(Debug, Clone, Copy, PartialEq, Eq, Structural)]
pub enum ForwardingMode {
    Local,
    Remote,
}

/// The SSH flag that selects the forwarding mode.
pub open spec fn spec_ssh_flag(m: ForwardingMode) -> Seq<char> {
    match m {
        ForwardingMode::Local => "-L"@,
        ForwardingMode::Remote => "-R"@,
    }
}

impl ForwardingMode {
    /// Convert to SSH flag string
    pub fn to_ssh_flag(&self) -> (r: &'static str)
        ensures
            r@ == spec_ssh_flag(*self),
    {
        match self {
            ForwardingMode::Local => "-L",
            ForwardingMode::Remote => "-R",
        }
    }
}

/// Remote SSH server configuration
#[derive(Debug, Clone)]
pub struct RemoteConfig {
    /// Hostname or IP address
    pub host: String,
    /// SSH port (default: 22)
    pub port: u16,
    /// Username for SSH connection
    pub user: String,
    /// Path to private key file (optional)
    pub key: Option<String>,
}

/// The default SSH port.
pub fn default_ssh_port() -> (r: u16)
    ensures
        r == 22,
{
    22
}

/// Configuration for the SSH tunneling
#[derive(Debug, Clone)]
pub struct Config {
    /// Forwarding mode: local or remote
    pub mode: ForwardingMode,
    /// Remote SSH server configuration
    pub remote: RemoteConfig,
    /// List of port forwarding specifications
    pub forwarding_list: Vec<String>,
    /// Connection timeout in seconds
    pub timeout: Option<u64>,
    /// Optional mapping for remote mode health probing: spec_string -> "host:port"
    pub remote_probes: Option<Vec<(String, String)>>,
    /// Base backoff seconds for restart scheduling (optional, default: 1)
    pub backoff_base_secs: Option<u64>,
    /// Maximum backoff seconds cap (optional, default: 30)
    pub backoff_max_secs: Option<u64>,
}

/// A remote probe target is `host:port` with a non-empty host and a decimal
/// `u16` port after the last colon.
pub open spec fn valid_probe_target(t: Seq<char>) -> bool {
    let c = last_colon(t);
    c >= 1 && parse_u16_spec(t.subrange(c + 1, t.len() as int)) is Some
}

/// Every probe entry names a configured forwarding and carries a
/// well-formed `host:port` target.
pub open spec fn spec_probes_valid(probes: Seq<(String, String)>, list: Seq<String>) -> bool {
    forall|i: int|
        0 <= i < probes.len() ==> {
            &&& exists|j: int| 0 <= j < list.len() && list[j]@ == probes[i].0@
            &&& valid_probe_target(probes[i].1@)
        }
}

/// The connection timeout in seconds, defaulting to 2.
pub open spec fn spec_timeout_secs(c: Config) -> u64 {
    match c.timeout {
        Some(t) => t,
        None => 2,
    }
}

/// The base backoff in seconds, defaulting to 1.
pub open spec fn spec_backoff_base(c: Config) -> u64 {
    match c.backoff_base_secs {
        Some(b) => b,
        None => 1,
    }
}

/// The backoff cap in seconds, defaulting to 30.
pub open spec fn spec_backoff_max(c: Config) -> u64 {
    match c.backoff_max_secs {
        Some(m) => m,
        None => 30,
    }
}

impl Config {
    /// Everything the validator checks: non-empty host, user and forwarding
    /// list, forwarding entries the parser accepts, well-formed probe
    /// entries, and consistent backoff settings (with the defaults applied,
    /// the cap must not fall below the base).
    pub open spec fn spec_valid(&self) -> bool {
        &&& self.remote.host@.len() > 0
        &&& self.remote.user@.len() > 0
        &&& self.forwarding_list@.len() > 0
        &&& forall|i: int|
            0 <= i < self.forwarding_list@.len() ==> spec_parse(self.forwarding_list@[i]@) is Some
        &&& match self.remote_probes {
            Some(ps) => spec_probes_valid(ps@, self.forwarding_list@),
            None => true,
        }
        &&& match self.backoff_base_secs {
            Some(b) => b >= 1,
            None => true,
        }
        &&& match self.backoff_max_secs {
            Some(m) => m >= 1,
            None => true,
        }
        &&& spec_backoff_base(*self) <= spec_backoff_max(*self)
    }

    /// Validate the configuration
    pub fn validate(&self) -> (r: StunResult<()>)
        ensures
            r is Ok <==> self.spec_valid(),
            r is Err ==> r matches Err(StunError::Config(_)),
    {
        if self.remote.host.as_str().is_empty() {
            return Err(StunError::Config(String::from_str("Remote host cannot be empty")));
        }
        if self.remote.user.as_str().is_empty() {
            return Err(StunError::Config(String::from_str("Remote user cannot be empty")));
        }
        if self.forwarding_list.len() == 0 {
            return Err(StunError::Config(String::from_str("Forwarding list cannot be empty")));
        }
        let mut i: usize = 0;
        while i < self.forwarding_list.len()
            invariant
                i <= self.forwarding_list@.len(),
                forall|k: int| 0 <= k < i ==> spec_parse(self.forwarding_list@[k]@) is Some,
            decreases self.forwarding_list@.len() - i,
        {
            let res = self.validate_forwarding_spec(self.forwarding_list[i].as_str());
            if let Err(e) = res {
                return Err(e);
            }
            i = i + 1;
        }
        if let Some(map) = &self.remote_probes {
            let mut p: usize = 0;
            while p < map.len()
                invariant
                    p <= map@.len(),
                    self.remote_probes matches Some(m) && m@ == map@,
                    forall|k: int|
                        0 <= k < p ==> {
                            &&& exists|j: int|
                                0 <= j < self.forwarding_list@.len() && self.forwarding_list@[j]@
                                    == map@[k].0@
                            &&& valid_probe_target(map@[k].1@)
                        },
                decreases map@.len() - p,
            {
                let spec_key = &map[p].0;
                let target = &map[p].1;
                if !list_contains(&self.forwarding_list, spec_key) {
                    return Err(
                        StunError::Config(
                            String::from_str("remote_probes key '").concat(
                                spec_key.as_str(),
                            ).concat("' does not match any forwarding_list entry"),
                        ),
                    );
                }
                if !check_probe_target(target.as_str()) {
                    return Err(
                        StunError::Config(
                            String::from_str("Invalid remote_probe target '").concat(
                                target.as_str(),
                            ).concat("', expected host:port"),
                        ),
                    );
                }
                p = p + 1;
            }
        }
        if let Some(base) = self.backoff_base_secs {
            if base == 0 {
                return Err(StunError::Config(String::from_str("backoff_base_secs must be >= 1")));
            }
        }
        if let Some(max) = self.backoff_max_secs {
            if max == 0 {
                return Err(StunError::Config(String::from_str("backoff_max_secs must be >= 1")));
            }
        }
        let base_eff: u64 = match self.backoff_base_secs {
            Some(b) => b,
            None => 1,
        };
        let max_eff: u64 = match self.backoff_max_secs {
            Some(m) => m,
            None => 30,
        };
        if max_eff < base_eff {
            return Err(
                StunError::Config(
                    String::from_str("backoff_max_secs must be >= backoff_base_secs"),
                ),
            );
        }
        Ok(())
    }

    /// Validate a single forwarding specification: the validator accepts
    /// exactly the strings the parser accepts, bracketed IPv6 bind
    /// addresses included.
    pub fn validate_forwarding_spec(&self, spec: &str) -> (r: StunResult<()>)
        ensures
            r is Ok <==> spec_parse(spec@) is Some,
            r is Err ==> r matches Err(StunError::Config(_)),
    {
        match ForwardingSpec::parse(spec) {
            Ok(_) => Ok(()),
            Err(e) => Err(e),
        }
    }
}

/// Whether the list holds a string equal to the key.
fn list_contains(list: &Vec<String>, key: &String) -> (r: bool)
    ensures
        r == exists|j: int| 0 <= j < list@.len() && list@[j]@ == key@,
{
    let mut j: usize = 0;
    while j < list.len()
        invariant
            j <= list@.len(),
            forall|k: int| 0 <= k < j ==> list@[k]@ != key@,
        decreases list@.len() - j,
    {
        if list[j] == *key {
            return true;
        }
        j = j + 1;
    }
    false
}

/// Whether a probe target string is a well-formed `host:port`.
fn check_probe_target(t: &str) -> (r: bool)
    ensures
        r == valid_probe_target(t@),
{
    let n = t.unicode_len();
    proof {
        assert(t@.subrange(0, n as int) =~= t@);
    }
    match rfind_colon(t, n) {
        None => false,
        Some(c) => {
            if c < 1 {
                false
            } else {
                parse_u16_str(t.substring_char(c + 1, n)).is_some()
            }
        },
    }
}

} // verus!
