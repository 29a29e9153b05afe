//! SSH invocation: argument vectors for forwarding children and remote
//! probes, and the probe-target lookup.
//!
//! The library builds every argument exactly; spawning the `ssh` processes
//! and collecting their exit status happen outside the library.

use vstd::prelude::*;

use crate::config::{spec_ssh_flag, spec_timeout_secs, Config};
use crate::forwarding::{spec_ssh_arg, ForwardingSpec};
use crate::text::{
    dec_rep, last_colon, parse_u16_spec, parse_u16_str, rfind_colon, u16_to_string, u64_to_string,
};

verus! {

/// SSH client wrapper for port forwarding
pub struct SshClient {
    pub config: Config,
}

/// The fixed connection options every `ssh` invocation carries.
pub open spec fn spec_base_options() -> Seq<Seq<char>> {
    seq![
        "-o"@,
        "ServerAliveInterval=30"@,
        "-o"@,
        "StrictHostKeyChecking=no"@,
        "-o"@,
        "ExitOnForwardFailure=yes"@,
    ]
}

/// The identity and port flags: `-i key` when a key is configured and its
/// file is present, `-p port` when the port is not the SSH default.
pub open spec fn spec_identity_args(c: Config, key_file_exists: bool) -> Seq<Seq<char>> {
    (match c.remote.key {
        Some(k) => if key_file_exists {
            seq!["-i"@, k@]
        } else {
            Seq::<Seq<char>>::empty()
        },
        None => Seq::<Seq<char>>::empty(),
    }) + (if c.remote.port != 22 {
        seq!["-p"@, dec_rep(c.remote.port as int)]
    } else {
        Seq::<Seq<char>>::empty()
    })
}

/// The `user@host` connection target.
pub open spec fn spec_target(c: Config) -> Seq<char> {
    c.remote.user@ + "@"@ + c.remote.host@
}

/// The full argument vector (after the program name) that starts one
/// forwarding child.
pub open spec fn spec_forwarding_args(c: Config, v: crate::forwarding::FwdView, key_file_exists: bool) -> Seq<
    Seq<char>,
> {
    spec_base_options() + seq![spec_ssh_flag(c.mode), spec_ssh_arg(v)] + spec_identity_args(
        c,
        key_file_exists,
    ) + seq![spec_target(c)]
}

/// The shell command a remote probe runs: try `nc`, then fall back to
/// bash's `/dev/tcp`.
pub open spec fn spec_probe_script(timeout_secs: u64, host: Seq<char>, port: u16) -> Seq<char> {
    "sh -lc 'nc -z -w "@ + dec_rep(timeout_secs as int) + " "@ + host + " "@ + dec_rep(port as int)
        + " >/dev/null 2>&1 || (bash -lc \"echo > /dev/tcp/"@ + host + "/"@ + dec_rep(port as int)
        + "\")'"@
}

/// The argument vector (after the program name) for one remote probe
/// invocation.
pub open spec fn spec_probe_args(c: Config, key_file_exists: bool, host: Seq<char>, port: u16) -> Seq<
    Seq<char>,
> {
    spec_base_options() + spec_identity_args(c, key_file_exists) + seq![spec_target(c)] + seq![
        spec_probe_script(spec_timeout_secs(c), host, port),
    ]
}

/// First probe entry whose key equals the given canonical spec string.
pub open spec fn spec_probe_lookup(probes: Seq<(String, String)>, key: Seq<char>) -> Option<
    Seq<char>,
>
    decreases probes.len(),
{
    if probes.len() == 0 {
        None
    } else if probes[0].0@ == key {
        Some(probes[0].1@)
    } else {
        spec_probe_lookup(probes.drop_first(), key)
    }
}

/// The probe target configured for a forwarding: its entry's value, split
/// at the last colon into host and decimal port. A missing entry, a
/// colon-free value or a bad port all yield nothing.
pub open spec fn spec_probe_target(c: Config, v: crate::forwarding::FwdView) -> Option<
    (Seq<char>, u16),
> {
    match c.remote_probes {
        None => None,
        Some(ps) => match spec_probe_lookup(ps@, spec_ssh_arg(v)) {
            None => None,
            Some(t) => {
                let lc = last_colon(t);
                if lc < 0 {
                    None
                } else {
                    match parse_u16_spec(t.subrange(lc + 1, t.len() as int)) {
                        None => None,
                        Some(p) => Some((t.subrange(0, lc), p)),
                    }
                }
            },
        },
    }
}

impl SshClient {
    /// Create a new SSH client with the given configuration
    pub fn new(config: Config) -> (r: Self)
        ensures
            r.config == config,
    {
        Self { config }
    }

    /// Returns true if the client is configured for local (-L) forwarding
    pub fn is_local_mode(&self) -> (r: bool)
        ensures
            r == (self.config.mode is Local),
    {
        matches!(self.config.mode, crate::config::ForwardingMode::Local)
    }

    /// The argument vector that starts an SSH forwarding child for the
    /// given specification. `key_file_exists` reports whether the
    /// configured key file is present on disk; a missing file omits the
    /// identity flag.
    pub fn build_forwarding_args(&self, spec: &ForwardingSpec, key_file_exists: bool) -> (r: Vec<
        String,
    >)
        ensures
            r.deep_view() == spec_forwarding_args(self.config, spec@, key_file_exists),
    {
        let mut args = self.base_args();
        args.push(String::from_str(self.config.mode.to_ssh_flag()));
        args.push(spec.to_ssh_arg());
        self.push_identity_and_target(&mut args, key_file_exists);
        proof {
            assert(args.deep_view() =~= spec_forwarding_args(
                self.config,
                spec@,
                key_file_exists,
            ));
        }
        args
    }

    /// The argument vector for one remote TCP probe against `host:port`,
    /// run as a one-shot shell command on the SSH server.
    pub fn build_remote_probe_args(&self, key_file_exists: bool, host: &str, port: u16) -> (r: Vec<
        String,
    >)
        ensures
            r.deep_view() == spec_probe_args(self.config, key_file_exists, host@, port),
    {
        let mut args = self.base_args();
        self.push_identity_and_target(&mut args, key_file_exists);
        let mut script = String::from_str("sh -lc 'nc -z -w ");
        let t = u64_to_string(timeout_or_default(&self.config));
        script.append(t.as_str());
        script.append(" ");
        script.append(host);
        script.append(" ");
        let p = u16_to_string(port);
        script.append(p.as_str());
        script.append(" >/dev/null 2>&1 || (bash -lc \"echo > /dev/tcp/");
        script.append(host);
        script.append("/");
        script.append(p.as_str());
        script.append("\")'");
        args.push(script);
        proof {
            assert(args.deep_view() =~= spec_probe_args(
                self.config,
                key_file_exists,
                host@,
                port,
            ));
        }
        args
    }

    /// The fixed options shared by both argument vectors.
    fn base_args(&self) -> (r: Vec<String>)
        ensures
            r.deep_view() == spec_base_options(),
    {
        let mut args: Vec<String> = Vec::new();
        args.push(String::from_str("-o"));
        args.push(String::from_str("ServerAliveInterval=30"));
        args.push(String::from_str("-o"));
        args.push(String::from_str("StrictHostKeyChecking=no"));
        args.push(String::from_str("-o"));
        args.push(String::from_str("ExitOnForwardFailure=yes"));
        proof {
            assert(args.deep_view() =~= spec_base_options());
        }
        args
    }

    /// Append the identity / port flags and the `user@host` target.
    fn push_identity_and_target(&self, args: &mut Vec<String>, key_file_exists: bool)
        ensures
            final(args).deep_view() == old(args).deep_view() + spec_identity_args(
                self.config,
                key_file_exists,
            ) + seq![spec_target(self.config)],
    {
        if key_file_exists {
            if let Some(key_path) = &self.config.remote.key {
                args.push(String::from_str("-i"));
                args.push(key_path.clone());
            }
        }
        if self.config.remote.port != 22 {
            args.push(String::from_str("-p"));
            args.push(u16_to_string(self.config.remote.port));
        }
        let mut target = String::new();
        target.append(self.config.remote.user.as_str());
        target.append("@");
        target.append(self.config.remote.host.as_str());
        args.push(target);
        proof {
            assert(args.deep_view() =~= old(args).deep_view() + spec_identity_args(
                self.config,
                key_file_exists,
            ) + seq![spec_target(self.config)]);
        }
    }

    /// Build SSH command string for debugging/logging
    pub fn build_command_string(&self, spec: &ForwardingSpec) -> (r: String)
        ensures
            r@ == spec_command_string(self.config, spec@),
    {
        let mut r = String::from_str(
            "ssh -o ServerAliveInterval=30 -o StrictHostKeyChecking=no -o ExitOnForwardFailure=yes ",
        );
        r.append(self.config.mode.to_ssh_flag());
        r.append(" ");
        let arg = spec.to_ssh_arg();
        r.append(arg.as_str());
        if let Some(key_path) = &self.config.remote.key {
            r.append(" -i ");
            r.append(key_path.as_str());
        }
        if self.config.remote.port != 22 {
            r.append(" -p ");
            let p = u16_to_string(self.config.remote.port);
            r.append(p.as_str());
        }
        r.append(" ");
        r.append(self.config.remote.user.as_str());
        r.append("@");
        r.append(self.config.remote.host.as_str());
        r
    }

    /// Lookup a configured remote probe target for the given spec (by its to_ssh_arg() string)
    pub fn remote_probe_target(&self, spec: &ForwardingSpec) -> (r: Option<(String, u16)>)
        ensures
            r is Some <==> spec_probe_target(self.config, spec@) is Some,
            r matches Some(t) ==> spec_probe_target(self.config, spec@) == Some((t.0@, t.1)),
    {
        let key = spec.to_ssh_arg();
        let map = match &self.config.remote_probes {
            Some(m) => m,
            None => {
                return None;
            },
        };
        let mut j: usize = 0;
        proof {
            assert(map@.skip(0) =~= map@);
        }
        while j < map.len()
            invariant
                j <= map@.len(),
                self.config.remote_probes matches Some(m) && m@ == map@,
                key@ == spec_ssh_arg(spec@),
                spec_probe_lookup(map@, key@) == spec_probe_lookup(
                    map@.skip(j as int),
                    key@,
                ),
            decreases map@.len() - j,
        {
            proof {
                assert(map@.skip(j as int)[0] == map@[j as int]);
                assert(map@.skip(j as int).drop_first() =~= map@.skip(j + 1));
            }
            if map[j].0 == key {
                let target = &map[j].1;
                let n = target.as_str().unicode_len();
                proof {
                    assert(target@.subrange(0, n as int) =~= target@);
                }
                let c = match rfind_colon(target.as_str(), n) {
                    Some(c) => c,
                    None => {
                        return None;
                    },
                };
                let port = match parse_u16_str(target.as_str().substring_char(c + 1, n)) {
                    Some(p) => p,
                    None => {
                        return None;
                    },
                };
                let host = target.as_str().substring_char(0, c).to_owned();
                return Some((host, port));
            }
            j = j + 1;
        }
        proof {
            assert(map@.skip(map@.len() as int) =~= Seq::<(String, String)>::empty());
        }
        None
    }
}

/// The spaced command line `build_command_string` renders, for logging.
pub open spec fn spec_command_string(c: Config, v: crate::forwarding::FwdView) -> Seq<char> {
    let head =
        "ssh -o ServerAliveInterval=30 -o StrictHostKeyChecking=no -o ExitOnForwardFailure=yes "@
        + spec_ssh_flag(c.mode) + " "@ + spec_ssh_arg(v);
    let with_key = match c.remote.key {
        Some(k) => head + " -i "@ + k@,
        None => head,
    };
    let with_port = if c.remote.port != 22 {
        with_key + " -p "@ + dec_rep(c.remote.port as int)
    } else {
        with_key
    };
    with_port + " "@ + c.remote.user@ + "@"@ + c.remote.host@
}

/// The connection timeout with its default applied.
pub fn timeout_or_default(c: &Config) -> (r: u64)
    ensures
        r == spec_timeout_secs(*c),
{
    match c.timeout {
        Some(t) => t,
        None => 2,
    }
}

} // verus!
