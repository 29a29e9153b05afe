//! Forwarding specifications: parsing and canonical rendering.

use vstd::prelude::*;

use crate::error::{StunError, StunResult};
use crate::text::{
    all_digits, dec_rep, dec_val, last_colon, lemma_dec_rep_digits, lemma_dec_val_dec_rep,
    lemma_last_colon_concat, lemma_last_colon_props, no_colon, parse_u16_spec, parse_u16_str,
    rfind_colon, u16_to_string,
};

verus! {

/// Represents a port forwarding specification
#[derive(Debug, Clone, PartialEq)]
pub struct ForwardingSpec {
    /// Local/bind address (optional)
    pub bind_address: Option<String>,
    /// Local/bind port
    pub bind_port: u16,
    /// Remote host
    pub remote_host: String,
    /// Remote port
    pub remote_port: u16,
}

/// The mathematical content of a forwarding specification: the strings as
/// character sequences.
pub struct FwdView {
    pub bind_address: Option<Seq<char>>,
    pub bind_port: u16,
    pub remote_host: Seq<char>,
    pub remote_port: u16,
}

impl View for ForwardingSpec {
    type V = FwdView;

    open spec fn view(&self) -> FwdView {
        FwdView {
            bind_address: match self.bind_address {
                Some(a) => Some(a@),
                None => None,
            },
            bind_port: self.bind_port,
            remote_host: self.remote_host@,
            remote_port: self.remote_port,
        }
    }
}

/// What parsing a forwarding string yields: split at the last colon for the
/// remote port, at the next-to-last for the remote host (which must be
/// non-empty), and the remaining prefix is `bind_port` or
/// `bind_address:bind_port`. Parsing from the right keeps bracketed IPv6
/// bind addresses intact.
pub open spec fn spec_parse(s: Seq<char>) -> Option<FwdView> {
    let c1 = last_colon(s);
    if c1 < 0 {
        None
    } else {
        match parse_u16_spec(s.subrange(c1 + 1, s.len() as int)) {
            None => None,
            Some(rp) => {
                let rest = s.subrange(0, c1);
                let c2 = last_colon(rest);
                if c2 < 0 {
                    None
                } else {
                    let host = rest.subrange(c2 + 1, rest.len() as int);
                    if host.len() == 0 {
                        None
                    } else {
                        let rest2 = rest.subrange(0, c2);
                        let c3 = last_colon(rest2);
                        let bind_part = if c3 < 0 {
                            rest2
                        } else {
                            rest2.subrange(c3 + 1, rest2.len() as int)
                        };
                        match parse_u16_spec(bind_part) {
                            None => None,
                            Some(bp) => Some(
                                FwdView {
                                    bind_address: if c3 < 0 {
                                        None
                                    } else {
                                        Some(rest2.subrange(0, c3))
                                    },
                                    bind_port: bp,
                                    remote_host: host,
                                    remote_port: rp,
                                },
                            ),
                        }
                    }
                }
            },
        }
    }
}

/// The canonical argument string `[bind:]bport:rhost:rport` of a
/// forwarding specification.
pub open spec fn spec_ssh_arg(v: FwdView) -> Seq<char> {
    match v.bind_address {
        Some(a) => a + seq![':'] + dec_rep(v.bind_port as int) + seq![':'] + v.remote_host
            + seq![':'] + dec_rep(v.remote_port as int),
        None => dec_rep(v.bind_port as int) + seq![':'] + v.remote_host + seq![':'] + dec_rep(
            v.remote_port as int,
        ),
    }
}

/// The bind address, defaulting to loopback when none is given.
pub open spec fn spec_effective_bind(v: FwdView) -> Seq<char> {
    match v.bind_address {
        Some(a) => a,
        None => "127.0.0.1"@,
    }
}

impl ForwardingSpec {
    /// Parse a forwarding specification string
    ///
    /// Supported formats:
    /// - "port:host:port" (e.g., "8080:127.0.0.1:8080")
    /// - "address:port:host:port" (e.g., "0.0.0.0:8080:127.0.0.1:8080")
    /// - IPv6 addresses must be enclosed in brackets, e.g., "[::1]:80:localhost:80"
    pub fn parse(spec: &str) -> (r: StunResult<ForwardingSpec>)
        ensures
            r is Ok <==> spec_parse(spec@) is Some,
            r matches Ok(f) ==> spec_parse(spec@) == Some(f@),
            r is Err ==> r matches Err(StunError::Config(_)),
    {
        let n = spec.unicode_len();
        proof {
            assert(spec@.subrange(0, n as int) =~= spec@);
        }
        let c1 = match rfind_colon(spec, n) {
            Some(i) => i,
            None => {
                return Err(
                    StunError::Config(
                        String::from_str("Invalid forwarding specification: ").concat(spec),
                    ),
                );
            },
        };
        proof {
            lemma_last_colon_props(spec@);
        }
        let rp_str = spec.substring_char(c1 + 1, n);
        let rp = match parse_u16_str(rp_str) {
            Some(p) => p,
            None => {
                return Err(
                    StunError::Config(String::from_str("Invalid remote port: ").concat(rp_str)),
                );
            },
        };
        let ghost rest = spec@.subrange(0, c1 as int);
        let c2 = match rfind_colon(spec, c1) {
            Some(i) => i,
            None => {
                return Err(
                    StunError::Config(
                        String::from_str("Invalid forwarding specification: ").concat(spec),
                    ),
                );
            },
        };
        proof {
            lemma_last_colon_props(rest);
            assert(rest.subrange(c2 + 1, rest.len() as int) =~= spec@.subrange(c2 + 1, c1 as int));
        }
        let host_str = spec.substring_char(c2 + 1, c1);
        if host_str.is_empty() {
            return Err(
                StunError::Config(
                    String::from_str("Invalid forwarding specification: ").concat(spec),
                ),
            );
        }
        let ghost rest2 = rest.subrange(0, c2 as int);
        proof {
            assert(rest2 =~= spec@.subrange(0, c2 as int));
        }
        let c3_opt = rfind_colon(spec, c2);
        let (bind_addr, bp_str): (Option<String>, &str) = match c3_opt {
            Some(c3) => {
                proof {
                    lemma_last_colon_props(rest2);
                    assert(rest2.subrange(c3 + 1, rest2.len() as int) =~= spec@.subrange(
                        c3 + 1,
                        c2 as int,
                    ));
                    assert(rest2.subrange(0, c3 as int) =~= spec@.subrange(0, c3 as int));
                }
                let a = spec.substring_char(0, c3);
                (Some(a.to_owned()), spec.substring_char(c3 + 1, c2))
            },
            None => (None, spec.substring_char(0, c2)),
        };
        let bp = match parse_u16_str(bp_str) {
            Some(p) => p,
            None => {
                return Err(
                    StunError::Config(String::from_str("Invalid bind port: ").concat(bp_str)),
                );
            },
        };
        let f = ForwardingSpec {
            bind_address: bind_addr,
            bind_port: bp,
            remote_host: host_str.to_owned(),
            remote_port: rp,
        };
        Ok(f)
    }

    /// Convert to SSH forwarding argument format
    pub fn to_ssh_arg(&self) -> (r: String)
        ensures
            r@ == spec_ssh_arg(self@),
    {
        proof {
            reveal_strlit(":");
            assert(":"@ =~= seq![':']);
        }
        let mut r = String::new();
        match &self.bind_address {
            Some(addr) => {
                r.append(addr.as_str());
                r.append(":");
            },
            None => {},
        }
        let bp = u16_to_string(self.bind_port);
        r.append(bp.as_str());
        r.append(":");
        r.append(self.remote_host.as_str());
        r.append(":");
        let rp = u16_to_string(self.remote_port);
        r.append(rp.as_str());
        r
    }

    /// Get the effective bind address (default to 127.0.0.1 if not specified)
    pub fn effective_bind_address(&self) -> (r: &str)
        ensures
            r@ == spec_effective_bind(self@),
    {
        match &self.bind_address {
            Some(addr) => addr.as_str(),
            None => "127.0.0.1",
        }
    }

    /// The `host:port` address the local TCP health probe connects to:
    /// the effective bind address and the bind port.
    pub fn local_probe_address(&self) -> (r: String)
        ensures
            r@ == spec_effective_bind(self@) + seq![':'] + dec_rep(self.bind_port as int),
    {
        proof {
            reveal_strlit(":");
            assert(":"@ =~= seq![':']);
        }
        let mut r = String::new();
        r.append(self.effective_bind_address());
        r.append(":");
        let p = u16_to_string(self.bind_port);
        r.append(p.as_str());
        r
    }
}

/// Parsing inverts canonical rendering: every forwarding value whose host
/// is non-empty and colon-free is recovered exactly from its argument
/// string. Hence a canonical string survives a parse / render round trip
/// unchanged.
pub proof fn lemma_parse_round_trip(v: FwdView)
    requires
        v.remote_host.len() > 0,
        no_colon(v.remote_host),
    ensures
        spec_parse(spec_ssh_arg(v)) == Some(v),
{
    let bseq = dec_rep(v.bind_port as int);
    let h = v.remote_host;
    let rseq = dec_rep(v.remote_port as int);
    let s = spec_ssh_arg(v);
    lemma_dec_rep_digits(v.bind_port as int);
    lemma_dec_rep_digits(v.remote_port as int);
    lemma_dec_val_dec_rep(v.bind_port as int);
    lemma_dec_val_dec_rep(v.remote_port as int);
    match v.bind_address {
        None => {
            let pre = bseq + seq![':'] + h;
            assert(s =~= pre + seq![':'] + rseq);
            lemma_last_colon_concat(pre, rseq);
            let c1 = last_colon(s);
            assert(c1 == pre.len());
            assert(s.subrange(c1 + 1, s.len() as int) =~= rseq);
            assert(parse_u16_spec(rseq) == Some(v.remote_port));
            let rest = s.subrange(0, c1);
            assert(rest =~= bseq + seq![':'] + h);
            lemma_last_colon_concat(bseq, h);
            let c2 = last_colon(rest);
            assert(c2 == bseq.len());
            assert(rest.subrange(c2 + 1, rest.len() as int) =~= h);
            let rest2 = rest.subrange(0, c2);
            assert(rest2 =~= bseq);
            lemma_last_colon_props(bseq);
            assert(last_colon(rest2) == -1);
            assert(parse_u16_spec(bseq) == Some(v.bind_port));
        },
        Some(a) => {
            let pre = a + seq![':'] + bseq + seq![':'] + h;
            assert(s =~= pre + seq![':'] + rseq);
            lemma_last_colon_concat(pre, rseq);
            let c1 = last_colon(s);
            assert(c1 == pre.len());
            assert(s.subrange(c1 + 1, s.len() as int) =~= rseq);
            assert(parse_u16_spec(rseq) == Some(v.remote_port));
            let rest = s.subrange(0, c1);
            assert(rest =~= a + seq![':'] + bseq + seq![':'] + h);
            lemma_last_colon_concat(a + seq![':'] + bseq, h);
            let c2 = last_colon(rest);
            assert(c2 == (a + seq![':'] + bseq).len());
            assert(rest.subrange(c2 + 1, rest.len() as int) =~= h);
            let rest2 = rest.subrange(0, c2);
            assert(rest2 =~= a + seq![':'] + bseq);
            lemma_last_colon_concat(a, bseq);
            let c3 = last_colon(rest2);
            assert(c3 == a.len());
            assert(rest2.subrange(c3 + 1, rest2.len() as int) =~= bseq);
            assert(parse_u16_spec(bseq) == Some(v.bind_port));
            assert(rest2.subrange(0, c3) =~= a);
        },
    }
}

/// The canonical argument string is the specification's identity: two
/// well-formed forwarding values with the same canonical string are equal.
pub proof fn lemma_canonical_identity(v1: FwdView, v2: FwdView)
    requires
        v1.remote_host.len() > 0,
        no_colon(v1.remote_host),
        v2.remote_host.len() > 0,
        no_colon(v2.remote_host),
        spec_ssh_arg(v1) == spec_ssh_arg(v2),
    ensures
        v1 == v2,
{
    lemma_parse_round_trip(v1);
    lemma_parse_round_trip(v2);
}

} // verus!
