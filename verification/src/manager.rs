//! The tunnel supervisor's state machine.
//!
//! One `TunnelRecord` carries the bookkeeping for one forwarding: the child
//! process handle (owned here, generic so callers choose the handle type),
//! health, consecutive failure count, backoff and the restart deadline. The
//! management loop takes the child out, probes without any lock held, and
//! commits the observation through `commit_check` / `commit_restart`, whose
//! contracts pin every field of the successor state. The loop itself, the
//! probes and the process spawning live outside the library.

use vstd::arithmetic::div_mod::{
    lemma_div_is_ordered, lemma_div_multiples_vanish_fancy, lemma_fundamental_div_mod,
};
use vstd::arithmetic::mul::lemma_mul_inequality;
use vstd::prelude::*;

use crate::config::{spec_backoff_base, spec_backoff_max, spec_timeout_secs, Config};
use crate::error::{StunError, StunResult};
use crate::forwarding::{spec_parse, spec_ssh_arg, ForwardingSpec};
use crate::health::TunnelHealth;

verus! {

/// The supervisor's fixed and config-derived parameters.
#[derive(Debug, Clone, Copy)]
pub struct SupervisorParams {
    /// Probe timeout in seconds
    pub timeout_secs: u64,
    /// Cadence of the management loop in seconds
    pub health_check_interval_secs: u64,
    /// Grace before the local TCP probe, in milliseconds
    pub initial_settle_ms: u64,
    /// Consecutive failed probes before the backoff-restart cycle begins
    pub max_failures: u32,
    /// Smallest backoff, from the config
    pub backoff_base_secs: u64,
    /// Backoff cap, from the config
    pub backoff_max_secs: u64,
}

impl SupervisorParams {
    /// Parameters a validated config always yields.
    pub open spec fn wf(&self) -> bool {
        &&& 1 <= self.backoff_base_secs
        &&& self.backoff_base_secs <= self.backoff_max_secs
        &&& self.max_failures >= 1
    }

    /// Validate the config and derive the supervisor parameters: probe
    /// timeout and backoff bounds with their defaults applied, a five
    /// second check cadence, three strikes, half a second of settle time.
    pub fn from_config(config: &Config) -> (r: StunResult<SupervisorParams>)
        ensures
            r is Ok <==> config.spec_valid(),
            r matches Ok(p) ==> {
                &&& p.wf()
                &&& p.timeout_secs == spec_timeout_secs(*config)
                &&& p.backoff_base_secs == spec_backoff_base(*config)
                &&& p.backoff_max_secs == spec_backoff_max(*config)
                &&& p.max_failures == 3
                &&& p.health_check_interval_secs == 5
                &&& p.initial_settle_ms == 500
            },
            r is Err ==> r matches Err(StunError::Config(_)),
    {
        if let Err(e) = config.validate() {
            return Err(e);
        }
        let timeout: u64 = match config.timeout {
            Some(t) => t,
            None => 2,
        };
        let base: u64 = match config.backoff_base_secs {
            Some(b) => b,
            None => 1,
        };
        let max: u64 = match config.backoff_max_secs {
            Some(m) => m,
            None => 30,
        };
        Ok(
            SupervisorParams {
                timeout_secs: timeout,
                health_check_interval_secs: 5,
                initial_settle_ms: 500,
                max_failures: 3,
                backoff_base_secs: base,
                backoff_max_secs: max,
            },
        )
    }
}

/// A managed tunnel: its spec, its child process handle (if running) and
/// its health / failure / backoff bookkeeping. The handle type is generic;
/// the supervisor decides, callers own the processes.
pub struct TunnelRecord<C> {
    /// Canonical spec string, the record's key
    pub key: String,
    /// Forwarding specification
    pub spec: ForwardingSpec,
    /// The SSH child handle for this tunnel, exclusively owned here
    pub child: Option<C>,
    /// Current health status
    pub health: TunnelHealth,
    /// Number of consecutive health check failures
    pub failure_count: u32,
    /// Next allowed restart time in monotonic milliseconds; nothing is
    /// scheduled while it is `None`
    pub next_restart_at_ms: Option<u64>,
    /// Current backoff duration in seconds
    pub backoff_secs: u64,
}

/// What the management loop must still do after a commit.
pub enum CheckAction<C> {
    /// Nothing: the child (if any) is back in the record
    Done,
    /// Kill and await this child; the record has already given it up
    KillChild(C),
    /// Attempt `start_forwarding` and commit the outcome with
    /// `commit_restart`
    AttemptRestart,
}

/// The failure count after one more failed probe (saturating).
pub open spec fn spec_inc(fc: u32) -> u32 {
    if fc < u32::MAX {
        (fc + 1) as u32
    } else {
        fc
    }
}

/// The grown backoff: doubled, capped at `max`.
pub open spec fn spec_grow_backoff(b: u64, max: u64) -> u64 {
    if 2 * (b as int) >= max as int {
        max
    } else {
        (2 * b) as u64
    }
}

/// The jitter percentage for a spec: 80 plus a port-derived offset in
/// 0..=40, so always within 80..=120.
pub open spec fn spec_jitter_pct(bp: u16, rp: u16) -> int {
    80 + ((bp ^ rp) as int % 41)
}

/// The jittered delay: `ceil(base * pct / 100)`, the product saturating
/// at the integer limit. A pure function of the base and the two ports.
pub open spec fn spec_jitter(base_secs: u64, bp: u16, rp: u16) -> u64 {
    let pct = spec_jitter_pct(bp, rp);
    let prod = if base_secs as int * pct > u64::MAX as int {
        u64::MAX as int
    } else {
        base_secs as int * pct
    };
    (((prod + 99) / 100) as u64)
}

/// The restart deadline: now plus the delay, saturating.
pub open spec fn spec_deadline(now_ms: u64, delay_secs: u64) -> u64 {
    let t = now_ms as int + delay_secs as int * 1000;
    if t > u64::MAX as int {
        u64::MAX
    } else {
        t as u64
    }
}

/// Compute a deterministic jittered delay in seconds for backoff (80%-120%)
pub fn jitter_secs(base_secs: u64, spec: &ForwardingSpec) -> (r: u64)
    ensures
        r == spec_jitter(base_secs, spec.bind_port, spec.remote_port),
{
    let seed: u16 = spec.bind_port ^ spec.remote_port;
    let pct: u64 = 80 + (seed % 41) as u64;
    let prod: u64 = match base_secs.checked_mul(pct) {
        Some(v) => v,
        None => u64::MAX,
    };
    let q = prod / 100;
    let rem = prod % 100;
    proof {
        lemma_fundamental_div_mod(prod as int, 100);
        if rem != 0 {
            lemma_div_multiples_vanish_fancy((q + 1) as int, (rem - 1) as int, 100);
            assert(100 * ((q as int) + 1) + ((rem as int) - 1) == prod as int + 99);
        } else {
            lemma_div_multiples_vanish_fancy(q as int, 99, 100);
            assert(100 * (q as int) + 99 == prod as int + 99);
        }
    }
    if rem != 0 {
        q + 1
    } else {
        q
    }
}

/// The reachability verdict for one probed record: a dead child is never
/// reachable; with a live child, local mode and a configured remote
/// target both go by the probe's outcome, where an errored probe counts
/// as unreachable; a live child with no probe configured counts as
/// reachable, process liveness being the only available signal.
pub open spec fn spec_reachable_verdict(
    process_alive: bool,
    local_mode: bool,
    target_configured: bool,
    probe_outcome: Option<bool>,
) -> bool {
    if !process_alive {
        false
    } else if local_mode {
        probe_outcome == Some(true)
    } else if target_configured {
        probe_outcome == Some(true)
    } else {
        true
    }
}

/// Decide reachability from what the probes observed. `probe_outcome` is
/// what the TCP probe returned, or `None` where it errored or was not
/// run; `target_configured` says whether a remote probe target exists for
/// the record's spec.
pub fn reachable_verdict(
    process_alive: bool,
    local_mode: bool,
    target_configured: bool,
    probe_outcome: Option<bool>,
) -> (r: bool)
    ensures
        r == spec_reachable_verdict(process_alive, local_mode, target_configured, probe_outcome),
{
    if !process_alive {
        false
    } else if local_mode || target_configured {
        matches!(probe_outcome, Some(true))
    } else {
        true
    }
}

/// The record transition for one committed health observation.
pub open spec fn spec_commit_check<C>(
    r: TunnelRecord<C>,
    taken: Option<C>,
    healthy: bool,
    now_ms: u64,
    p: SupervisorParams,
) -> (TunnelRecord<C>, CheckAction<C>) {
    let fc2 = spec_inc(r.failure_count);
    if healthy {
        (
            TunnelRecord {
                child: taken,
                health: TunnelHealth::Healthy,
                failure_count: 0,
                next_restart_at_ms: None,
                backoff_secs: p.backoff_base_secs,
                ..r
            },
            CheckAction::Done,
        )
    } else if fc2 < p.max_failures {
        (
            TunnelRecord { child: taken, health: TunnelHealth::Down, failure_count: fc2, ..r },
            CheckAction::Done,
        )
    } else {
        match r.next_restart_at_ms {
            None => {
                let delay = spec_jitter(r.backoff_secs, r.spec.bind_port, r.spec.remote_port);
                (
                    TunnelRecord {
                        child: None,
                        health: TunnelHealth::Down,
                        failure_count: fc2,
                        next_restart_at_ms: Some(spec_deadline(now_ms, delay)),
                        ..r
                    },
                    match taken {
                        Some(c) => CheckAction::KillChild(c),
                        None => CheckAction::Done,
                    },
                )
            },
            Some(at) => (
                TunnelRecord { child: None, health: TunnelHealth::Down, failure_count: fc2, ..r },
                if now_ms < at {
                    CheckAction::Done
                } else {
                    CheckAction::AttemptRestart
                },
            ),
        }
    }
}

/// The record transition for the outcome of a restart attempt.
pub open spec fn spec_commit_restart<C>(
    r: TunnelRecord<C>,
    res: Option<C>,
    now_ms: u64,
    p: SupervisorParams,
) -> TunnelRecord<C> {
    match res {
        Some(c) => TunnelRecord {
            child: Some(c),
            health: TunnelHealth::Unknown,
            failure_count: 0,
            next_restart_at_ms: None,
            backoff_secs: p.backoff_base_secs,
            ..r
        },
        None => {
            let nb = spec_grow_backoff(r.backoff_secs, p.backoff_max_secs);
            let delay = spec_jitter(nb, r.spec.bind_port, r.spec.remote_port);
            TunnelRecord {
                child: None,
                health: TunnelHealth::Down,
                next_restart_at_ms: Some(spec_deadline(now_ms, delay)),
                backoff_secs: nb,
                ..r
            }
        },
    }
}

impl<C> TunnelRecord<C> {
    /// The record's resting invariant: a record without a child is never
    /// `Healthy`; a scheduled restart implies the failure threshold was
    /// crossed and the child is gone; the backoff stays within the
    /// configured bounds.
    pub open spec fn wf(&self, p: SupervisorParams) -> bool {
        &&& self.child is None ==> !(self.health is Healthy)
        &&& self.next_restart_at_ms is Some ==> self.failure_count >= p.max_failures
            && self.child is None
        &&& p.backoff_base_secs <= self.backoff_secs <= p.backoff_max_secs
    }

    /// The invariant during a check, when the child has been taken out:
    /// the resting invariant with the taken child in the child's place.
    pub open spec fn wf_checking(&self, taken: Option<C>, p: SupervisorParams) -> bool {
        &&& self.child is None
        &&& self.next_restart_at_ms is Some ==> self.failure_count >= p.max_failures
            && taken is None
        &&& p.backoff_base_secs <= self.backoff_secs <= p.backoff_max_secs
    }

    /// A fresh record for one parsed forwarding, keyed by its canonical
    /// string: no child yet, health unknown, backoff at the base.
    pub fn new(spec: ForwardingSpec, p: &SupervisorParams) -> (r: Self)
        requires
            p.wf(),
        ensures
            r.wf(*p),
            r.key@ == spec_ssh_arg(spec@),
            r.spec == spec,
            r.child is None,
            r.health is Unknown,
            r.failure_count == 0,
            r.next_restart_at_ms is None,
            r.backoff_secs == p.backoff_base_secs,
    {
        let key = spec.to_ssh_arg();
        TunnelRecord {
            key,
            spec,
            child: None,
            health: TunnelHealth::Unknown,
            failure_count: 0,
            next_restart_at_ms: None,
            backoff_secs: p.backoff_base_secs,
        }
    }

    /// Whether the record still waits for its first (or replacement) child.
    pub fn needs_start(&self) -> (r: bool)
        ensures
            r == (self.child is None),
    {
        self.child.is_none()
    }

    /// Commit the result of an initial spawn: install the child on
    /// success, mark the record down on failure. Nothing changes when a
    /// child is already present; the spare child is then handed back.
    pub fn apply_spawn(&mut self, res: Option<C>) -> (leftover: Option<C>)
        requires
            old(self).next_restart_at_ms is None,
        ensures
            forall|p: SupervisorParams| old(self).wf(p) ==> final(self).wf(p),
            old(self).child is Some ==> *final(self) == *old(self) && leftover == res,
            old(self).child is None && res is Some ==> *final(self) == (TunnelRecord {
                child: res,
                health: TunnelHealth::Unknown,
                failure_count: 0,
                ..*old(self)
            }) && leftover is None,
            old(self).child is None && res is None ==> *final(self) == (TunnelRecord {
                health: TunnelHealth::Down,
                ..*old(self)
            }) && leftover is None,
    {
        if self.child.is_some() {
            return res;
        }
        match res {
            Some(c) => {
                self.child = Some(c);
                self.health = TunnelHealth::Unknown;
                self.failure_count = 0;
            },
            None => {
                self.health = TunnelHealth::Down;
            },
        }
        None
    }

    /// Take the child out for a probe; every other field stays. A record
    /// that was well formed at rest is well formed for checking with the
    /// taken child.
    pub fn take_for_check(&mut self) -> (c: Option<C>)
        ensures
            c == old(self).child,
            *final(self) == (TunnelRecord { child: None, ..*old(self) }),
            forall|p: SupervisorParams| old(self).wf(p) ==> final(self).wf_checking(c, p),
    {
        self.child.take()
    }

    /// Commit one health observation: the heart of the per-record check.
    ///
    /// A healthy record gets its child back with the failure state
    /// cleared. An unhealthy one advances the failure count; at the
    /// threshold the child is surrendered for killing and a jittered
    /// restart deadline is scheduled; past the deadline the caller is told
    /// to attempt the restart.
    pub fn commit_check(
        &mut self,
        taken: Option<C>,
        process_alive: bool,
        reachable: bool,
        now_ms: u64,
        p: &SupervisorParams,
    ) -> (action: CheckAction<C>)
        requires
            p.wf(),
            old(self).wf_checking(taken, *p),
            process_alive ==> taken is Some,
        ensures
            (*final(self), action) == spec_commit_check(
                *old(self),
                taken,
                process_alive && reachable,
                now_ms,
                *p,
            ),
            final(self).wf(*p),
            final(self).key == old(self).key,
            final(self).spec == old(self).spec,
    {
        let healthy = process_alive && reachable;
        let fc2: u32 = if self.failure_count < u32::MAX {
            self.failure_count + 1
        } else {
            self.failure_count
        };
        if healthy {
            self.child = taken;
            self.health = TunnelHealth::Healthy;
            self.failure_count = 0;
            self.next_restart_at_ms = None;
            self.backoff_secs = p.backoff_base_secs;
            CheckAction::Done
        } else if fc2 < p.max_failures {
            self.child = taken;
            self.health = TunnelHealth::Down;
            self.failure_count = fc2;
            CheckAction::Done
        } else {
            match self.next_restart_at_ms {
                None => {
                    let delay = jitter_secs(self.backoff_secs, &self.spec);
                    let dl = deadline_ms(now_ms, delay);
                    self.health = TunnelHealth::Down;
                    self.failure_count = fc2;
                    self.next_restart_at_ms = Some(dl);
                    match taken {
                        Some(c) => CheckAction::KillChild(c),
                        None => CheckAction::Done,
                    }
                },
                Some(at) => {
                    self.health = TunnelHealth::Down;
                    self.failure_count = fc2;
                    if now_ms < at {
                        CheckAction::Done
                    } else {
                        CheckAction::AttemptRestart
                    }
                },
            }
        }
    }

    /// Commit the outcome of a restart attempt: install the new child and
    /// reset the failure state, or grow the backoff and schedule the next
    /// deadline with the failure count preserved.
    pub fn commit_restart(&mut self, res: Option<C>, now_ms: u64, p: &SupervisorParams)
        requires
            p.wf(),
            old(self).wf(*p),
            old(self).child is None,
            old(self).next_restart_at_ms is Some,
        ensures
            *final(self) == spec_commit_restart(*old(self), res, now_ms, *p),
            final(self).wf(*p),
            final(self).key == old(self).key,
            final(self).spec == old(self).spec,
    {
        match res {
            Some(c) => {
                self.child = Some(c);
                self.health = TunnelHealth::Unknown;
                self.failure_count = 0;
                self.next_restart_at_ms = None;
                self.backoff_secs = p.backoff_base_secs;
            },
            None => {
                let nb: u64 = if self.backoff_secs > p.backoff_max_secs / 2 {
                    p.backoff_max_secs
                } else {
                    self.backoff_secs * 2
                };
                let delay = jitter_secs(nb, &self.spec);
                let dl = deadline_ms(now_ms, delay);
                self.child = None;
                self.health = TunnelHealth::Down;
                self.next_restart_at_ms = Some(dl);
                self.backoff_secs = nb;
            },
        }
    }
}

/// The restart deadline in monotonic milliseconds, saturating.
fn deadline_ms(now_ms: u64, delay_secs: u64) -> (r: u64)
    ensures
        r == spec_deadline(now_ms, delay_secs),
{
    match delay_secs.checked_mul(1000) {
        Some(ms) => match now_ms.checked_add(ms) {
            Some(t) => t,
            None => u64::MAX,
        },
        None => u64::MAX,
    }
}

/// Parse every forwarding entry and build one fresh record per entry, in
/// order. A single bad entry fails the whole startup.
pub fn build_records<C>(list: &Vec<String>, p: &SupervisorParams) -> (r: StunResult<
    Vec<TunnelRecord<C>>,
>)
    requires
        p.wf(),
    ensures
        r is Ok <==> (forall|i: int| 0 <= i < list@.len() ==> spec_parse(list@[i]@) is Some),
        r matches Ok(rs) ==> {
            &&& rs@.len() == list@.len()
            &&& forall|i: int|
                #![trigger list@[i]]
                #![trigger rs@[i]]
                0 <= i < rs@.len() ==> {
                    &&& spec_parse(list@[i]@) == Some(rs@[i].spec@)
                    &&& rs@[i].key@ == spec_ssh_arg(rs@[i].spec@)
                    &&& rs@[i].child is None
                    &&& rs@[i].health is Unknown
                    &&& rs@[i].failure_count == 0
                    &&& rs@[i].next_restart_at_ms is None
                    &&& rs@[i].backoff_secs == p.backoff_base_secs
                    &&& rs@[i].wf(*p)
                }
        },
        r is Err ==> r matches Err(StunError::Config(_)),
{
    let mut rs: Vec<TunnelRecord<C>> = Vec::new();
    let mut i: usize = 0;
    while i < list.len()
        invariant
            p.wf(),
            i <= list@.len(),
            rs@.len() == i,
            forall|k: int|
                #![trigger list@[k]]
                #![trigger rs@[k]]
                0 <= k < i as int ==> {
                    &&& spec_parse(list@[k]@) == Some(rs@[k].spec@)
                    &&& rs@[k].key@ == spec_ssh_arg(rs@[k].spec@)
                    &&& rs@[k].child is None
                    &&& rs@[k].health is Unknown
                    &&& rs@[k].failure_count == 0
                    &&& rs@[k].next_restart_at_ms is None
                    &&& rs@[k].backoff_secs == p.backoff_base_secs
                    &&& rs@[k].wf(*p)
                },
        decreases list@.len() - i,
    {
        let spec = match ForwardingSpec::parse(list[i].as_str()) {
            Ok(s) => s,
            Err(e) => {
                return Err(e);
            },
        };
        rs.push(TunnelRecord::new(spec, p));
        i = i + 1;
    }
    Ok(rs)
}

/// The health of every record, keyed by its canonical spec string, in
/// record order.
pub fn status_snapshot<C>(records: &Vec<TunnelRecord<C>>) -> (r: Vec<(String, TunnelHealth)>)
    ensures
        r@.len() == records@.len(),
        forall|i: int|
            0 <= i < r@.len() ==> (#[trigger] r@[i]).0@ == records@[i].key@ && r@[i].1
                == records@[i].health,
{
    let mut r: Vec<(String, TunnelHealth)> = Vec::new();
    let mut j: usize = 0;
    while j < records.len()
        invariant
            j <= records@.len(),
            r@.len() == j,
            forall|i: int|
                0 <= i < j as int ==> (#[trigger] r@[i]).0@ == records@[i].key@ && r@[i].1
                    == records@[i].health,
        decreases records@.len() - j,
    {
        r.push((records[j].key.clone(), records[j].health));
        j = j + 1;
    }
    r
}

/// The children the listed records hold, in order.
pub open spec fn spec_children_of<C>(rs: Seq<TunnelRecord<C>>) -> Seq<C>
    decreases rs.len(),
{
    if rs.len() == 0 {
        Seq::empty()
    } else {
        spec_children_of(rs.drop_last()) + (match rs.last().child {
            Some(c) => seq![c],
            None => Seq::empty(),
        })
    }
}

/// Remove every record and hand back every child it held, for the caller
/// to kill and await. After this nothing remains to restart: stop is
/// terminal.
pub fn drain_for_stop<C>(records: &mut Vec<TunnelRecord<C>>) -> (children: Vec<C>)
    ensures
        final(records)@.len() == 0,
        children@ == spec_children_of(old(records)@),
{
    let mut out: Vec<C> = Vec::new();
    let mut j: usize = 0;
    proof {
        assert(old(records)@.subrange(0, 0) =~= Seq::<TunnelRecord<C>>::empty());
    }
    while j < records.len()
        invariant
            j <= records@.len(),
            records@.len() == old(records)@.len(),
            forall|k: int| j as int <= k < records@.len() ==> records@[k] == old(records)@[k],
            out@ == spec_children_of(old(records)@.subrange(0, j as int)),
        decreases records@.len() - j,
    {
        proof {
            let pre = old(records)@.subrange(0, j as int);
            let cur = old(records)@.subrange(0, j + 1);
            assert(cur.drop_last() =~= pre);
            assert(cur.last() == old(records)@[j as int]);
        }
        let c = records[j].child.take();
        if let Some(ch) = c {
            out.push(ch);
        }
        j = j + 1;
    }
    proof {
        assert(old(records)@.subrange(0, old(records)@.len() as int) =~= old(records)@);
    }
    records.clear();
    out
}

/// Stopping is idempotent: once the records are drained, a second stop
/// finds nothing and yields no children to kill.
pub proof fn lemma_stop_idempotent<C>()
    ensures
        spec_children_of(Seq::<TunnelRecord<C>>::empty()).len() == 0,
{
}

/// A record without a child is never `Healthy`: it is `Unknown` or `Down`.
pub proof fn lemma_no_child_not_healthy<C>(r: TunnelRecord<C>, p: SupervisorParams)
    requires
        r.wf(p),
        r.child is None,
    ensures
        r.health is Unknown || r.health is Down,
{
}

/// A scheduled restart deadline implies the failure threshold was reached
/// and the child is gone.
pub proof fn lemma_deadline_implies_threshold<C>(r: TunnelRecord<C>, p: SupervisorParams)
    requires
        r.wf(p),
        r.next_restart_at_ms is Some,
    ensures
        r.failure_count >= p.max_failures,
        r.child is None,
{
}

/// Across consecutive failed restart attempts the backoff strictly
/// increases until it reaches the cap, and stays there once reached.
pub proof fn lemma_backoff_growth(b: u64, p: SupervisorParams)
    requires
        p.wf(),
        p.backoff_base_secs <= b <= p.backoff_max_secs,
    ensures
        b < p.backoff_max_secs ==> spec_grow_backoff(b, p.backoff_max_secs) > b,
        p.backoff_base_secs <= spec_grow_backoff(b, p.backoff_max_secs) <= p.backoff_max_secs,
        b == p.backoff_max_secs ==> spec_grow_backoff(b, p.backoff_max_secs) == b,
{
}

/// Across two consecutive failed restart attempts the backoff strictly
/// increases until it reaches the cap; once at the cap it stays there,
/// and it never leaves the configured bounds.
pub proof fn lemma_backoff_growth_across_failures<C>(
    r: TunnelRecord<C>,
    now1: u64,
    now2: u64,
    p: SupervisorParams,
)
    requires
        p.wf(),
        r.wf(p),
        r.next_restart_at_ms is Some,
    ensures
        ({
            let r1 = spec_commit_restart(r, None::<C>, now1, p);
            let r2 = spec_commit_restart(r1, None::<C>, now2, p);
            &&& r.backoff_secs < p.backoff_max_secs ==> r1.backoff_secs > r.backoff_secs
            &&& r1.backoff_secs < p.backoff_max_secs ==> r2.backoff_secs > r1.backoff_secs
            &&& r1.backoff_secs == p.backoff_max_secs ==> r2.backoff_secs == p.backoff_max_secs
            &&& p.backoff_base_secs <= r1.backoff_secs <= p.backoff_max_secs
            &&& p.backoff_base_secs <= r2.backoff_secs <= p.backoff_max_secs
        }),
{
    lemma_backoff_growth(r.backoff_secs, p);
    let r1 = spec_commit_restart(r, None::<C>, now1, p);
    lemma_backoff_growth(r1.backoff_secs, p);
}

/// The jittered delay lies within `[ceil(0.8 * base), ceil(1.2 * base)]`
/// whenever the product cannot saturate, and depends on nothing but the
/// base and the two ports.
pub proof fn lemma_jitter_bounds(base_secs: u64, bp: u16, rp: u16)
    requires
        base_secs as int * 120 <= u64::MAX as int,
    ensures
        (80 * base_secs as int + 99) / 100 <= spec_jitter(base_secs, bp, rp) as int,
        spec_jitter(base_secs, bp, rp) as int <= (120 * base_secs as int + 99) / 100,
{
    let pct = spec_jitter_pct(bp, rp);
    let b = base_secs as int;
    assert(80 <= pct <= 120);
    lemma_mul_inequality(pct, 120, b);
    lemma_mul_inequality(80, pct, b);
    assert(b * pct <= u64::MAX as int);
    lemma_div_is_ordered(80 * b + 99, b * pct + 99, 100);
    lemma_div_is_ordered(b * pct + 99, 120 * b + 99, 100);
}

} // verus!
