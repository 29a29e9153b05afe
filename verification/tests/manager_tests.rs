use stun::config::{Config, ForwardingMode, RemoteConfig};
use stun::forwarding::ForwardingSpec;
use stun::health::TunnelHealth;
use stun::manager::{
    build_records, drain_for_stop, jitter_secs, reachable_verdict, status_snapshot, CheckAction,
    SupervisorParams, TunnelRecord,
};

fn test_params() -> SupervisorParams {
    SupervisorParams {
        timeout_secs: 1,
        health_check_interval_secs: 5,
        initial_settle_ms: 500,
        max_failures: 3,
        backoff_base_secs: 1,
        backoff_max_secs: 30,
    }
}

fn test_config() -> Config {
    Config {
        mode: ForwardingMode::Local,
        remote: RemoteConfig {
            host: "127.0.0.1".to_string(),
            port: 22,
            user: "testuser".to_string(),
            key: None,
        },
        forwarding_list: vec![
            "18080:127.0.0.1:8080".to_string(),
            "19000:127.0.0.1:9000".to_string(),
        ],
        timeout: Some(1),
        remote_probes: None,
        backoff_base_secs: None,
        backoff_max_secs: None,
    }
}

// Mock child handles are plain numbers.
type MockChild = u32;

fn fresh_record() -> TunnelRecord<MockChild> {
    let spec = ForwardingSpec::parse("8080:127.0.0.1:9000").unwrap();
    TunnelRecord::new(spec, &test_params())
}

/// One unhealthy tick: take the child out, observe a dead probe, commit.
fn unhealthy_tick(
    rec: &mut TunnelRecord<MockChild>,
    now_ms: u64,
    p: &SupervisorParams,
) -> CheckAction<MockChild> {
    let taken = rec.take_for_check();
    let action = rec.commit_check(taken, false, false, now_ms, p);
    assert_record_invariants(rec, p);
    action
}

/// The record invariants: no child implies not healthy; a scheduled
/// restart implies the threshold was crossed and the child is gone; the
/// backoff stays within bounds.
fn assert_record_invariants(rec: &TunnelRecord<MockChild>, p: &SupervisorParams) {
    if rec.child.is_none() {
        assert_ne!(rec.health, TunnelHealth::Healthy);
    }
    if rec.next_restart_at_ms.is_some() {
        assert!(rec.failure_count >= p.max_failures);
        assert!(rec.child.is_none());
    }
    assert!(rec.backoff_secs >= p.backoff_base_secs);
    assert!(rec.backoff_secs <= p.backoff_max_secs);
}

#[test]
fn test_from_config_defaults() {
    let params = SupervisorParams::from_config(&test_config()).unwrap();
    assert_eq!(params.timeout_secs, 1);
    assert_eq!(params.health_check_interval_secs, 5);
    assert_eq!(params.initial_settle_ms, 500);
    assert_eq!(params.max_failures, 3);
    assert_eq!(params.backoff_base_secs, 1);
    assert_eq!(params.backoff_max_secs, 30);

    let mut config = test_config();
    config.timeout = None;
    let params = SupervisorParams::from_config(&config).unwrap();
    assert_eq!(params.timeout_secs, 2);
}

#[test]
fn test_from_config_rejects_invalid() {
    let mut config = test_config();
    config.forwarding_list = vec!["invalid".to_string()];
    assert!(SupervisorParams::from_config(&config).is_err());
}

#[test]
fn test_build_records_fresh() {
    let params = SupervisorParams::from_config(&test_config()).unwrap();
    let records: Vec<TunnelRecord<MockChild>> =
        build_records(&test_config().forwarding_list, &params).unwrap();
    assert_eq!(records.len(), 2);
    for rec in &records {
        assert!(rec.child.is_none());
        assert_eq!(rec.health, TunnelHealth::Unknown);
        assert_eq!(rec.failure_count, 0);
        assert_eq!(rec.next_restart_at_ms, None);
        assert_eq!(rec.backoff_secs, 1);
    }
    assert_eq!(records[0].key, "18080:127.0.0.1:8080");
    assert_eq!(records[1].key, "19000:127.0.0.1:9000");
}

#[test]
fn test_build_records_bad_entry_aborts() {
    let params = test_params();
    let list = vec!["8080:127.0.0.1:9000".to_string(), "invalid".to_string()];
    let r: Result<Vec<TunnelRecord<MockChild>>, _> = build_records(&list, &params);
    assert!(r.is_err());
}

#[test]
fn test_jitter_determinism() {
    let spec = ForwardingSpec::parse("8080:127.0.0.1:9000").unwrap();
    // pct = 80 + ((8080 ^ 9000) mod 41) = 85, so ceil(4 * 85 / 100) = 4
    let first = jitter_secs(4, &spec);
    let second = jitter_secs(4, &spec);
    assert_eq!(first, second);
    assert!(first >= 4 && first <= 5);
    assert_eq!(first, 4);
    // the percentage itself: ceil(100 * 85 / 100)
    assert_eq!(jitter_secs(100, &spec), 85);
}

#[test]
fn test_jitter_bounds_base_one() {
    // any spec: jitter(1) must be ceil(pct/100) = 1
    for s in ["1:h:1", "8080:127.0.0.1:9000", "65535:h:65535"] {
        let spec = ForwardingSpec::parse(s).unwrap();
        assert_eq!(jitter_secs(1, &spec), 1);
    }
}

#[test]
fn test_backoff_growth_under_persistent_failure() {
    let p = test_params();
    let mut rec = fresh_record();
    rec.apply_spawn(Some(11));
    assert_eq!(rec.child, Some(11));

    let spec = rec.spec.clone();
    let jitter_of = move |b: u64| jitter_secs(b, &spec);

    // three consecutive unhealthy ticks cross the threshold
    let mut now: u64 = 1_000;
    assert!(matches!(unhealthy_tick(&mut rec, now, &p), CheckAction::Done));
    assert_eq!(rec.failure_count, 1);
    assert_eq!(rec.health, TunnelHealth::Down);
    now += 5_000;
    assert!(matches!(unhealthy_tick(&mut rec, now, &p), CheckAction::Done));
    assert_eq!(rec.failure_count, 2);
    now += 5_000;
    let action = unhealthy_tick(&mut rec, now, &p);
    // the child is surrendered for killing and a restart is scheduled
    assert!(matches!(action, CheckAction::KillChild(11)));
    assert_eq!(rec.child, None);
    assert_eq!(rec.failure_count, 3);
    assert_eq!(rec.backoff_secs, 1);
    assert_eq!(rec.next_restart_at_ms, Some(now + jitter_of(1) * 1000));

    // before the deadline nothing restarts
    let early = unhealthy_tick(&mut rec, now + 1, &p);
    assert!(matches!(early, CheckAction::Done));
    assert_eq!(rec.next_restart_at_ms, Some(now + jitter_of(1) * 1000));

    // each failed restart doubles the backoff until the cap holds
    let mut expected: u64 = 1;
    loop {
        let deadline = rec.next_restart_at_ms.unwrap();
        now = deadline;
        let action = unhealthy_tick(&mut rec, now, &p);
        assert!(matches!(action, CheckAction::AttemptRestart));
        rec.commit_restart(None, now, &p);
        let grown = (expected * 2).min(p.backoff_max_secs);
        assert_eq!(rec.backoff_secs, grown);
        assert_eq!(rec.health, TunnelHealth::Down);
        assert_eq!(rec.child, None);
        assert_eq!(rec.next_restart_at_ms, Some(now + jitter_of(grown) * 1000));
        if grown == expected {
            // capped: the backoff stays at the maximum
            assert_eq!(grown, p.backoff_max_secs);
            break;
        }
        expected = grown;
    }
    assert_eq!(rec.backoff_secs, 30);
}

#[test]
fn test_recovery_path() {
    let p = test_params();
    let mut rec = fresh_record();
    rec.apply_spawn(Some(5));

    // cross the failure threshold
    let mut now: u64 = 10_000;
    for _ in 0..3 {
        unhealthy_tick(&mut rec, now, &p);
        now += 5_000;
    }
    assert!(rec.next_restart_at_ms.is_some());

    // two restart attempts fail, the third succeeds
    for _ in 0..2 {
        now = rec.next_restart_at_ms.unwrap();
        let action = unhealthy_tick(&mut rec, now, &p);
        assert!(matches!(action, CheckAction::AttemptRestart));
        rec.commit_restart(None, now, &p);
    }
    now = rec.next_restart_at_ms.unwrap();
    let action = unhealthy_tick(&mut rec, now, &p);
    assert!(matches!(action, CheckAction::AttemptRestart));
    rec.commit_restart(Some(6), now, &p);
    assert_record_invariants(&rec, &p);
    assert_eq!(rec.child, Some(6));
    assert_eq!(rec.health, TunnelHealth::Unknown);
    assert_eq!(rec.failure_count, 0);
    assert_eq!(rec.next_restart_at_ms, None);
    assert_eq!(rec.backoff_secs, p.backoff_base_secs);

    // a healthy probe confirms recovery
    let taken = rec.take_for_check();
    let action = rec.commit_check(taken, true, true, now + 5_000, &p);
    assert!(matches!(action, CheckAction::Done));
    assert_eq!(rec.health, TunnelHealth::Healthy);
    assert_eq!(rec.failure_count, 0);
    assert_eq!(rec.next_restart_at_ms, None);
    assert_eq!(rec.backoff_secs, p.backoff_base_secs);
    assert_eq!(rec.child, Some(6));
}

#[test]
fn test_reachable_verdict() {
    // a dead child is never reachable
    assert!(!reachable_verdict(false, true, false, None));
    assert!(!reachable_verdict(false, false, true, Some(true)));

    // local mode goes by the TCP probe
    assert!(reachable_verdict(true, true, false, Some(true)));
    assert!(!reachable_verdict(true, true, false, Some(false)));

    // remote mode with a configured target goes by the remote probe;
    // an errored probe counts as unreachable
    assert!(reachable_verdict(true, false, true, Some(true)));
    assert!(!reachable_verdict(true, false, true, Some(false)));
    assert!(!reachable_verdict(true, false, true, None));

    // remote mode without a target: a live child alone implies reachable
    assert!(reachable_verdict(true, false, false, None));
}

#[test]
fn test_liveness_only_implies_healthy() {
    // remote mode, live child, no probe configured: the verdict is
    // reachable and the commit turns the record healthy
    let p = test_params();
    let mut rec = fresh_record();
    rec.apply_spawn(Some(3));

    let reachable = reachable_verdict(true, false, false, None);
    assert!(reachable);
    let taken = rec.take_for_check();
    rec.commit_check(taken, true, reachable, 1_000, &p);
    assert_eq!(rec.health, TunnelHealth::Healthy);
    assert_eq!(rec.failure_count, 0);
    assert_eq!(rec.next_restart_at_ms, None);
    assert_eq!(rec.child, Some(3));
}

#[test]
fn test_healthy_probe_resets_failures() {
    let p = test_params();
    let mut rec = fresh_record();
    rec.apply_spawn(Some(1));

    // two failures, then health returns: the counter resets
    unhealthy_tick(&mut rec, 1_000, &p);
    unhealthy_tick(&mut rec, 6_000, &p);
    assert_eq!(rec.failure_count, 2);
    let taken = rec.take_for_check();
    rec.commit_check(taken, true, true, 11_000, &p);
    assert_eq!(rec.failure_count, 0);
    assert_eq!(rec.health, TunnelHealth::Healthy);
    assert_eq!(rec.child, Some(1));
}

#[test]
fn test_apply_spawn() {
    let mut rec = fresh_record();

    // failure marks the record down, no child
    let leftover = rec.apply_spawn(None);
    assert_eq!(leftover, None);
    assert_eq!(rec.child, None);
    assert_eq!(rec.health, TunnelHealth::Down);

    // success installs the child
    let leftover = rec.apply_spawn(Some(7));
    assert_eq!(leftover, None);
    assert_eq!(rec.child, Some(7));
    assert_eq!(rec.health, TunnelHealth::Unknown);
    assert_eq!(rec.failure_count, 0);

    // a record that already runs keeps its child; the spare comes back
    let leftover = rec.apply_spawn(Some(8));
    assert_eq!(leftover, Some(8));
    assert_eq!(rec.child, Some(7));
}

#[test]
fn test_status_snapshot() {
    let params = SupervisorParams::from_config(&test_config()).unwrap();
    let mut records: Vec<TunnelRecord<MockChild>> =
        build_records(&test_config().forwarding_list, &params).unwrap();
    records[0].apply_spawn(Some(1));
    records[1].apply_spawn(None);

    let status = status_snapshot(&records);
    assert_eq!(status.len(), 2);
    assert_eq!(
        status[0],
        ("18080:127.0.0.1:8080".to_string(), TunnelHealth::Unknown)
    );
    assert_eq!(
        status[1],
        ("19000:127.0.0.1:9000".to_string(), TunnelHealth::Down)
    );
}

#[test]
fn test_stop_is_idempotent() {
    let params = SupervisorParams::from_config(&test_config()).unwrap();
    let mut records: Vec<TunnelRecord<MockChild>> =
        build_records(&test_config().forwarding_list, &params).unwrap();
    records[0].apply_spawn(Some(21));
    records[1].apply_spawn(Some(22));

    // first stop hands out every child and leaves nothing behind
    let children = drain_for_stop(&mut records);
    assert_eq!(children, vec![21, 22]);
    assert!(records.is_empty());

    // second stop finds no residual children and no error
    let children = drain_for_stop(&mut records);
    assert!(children.is_empty());
    assert!(records.is_empty());
}
