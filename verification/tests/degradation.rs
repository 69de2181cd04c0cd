//! Degradation levels of the operator.

use std::cell::RefCell;
use std::rc::Rc;

use stellar_k8s::clock::Timestamp;
use stellar_k8s::crd::control_plane_health::ControlPlaneComponent::{Dns, Etcd, Scheduler, Webhook};
use stellar_k8s::crd::control_plane_health::{
    ComponentState, ControlPlaneComponent, ControlPlaneHealthSpec, DegradationLevel,
    IncidentReport, LevelTransition, WebhookMode,
};
use stellar_k8s::degradation::gate::{DegradationGate, OperatorAction};
use stellar_k8s::degradation::monitor::{
    fail_open_patch, is_raise, not_ignoring, on_spec_reply, probe_interval, probe_timeout,
    round_writes, state_metric, RoundWrites, SpecAction, SpecReply,
};
use stellar_k8s::degradation::probes::{
    default_probes, lease_outcome, timed_out, Attempt, DnsProbe, EtcdProbe, EtcdReply, Lease,
    LeaseReply, LeaseSpec, Probe, SchedulerProbe, WebhookProbe,
};
use stellar_k8s::degradation::tracker::{
    ComponentSet, DegradationTracker, ProbeOutcome, RoundOutcome, TrackerConfig,
};

const ROUND: i64 = 10;

/// 2026-09-26T12:00:00Z.
const T0: i64 = 1_790_424_000;

fn at(seconds: i64) -> Timestamp {
    Timestamp::new(T0 + seconds, 0).unwrap()
}

fn all_healthy() -> Vec<(ControlPlaneComponent, ProbeOutcome)> {
    ControlPlaneComponent::ALL
        .into_iter()
        .map(|c| (c, ProbeOutcome::Healthy))
        .collect()
}

/// What the probes see while `killed` is down: the lease of the scheduler goes
/// stale while etcd is down.
fn outage(killed: ControlPlaneComponent) -> Vec<(ControlPlaneComponent, ProbeOutcome)> {
    all_healthy()
        .into_iter()
        .map(|(c, r)| {
            let down = c == killed || (killed == Etcd && c == Scheduler);
            if down {
                (c, ProbeOutcome::Unhealthy(format!("{c:?} down")))
            } else {
                (c, r)
            }
        })
        .collect()
}

struct Run {
    levels: Vec<(Timestamp, DegradationLevel)>,
    transitions: Vec<LevelTransition>,
    closed: Vec<IncidentReport>,
    disruptive_allowed_while_degraded: usize,
    tracker: DegradationTracker,
}

/// Five healthy minutes, fifteen minutes without `killed`, five healthy ones. A
/// disruptive action is tried in every round.
fn chaos(killed: ControlPlaneComponent) -> Run {
    let mut gate = DegradationGate::default();
    let mut tracker = DegradationTracker::new(TrackerConfig::default(), at(0));
    let rounds = |mins: i64| mins * 60 / ROUND;
    let (healthy, down) = (rounds(5), rounds(15));
    let mut levels = Vec::new();
    let mut transitions = Vec::new();
    let mut closed = Vec::new();
    let mut disruptive_allowed_while_degraded = 0;
    for i in 0..(healthy + down + healthy) {
        let now = at(i * ROUND);
        let results = if (healthy..healthy + down).contains(&i) {
            outage(killed)
        } else {
            all_healthy()
        };
        let out = tracker.record_round(&results, gate.suppressed_total(), now);
        gate.set_level(tracker.level());
        if gate.check(OperatorAction::Disruptive).is_ok()
            && tracker.level() != DegradationLevel::Normal
        {
            disruptive_allowed_while_degraded += 1;
        }
        levels.push((now, tracker.level()));
        transitions.extend(out.transition);
        closed.extend(out.closed_incident);
    }
    Run { levels, transitions, closed, disruptive_allowed_while_degraded, tracker }
}

#[test]
fn chaos_matrix_each_component_isolated_for_15_minutes() {
    for killed in ControlPlaneComponent::ALL {
        let run = chaos(killed);
        let expected = killed.implied_level();

        assert_eq!(run.transitions.len(), 2, "{killed:?}: {:?}", run.transitions);
        assert_eq!(run.transitions[0].from, DegradationLevel::Normal);
        assert_eq!(run.transitions[0].to, expected, "{killed:?}");
        let detected: chrono::DateTime<chrono::Utc> = run.transitions[0].at.parse().unwrap();
        assert!(detected.timestamp() - (T0 + 5 * 60) <= 3 * ROUND);

        let degraded: Vec<_> = run.levels.iter().filter(|(_, l)| *l == expected).collect();
        assert!(degraded.len() as i64 >= 15 * 60 / ROUND - 3, "{killed:?}");
        assert_eq!(run.disruptive_allowed_while_degraded, 0, "{killed:?}");

        assert_eq!(run.transitions[1].to, DegradationLevel::Normal);
        assert_eq!(run.levels.last().unwrap().1, DegradationLevel::Normal);
        assert_eq!(run.closed.len(), 1);
        let report = &run.closed[0];
        assert_eq!(report.components, vec![killed], "{killed:?} blamed wrongly");
        assert_eq!(report.peak_level, expected);
        assert_eq!(report.transitions.len(), 2);
        let secs = report.duration_seconds.unwrap();
        assert!((15 * 60..=16 * 60).contains(&secs), "{killed:?}: {secs}s");
        assert!(report.suppressed_actions > 0);

        let status = run.tracker.status(Some(1));
        assert!(status.active_incident.is_none());
        assert_eq!(status.incidents.len(), 1);
        assert!(status.components.iter().all(|c| c.state == ComponentState::Healthy));
    }
}

#[test]
fn etcd_outage_freezes_writes_and_does_not_blame_scheduler() {
    let run = chaos(Etcd);
    assert!(run
        .levels
        .iter()
        .any(|(_, l)| !l.permitted().writes && *l == DegradationLevel::Frozen));
    assert_eq!(run.closed[0].components, vec![Etcd]);
}

#[test]
fn single_failures_and_flapping_do_not_degrade() {
    let mut tracker = DegradationTracker::new(TrackerConfig::default(), at(0));
    for i in 0..20 {
        let results = if i % 2 == 0 { outage(Dns) } else { all_healthy() };
        tracker.record_round(&results, 0, at(i * ROUND));
        assert_eq!(tracker.level(), DegradationLevel::Normal);
    }
}

#[test]
fn level_is_the_most_severe_unhealthy_component() {
    let mut tracker = DegradationTracker::new(TrackerConfig::default(), at(0));
    let mut results = outage(Webhook);
    results[1] = (Dns, ProbeOutcome::Unhealthy("dns".into()));
    for i in 0..3 {
        tracker.record_round(&results, 0, at(i * ROUND));
    }
    assert_eq!(tracker.level(), DegradationLevel::Degraded);

    let results = outage(Webhook);
    let mut last = RoundOutcome::default();
    for i in 3..6 {
        last = tracker.record_round(&results, 0, at(i * ROUND));
    }
    assert_eq!(tracker.level(), DegradationLevel::Reduced);
    assert_eq!(last.transition.unwrap().from, DegradationLevel::Degraded);
    let active = tracker.status(None).active_incident.unwrap();
    assert_eq!(active.peak_level, DegradationLevel::Degraded);
    assert_eq!(active.components, vec![Dns, Webhook]);
}

#[test]
fn inconclusive_probes_leave_state_unchanged() {
    let mut tracker = DegradationTracker::new(TrackerConfig::default(), at(0));
    let results = [(Scheduler, ProbeOutcome::Inconclusive("lease hidden".into()))];
    for i in 0..10 {
        tracker.record_round(&results, 0, at(i * ROUND));
    }
    assert_eq!(tracker.component_state(Scheduler), ComponentState::Unknown);
    assert_eq!(tracker.level(), DegradationLevel::Normal);
}

#[test]
fn incident_history_is_bounded() {
    let config = TrackerConfig { incident_history: 2, ..TrackerConfig::default() };
    let mut tracker = DegradationTracker::new(config, at(0));
    let mut i = 0;
    for _ in 0..4 {
        for results in [outage(Webhook), all_healthy()] {
            for _ in 0..3 {
                tracker.record_round(&results, 0, at(i * ROUND));
                i += 1;
            }
        }
    }
    assert_eq!(tracker.status(None).incidents.len(), 2);
}

#[test]
fn incident_is_reported_with_exact_times() {
    let mut tracker = DegradationTracker::new(TrackerConfig::default(), at(0));
    assert!(tracker.has_room_for(4));
    for i in 0..3 {
        tracker.record_round(&outage(Webhook), 7, at(i * ROUND));
    }
    let status = tracker.status(Some(5));
    assert_eq!(status.level, DegradationLevel::Reduced);
    assert_eq!(status.observed_generation, Some(5));
    assert_eq!(status.level_since.as_deref(), Some("2026-09-26T12:00:20+00:00"));
    let active = status.active_incident.unwrap();
    assert_eq!(active.started_at, "2026-09-26T12:00:20+00:00");
    assert_eq!(active.ended_at, None);
    let mut last = RoundOutcome::default();
    for i in 3..6 {
        last = tracker.record_round(&all_healthy(), 12, at(i * ROUND));
    }
    let closed = last.closed_incident.unwrap();
    assert_eq!(closed.duration_seconds, Some(30));
    assert_eq!(closed.suppressed_actions, 5);
    assert_eq!(closed.components, vec![Webhook]);
    assert_eq!(tracker.component_state(Webhook), ComponentState::Healthy);
}

#[test]
fn new_thresholds_hold_from_the_next_round() {
    let mut tracker = DegradationTracker::new(TrackerConfig::default(), at(0));
    tracker.set_config(TrackerConfig {
        failure_threshold: 1,
        recovery_threshold: 1,
        incident_history: 1,
    });
    tracker.record_round(&outage(Dns), 0, at(0));
    assert_eq!(tracker.level(), DegradationLevel::Degraded);
    tracker.record_round(&all_healthy(), 0, at(10));
    assert_eq!(tracker.level(), DegradationLevel::Normal);
}

#[test]
fn component_sets_are_listed_in_order() {
    let set = ComponentSet { etcd: false, dns: true, webhook: false, scheduler: true };
    assert_eq!(set.list(), vec![Dns, Scheduler]);
}

#[test]
fn gate_defaults_to_normal_and_permits_everything() {
    let mut gate = DegradationGate::default();
    assert_eq!(gate.level(), DegradationLevel::Normal);
    assert!(gate.check(OperatorAction::Write).is_ok());
    assert!(gate.check(OperatorAction::Disruptive).is_ok());
    assert_eq!(gate.suppressed_total(), 0);
}

#[test]
fn gate_enforces_level_policy_and_counts_suppressions() {
    let gate = Rc::new(RefCell::new(DegradationGate::default()));
    gate.borrow_mut().set_level(DegradationLevel::Reduced);
    assert!(gate.borrow_mut().check(OperatorAction::Write).is_ok());
    assert_eq!(
        gate.borrow_mut().check(OperatorAction::Disruptive),
        Err(DegradationLevel::Reduced)
    );
    gate.borrow_mut().set_level(DegradationLevel::Frozen);
    assert_eq!(gate.borrow_mut().check(OperatorAction::Write), Err(DegradationLevel::Frozen));
    assert_eq!(gate.borrow().suppressed_total(), 2);
    // Clones share state.
    let other = gate.clone();
    assert_eq!(other.borrow().level(), DegradationLevel::Frozen);
    other.borrow_mut().set_level(DegradationLevel::Normal);
    assert_eq!(gate.borrow().level(), DegradationLevel::Normal);
    assert_eq!(gate.borrow().suppressed_total(), 2);
}

#[test]
fn levels_are_ordered_and_numbered() {
    let levels = [
        DegradationLevel::Normal,
        DegradationLevel::Reduced,
        DegradationLevel::Degraded,
        DegradationLevel::Frozen,
    ];
    for (i, level) in levels.iter().enumerate() {
        assert_eq!(level.as_index() as usize, i);
        assert_eq!(DegradationLevel::from_index(i as u8), *level);
    }
    assert_eq!(
        DegradationLevel::Reduced.max_with(DegradationLevel::Degraded),
        DegradationLevel::Degraded
    );
    assert!(DegradationLevel::Degraded.permitted().writes);
    assert!(!DegradationLevel::Reduced.permitted().disruptive_actions);
    assert_eq!(Scheduler.depends_on(), vec![Etcd]);
    assert_eq!(Etcd.as_str(), "Etcd");
}

fn lease(renewed_secs_ago: Option<i64>, now: Timestamp) -> Lease {
    Lease {
        spec: Some(LeaseSpec {
            renew_time: renewed_secs_ago
                .map(|s| Timestamp::new(now.timestamp() - s, now.subsec_nanos()).unwrap()),
            lease_duration_seconds: Some(15),
        }),
    }
}

#[test]
fn scheduler_lease_freshness() {
    let now = Timestamp::now();
    assert_eq!(lease_outcome(&lease(Some(5), now), Timestamp::now()), ProbeOutcome::Healthy);
    assert!(matches!(
        lease_outcome(&lease(Some(120), now), Timestamp::now()),
        ProbeOutcome::Unhealthy(_)
    ));
    assert!(matches!(
        lease_outcome(&lease(None, now), Timestamp::now()),
        ProbeOutcome::Unhealthy(_)
    ));
    assert!(matches!(
        lease_outcome(&Lease { spec: None }, Timestamp::now()),
        ProbeOutcome::Inconclusive(_)
    ));
}

#[test]
fn stale_lease_is_named_by_its_age() {
    assert_eq!(
        lease_outcome(&lease(Some(31), at(0)), at(0)),
        ProbeOutcome::Unhealthy(
            "scheduler lease last renewed 31s ago (lease duration 15s)".to_string()
        )
    );
    assert_eq!(lease_outcome(&lease(Some(30), at(0)), at(0)), ProbeOutcome::Healthy);
}

#[test]
fn replies_become_outcomes() {
    let etcd = EtcdProbe {};
    assert_eq!(etcd.component(), Etcd);
    assert_eq!(etcd.outcome(&EtcdReply::Body("ok".to_string())), ProbeOutcome::Healthy);
    assert!(matches!(
        etcd.outcome(&EtcdReply::Error("refused".to_string())),
        ProbeOutcome::Unhealthy(_)
    ));
    let dns = DnsProbe { hostname: "kubernetes.default.svc".to_string() };
    assert_eq!(dns.outcome(&Ok(true)), ProbeOutcome::Healthy);
    assert!(matches!(dns.outcome(&Ok(false)), ProbeOutcome::Unhealthy(_)));
    assert!(matches!(dns.outcome(&Err("no".to_string())), ProbeOutcome::Unhealthy(_)));
    let scheduler =
        SchedulerProbe { namespace: "kube-system".to_string(), name: "kube-scheduler".to_string() };
    assert!(matches!(
        scheduler.outcome(&LeaseReply::Missing, at(0)),
        ProbeOutcome::Inconclusive(_)
    ));
    assert_eq!(
        scheduler.outcome(&LeaseReply::Found(lease(Some(1), at(0))), at(0)),
        ProbeOutcome::Healthy
    );
    assert_eq!(timed_out(3), ProbeOutcome::Unhealthy("probe timed out after 3s".to_string()));
}

#[test]
fn webhook_probe_falls_back_on_its_last_addresses() {
    let mut probe = WebhookProbe::new("webhook.svc".to_string(), 443);
    assert_eq!(probe.component(), Webhook);
    assert_eq!(probe.port(), 443);
    assert_eq!(probe.addresses(None), None);
    let found = vec!["10.0.0.1:443".to_string()];
    assert_eq!(probe.addresses(Some(found.clone())), Some(found.clone()));
    assert_eq!(probe.addresses(None), Some(found));
    let fine = Attempt { address: "10.0.0.1:443".to_string(), error: None };
    assert_eq!(probe.outcome(&Some(vec![fine])), ProbeOutcome::Healthy);
    let failed =
        Attempt { address: "10.0.0.1:443".to_string(), error: Some("refused".to_string()) };
    assert!(matches!(probe.outcome(&Some(vec![failed])), ProbeOutcome::Unhealthy(_)));
}

#[test]
fn default_probes_cover_every_component() {
    let probes = default_probes(&ControlPlaneHealthSpec::default());
    let components: Vec<ControlPlaneComponent> = probes
        .iter()
        .map(|p| match p {
            Probe::Etcd(x) => x.component(),
            Probe::Dns(x) => x.component(),
            Probe::Webhook(x) => x.component(),
            Probe::Scheduler(x) => x.component(),
        })
        .collect();
    assert_eq!(components, ControlPlaneComponent::ALL.to_vec());
}

#[test]
fn selects_webhooks_not_already_ignoring() {
    let hooks = [
        ("a".to_string(), Some("Fail".to_string())),
        ("b".to_string(), Some("Ignore".to_string())),
        ("c".to_string(), None),
    ];
    let names = not_ignoring(&hooks);
    assert_eq!(names, ["a", "c"]);
}

#[test]
fn rounds_write_only_as_leader() {
    assert_eq!(
        round_writes(false, DegradationLevel::Frozen, WebhookMode::Permissive),
        RoundWrites { enforce_permissive: false, publish_status: false }
    );
    assert_eq!(
        round_writes(true, DegradationLevel::Normal, WebhookMode::Strict),
        RoundWrites { enforce_permissive: false, publish_status: true }
    );
    assert_eq!(on_spec_reply(SpecReply::Found, false), SpecAction::Use);
    assert_eq!(on_spec_reply(SpecReply::Missing, true), SpecAction::Create);
    assert_eq!(on_spec_reply(SpecReply::Missing, false), SpecAction::Keep);
    assert_eq!(on_spec_reply(SpecReply::Error, true), SpecAction::Keep);
}

#[test]
fn rounds_keep_to_the_times_of_the_specification() {
    let spec = ControlPlaneHealthSpec::default();
    assert_eq!(probe_interval(&spec), 10);
    assert!(probe_timeout(&spec) <= probe_interval(&spec));
    assert_eq!(state_metric(ComponentState::Healthy), 1);
    let raise = LevelTransition {
        from: DegradationLevel::Normal,
        to: DegradationLevel::Frozen,
        at: String::new(),
        reason: String::new(),
    };
    assert!(is_raise(&raise));
    assert!(fail_open_patch(&Vec::new()).is_none());
    let patch = fail_open_patch(&vec!["a".to_string()]).unwrap().to_text();
    assert!(patch.contains("\"failurePolicy\":\"Ignore\""), "{patch}");
    let config = TrackerConfig::from(&spec);
    assert_eq!(config.failure_threshold, spec.failure_threshold);
}

#[test]
fn report_holds_the_worst_level_and_all_components() {
    let mut tracker = DegradationTracker::new(TrackerConfig::default(), at(0));
    let mut last = RoundOutcome::default();
    let mut i = 0;
    for results in [outage(Webhook), outage(Dns), all_healthy()] {
        for _ in 0..3 {
            assert!(last.closed_incident.is_none());
            last = tracker.record_round(&results, 0, at(i * ROUND));
            i += 1;
        }
    }
    let closed = last.closed_incident.unwrap();
    assert_eq!(closed.peak_level, DegradationLevel::Degraded);
    assert_eq!(closed.components, vec![Dns, Webhook]);
    assert_eq!(closed.started_at, "2026-09-26T12:00:20+00:00");
}

#[test]
fn only_agreeing_outcomes_change_a_component() {
    let mut tracker = DegradationTracker::new(TrackerConfig::default(), at(0));
    let bad = || ProbeOutcome::Unhealthy("x".to_string());
    let mute = || ProbeOutcome::Inconclusive("x".to_string());
    let mut state = |outcome: ProbeOutcome| {
        tracker.record_round(&[(Dns, outcome)], 0, at(0));
        tracker.component_state(Dns)
    };
    assert_eq!(state(bad()), ComponentState::Unknown);
    assert_eq!(state(bad()), ComponentState::Unknown);
    assert_eq!(state(mute()), ComponentState::Unknown);
    assert_eq!(state(ProbeOutcome::Healthy), ComponentState::Healthy);
    assert_eq!(state(bad()), ComponentState::Healthy);
    assert_eq!(state(bad()), ComponentState::Healthy);
    assert_eq!(state(mute()), ComponentState::Healthy);
    assert_eq!(state(bad()), ComponentState::Unhealthy);
    assert_eq!(state(ProbeOutcome::Healthy), ComponentState::Unhealthy);
    assert_eq!(state(bad()), ComponentState::Unhealthy);
    assert_eq!(state(ProbeOutcome::Healthy), ComponentState::Unhealthy);
    assert_eq!(state(ProbeOutcome::Healthy), ComponentState::Unhealthy);
    assert_eq!(state(ProbeOutcome::Healthy), ComponentState::Healthy);
}
