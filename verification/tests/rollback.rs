//! Rollback of deployments that burn their error budget.

use stellar_k8s::clock::Timestamp;
use stellar_k8s::rollback_engine::{
    Breach, BurnReadings, BurnThresholds, MemoryRollbackAction, RollbackAction, RollbackDecision,
    RollbackEngine, RollbackVerdict, ServiceTier,
};

fn now() -> Timestamp {
    Timestamp::new(1_700_000_000, 0).unwrap()
}

/// Compares what was observed with the thresholds of the tier.
fn evaluate(
    engine: &mut RollbackEngine,
    id: &str,
    tier: ServiceTier,
    short: f64,
    long: f64,
    budget: f64,
) -> RollbackDecision {
    let t = BurnThresholds::for_tier(tier);
    let (fast, slow, least) = (
        t.fast_burn as f64 / 1000.0,
        t.slow_burn as f64 / 1000.0,
        t.min_budget_consumed as f64 / 1000.0,
    );
    let breach =
        Breach { short_window: short >= fast, long_window: long >= slow, budget: budget >= least };
    let readings = BurnReadings {
        short_burn: format!("{short:.2}"),
        fast_burn: format!("{fast:.2}"),
        long_burn: format!("{long:.2}"),
        slow_burn: format!("{slow:.2}"),
        budget_consumed: format!("{budget:.3}"),
        min_budget_consumed: format!("{least:.3}"),
        short_window_secs: 300,
        long_window_secs: 3600,
    };
    engine.evaluate(id, tier, breach, &readings, now())
}

#[test]
fn critical_burn_on_both_windows_triggers_rollback() {
    let mut engine = RollbackEngine::new();
    let d = evaluate(&mut engine, "dep-bad", ServiceTier::Critical, 8.0, 3.0, 0.2);
    assert_eq!(d.verdict, RollbackVerdict::Rollback);
    assert!(d.rationale.contains("short_burn=8.00"));
    let mut action = MemoryRollbackAction::default();
    assert!(engine.execute(&d, &mut action).unwrap());
    assert!(!engine.execute(&d, &mut action).unwrap());
    assert!(action.is_rolled_back("dep-bad"));
    assert_eq!(engine.analyses.len(), 2);
}

#[test]
fn single_window_spike_holds() {
    let mut engine = RollbackEngine::new();
    let d = evaluate(&mut engine, "dep-spike", ServiceTier::High, 25.0, 0.5, 0.2);
    assert_eq!(d.verdict, RollbackVerdict::Hold);
}

#[test]
fn low_budget_consumption_holds() {
    let mut engine = RollbackEngine::new();
    let d = evaluate(&mut engine, "dep-early", ServiceTier::Critical, 9.0, 4.0, 0.01);
    assert_eq!(d.verdict, RollbackVerdict::Hold);
}

#[test]
fn rationale_attaches_to_deployment_record() {
    let mut engine = RollbackEngine::new();
    let d = evaluate(&mut engine, "dep-x", ServiceTier::Standard, 20.0, 5.0, 0.5);
    assert_eq!(d.verdict, RollbackVerdict::Rollback);
    let ann = d.record_annotation();
    assert!(ann.has("stellar.org/rollback-rationale"));
    assert!(ann.has("stellar.org/rollback-verdict"));
}

#[test]
fn seeded_bad_deploys_roll_back_exactly_breachers() {
    let mut engine = RollbackEngine::new();
    let cases = vec![
        (ServiceTier::Critical, 8.0, 3.0, 0.30, RollbackVerdict::Rollback),
        (ServiceTier::High, 11.0, 3.5, 0.20, RollbackVerdict::Rollback),
        (ServiceTier::Standard, 5.0, 1.0, 0.05, RollbackVerdict::Hold),
        (ServiceTier::High, 30.0, 0.4, 0.50, RollbackVerdict::Hold),
    ];
    for (i, (tier, s, l, b, want)) in cases.into_iter().enumerate() {
        let d = evaluate(&mut engine, &format!("seed-{i}"), tier, s, l, b);
        assert_eq!(d.verdict, want, "seed-{i} mismatch");
    }
    assert_eq!(engine.decisions.len(), 4);
    assert_eq!(engine.decisions_for("seed-2").len(), 1);
}

#[test]
fn held_deployment_is_left_alone() {
    let mut engine = RollbackEngine::new();
    let d = evaluate(&mut engine, "dep", ServiceTier::Standard, 0.0, 0.0, 0.0);
    let mut action = MemoryRollbackAction::new();
    assert_eq!(engine.execute(&d, &mut action), Ok(false));
    assert_eq!(action.attempts, 0);
    assert!(engine.analyses.is_empty());
}

#[test]
fn failed_rollback_is_noted() {
    let mut engine = RollbackEngine::new();
    let d = evaluate(&mut engine, "dep", ServiceTier::Critical, 9.0, 9.0, 0.9);
    let r = engine.note_outcome(&d, Err("no route".to_string()), now());
    assert_eq!(r, Err("no route".to_string()));
}

#[test]
fn critical_services_have_the_lowest_thresholds() {
    let critical = BurnThresholds::for_tier(ServiceTier::Critical);
    let standard = BurnThresholds::for_tier(ServiceTier::Standard);
    assert!(critical.fast_burn < standard.fast_burn);
    assert!(critical.slow_burn <= standard.slow_burn);
}

#[test]
fn breaching_deployment_is_rolled_back_once() {
    let mut engine = RollbackEngine::new();
    let d = evaluate(&mut engine, "dep", ServiceTier::Critical, 9.0, 9.0, 0.9);
    let mut action = MemoryRollbackAction::new();
    assert_eq!(engine.execute(&d, &mut action), Ok(true));
    assert_eq!(action.attempts, 1);
    assert_eq!(action.rolled_back, ["dep"]);
    assert_eq!(engine.analyses.len(), 1);
}
