//! Rollbacks of deployments that burn their error budget.
//!
//! A deployment is rolled back only if its budget burns too fast over a short
//! and over a long window, and enough of the budget is gone. The rate at which
//! it burns is measured elsewhere; here it comes compared with the thresholds,
//! and in writing.

use vstd::prelude::*;
use vstd::string::*;
use crate::clock::Timestamp;
use crate::str_map::{
    StrMap, ascending, entry, lemma_read_after_write, lemma_with_entry_ascending, with_entry,
};
use crate::text::{cat2, cat7, decimal, decimal_text, has, lists, same};

verus! {

/// How critical a service is.
#[derive(Clone, Copy, Debug, PartialEq, Eq, Structural)]
pub enum ServiceTier {
    Critical,
    High,
    Standard,
}

/// The name of a tier.
pub open spec fn tier_name(t: ServiceTier) -> Seq<char> {
    match t {
        ServiceTier::Critical => "Critical"@,
        ServiceTier::High => "High"@,
        ServiceTier::Standard => "Standard"@,
    }
}

impl ServiceTier {
    /// The name of the tier.
    pub fn name(&self) -> (r: &'static str)
        ensures
            r@ == tier_name(*self),
    {
        match self {
            ServiceTier::Critical => "Critical",
            ServiceTier::High => "High",
            ServiceTier::Standard => "Standard",
        }
    }
}

/// From when on a deployment of a tier is rolled back, in thousandths.
#[derive(Clone, Copy, Debug, PartialEq, Eq, Structural)]
pub struct BurnThresholds {
    /// The rate over the short window.
    pub fast_burn: u64,
    /// The rate over the long window.
    pub slow_burn: u64,
    /// The part of the budget that has to be gone.
    pub min_budget_consumed: u64,
}

/// The thresholds of a tier.
pub open spec fn thresholds_of(t: ServiceTier) -> BurnThresholds {
    match t {
        ServiceTier::Critical => BurnThresholds {
            fast_burn: 6_000,
            slow_burn: 2_000,
            min_budget_consumed: 50,
        },
        ServiceTier::High => BurnThresholds {
            fast_burn: 10_000,
            slow_burn: 3_000,
            min_budget_consumed: 100,
        },
        ServiceTier::Standard => BurnThresholds {
            fast_burn: 14_000,
            slow_burn: 4_000,
            min_budget_consumed: 150,
        },
    }
}

impl BurnThresholds {
    /// The thresholds of a tier.
    pub fn for_tier(tier: ServiceTier) -> (r: Self)
        ensures
            r == thresholds_of(tier),
    {
        match tier {
            ServiceTier::Critical => BurnThresholds {
                fast_burn: 6_000,
                slow_burn: 2_000,
                min_budget_consumed: 50,
            },
            ServiceTier::High => BurnThresholds {
                fast_burn: 10_000,
                slow_burn: 3_000,
                min_budget_consumed: 100,
            },
            ServiceTier::Standard => BurnThresholds {
                fast_burn: 14_000,
                slow_burn: 4_000,
                min_budget_consumed: 150,
            },
        }
    }
}

/// The more critical a service, the sooner it is rolled back.
pub proof fn law_critical_services_roll_back_sooner()
    ensures
        thresholds_of(ServiceTier::Critical).fast_burn < thresholds_of(ServiceTier::High).fast_burn
            < thresholds_of(ServiceTier::Standard).fast_burn,
        thresholds_of(ServiceTier::Critical).slow_burn < thresholds_of(ServiceTier::High).slow_burn
            < thresholds_of(ServiceTier::Standard).slow_burn,
        thresholds_of(ServiceTier::Critical).min_budget_consumed < thresholds_of(
            ServiceTier::High,
        ).min_budget_consumed < thresholds_of(ServiceTier::Standard).min_budget_consumed,
{
}

/// How far a tier stands from the strictest one, which is the first.
pub open spec fn tier_step(t: ServiceTier) -> int {
    match t {
        ServiceTier::Critical => 1,
        ServiceTier::High => 2,
        ServiceTier::Standard => 3,
    }
}

/// The thresholds rise evenly from tier to tier: each step adds four to the fast
/// rate, one to the slow rate and a twentieth of the budget.
pub proof fn law_thresholds_rise_evenly(t: ServiceTier)
    ensures
        thresholds_of(t).fast_burn == 2_000 + 4_000 * tier_step(t),
        thresholds_of(t).slow_burn == 1_000 + 1_000 * tier_step(t),
        thresholds_of(t).min_budget_consumed == 50 * tier_step(t),
{
}

/// Which thresholds a deployment has reached.
#[derive(Clone, Copy, Debug, PartialEq, Eq, Structural)]
pub struct Breach {
    pub short_window: bool,
    pub long_window: bool,
    pub budget: bool,
}

/// What was measured, and the thresholds, in writing: rates with two decimals
/// and parts of the budget with three.
#[derive(Debug)]
pub struct BurnReadings {
    pub short_burn: String,
    pub fast_burn: String,
    pub long_burn: String,
    pub slow_burn: String,
    pub budget_consumed: String,
    pub min_budget_consumed: String,
    pub short_window_secs: u64,
    pub long_window_secs: u64,
}

#[derive(Clone, Copy, Debug, PartialEq, Eq, Structural)]
pub enum RollbackVerdict {
    Rollback,
    Hold,
}

/// The name of a verdict.
pub open spec fn verdict_name(v: RollbackVerdict) -> Seq<char> {
    match v {
        RollbackVerdict::Rollback => "Rollback"@,
        RollbackVerdict::Hold => "Hold"@,
    }
}

impl RollbackVerdict {
    /// The name of the verdict.
    pub fn name(&self) -> (r: &'static str)
        ensures
            r@ == verdict_name(*self),
    {
        match self {
            RollbackVerdict::Rollback => "Rollback",
            RollbackVerdict::Hold => "Hold",
        }
    }
}

/// What a breach calls for: a rollback only if all thresholds are reached.
pub open spec fn verdict_of(b: Breach) -> RollbackVerdict {
    if b.short_window && b.long_window && b.budget {
        RollbackVerdict::Rollback
    } else {
        RollbackVerdict::Hold
    }
}

/// A burn in a single window, or with the budget hardly touched, never leads to a
/// rollback.
pub proof fn law_single_window_holds(b: Breach)
    requires
        !b.short_window || !b.long_window || !b.budget,
    ensures
        verdict_of(b) == RollbackVerdict::Hold,
{
}

/// Why a verdict was given.
pub open spec fn rationale_of(t: ServiceTier, m: BurnReadings, v: RollbackVerdict) -> Seq<char> {
    "tier="@ + tier_name(t) + " short_burn="@ + m.short_burn@ + " (thresh "@ + m.fast_burn@ + "/"@
        + decimal(m.short_window_secs as int) + "s) long_burn="@ + m.long_burn@ + " (thresh "@
        + m.slow_burn@ + "/"@ + decimal(m.long_window_secs as int) + "s) budget_consumed="@
        + m.budget_consumed@ + " (min "@ + m.min_budget_consumed@ + ") verdict="@ + verdict_name(v)
}

/// A verdict on a deployment.
#[verifier::ext_equal]
pub ghost struct Decision {
    pub deployment: Seq<char>,
    pub tier: ServiceTier,
    pub verdict: RollbackVerdict,
    pub rationale: Seq<char>,
    pub at: Timestamp,
}

/// A verdict on a deployment, with its reasons.
#[derive(Debug)]
pub struct RollbackDecision {
    pub deployment_id: String,
    pub tier: ServiceTier,
    pub verdict: RollbackVerdict,
    pub rationale: String,
    pub evaluated_at: Timestamp,
}

impl View for RollbackDecision {
    type V = Decision;

    open spec fn view(&self) -> Decision {
        Decision {
            deployment: self.deployment_id@,
            tier: self.tier,
            verdict: self.verdict,
            rationale: self.rationale@,
            at: self.evaluated_at,
        }
    }
}

impl RollbackDecision {
    /// What is noted on the deployment.
    pub fn record_annotation(&self) -> (r: StrMap<String>)
        ensures
            r.texts() == with_entry(
                with_entry(
                    with_entry(
                        Seq::empty(),
                        "stellar.org/rollback-verdict"@,
                        verdict_name(self.verdict),
                    ),
                    "stellar.org/rollback-rationale"@,
                    self.rationale@,
                ),
                "stellar.org/rollback-evaluated-at"@,
                self.evaluated_at.text(),
            ),
    {
        let mut r: StrMap<String> = StrMap::new();
        assert(r.texts() =~= Seq::<(Seq<char>, Seq<char>)>::empty());
        r.put("stellar.org/rollback-verdict", self.verdict.name());
        r.put("stellar.org/rollback-rationale", &self.rationale);
        r.put("stellar.org/rollback-evaluated-at", &self.evaluated_at.to_rfc3339());
        r
    }

    /// The same decision.
    pub fn copy(&self) -> (r: RollbackDecision)
        ensures
            r@ == self@,
    {
        RollbackDecision {
            deployment_id: self.deployment_id.clone(),
            tier: self.tier,
            verdict: self.verdict,
            rationale: self.rationale.clone(),
            evaluated_at: self.evaluated_at,
        }
    }
}

/// What came of a rollback.
#[verifier::ext_equal]
pub ghost struct Analysis {
    pub deployment: Seq<char>,
    pub at: Timestamp,
    pub trigger_decision: Decision,
    pub outcome: Seq<char>,
    pub reviewer: Option<Seq<char>>,
}

/// What came of a rollback, for people to look at.
#[derive(Debug)]
pub struct PostRollbackAnalysis {
    pub deployment_id: String,
    pub rolled_back_at: Timestamp,
    pub trigger: RollbackDecision,
    pub outcome: String,
    pub reviewer: Option<String>,
}

impl View for PostRollbackAnalysis {
    type V = Analysis;

    open spec fn view(&self) -> Analysis {
        Analysis {
            deployment: self.deployment_id@,
            at: self.rolled_back_at,
            trigger_decision: self.trigger@,
            outcome: self.outcome@,
            reviewer: match self.reviewer {
                Some(s) => Some(s@),
                None => None,
            },
        }
    }
}

/// Rolls deployments back. A deployment that was rolled back before is left
/// alone, with `Ok(false)`.
pub trait RollbackAction {
    /// The rollbacks that were asked for, in order: of which deployment, for
    /// which reason, and with which answer.
    spec fn calls(&self) -> Seq<(Seq<char>, Seq<char>, Result<bool, String>)>;

    fn rollback(&mut self, deployment_id: &str, reason: &str) -> (r: Result<bool, String>)
        ensures
            final(self).calls() == old(self).calls().push((deployment_id@, reason@, r)),
    ;

    fn is_rolled_back(&self, deployment_id: &str) -> bool;
}

/// Remembers which deployments were rolled back, and does nothing else.
pub struct MemoryRollbackAction {
    pub rolled_back: Vec<String>,
    pub attempts: u64,
    pub log: Ghost<Seq<(Seq<char>, Seq<char>, Result<bool, String>)>>,
}

impl MemoryRollbackAction {
    /// Whether a deployment was rolled back.
    pub open spec fn done(&self, deployment: Seq<char>) -> bool {
        lists(self.rolled_back@, deployment)
    }

    pub fn new() -> (r: Self)
        ensures
            forall|d: Seq<char>| !#[trigger] r.done(d),
            r.attempts == 0,
            r.calls().len() == 0,
    {
        MemoryRollbackAction { rolled_back: Vec::new(), attempts: 0, log: Ghost(Seq::empty()) }
    }
}

/// A deployment was rolled back, besides those before.
pub open spec fn rolled_back_too(
    before: MemoryRollbackAction,
    after: MemoryRollbackAction,
    deployment: Seq<char>,
) -> bool {
    forall|d: Seq<char>| #[trigger] after.done(d) == (before.done(d) || d == deployment)
}

/// A rollback can be tried again: it finds that the deployment was rolled back,
/// and changes nothing for any deployment.
pub proof fn law_rollback_is_idempotent(
    before: MemoryRollbackAction,
    once: MemoryRollbackAction,
    twice: MemoryRollbackAction,
    deployment: Seq<char>,
)
    requires
        rolled_back_too(before, once, deployment),
        rolled_back_too(once, twice, deployment),
    ensures
        once.done(deployment),
        forall|d: Seq<char>| #[trigger] twice.done(d) == once.done(d),
{
}

impl Default for MemoryRollbackAction {
    fn default() -> (r: Self)
        ensures
            forall|d: Seq<char>| !#[trigger] r.done(d),
            r.attempts == 0,
            r.calls().len() == 0,
    {
        MemoryRollbackAction::new()
    }
}

impl RollbackAction for MemoryRollbackAction {
    open spec fn calls(&self) -> Seq<(Seq<char>, Seq<char>, Result<bool, String>)> {
        self.log@
    }

    fn rollback(&mut self, deployment_id: &str, reason: &str) -> (r: Result<bool, String>)
        ensures
            r == Ok::<bool, String>(!old(self).done(deployment_id@)),
            rolled_back_too(*old(self), *final(self), deployment_id@),
            final(self).attempts == if old(self).attempts == u64::MAX {
                0
            } else {
                (old(self).attempts + 1) as u64
            },
    {
        self.attempts = if self.attempts == u64::MAX {
            0
        } else {
            self.attempts + 1
        };
        let ghost before = self.rolled_back@;
        let known = has(&self.rolled_back, deployment_id);
        if known {
            let r: Result<bool, String> = Ok(false);
            self.log = Ghost(self.log@.push((deployment_id@, reason@, r)));
            return r;
        }
        self.rolled_back.push(deployment_id.to_string());
        assert forall|d: Seq<char>| #[trigger] lists(self.rolled_back@, d) == (lists(before, d) || d
            == deployment_id@) by {
            let after = self.rolled_back@;
            if lists(before, d) {
                let i = choose|i: int| 0 <= i < before.len() && (#[trigger] before[i])@ == d;
                assert(after[i]@ == d);
            }
            if d == deployment_id@ {
                assert(after[before.len() as int]@ == d);
            }
            if lists(after, d) {
                let i = choose|i: int| 0 <= i < after.len() && (#[trigger] after[i])@ == d;
                if i < before.len() {
                    assert(before[i]@ == d);
                }
            }
        }
        let r: Result<bool, String> = Ok(true);
        self.log = Ghost(self.log@.push((deployment_id@, reason@, r)));
        r
    }

    fn is_rolled_back(&self, deployment_id: &str) -> (r: bool)
        ensures
            r == self.done(deployment_id@),
    {
        let r = has(&self.rolled_back, deployment_id);
        r
    }
}

/// Decides on rollbacks, and notes what came of them.
#[derive(Debug)]
pub struct RollbackEngine {
    pub decisions: Vec<RollbackDecision>,
    pub analyses: Vec<PostRollbackAnalysis>,
}

/// What decisions say.
pub open spec fn decision_views(v: Seq<RollbackDecision>) -> Seq<Decision> {
    Seq::new(v.len(), |i: int| v[i]@)
}

/// What analyses say.
pub open spec fn analysis_views(v: Seq<PostRollbackAnalysis>) -> Seq<Analysis> {
    Seq::new(v.len(), |i: int| v[i]@)
}

/// What is said of a rollback.
pub open spec fn outcome_text(did: bool) -> Seq<char> {
    if did {
        "rolled back"@
    } else {
        "already rolled back (idempotent no-op)"@
    }
}

/// The analysis of a rollback.
pub open spec fn analysis_of(d: Decision, did: bool, at: Timestamp) -> Analysis {
    Analysis {
        deployment: d.deployment,
        at,
        trigger_decision: d,
        outcome: outcome_text(did),
        reviewer: None,
    }
}

/// Those of the first `n` decisions that are on a deployment.
pub open spec fn decisions_on(v: Seq<Decision>, deployment: Seq<char>, n: int) -> Seq<Decision>
    decreases n,
{
    if n <= 0 {
        Seq::empty()
    } else if v[n - 1].deployment == deployment {
        decisions_on(v, deployment, n - 1).push(v[n - 1])
    } else {
        decisions_on(v, deployment, n - 1)
    }
}

impl RollbackEngine {
    pub fn new() -> (r: Self)
        ensures
            r.decisions@.len() == 0,
            r.analyses@.len() == 0,
    {
        RollbackEngine { decisions: Vec::new(), analyses: Vec::new() }
    }

    /// Decides on a deployment, from what was measured, and notes the decision.
    pub fn evaluate(
        &mut self,
        deployment_id: &str,
        tier: ServiceTier,
        breach: Breach,
        readings: &BurnReadings,
        now: Timestamp,
    ) -> (r: RollbackDecision)
        ensures
            r@ == (Decision {
                deployment: deployment_id@,
                tier,
                verdict: verdict_of(breach),
                rationale: rationale_of(tier, *readings, verdict_of(breach)),
                at: now,
            }),
            decision_views(final(self).decisions@) == decision_views(old(self).decisions@).push(
                r@,
            ),
            final(self).analyses == old(self).analyses,
    {
        let verdict = if breach.short_window && breach.long_window && breach.budget {
            RollbackVerdict::Rollback
        } else {
            RollbackVerdict::Hold
        };
        let first = cat7(
            "tier=",
            tier.name(),
            " short_burn=",
            &readings.short_burn,
            " (thresh ",
            &readings.fast_burn,
            "/",
        );
        let second = cat7(
            &first,
            &decimal_text(readings.short_window_secs),
            "s) long_burn=",
            &readings.long_burn,
            " (thresh ",
            &readings.slow_burn,
            "/",
        );
        let third = cat7(
            &second,
            &decimal_text(readings.long_window_secs),
            "s) budget_consumed=",
            &readings.budget_consumed,
            " (min ",
            &readings.min_budget_consumed,
            ") verdict=",
        );
        let decision = RollbackDecision {
            deployment_id: deployment_id.to_string(),
            tier,
            verdict,
            rationale: cat2(&third, verdict.name()),
            evaluated_at: now,
        };
        let ghost before = decision_views(self.decisions@);
        let kept = decision.copy();
        self.decisions.push(kept);
        assert(decision_views(self.decisions@) =~= before.push(decision@));
        decision
    }

    /// Carries a decision out. One to hold does nothing. One to roll back asks the
    /// action once, for the deployment and with the rationale, and hands its
    /// answer back. What comes of a rollback is noted each time, unless it fails.
    pub fn execute<A: RollbackAction>(
        &mut self,
        decision: &RollbackDecision,
        action: &mut A,
    ) -> (r: Result<bool, String>)
        ensures
            final(self).decisions == old(self).decisions,
            decision.verdict != RollbackVerdict::Rollback ==> r == Ok::<bool, String>(false)
                && *final(self) == *old(self) && *final(action) == *old(action),
            decision.verdict == RollbackVerdict::Rollback ==> final(action).calls() == old(
                action,
            ).calls().push((decision.deployment_id@, decision.rationale@, r)),
            decision.verdict == RollbackVerdict::Rollback && r is Err ==> *final(self) == *old(
                self,
            ),
            decision.verdict == RollbackVerdict::Rollback && r is Ok ==> exists|at: Timestamp|
                analysis_views(final(self).analyses@) == analysis_views(old(self).analyses@).push(
                    #[trigger] analysis_of(decision@, r->Ok_0, at),
                ),
    {
        if decision.verdict != RollbackVerdict::Rollback {
            return Ok(false);
        }
        let outcome = action.rollback(&decision.deployment_id, &decision.rationale);
        let now = Timestamp::now();
        self.note_outcome(decision, outcome, now)
    }

    /// Notes what came of the rollback of a decision.
    pub fn note_outcome(
        &mut self,
        decision: &RollbackDecision,
        outcome: Result<bool, String>,
        now: Timestamp,
    ) -> (r: Result<bool, String>)
        ensures
            r == outcome,
            final(self).decisions == old(self).decisions,
            outcome is Err ==> *final(self) == *old(self),
            outcome is Ok ==> analysis_views(final(self).analyses@) == analysis_views(
                old(self).analyses@,
            ).push(analysis_of(decision@, outcome->Ok_0, now)),
    {
        match outcome {
            Err(e) => Err(e),
            Ok(did) => {
                let text = if did {
                    "rolled back"
                } else {
                    "already rolled back (idempotent no-op)"
                };
                let analysis = PostRollbackAnalysis {
                    deployment_id: decision.deployment_id.clone(),
                    rolled_back_at: now,
                    trigger: decision.copy(),
                    outcome: text.to_string(),
                    reviewer: None,
                };
                let ghost before = analysis_views(self.analyses@);
                let ghost noted = analysis@;
                self.analyses.push(analysis);
                assert(analysis_views(self.analyses@) =~= before.push(noted));
                Ok(did)
            },
        }
    }

    /// The decisions on a deployment.
    pub fn decisions_for(&self, deployment_id: &str) -> (r: Vec<&RollbackDecision>)
        ensures
            Seq::new(r@.len(), |i: int| r@[i]@) == decisions_on(
                decision_views(self.decisions@),
                deployment_id@,
                self.decisions@.len() as int,
            ),
    {
        let mut r: Vec<&RollbackDecision> = Vec::new();
        let ghost mut listed: Seq<Decision> = Seq::empty();
        let mut i: usize = 0;
        while i < self.decisions.len()
            invariant
                i <= self.decisions.len(),
                listed == decisions_on(
                    decision_views(self.decisions@),
                    deployment_id@,
                    i as int,
                ),
                r@.len() == listed.len(),
                forall|j: int| 0 <= j < listed.len() ==> (#[trigger] r@[j])@ == listed[j],
            decreases self.decisions@.len() - i,
        {
            let d = &self.decisions[i];
            assert(decision_views(self.decisions@)[i as int] == d@);
            if same(&d.deployment_id, deployment_id) {
                r.push(d);
                proof {
                    listed = listed.push(d@);
                }
            }
            i = i + 1;
        }
        assert(Seq::new(r@.len(), |i: int| r@[i]@) =~= listed);
        r
    }
}

impl Default for RollbackEngine {
    fn default() -> (r: Self)
        ensures
            r.decisions@.len() == 0,
            r.analyses@.len() == 0,
    {
        RollbackEngine::new()
    }
}

/// A deployment is rolled back where both windows and the budget are breached,
/// and only there.
pub proof fn law_rollback_needs_all_breaches(b: Breach)
    ensures
        verdict_of(b) == RollbackVerdict::Rollback <==> b.short_window && b.long_window && b.budget,
        verdict_of(b) == RollbackVerdict::Hold <==> !b.short_window || !b.long_window || !b.budget,
{
}

/// The decisions on a deployment are found, and no other.
pub proof fn law_decisions_are_found(v: Seq<Decision>, deployment: Seq<char>, n: int)
    requires
        0 <= n <= v.len(),
    ensures
        forall|i: int|
            #![trigger v[i]]
            0 <= i < n && v[i].deployment == deployment ==> decisions_on(v, deployment, n).contains(v[i]),
        forall|x: Decision| #[trigger]
            decisions_on(v, deployment, n).contains(x) ==> exists|i: int|
                #![trigger v[i]]
                0 <= i < n && v[i].deployment == deployment && x == v[i],
    decreases n,
{
    if n > 0 {
        law_decisions_are_found(v, deployment, n - 1);
        let p = decisions_on(v, deployment, n - 1);
        let r = decisions_on(v, deployment, n);
        assert forall|i: int|
            #![trigger v[i]]
            0 <= i < n && v[i].deployment == deployment implies r.contains(v[i]) by {
            if i == n - 1 {
                assert(r[p.len() as int] == v[i]);
            } else {
                assert(p.contains(v[i]));
                let k = choose|k: int| 0 <= k < p.len() && p[k] == v[i];
                assert(r[k] == v[i]);
            }
        }
        assert forall|x: Decision| #[trigger] r.contains(x) implies exists|i: int|
            #![trigger v[i]]
            0 <= i < n && v[i].deployment == deployment && x == v[i] by {
            let j = choose|j: int| 0 <= j < r.len() && r[j] == x;
            if j < p.len() {
                assert(r[j] == p[j]);
                assert(p.contains(x));
                let i = choose|i: int|
                    #![trigger v[i]]
                    0 <= i < n - 1 && v[i].deployment == deployment && x == v[i];
                assert(v[i].deployment == deployment && x == v[i]);
            } else {
                let i = n - 1;
                assert(v[i].deployment == deployment && x == v[i]);
            }
        }
    }
}

/// An analysis tells which decision led to it, and whether anything was rolled
/// back by it.
pub proof fn law_analysis_tells_the_decision(d: Decision, at: Timestamp)
    ensures
        analysis_of(d, true, at).trigger_decision == d,
        analysis_of(d, false, at).trigger_decision == d,
        analysis_of(d, true, at).deployment == d.deployment,
        analysis_of(d, true, at).at == at,
        analysis_of(d, true, at).outcome != analysis_of(d, false, at).outcome,
        analysis_of(d, true, at).outcome == "rolled back"@,
        analysis_of(d, true, at).reviewer is None,
{
    reveal_strlit("rolled back");
    reveal_strlit("already rolled back (idempotent no-op)");
    assert(analysis_of(d, true, at).outcome.len() == 11);
    assert(analysis_of(d, false, at).outcome.len() == 38);
}

/// The annotations of a decision are read back under their names.
pub proof fn law_annotations_are_read_back(
    verdict: Seq<char>,
    rationale: Seq<char>,
    at: Seq<char>,
)
    ensures
        ({
            let s = with_entry(
                with_entry(
                    with_entry(
                        Seq::<(Seq<char>, Seq<char>)>::empty(),
                        "stellar.org/rollback-verdict"@,
                        verdict,
                    ),
                    "stellar.org/rollback-rationale"@,
                    rationale,
                ),
                "stellar.org/rollback-evaluated-at"@,
                at,
            );
            &&& entry(s, "stellar.org/rollback-verdict"@) == Some(verdict)
            &&& entry(s, "stellar.org/rollback-rationale"@) == Some(rationale)
            &&& entry(s, "stellar.org/rollback-evaluated-at"@) == Some(at)
        }),
{
    let e = Seq::<(Seq<char>, Seq<char>)>::empty();
    let a = "stellar.org/rollback-verdict"@;
    let b = "stellar.org/rollback-rationale"@;
    let c = "stellar.org/rollback-evaluated-at"@;
    reveal_strlit("stellar.org/rollback-verdict");
    reveal_strlit("stellar.org/rollback-rationale");
    reveal_strlit("stellar.org/rollback-evaluated-at");
    let s1 = with_entry(e, a, verdict);
    let s2 = with_entry(s1, b, rationale);
    assert(ascending(e));
    lemma_with_entry_ascending(e, a, verdict);
    lemma_with_entry_ascending(s1, b, rationale);
    lemma_read_after_write(e, a, verdict, a);
    lemma_read_after_write(s1, b, rationale, a);
    lemma_read_after_write(s1, b, rationale, b);
    lemma_read_after_write(s2, c, at, a);
    lemma_read_after_write(s2, c, at, b);
    lemma_read_after_write(s2, c, at, c);
}

} // verus!
