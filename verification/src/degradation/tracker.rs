//! The degradation state machine.
//!
//! It takes what the probes found and the time, and gives the level, the
//! changes and the incident reports. It does no I/O.

use vstd::prelude::*;
use vstd::string::*;
use crate::clock::{Timestamp, law_whole_units, whole};
use crate::crd::control_plane_health::{
    ComponentState, ComponentStatus, ControlPlaneComponent, ControlPlaneHealthSpec,
    ControlPlaneHealthStatus, DegradationLevel, Incident, IncidentReport, LevelTransition, Shift,
    copy_opt, copy_reports, opt_view, reports, shifts,
};
use crate::text::{cat2, join, joined, views};

verus! {

/// What one probe of a component found.
#[derive(Clone, Debug, PartialEq, Eq)]
pub enum ProbeOutcome {
    Healthy,
    Unhealthy(String),
    /// The probe could not tell, for instance because what it looks at is
    /// itself down.
    Inconclusive(String),
}

/// What one probe of a component found, as a value.
pub ghost enum Finding {
    Healthy,
    Unhealthy(Seq<char>),
    Inconclusive(Seq<char>),
}

impl View for ProbeOutcome {
    type V = Finding;

    open spec fn view(&self) -> Finding {
        match *self {
            ProbeOutcome::Healthy => Finding::Healthy,
            ProbeOutcome::Unhealthy(m) => Finding::Unhealthy(m@),
            ProbeOutcome::Inconclusive(m) => Finding::Inconclusive(m@),
        }
    }
}

impl ProbeOutcome {
    /// A copy of the outcome.
    pub fn copy(&self) -> (r: ProbeOutcome)
        ensures
            r@ == self@,
    {
        match self {
            ProbeOutcome::Healthy => ProbeOutcome::Healthy,
            ProbeOutcome::Unhealthy(m) => ProbeOutcome::Unhealthy(m.clone()),
            ProbeOutcome::Inconclusive(m) => ProbeOutcome::Inconclusive(m.clone()),
        }
    }
}

#[derive(Clone, Copy, Debug, PartialEq, Eq, Structural)]
pub struct TrackerConfig {
    pub failure_threshold: u32,
    pub recovery_threshold: u32,
    pub incident_history: usize,
}

/// The settings of the tracker that a specification asks for.
pub open spec fn config_of(spec: ControlPlaneHealthSpec) -> TrackerConfig {
    TrackerConfig {
        failure_threshold: if spec.failure_threshold < 1 {
            1
        } else {
            spec.failure_threshold
        },
        recovery_threshold: if spec.recovery_threshold < 1 {
            1
        } else {
            spec.recovery_threshold
        },
        incident_history: spec.incident_history as usize,
    }
}

impl From<&ControlPlaneHealthSpec> for TrackerConfig {
    fn from(spec: &ControlPlaneHealthSpec) -> (r: Self) {
        TrackerConfig {
            failure_threshold: if spec.failure_threshold < 1 {
                1
            } else {
                spec.failure_threshold
            },
            recovery_threshold: if spec.recovery_threshold < 1 {
                1
            } else {
                spec.recovery_threshold
            },
            incident_history: spec.incident_history as usize,
        }
    }
}

impl vstd::std_specs::convert::FromSpecImpl<&ControlPlaneHealthSpec> for TrackerConfig {
    open spec fn obeys_from_spec() -> bool {
        true
    }

    open spec fn from_spec(spec: &ControlPlaneHealthSpec) -> Self {
        config_of(*spec)
    }
}

impl Default for TrackerConfig {
    fn default() -> (r: Self)
        ensures
            r.failure_threshold == 3,
            r.recovery_threshold == 3,
            r.incident_history == 10,
    {
        TrackerConfig::from(&ControlPlaneHealthSpec::default())
    }
}

/// What changed in a round of probes.
#[derive(Clone, Debug, PartialEq)]
pub struct RoundOutcome {
    /// Each component whose state changed, with the old and the new state.
    pub component_changes: Vec<(ControlPlaneComponent, ComponentState, ComponentState)>,
    pub transition: Option<LevelTransition>,
    /// The report on the incident that ended in the round.
    pub closed_incident: Option<IncidentReport>,
}

impl Default for RoundOutcome {
    fn default() -> (r: Self)
        ensures
            r.component_changes@.len() == 0,
            r.transition is None,
            r.closed_incident is None,
    {
        RoundOutcome { component_changes: Vec::new(), transition: None, closed_incident: None }
    }
}

/// What changed in a round of probes, as a value.
pub ghost struct Round {
    pub changes: Seq<(ControlPlaneComponent, ComponentState, ComponentState)>,
    pub transition: Option<Shift>,
    pub closed: Option<Incident>,
}

impl View for RoundOutcome {
    type V = Round;

    open spec fn view(&self) -> Round {
        Round {
            changes: self.component_changes@,
            transition: match self.transition {
                Some(t) => Some(t@),
                None => None,
            },
            closed: opt_incident(self.closed_incident),
        }
    }
}

/// The report, where there is one.
pub open spec fn opt_incident(r: Option<IncidentReport>) -> Option<Incident> {
    match r {
        Some(i) => Some(i@),
        None => None,
    }
}

/// What is known of a component.
#[derive(Clone, Debug)]
struct ComponentTracker {
    state: ComponentState,
    consecutive_failures: u32,
    consecutive_successes: u32,
    last_probe: Option<Timestamp>,
    last_transition: Option<Timestamp>,
    message: Option<String>,
}

/// What is known of a component, as a value.
pub ghost struct Known {
    pub state: ComponentState,
    pub failures: int,
    pub successes: int,
    pub last_probe: Option<Timestamp>,
    pub last_transition: Option<Timestamp>,
    pub message: Option<Seq<char>>,
}

impl View for ComponentTracker {
    type V = Known;

    closed spec fn view(&self) -> Known {
        Known {
            state: self.state,
            failures: self.consecutive_failures as int,
            successes: self.consecutive_successes as int,
            last_probe: self.last_probe,
            last_transition: self.last_transition,
            message: opt_view(self.message),
        }
    }
}

/// Nothing is known of a component yet.
pub open spec fn unknown() -> Known {
    Known {
        state: ComponentState::Unknown,
        failures: 0,
        successes: 0,
        last_probe: None,
        last_transition: None,
        message: None,
    }
}

fn fresh() -> (r: ComponentTracker)
    ensures
        r@ == unknown(),
{
    ComponentTracker {
        state: ComponentState::Unknown,
        consecutive_failures: 0,
        consecutive_successes: 0,
        last_probe: None,
        last_transition: None,
        message: None,
    }
}

/// What is known of each component.
#[derive(Clone, Debug)]
struct Components {
    etcd: ComponentTracker,
    dns: ComponentTracker,
    webhook: ComponentTracker,
    scheduler: ComponentTracker,
}

/// What is known of each component, as a value.
pub ghost struct Table {
    pub etcd: Known,
    pub dns: Known,
    pub webhook: Known,
    pub scheduler: Known,
}

impl View for Components {
    type V = Table;

    closed spec fn view(&self) -> Table {
        Table {
            etcd: self.etcd@,
            dns: self.dns@,
            webhook: self.webhook@,
            scheduler: self.scheduler@,
        }
    }
}

impl Table {
    pub open spec fn at(self, c: ControlPlaneComponent) -> Known {
        match c {
            ControlPlaneComponent::Etcd => self.etcd,
            ControlPlaneComponent::Dns => self.dns,
            ControlPlaneComponent::Webhook => self.webhook,
            ControlPlaneComponent::Scheduler => self.scheduler,
        }
    }

    pub open spec fn with(self, c: ControlPlaneComponent, k: Known) -> Table {
        match c {
            ControlPlaneComponent::Etcd => Table { etcd: k, ..self },
            ControlPlaneComponent::Dns => Table { dns: k, ..self },
            ControlPlaneComponent::Webhook => Table { webhook: k, ..self },
            ControlPlaneComponent::Scheduler => Table { scheduler: k, ..self },
        }
    }

    /// Whether `n` more probes of each component can be counted.
    pub open spec fn has_room(self, n: int) -> bool {
        forall|c: ControlPlaneComponent|
            #![trigger self.at(c)]
            self.at(c).failures + n <= u32::MAX && self.at(c).successes + n <= u32::MAX
    }
}

impl Components {
    fn get(&self, c: ControlPlaneComponent) -> (r: &ComponentTracker)
        ensures
            r@ == self@.at(c),
    {
        match c {
            ControlPlaneComponent::Etcd => &self.etcd,
            ControlPlaneComponent::Dns => &self.dns,
            ControlPlaneComponent::Webhook => &self.webhook,
            ControlPlaneComponent::Scheduler => &self.scheduler,
        }
    }

    fn set(&mut self, c: ControlPlaneComponent, t: ComponentTracker)
        ensures
            final(self)@ == old(self)@.with(c, t@),
    {
        match c {
            ControlPlaneComponent::Etcd => {
                self.etcd = t;
            },
            ControlPlaneComponent::Dns => {
                self.dns = t;
            },
            ControlPlaneComponent::Webhook => {
                self.webhook = t;
            },
            ControlPlaneComponent::Scheduler => {
                self.scheduler = t;
            },
        }
    }
}

/// A set of components.
#[derive(Clone, Copy, Debug, PartialEq, Eq, Structural)]
pub struct ComponentSet {
    pub etcd: bool,
    pub dns: bool,
    pub webhook: bool,
    pub scheduler: bool,
}

/// `c`, if it is wanted.
pub open spec fn if_in(wanted: bool, c: ControlPlaneComponent) -> Seq<ControlPlaneComponent> {
    if wanted {
        seq![c]
    } else {
        Seq::empty()
    }
}

impl ComponentSet {
    pub open spec fn none() -> ComponentSet {
        ComponentSet { etcd: false, dns: false, webhook: false, scheduler: false }
    }

    pub open spec fn holds(self, c: ControlPlaneComponent) -> bool {
        match c {
            ControlPlaneComponent::Etcd => self.etcd,
            ControlPlaneComponent::Dns => self.dns,
            ControlPlaneComponent::Webhook => self.webhook,
            ControlPlaneComponent::Scheduler => self.scheduler,
        }
    }

    pub open spec fn union(self, other: ComponentSet) -> ComponentSet {
        ComponentSet {
            etcd: self.etcd || other.etcd,
            dns: self.dns || other.dns,
            webhook: self.webhook || other.webhook,
            scheduler: self.scheduler || other.scheduler,
        }
    }

    /// The components in the set, in order.
    pub open spec fn listed(self) -> Seq<ControlPlaneComponent> {
        if_in(self.etcd, ControlPlaneComponent::Etcd) + if_in(self.dns, ControlPlaneComponent::Dns)
            + if_in(self.webhook, ControlPlaneComponent::Webhook) + if_in(
            self.scheduler,
            ControlPlaneComponent::Scheduler,
        )
    }

    /// The components in the set, in order.
    pub fn list(self) -> (r: Vec<ControlPlaneComponent>)
        ensures
            r@ == self.listed(),
    {
        let mut r: Vec<ControlPlaneComponent> = Vec::new();
        if self.etcd {
            r.push(ControlPlaneComponent::Etcd);
        }
        if self.dns {
            r.push(ControlPlaneComponent::Dns);
        }
        if self.webhook {
            r.push(ControlPlaneComponent::Webhook);
        }
        if self.scheduler {
            r.push(ControlPlaneComponent::Scheduler);
        }
        assert(r@ =~= self.listed());
        r
    }
}

/// The components that are unhealthy.
pub open spec fn unhealthy(t: Table) -> ComponentSet {
    ComponentSet {
        etcd: t.etcd.state == ComponentState::Unhealthy,
        dns: t.dns.state == ComponentState::Unhealthy,
        webhook: t.webhook.state == ComponentState::Unhealthy,
        scheduler: t.scheduler.state == ComponentState::Unhealthy,
    }
}

/// The most severe of the levels that components imply.
pub open spec fn worst(s: Seq<ControlPlaneComponent>) -> DegradationLevel
    decreases s.len(),
{
    if s.len() == 0 {
        DegradationLevel::Normal
    } else {
        worst(s.drop_last()).or_worse(s.last().level())
    }
}

fn worst_of(v: &Vec<ControlPlaneComponent>) -> (r: DegradationLevel)
    ensures
        r == worst(v@),
{
    let mut r = DegradationLevel::Normal;
    let mut i: usize = 0;
    while i < v.len()
        invariant
            i <= v.len(),
            r == worst(v@.subrange(0, i as int)),
        decreases v@.len() - i,
    {
        r = r.max_with(v[i].implied_level());
        i = i + 1;
        assert(v@.subrange(0, i as int).drop_last() =~= v@.subrange(0, i as int - 1));
    }
    assert(v@.subrange(0, v@.len() as int) =~= v@);
    r
}

/// The names of components.
pub open spec fn names(s: Seq<ControlPlaneComponent>) -> Seq<Seq<char>> {
    Seq::new(s.len(), |i: int| s[i].name())
}

/// The names of components, one after the other.
pub open spec fn list_text(s: Seq<ControlPlaneComponent>) -> Seq<char> {
    joined(names(s), ", "@)
}

fn join_names(v: &Vec<ControlPlaneComponent>) -> (r: String)
    ensures
        r@ == list_text(v@),
{
    let mut parts: Vec<String> = Vec::new();
    let mut i: usize = 0;
    while i < v.len()
        invariant
            i <= v.len(),
            views(parts@) == names(v@).subrange(0, i as int),
        decreases v@.len() - i,
    {
        let ghost before = views(parts@);
        parts.push(v[i].as_str().to_string());
        assert(views(parts@) =~= before.push(v@[i as int].name()));
        i = i + 1;
        assert(views(parts@) =~= names(v@).subrange(0, i as int));
    }
    assert(views(parts@) =~= names(v@));
    join(&parts, ", ")
}

/// Whether a component is failing: it is unhealthy, or its last probe that
/// told anything failed.
pub open spec fn is_failing(k: Known) -> bool {
    k.state == ComponentState::Unhealthy || k.failures > 0
}

/// Those of the first `n` dependencies that are failing.
pub open spec fn failing(t: Table, deps: Seq<ControlPlaneComponent>, n: int) -> Seq<
    ControlPlaneComponent,
>
    decreases n,
{
    if n <= 0 {
        Seq::empty()
    } else if is_failing(t.at(deps[n - 1])) {
        failing(t, deps, n - 1).push(deps[n - 1])
    } else {
        failing(t, deps, n - 1)
    }
}

/// The dependencies of a component that are failing.
pub open spec fn failing_dependencies(t: Table, c: ControlPlaneComponent) -> Seq<
    ControlPlaneComponent,
> {
    failing(t, c.dependencies(), c.dependencies().len() as int)
}

/// What a finding says of the component itself: a failure is inconclusive
/// while a dependency of the component is failing.
pub open spec fn attributed(t: Table, c: ControlPlaneComponent, f: Finding) -> Finding {
    match f {
        Finding::Unhealthy(m) => if failing_dependencies(t, c).len() > 0 {
            Finding::Inconclusive(
                m + (" (not attributed: dependency "@ + list_text(failing_dependencies(t, c))
                    + " failing)"@),
            )
        } else {
            f
        },
        _ => f,
    }
}

/// What is known of a component after one more finding.
pub open spec fn observed(k: Known, f: Finding, config: TrackerConfig, now: Timestamp) -> Known {
    let state = match f {
        Finding::Healthy => match k.state {
            ComponentState::Unhealthy => if k.successes + 1 >= config.recovery_threshold {
                ComponentState::Healthy
            } else {
                ComponentState::Unhealthy
            },
            _ => ComponentState::Healthy,
        },
        Finding::Unhealthy(_) => if k.failures + 1 >= config.failure_threshold {
            ComponentState::Unhealthy
        } else {
            k.state
        },
        Finding::Inconclusive(_) => k.state,
    };
    Known {
        state,
        failures: match f {
            Finding::Healthy => 0,
            Finding::Unhealthy(_) => k.failures + 1,
            Finding::Inconclusive(_) => k.failures,
        },
        successes: match f {
            Finding::Healthy => k.successes + 1,
            Finding::Unhealthy(_) => 0,
            Finding::Inconclusive(_) => k.successes,
        },
        last_probe: Some(now),
        last_transition: if state != k.state {
            Some(now)
        } else {
            k.last_transition
        },
        message: match f {
            Finding::Healthy => None,
            Finding::Unhealthy(m) => Some(m),
            Finding::Inconclusive(m) => Some(m),
        },
    }
}

fn observe(
    t: &ComponentTracker,
    f: ProbeOutcome,
    config: TrackerConfig,
    now: Timestamp,
) -> (r: ComponentTracker)
    requires
        t@.failures < u32::MAX,
        t@.successes < u32::MAX,
    ensures
        r@ == observed(t@, f@, config, now),
{
    let mut state = t.state;
    let mut failures: u32 = t.consecutive_failures;
    let mut successes: u32 = t.consecutive_successes;
    let message = match f {
        ProbeOutcome::Healthy => {
            failures = 0;
            successes = successes + 1;
            let recovered = match t.state {
                ComponentState::Unhealthy => successes >= config.recovery_threshold,
                ComponentState::Unknown => true,
                ComponentState::Healthy => false,
            };
            if recovered {
                state = ComponentState::Healthy;
            }
            None
        },
        ProbeOutcome::Unhealthy(m) => {
            successes = 0;
            failures = failures + 1;
            if failures >= config.failure_threshold {
                state = ComponentState::Unhealthy;
            }
            Some(m)
        },
        ProbeOutcome::Inconclusive(m) => Some(m),
    };
    ComponentTracker {
        state,
        consecutive_failures: failures,
        consecutive_successes: successes,
        last_probe: Some(now),
        last_transition: if state != t.state {
            Some(now)
        } else {
            t.last_transition
        },
        message,
    }
}

/// What is known of the components after some findings, and which states
/// changed.
#[verifier::ext_equal]
pub ghost struct Pass {
    pub table: Table,
    pub changes: Seq<(ControlPlaneComponent, ComponentState, ComponentState)>,
}

/// One more finding.
pub open spec fn noted(
    p: Pass,
    c: ControlPlaneComponent,
    f: Finding,
    config: TrackerConfig,
    now: Timestamp,
) -> Pass {
    let before = p.table.at(c);
    let after = observed(before, attributed(p.table, c, f), config, now);
    Pass {
        table: p.table.with(c, after),
        changes: if after.state != before.state {
            p.changes.push((c, before.state, after.state))
        } else {
            p.changes
        },
    }
}

/// The first `n` findings, one after the other.
pub open spec fn all_noted(
    p: Pass,
    s: Seq<(ControlPlaneComponent, Finding)>,
    n: int,
    config: TrackerConfig,
    now: Timestamp,
) -> Pass
    decreases n,
{
    if n <= 0 {
        p
    } else {
        noted(all_noted(p, s, n - 1, config, now), s[n - 1].0, s[n - 1].1, config, now)
    }
}

/// Those of the first `n` results whose component depends on others, or
/// those whose component does not.
pub open spec fn picked(
    s: Seq<(ControlPlaneComponent, ProbeOutcome)>,
    n: int,
    dependent: bool,
) -> Seq<(ControlPlaneComponent, Finding)>
    decreases n,
{
    if n <= 0 {
        Seq::empty()
    } else if (s[n - 1].0.dependencies().len() > 0) == dependent {
        picked(s, n - 1, dependent).push((s[n - 1].0, s[n - 1].1@))
    } else {
        picked(s, n - 1, dependent)
    }
}

/// The results in the order in which they are taken: dependencies first, so
/// that what depends on them sees the state of the same round.
pub open spec fn in_turn(s: Seq<(ControlPlaneComponent, ProbeOutcome)>) -> Seq<
    (ControlPlaneComponent, Finding),
> {
    picked(s, s.len() as int, false) + picked(s, s.len() as int, true)
}

proof fn lemma_picked_len(s: Seq<(ControlPlaneComponent, ProbeOutcome)>, n: int)
    requires
        0 <= n <= s.len(),
    ensures
        picked(s, n, false).len() + picked(s, n, true).len() == n,
    decreases n,
{
    if n > 0 {
        lemma_picked_len(s, n - 1);
    }
}

/// The results at the given places.
pub open spec fn at_places(
    s: Seq<(ControlPlaneComponent, ProbeOutcome)>,
    order: Seq<usize>,
) -> Seq<(ControlPlaneComponent, Finding)> {
    Seq::new(order.len(), |i: int| (s[order[i] as int].0, s[order[i] as int].1@))
}

fn pick(
    results: &[(ControlPlaneComponent, ProbeOutcome)],
    dependent: bool,
    order: &mut Vec<usize>,
)
    requires
        forall|i: int| 0 <= i < old(order)@.len() ==> #[trigger] old(order)@[i] < results@.len(),
    ensures
        forall|i: int|
            0 <= i < final(order)@.len() ==> #[trigger] final(order)@[i] < results@.len(),
        at_places(results@, final(order)@) == at_places(results@, old(order)@) + picked(
            results@,
            results@.len() as int,
            dependent,
        ),
{
    let ghost start = at_places(results@, order@);
    let n = results.len();
    let mut i: usize = 0;
    assert(start + picked(results@, 0, dependent) =~= start);
    while i < n
        invariant
            i <= n,
            n == results@.len(),
            forall|j: int| 0 <= j < order@.len() ==> #[trigger] order@[j] < results@.len(),
            at_places(results@, order@) == start + picked(results@, i as int, dependent),
        decreases n - i,
    {
        let depends = results[i].0.depends_on().len() > 0;
        if depends == dependent {
            let ghost before = order@;
            order.push(i);
            assert(at_places(results@, order@) =~= at_places(results@, before).push(
                (results@[i as int].0, results@[i as int].1@),
            ));
            assert(at_places(results@, order@) =~= start + picked(
                results@,
                i as int + 1,
                dependent,
            ));
        }
        i = i + 1;
    }
}

/// An incident that has not ended.
#[derive(Clone, Debug)]
struct ActiveIncident {
    report: IncidentReport,
    started: Timestamp,
    suppressed_baseline: u64,
    components: ComponentSet,
}

/// An incident that has not ended, as a value.
pub ghost struct Open {
    pub report: Incident,
    pub started: Timestamp,
    pub baseline: u64,
    pub components: ComponentSet,
}

impl View for ActiveIncident {
    type V = Open;

    closed spec fn view(&self) -> Open {
        Open {
            report: self.report@,
            started: self.started,
            baseline: self.suppressed_baseline,
            components: self.components,
        }
    }
}

/// Why the level changed.
pub open spec fn reason_for(down: ComponentSet) -> Seq<char> {
    if down.listed().len() == 0 {
        "all control-plane components healthy"@
    } else {
        "unhealthy components: "@ + list_text(down.listed())
    }
}

/// A new incident.
pub open spec fn opened(level: DegradationLevel, suppressed: u64, now: Timestamp) -> Open {
    Open {
        report: Incident {
            id: "cph-"@ + now.compact(),
            started_at: now.text(),
            ended_at: None,
            duration_seconds: None,
            peak_level: level,
            components: Seq::empty(),
            transitions: Seq::empty(),
            suppressed_actions: 0,
        },
        started: now,
        baseline: suppressed,
        components: ComponentSet::none(),
    }
}

/// An incident after one more change of the level.
pub open spec fn with_shift(o: Open, s: Shift) -> Open {
    Open { report: Incident { transitions: o.report.transitions.push(s), ..o.report }, ..o }
}

/// An incident at the end of a round: it has seen the components that are
/// down, the level that they lead to and the actions withheld since it began.
pub open spec fn at_round_end(
    o: Open,
    down: ComponentSet,
    level: DegradationLevel,
    suppressed: u64,
) -> Open {
    let components = o.components.union(down);
    Open {
        report: Incident {
            components: components.listed(),
            peak_level: o.report.peak_level.or_worse(level),
            suppressed_actions: if suppressed >= o.baseline {
                (suppressed - o.baseline) as u64
            } else {
                0
            },
            ..o.report
        },
        components,
        ..o
    }
}

/// The report on an incident that ends.
pub open spec fn closed(o: Open, now: Timestamp) -> Incident {
    let seconds = whole(now.instant() - o.started.instant(), 1_000_000_000);
    Incident {
        ended_at: Some(now.text()),
        duration_seconds: Some(
            if seconds < 0 {
                0
            } else {
                seconds as u64
            },
        ),
        ..o.report
    }
}

/// The first `n` of the reports.
pub open spec fn first(s: Seq<Incident>, n: int) -> Seq<Incident> {
    if s.len() <= n {
        s
    } else {
        s.subrange(0, n)
    }
}

/// The state of the tracker.
pub ghost struct Machine {
    pub config: TrackerConfig,
    pub table: Table,
    pub level: DegradationLevel,
    pub since: Timestamp,
    pub active: Option<Open>,
    pub incidents: Seq<Incident>,
}

/// The tracker at its start.
pub open spec fn started(config: TrackerConfig, now: Timestamp) -> Machine {
    Machine {
        config,
        table: Table { etcd: unknown(), dns: unknown(), webhook: unknown(), scheduler: unknown() },
        level: DegradationLevel::Normal,
        since: now,
        active: None,
        incidents: Seq::empty(),
    }
}

/// The tracker with other settings.
pub open spec fn reconfigured(m: Machine, config: TrackerConfig) -> Machine {
    Machine { config, incidents: first(m.incidents, config.incident_history as int), ..m }
}

/// What the findings of a round say of the components.
pub open spec fn findings(
    m: Machine,
    results: Seq<(ControlPlaneComponent, ProbeOutcome)>,
    now: Timestamp,
) -> Pass {
    let s = in_turn(results);
    all_noted(Pass { table: m.table, changes: Seq::empty() }, s, s.len() as int, m.config, now)
}

/// The tracker after a round of probes, and what changed in it.
pub open spec fn after_round(
    m: Machine,
    results: Seq<(ControlPlaneComponent, ProbeOutcome)>,
    suppressed: u64,
    now: Timestamp,
) -> (Machine, Round) {
    let p = findings(m, results, now);
    let down = unhealthy(p.table);
    let level = worst(down.listed());
    let shift = if level != m.level {
        Some(Shift { from: m.level, to: level, at: now.text(), reason: reason_for(down) })
    } else {
        None
    };
    let incident = match shift {
        Some(s) => Some(
            with_shift(
                match m.active {
                    Some(o) => o,
                    None => opened(level, suppressed, now),
                },
                s,
            ),
        ),
        None => m.active,
    };
    let incident = match incident {
        Some(o) => Some(at_round_end(o, down, level, suppressed)),
        None => None,
    };
    let report = match incident {
        Some(o) => if level == DegradationLevel::Normal {
            Some(closed(o, now))
        } else {
            None
        },
        None => None,
    };
    (
        Machine {
            config: m.config,
            table: p.table,
            level,
            since: if shift is Some {
                now
            } else {
                m.since
            },
            active: if level == DegradationLevel::Normal {
                None
            } else {
                incident
            },
            incidents: match report {
                Some(r) => first(seq![r] + m.incidents, m.config.incident_history as int),
                None => m.incidents,
            },
        },
        Round { changes: p.changes, transition: shift, closed: report },
    )
}

/// Makes a level of what probes find, with hysteresis, and keeps the incidents.
#[derive(Clone, Debug)]
pub struct DegradationTracker {
    config: TrackerConfig,
    components: Components,
    level: DegradationLevel,
    level_since: Timestamp,
    active: Option<ActiveIncident>,
    incidents: Vec<IncidentReport>,
}

impl View for DegradationTracker {
    type V = Machine;

    closed spec fn view(&self) -> Machine {
        Machine {
            config: self.config,
            table: self.components@,
            level: self.level,
            since: self.level_since,
            active: match self.active {
                Some(a) => Some(a@),
                None => None,
            },
            incidents: reports(self.incidents@),
        }
    }
}

/// The status of a component.
pub open spec fn is_status_of(s: ComponentStatus, c: ControlPlaneComponent, k: Known) -> bool {
    &&& s.component == c
    &&& s.state == k.state
    &&& s.implied_level == c.level()
    &&& s.consecutive_failures == k.failures
    &&& s.consecutive_successes == k.successes
    &&& opt_view(s.last_probe_time) == opt_time(k.last_probe)
    &&& opt_view(s.last_transition_time) == opt_time(k.last_transition)
    &&& opt_view(s.message) == k.message
}

/// The instant in RFC 3339, where there is one.
pub open spec fn opt_time(t: Option<Timestamp>) -> Option<Seq<char>> {
    match t {
        Some(t) => Some(t.text()),
        None => None,
    }
}

fn write_time(t: Option<Timestamp>) -> (r: Option<String>)
    ensures
        opt_view(r) == opt_time(t),
{
    match t {
        Some(t) => Some(t.to_rfc3339()),
        None => None,
    }
}

fn status_of(c: ControlPlaneComponent, t: &ComponentTracker) -> (r: ComponentStatus)
    ensures
        is_status_of(r, c, t@),
{
    ComponentStatus {
        component: c,
        state: t.state,
        implied_level: c.implied_level(),
        consecutive_failures: t.consecutive_failures,
        consecutive_successes: t.consecutive_successes,
        last_probe_time: write_time(t.last_probe),
        last_transition_time: write_time(t.last_transition),
        message: copy_opt(&t.message),
    }
}

/// Drops all but the first `n` reports.
fn keep_first(v: &mut Vec<IncidentReport>, n: usize)
    ensures
        reports(final(v)@) == first(reports(old(v)@), n as int),
{
    let ghost all = v@;
    if v.len() > n {
        v.truncate(n);
    }
    assert(reports(v@) =~= first(reports(all), n as int));
}

impl DegradationTracker {
    pub fn new(config: TrackerConfig, now: Timestamp) -> (r: Self)
        ensures
            r@ == started(config, now),
    {
        let r = DegradationTracker {
            config,
            components: Components {
                etcd: fresh(),
                dns: fresh(),
                webhook: fresh(),
                scheduler: fresh(),
            },
            level: DegradationLevel::Normal,
            level_since: now,
            active: None,
            incidents: Vec::new(),
        };
        assert(reports(r.incidents@) =~= Seq::<Incident>::empty());
        r
    }

    pub fn set_config(&mut self, config: TrackerConfig)
        ensures
            final(self)@ == reconfigured(old(self)@, config),
    {
        self.config = config;
        keep_first(&mut self.incidents, config.incident_history);
    }

    pub fn level(&self) -> (r: DegradationLevel)
        ensures
            r == self@.level,
    {
        self.level
    }

    pub fn component_state(&self, component: ControlPlaneComponent) -> (r: ComponentState)
        ensures
            r == self@.table.at(component).state,
    {
        self.components.get(component).state
    }

    /// Whether `n` more probes of each component can be counted.
    pub fn has_room_for(&self, n: usize) -> (r: bool)
        ensures
            r == self@.table.has_room(n as int),
    {
        let t = &self.components;
        let n = n as u128;
        let r = t.etcd.consecutive_failures as u128 + n <= u32::MAX as u128
            && t.etcd.consecutive_successes as u128 + n <= u32::MAX as u128
            && t.dns.consecutive_failures as u128 + n <= u32::MAX as u128
            && t.dns.consecutive_successes as u128 + n <= u32::MAX as u128
            && t.webhook.consecutive_failures as u128 + n <= u32::MAX as u128
            && t.webhook.consecutive_successes as u128 + n <= u32::MAX as u128
            && t.scheduler.consecutive_failures as u128 + n <= u32::MAX as u128
            && t.scheduler.consecutive_successes as u128 + n <= u32::MAX as u128;
        proof {
            let table = self@.table;
            if table.has_room(n as int) {
                assert(table.at(ControlPlaneComponent::Etcd).failures + n <= u32::MAX);
                assert(table.at(ControlPlaneComponent::Dns).failures + n <= u32::MAX);
                assert(table.at(ControlPlaneComponent::Webhook).failures + n <= u32::MAX);
                assert(table.at(ControlPlaneComponent::Scheduler).failures + n <= u32::MAX);
            }
        }
        r
    }

    fn attribute(&self, component: ControlPlaneComponent, result: &ProbeOutcome) -> (r:
        ProbeOutcome)
        ensures
            r@ == attributed(self@.table, component, result@),
    {
        if let ProbeOutcome::Unhealthy(m) = result {
            let deps = component.depends_on();
            let mut down: Vec<ControlPlaneComponent> = Vec::new();
            let mut i: usize = 0;
            assert(down@ =~= failing(self@.table, deps@, 0));
            while i < deps.len()
                invariant
                    i <= deps.len(),
                    down@ == failing(self@.table, deps@, i as int),
                decreases deps@.len() - i,
            {
                let t = self.components.get(deps[i]);
                if t.state == ComponentState::Unhealthy || t.consecutive_failures > 0 {
                    down.push(deps[i]);
                }
                i = i + 1;
            }
            if down.len() > 0 {
                let names = join_names(&down);
                return ProbeOutcome::Inconclusive(
                    cat2(m, &crate::text::cat3(" (not attributed: dependency ", &names, " failing)")),
                );
            }
        }
        result.copy()
    }

    /// Takes one finding.
    fn note(
        &mut self,
        component: ControlPlaneComponent,
        result: &ProbeOutcome,
        now: Timestamp,
        changes: &mut Vec<(ControlPlaneComponent, ComponentState, ComponentState)>,
    )
        requires
            old(self)@.table.at(component).failures < u32::MAX,
            old(self)@.table.at(component).successes < u32::MAX,
        ensures
            ({
                let p = noted(
                    Pass { table: old(self)@.table, changes: old(changes)@ },
                    component,
                    result@,
                    old(self)@.config,
                    now,
                );
                final(changes)@ == p.changes && final(self)@ == (Machine {
                    table: p.table,
                    ..old(self)@
                })
            }),
    {
        let result = self.attribute(component, result);
        let before = self.components.get(component).state;
        let t = observe(self.components.get(component), result, self.config, now);
        let after = t.state;
        self.components.set(component, t);
        if after != before {
            changes.push((component, before, after));
        }
    }

    /// Takes all findings of a round.
    fn note_all(
        &mut self,
        results: &[(ControlPlaneComponent, ProbeOutcome)],
        now: Timestamp,
    ) -> (changes: Vec<(ControlPlaneComponent, ComponentState, ComponentState)>)
        requires
            old(self)@.table.has_room(results@.len() as int),
        ensures
            ({
                let p = findings(old(self)@, results@, now);
                changes@ == p.changes && final(self)@ == (Machine { table: p.table, ..old(self)@ })
            }),
    {
        let mut order: Vec<usize> = Vec::new();
        assert(at_places(results@, order@) =~= Seq::<(ControlPlaneComponent, Finding)>::empty());
        pick(results, false, &mut order);
        pick(results, true, &mut order);
        let ghost s = in_turn(results@);
        assert(at_places(results@, order@) =~= s);
        proof {
            lemma_picked_len(results@, results@.len() as int);
        }
        let mut changes: Vec<(ControlPlaneComponent, ComponentState, ComponentState)> = Vec::new();
        let ghost m = self@;
        let ghost p = Pass { table: m.table, changes: Seq::empty() };
        assert(changes@ =~= p.changes);
        let mut i: usize = 0;
        while i < order.len()
            invariant
                i <= order.len(),
                order@.len() == s.len(),
                s.len() == results@.len(),
                at_places(results@, order@) == s,
                forall|j: int| 0 <= j < order@.len() ==> #[trigger] order@[j] < results@.len(),
                changes@ == all_noted(p, s, i as int, m.config, now).changes,
                self@ == (Machine {
                    table: all_noted(p, s, i as int, m.config, now).table,
                    ..m
                }),
                self@.table.has_room(s.len() - i),
            decreases order@.len() - i,
        {
            let k = order[i];
            let ghost before = self@.table;
            let ghost c = s[i as int].0;
            assert(at_places(results@, order@)[i as int] == s[i as int]);
            assert(before.at(c).failures + (s.len() - i) <= u32::MAX);
            self.note(results[k].0, &results[k].1, now, &mut changes);
            proof {
                let after = self@.table;
                assert forall|d: ControlPlaneComponent|
                    #![trigger after.at(d)]
                    after.at(d).failures + (s.len() - i - 1) <= u32::MAX && after.at(d).successes
                        + (s.len() - i - 1) <= u32::MAX by {
                    assert(before.at(d).failures + (s.len() - i) <= u32::MAX);
                    if d != c {
                        assert(after.at(d) == before.at(d));
                    }
                }
            }
            i = i + 1;
        }
        changes
    }

    /// The incident that goes on, or a new one.
    fn incident_for(
        active: Option<ActiveIncident>,
        level: DegradationLevel,
        suppressed: u64,
        now: Timestamp,
    ) -> (r: ActiveIncident)
        ensures
            r@ == match active {
                Some(a) => a@,
                None => opened(level, suppressed, now),
            },
    {
        match active {
            Some(a) => a,
            None => {
                let report = IncidentReport {
                    id: cat2("cph-", &now.to_compact()),
                    started_at: now.to_rfc3339(),
                    ended_at: None,
                    duration_seconds: None,
                    peak_level: level,
                    components: Vec::new(),
                    transitions: Vec::new(),
                    suppressed_actions: 0,
                };
                assert(shifts(report.transitions@) =~= Seq::<Shift>::empty());
                assert(report.components@ =~= Seq::<ControlPlaneComponent>::empty());
                ActiveIncident {
                    report,
                    started: now,
                    suppressed_baseline: suppressed,
                    components: ComponentSet {
                        etcd: false,
                        dns: false,
                        webhook: false,
                        scheduler: false,
                    },
                }
            },
        }
    }

    /// The components that are unhealthy.
    fn unhealthy_set(&self) -> (r: ComponentSet)
        ensures
            r == unhealthy(self@.table),
    {
        ComponentSet {
            etcd: self.components.etcd.state == ComponentState::Unhealthy,
            dns: self.components.dns.state == ComponentState::Unhealthy,
            webhook: self.components.webhook.state == ComponentState::Unhealthy,
            scheduler: self.components.scheduler.state == ComponentState::Unhealthy,
        }
    }

    /// Takes the results of one round of probes.
    ///
    /// `suppressed_total` counts all actions withheld so far, from which
    /// those of the incident are reckoned.
    pub fn record_round(
        &mut self,
        results: &[(ControlPlaneComponent, ProbeOutcome)],
        suppressed_total: u64,
        now: Timestamp,
    ) -> (r: RoundOutcome)
        requires
            old(self)@.table.has_room(results@.len() as int),
        ensures
            (final(self)@, r@) == after_round(old(self)@, results@, suppressed_total, now),
    {
        let ghost m = self@;
        let changes = self.note_all(results, now);
        let down = self.unhealthy_set();
        let listed = down.list();
        let target = worst_of(&listed);
        let mut transition: Option<LevelTransition> = None;
        let mut active: Option<ActiveIncident> = None;
        std::mem::swap(&mut active, &mut self.active);
        if target != self.level {
            let reason = if listed.len() == 0 {
                "all control-plane components healthy".to_string()
            } else {
                cat2("unhealthy components: ", &join_names(&listed))
            };
            let shift = LevelTransition {
                from: self.level,
                to: target,
                at: now.to_rfc3339(),
                reason,
            };
            self.level = target;
            self.level_since = now;
            let mut incident = Self::incident_for(active, target, suppressed_total, now);
            let ghost before = incident@;
            incident.report.transitions.push(shift.copy());
            assert(shifts(incident.report.transitions@) =~= before.report.transitions.push(shift@));
            assert(incident@ == with_shift(before, shift@));
            active = Some(incident);
            transition = Some(shift);
        }
        let mut closed_incident: Option<IncidentReport> = None;
        if let Some(mut incident) = active {
            incident.components = ComponentSet {
                etcd: incident.components.etcd || down.etcd,
                dns: incident.components.dns || down.dns,
                webhook: incident.components.webhook || down.webhook,
                scheduler: incident.components.scheduler || down.scheduler,
            };
            incident.report.components = incident.components.list();
            incident.report.peak_level = incident.report.peak_level.max_with(self.level);
            incident.report.suppressed_actions = if suppressed_total
                >= incident.suppressed_baseline {
                suppressed_total - incident.suppressed_baseline
            } else {
                0
            };
            if self.level == DegradationLevel::Normal {
                let seconds: i64 = now.seconds_since(incident.started);
                incident.report.ended_at = Some(now.to_rfc3339());
                incident.report.duration_seconds = Some(
                    if seconds < 0 {
                        0
                    } else {
                        seconds as u64
                    },
                );
                let ghost all = self.incidents@;
                let report = incident.report.copy();
                self.incidents.insert(0, incident.report);
                assert(reports(self.incidents@) =~= seq![report@] + reports(all));
                keep_first(&mut self.incidents, self.config.incident_history);
                closed_incident = Some(report);
            } else {
                self.active = Some(incident);
            }
        }
        RoundOutcome { component_changes: changes, transition, closed_incident }
    }

    /// All of the state, as the status of the `ControlPlaneHealth` resource.
    pub fn status(&self, observed_generation: Option<i64>) -> (r: ControlPlaneHealthStatus)
        ensures
            r.level == self@.level,
            opt_view(r.level_since) == Some(self@.since.text()),
            r.permitted == self@.level.allows(),
            r.components@.len() == 4,
            forall|i: int|
                0 <= i < 4 ==> is_status_of(
                    #[trigger] r.components@[i],
                    ControlPlaneComponent::ALL@[i],
                    self@.table.at(ControlPlaneComponent::ALL@[i]),
                ),
            opt_incident(r.active_incident) == match self@.active {
                Some(o) => Some(o.report),
                None => None,
            },
            reports(r.incidents@) == self@.incidents,
            r.observed_generation == observed_generation,
    {
        let mut components: Vec<ComponentStatus> = Vec::new();
        components.push(status_of(ControlPlaneComponent::Etcd, &self.components.etcd));
        components.push(status_of(ControlPlaneComponent::Dns, &self.components.dns));
        components.push(status_of(ControlPlaneComponent::Webhook, &self.components.webhook));
        components.push(status_of(ControlPlaneComponent::Scheduler, &self.components.scheduler));
        ControlPlaneHealthStatus {
            level: self.level,
            level_since: Some(self.level_since.to_rfc3339()),
            permitted: self.level.permitted(),
            components,
            active_incident: match &self.active {
                Some(a) => Some(a.report.copy()),
                None => None,
            },
            incidents: copy_reports(&self.incidents),
            observed_generation,
        }
    }
}

/// The state that the tracker is always in: its level is the most severe one
/// that an unhealthy component implies, an incident is open just while the level
/// is not normal, and no more reports are kept than the settings ask for.
pub open spec fn consistent(m: Machine) -> bool {
    &&& m.level == worst(unhealthy(m.table).listed())
    &&& (m.active is Some <==> m.level != DegradationLevel::Normal)
    &&& m.incidents.len() <= m.config.incident_history
}

/// A new tracker is in a consistent state.
pub proof fn law_start_is_consistent(config: TrackerConfig, now: Timestamp)
    ensures
        consistent(started(config, now)),
{
    assert(unhealthy(started(config, now).table).listed() =~= Seq::<ControlPlaneComponent>::empty());
}

/// A round of probes keeps the state consistent, whatever the probes found.
pub proof fn law_round_is_consistent(
    m: Machine,
    results: Seq<(ControlPlaneComponent, ProbeOutcome)>,
    suppressed: u64,
    now: Timestamp,
)
    requires
        consistent(m),
    ensures
        consistent(after_round(m, results, suppressed, now).0),
{
}

/// Other settings keep the state consistent.
pub proof fn law_reconfigured_is_consistent(m: Machine, config: TrackerConfig)
    requires
        consistent(m),
    ensures
        consistent(reconfigured(m, config)),
{
}

proof fn lemma_worst(s: Seq<ControlPlaneComponent>)
    ensures
        forall|i: int| 0 <= i < s.len() ==> (#[trigger] s[i]).level().severity() <= worst(s).severity(),
        worst(s) == DegradationLevel::Normal || exists|i: int|
            0 <= i < s.len() && (#[trigger] s[i]).level() == worst(s),
    decreases s.len(),
{
    if s.len() > 0 {
        let t = s.drop_last();
        lemma_worst(t);
        assert forall|i: int| 0 <= i < s.len() implies (#[trigger] s[i]).level().severity()
            <= worst(s).severity() by {
            if i < s.len() - 1 {
                assert(t[i] == s[i]);
            }
        }
        if worst(t) != DegradationLevel::Normal {
            let i = choose|i: int| 0 <= i < t.len() && (#[trigger] t[i]).level() == worst(t);
            assert(s[i] == t[i]);
        }
        assert(s[s.len() - 1] == s.last());
    }
}

proof fn lemma_listed(d: ComponentSet, c: ControlPlaneComponent)
    ensures
        d.listed().contains(c) <==> d.holds(c),
{
    let s = d.listed();
    let a = if_in(d.etcd, ControlPlaneComponent::Etcd);
    let b = a + if_in(d.dns, ControlPlaneComponent::Dns);
    let e = b + if_in(d.webhook, ControlPlaneComponent::Webhook);
    if d.holds(c) {
        match c {
            ControlPlaneComponent::Etcd => {
                assert(s[0] == c);
            },
            ControlPlaneComponent::Dns => {
                assert(s[a.len() as int] == c);
            },
            ControlPlaneComponent::Webhook => {
                assert(s[b.len() as int] == c);
            },
            ControlPlaneComponent::Scheduler => {
                assert(s[e.len() as int] == c);
            },
        }
    }
}

/// The level is at least as severe as every unhealthy component implies, and
/// it is normal or implied by one of them.
pub proof fn law_level_is_worst(m: Machine, c: ControlPlaneComponent)
    requires
        consistent(m),
    ensures
        m.table.at(c).state == ComponentState::Unhealthy ==> c.level().severity()
            <= m.level.severity(),
        m.level == DegradationLevel::Normal || exists|d: ControlPlaneComponent|
            (#[trigger] m.table.at(d)).state == ComponentState::Unhealthy && d.level() == m.level,
{
    let down = unhealthy(m.table);
    let s = down.listed();
    lemma_worst(s);
    lemma_listed(down, c);
    if m.table.at(c).state == ComponentState::Unhealthy {
        let i = choose|i: int| 0 <= i < s.len() && s[i] == c;
        assert(s[i].level().severity() <= worst(s).severity());
    }
    if m.level != DegradationLevel::Normal {
        let i = choose|i: int| 0 <= i < s.len() && (#[trigger] s[i]).level() == worst(s);
        lemma_listed(down, s[i]);
        assert(s.contains(s[i]));
        assert(m.table.at(s[i]).state == ComponentState::Unhealthy);
    }
}

/// A component changes its state only at a threshold: too few failures in a
/// row leave it as it is, too few successes leave it unhealthy, and an
/// inconclusive probe changes neither its state nor its counts.
pub proof fn law_hysteresis(k: Known, f: Finding, config: TrackerConfig, now: Timestamp)
    ensures
        f is Unhealthy && k.failures + 1 < config.failure_threshold ==> observed(
            k,
            f,
            config,
            now,
        ).state == k.state,
        f is Healthy && k.state == ComponentState::Unhealthy && k.successes + 1
            < config.recovery_threshold ==> observed(k, f, config, now).state
            == ComponentState::Unhealthy,
        f is Inconclusive ==> {
            let after = observed(k, f, config, now);
            after.state == k.state && after.failures == k.failures && after.successes
                == k.successes
        },
{
}

/// While etcd is failing, a failure of the scheduler's probe is not counted
/// against the scheduler.
pub proof fn law_outage_is_attributed(t: Table, m: Seq<char>)
    requires
        is_failing(t.etcd),
    ensures
        attributed(t, ControlPlaneComponent::Scheduler, Finding::Unhealthy(m)) is Inconclusive,
{
    reveal_with_fuel(failing, 2);
    assert(ControlPlaneComponent::Scheduler.dependencies()[0] == ControlPlaneComponent::Etcd);
}

/// The round after which the level is normal again closes the open incident,
/// and its report comes first among those that are kept.
pub proof fn law_recovery_closes_incident(
    m: Machine,
    results: Seq<(ControlPlaneComponent, ProbeOutcome)>,
    suppressed: u64,
    now: Timestamp,
)
    requires
        consistent(m),
        m.level != DegradationLevel::Normal,
        after_round(m, results, suppressed, now).0.level == DegradationLevel::Normal,
    ensures
        ({
            let (after, round) = after_round(m, results, suppressed, now);
            &&& round.closed is Some
            &&& round.closed->0.ended_at == Some(now.text())
            &&& round.closed->0.peak_level.severity() >= m.active->0.report.peak_level.severity()
            &&& after.active is None
            &&& m.config.incident_history > 0 ==> after.incidents[0] == round.closed->0
        }),
{
}

/// A round of probes, and the settings that are in force in it.
pub ghost struct Turn {
    pub config: TrackerConfig,
    pub results: Seq<(ControlPlaneComponent, ProbeOutcome)>,
    pub suppressed: u64,
    pub now: Timestamp,
}

/// The tracker after a round, and what changed in it.
pub open spec fn after_turn(m: Machine, t: Turn) -> (Machine, Round) {
    after_round(reconfigured(m, t.config), t.results, t.suppressed, t.now)
}

/// The tracker after the first `n` rounds.
pub open spec fn after_turns(m: Machine, turns: Seq<Turn>, n: int) -> Machine
    decreases n,
{
    if n <= 0 {
        m
    } else {
        after_turn(after_turns(m, turns, n - 1), turns[n - 1]).0
    }
}

/// A component was unhealthy after one of the rounds up to `n`.
pub open spec fn was_down(m: Machine, turns: Seq<Turn>, n: int, c: ControlPlaneComponent) -> bool {
    exists|k: int|
        1 <= k <= n && (#[trigger] after_turns(m, turns, k)).table.at(c).state
            == ComponentState::Unhealthy
}

/// The level is the most severe one of those after the rounds up to `n`.
pub open spec fn is_peak(m: Machine, turns: Seq<Turn>, n: int, level: DegradationLevel) -> bool {
    &&& forall|k: int|
        1 <= k <= n ==> (#[trigger] after_turns(m, turns, k)).level.severity() <= level.severity()
    &&& exists|k: int| 1 <= k <= n && (#[trigger] after_turns(m, turns, k)).level == level
}

/// What an incident holds that began in the first of the rounds up to `n`.
pub open spec fn tells_of(m: Machine, turns: Seq<Turn>, n: int, r: Incident) -> bool {
    &&& r.started_at == turns[0].now.text()
    &&& is_peak(m, turns, n, r.peak_level)
    &&& forall|c: ControlPlaneComponent|
        #![trigger r.components.contains(c)]
        r.components.contains(c) <==> was_down(m, turns, n, c)
}

proof fn lemma_turn(m: Machine, turns: Seq<Turn>, n: int, o: Open, c: ControlPlaneComponent)
    requires
        n > 1,
        o.components.holds(c) <==> was_down(m, turns, n - 1, c),
    ensures
        o.components.union(unhealthy(after_turns(m, turns, n).table)).holds(c) <==> was_down(
            m,
            turns,
            n,
            c,
        ),
{
    let last = after_turns(m, turns, n);
    if o.components.holds(c) {
        let k = choose|k: int|
            1 <= k <= n - 1 && (#[trigger] after_turns(m, turns, k)).table.at(c).state
                == ComponentState::Unhealthy;
        assert(was_down(m, turns, n, c)) by {
            assert(after_turns(m, turns, k).table.at(c).state == ComponentState::Unhealthy);
        }
    }
    if last.table.at(c).state == ComponentState::Unhealthy {
        assert(was_down(m, turns, n, c));
    }
    if was_down(m, turns, n, c) && last.table.at(c).state != ComponentState::Unhealthy {
        let k = choose|k: int|
            1 <= k <= n && (#[trigger] after_turns(m, turns, k)).table.at(c).state
                == ComponentState::Unhealthy;
        assert(k <= n - 1);
        assert(after_turns(m, turns, k).table.at(c).state == ComponentState::Unhealthy);
        assert(was_down(m, turns, n - 1, c));
    }
}

proof fn lemma_open(m: Machine, turns: Seq<Turn>, n: int)
    requires
        consistent(m),
        m.level == DegradationLevel::Normal,
        1 <= n,
        forall|k: int|
            1 <= k <= n ==> (#[trigger] after_turns(m, turns, k)).level
                != DegradationLevel::Normal,
    ensures
        consistent(after_turns(m, turns, n)),
        after_turns(m, turns, n).active is Some,
        ({
            let o = after_turns(m, turns, n).active->0;
            &&& o.report.components == o.components.listed()
            &&& tells_of(m, turns, n, o.report)
        }),
    decreases n,
{
    let before = after_turns(m, turns, n - 1);
    let after = after_turns(m, turns, n);
    let t = turns[n - 1];
    if n > 1 {
        lemma_open(m, turns, n - 1);
    } else {
        assert(before == m);
    }
    law_reconfigured_is_consistent(before, t.config);
    law_round_is_consistent(reconfigured(before, t.config), t.results, t.suppressed, t.now);
    assert(after.level != DegradationLevel::Normal);
    let o = after.active->0;
    let down = unhealthy(after.table);
    if n > 1 {
        let past = before.active->0;
        assert(o.components == past.components.union(down));
        assert forall|c: ControlPlaneComponent|
            #![trigger o.report.components.contains(c)]
            o.report.components.contains(c) <==> was_down(m, turns, n, c) by {
            lemma_listed(past.components, c);
            assert(past.report.components.contains(c) <==> was_down(m, turns, n - 1, c));
            lemma_turn(m, turns, n, past, c);
            lemma_listed(o.components, c);
        }
        lemma_peak(m, turns, n, past.report.peak_level);
    } else {
        assert forall|c: ControlPlaneComponent|
            #![trigger o.report.components.contains(c)]
            o.report.components.contains(c) <==> was_down(m, turns, n, c) by {
            lemma_listed(o.components, c);
            assert(o.components.holds(c) <==> down.holds(c));
            if down.holds(c) {
                assert(after_turns(m, turns, 1).table.at(c).state == ComponentState::Unhealthy);
            }
        }
        assert(o.report.peak_level == after.level);
        assert(after_turns(m, turns, 1).level == o.report.peak_level);
    }
}

proof fn lemma_peak(m: Machine, turns: Seq<Turn>, n: int, level: DegradationLevel)
    requires
        n > 1,
        is_peak(m, turns, n - 1, level),
    ensures
        is_peak(m, turns, n, level.or_worse(after_turns(m, turns, n).level)),
{
    let last = after_turns(m, turns, n).level;
    let worst = level.or_worse(last);
    assert forall|k: int| 1 <= k <= n implies (#[trigger] after_turns(m, turns, k)).level.severity()
        <= worst.severity() by {
        if k < n {
            assert(after_turns(m, turns, k).level.severity() <= level.severity());
        }
    }
    if worst == last {
        assert(after_turns(m, turns, n).level == worst);
    } else {
        let k = choose|k: int| 1 <= k <= n - 1 && (#[trigger] after_turns(m, turns, k)).level == level;
        assert(after_turns(m, turns, k).level == worst);
    }
}

/// The report on a closed incident holds the worst level of all the rounds
/// since it began, and just the components that were unhealthy after one of
/// them.
pub proof fn law_report_holds_all_rounds(m: Machine, turns: Seq<Turn>)
    requires
        consistent(m),
        m.level == DegradationLevel::Normal,
        turns.len() > 1,
        forall|k: int|
            1 <= k < turns.len() ==> (#[trigger] after_turns(m, turns, k)).level
                != DegradationLevel::Normal,
        after_turns(m, turns, turns.len() as int).level == DegradationLevel::Normal,
    ensures
        ({
            let n = turns.len() as int;
            let closed = after_turn(after_turns(m, turns, n - 1), turns[n - 1]).1.closed;
            &&& closed is Some
            &&& closed->0.ended_at == Some(turns[n - 1].now.text())
            &&& tells_of(m, turns, n, closed->0)
        }),
{
    let n = turns.len() as int;
    lemma_open(m, turns, n - 1);
    let past = after_turns(m, turns, n - 1).active->0;
    let r = after_turn(after_turns(m, turns, n - 1), turns[n - 1]).1.closed->0;
    let all = past.components.union(unhealthy(after_turns(m, turns, n).table));
    assert(r.components == all.listed());
    assert forall|c: ControlPlaneComponent|
        #![trigger r.components.contains(c)]
        r.components.contains(c) <==> was_down(m, turns, n, c) by {
        lemma_listed(past.components, c);
        assert(past.report.components.contains(c) <==> was_down(m, turns, n - 1, c));
        lemma_turn(m, turns, n, past, c);
        lemma_listed(all, c);
    }
    lemma_peak(m, turns, n, past.report.peak_level);
}

/// What a finding tells of the component: that it works, that it does not, or
/// nothing.
pub open spec fn told(f: Finding) -> Seq<bool> {
    match f {
        Finding::Healthy => seq![true],
        Finding::Unhealthy(_) => seq![false],
        Finding::Inconclusive(_) => Seq::empty(),
    }
}

/// What is known after the first `n` findings of a round.
pub open spec fn within_turn(m: Machine, t: Turn, n: int) -> Table {
    all_noted(
        Pass { table: m.table, changes: Seq::empty() },
        in_turn(t.results),
        n,
        t.config,
        t.now,
    ).table
}

/// What the first `n` findings of a round told of a component.
pub open spec fn told_in(m: Machine, t: Turn, c: ControlPlaneComponent, n: int) -> Seq<bool>
    decreases n,
{
    let s = in_turn(t.results);
    if n <= 0 {
        Seq::empty()
    } else if s[n - 1].0 == c {
        told_in(m, t, c, n - 1) + told(attributed(within_turn(m, t, n - 1), c, s[n - 1].1))
    } else {
        told_in(m, t, c, n - 1)
    }
}

/// What the first `n` rounds told of a component.
pub open spec fn told_by(m: Machine, turns: Seq<Turn>, c: ControlPlaneComponent, n: int) -> Seq<bool>
    decreases n,
{
    if n <= 0 {
        Seq::empty()
    } else {
        told_by(m, turns, c, n - 1) + told_in(
            after_turns(m, turns, n - 1),
            turns[n - 1],
            c,
            in_turn(turns[n - 1].results).len() as int,
        )
    }
}

/// The last `n` things told are the same.
pub open spec fn agree(h: Seq<bool>, n: int, works: bool) -> bool {
    n <= h.len() && forall|i: int| h.len() - n <= i < h.len() ==> #[trigger] h[i] == works
}

/// The counts are of what was told last.
pub open spec fn counts(k: Known, h: Seq<bool>) -> bool {
    &&& 0 <= k.failures
    &&& 0 <= k.successes
    &&& agree(h, k.failures, false)
    &&& agree(h, k.successes, true)
}

proof fn lemma_counts_in(m: Machine, t: Turn, c: ControlPlaneComponent, n: int, h: Seq<bool>)
    requires
        0 <= n <= in_turn(t.results).len(),
        counts(m.table.at(c), h),
    ensures
        counts(within_turn(m, t, n).at(c), h + told_in(m, t, c, n)),
    decreases n,
{
    if n == 0 {
        assert(h + told_in(m, t, c, n) =~= h);
    } else {
        lemma_counts_in(m, t, c, n - 1, h);
        let s = in_turn(t.results);
        let past = h + told_in(m, t, c, n - 1);
        if s[n - 1].0 == c {
            let f = attributed(within_turn(m, t, n - 1), c, s[n - 1].1);
            assert(h + told_in(m, t, c, n) =~= past + told(f));
            match f {
                Finding::Healthy => {
                    assert(past + told(f) =~= past.push(true));
                },
                Finding::Unhealthy(_) => {
                    assert(past + told(f) =~= past.push(false));
                },
                Finding::Inconclusive(_) => {
                    assert(past + told(f) =~= past);
                },
            }
        }
    }
}

proof fn lemma_counts(
    config: TrackerConfig,
    start: Timestamp,
    turns: Seq<Turn>,
    c: ControlPlaneComponent,
    n: int,
)
    requires
        0 <= n <= turns.len(),
    ensures
        counts(
            after_turns(started(config, start), turns, n).table.at(c),
            told_by(started(config, start), turns, c, n),
        ),
    decreases n,
{
    if n > 0 {
        let m = started(config, start);
        lemma_counts(config, start, turns, c, n - 1);
        lemma_counts_in(
            after_turns(m, turns, n - 1),
            turns[n - 1],
            c,
            in_turn(turns[n - 1].results).len() as int,
            told_by(m, turns, c, n - 1),
        );
    }
}

/// Whatever a tracker has been told, a component becomes unhealthy only where
/// its last conclusive outcomes, as many as the threshold asks for, are all
/// failures; and it recovers only where as many as the other threshold asks
/// for are all successes. The first success makes an unknown component healthy.
pub proof fn law_change_needs_agreement(
    config: TrackerConfig,
    start: Timestamp,
    turns: Seq<Turn>,
    n: int,
    i: int,
    c: ControlPlaneComponent,
)
    requires
        0 <= n < turns.len(),
        0 <= i < in_turn(turns[n].results).len(),
    ensures
        ({
            let m = after_turns(started(config, start), turns, n);
            let t = turns[n];
            let before = within_turn(m, t, i).at(c).state;
            let after = within_turn(m, t, i + 1).at(c).state;
            let h = told_by(started(config, start), turns, c, n) + told_in(m, t, c, i + 1);
            before != after ==> match after {
                ComponentState::Unhealthy => agree(h, t.config.failure_threshold as int, false),
                ComponentState::Healthy => agree(h, 1, true) && (before
                    == ComponentState::Unhealthy ==> agree(
                    h,
                    t.config.recovery_threshold as int,
                    true,
                )),
                ComponentState::Unknown => false,
            }
        }),
{
    let m = after_turns(started(config, start), turns, n);
    let t = turns[n];
    let past = told_by(started(config, start), turns, c, n);
    lemma_counts(config, start, turns, c, n);
    lemma_counts_in(m, t, c, i, past);
    lemma_counts_in(m, t, c, i + 1, past);
    let before = within_turn(m, t, i).at(c);
    let after = within_turn(m, t, i + 1).at(c);
    let h = past + told_in(m, t, c, i + 1);
    if before.state != after.state {
        assert(in_turn(t.results)[i].0 == c);
        assert(agree(h, after.failures, false));
        assert(agree(h, after.successes, true));
    }
}

/// One observation: a failure counts one more, and one too many takes the
/// component down; a success counts one more, and enough of them bring it back.
/// An observation that says nothing counts for nothing.
pub proof fn law_observations_are_counted(
    k: Known,
    m: Seq<char>,
    config: TrackerConfig,
    now: Timestamp,
)
    ensures
        ({
            let down = observed(k, Finding::Unhealthy(m), config, now);
            let up = observed(k, Finding::Healthy, config, now);
            let open = observed(k, Finding::Inconclusive(m), config, now);
            &&& down.failures == k.failures + 1 && down.successes == 0 && down.message == Some(m)
            &&& up.failures == 0 && up.successes == k.successes + 1 && up.message is None
            &&& open.failures == k.failures && open.successes == k.successes && open.message
                == Some(m)
            &&& down.failures >= config.failure_threshold ==> down.state
                == ComponentState::Unhealthy
            &&& down.failures < config.failure_threshold ==> down.state == k.state
            &&& k.state != ComponentState::Unhealthy ==> up.state == ComponentState::Healthy
            &&& k.state == ComponentState::Unhealthy ==> up.state == if up.successes
                >= config.recovery_threshold {
                ComponentState::Healthy
            } else {
                ComponentState::Unhealthy
            }
            &&& open.state == k.state
        }),
{
}

/// An observation is dated, and a change of state is; where the state stays, so
/// does the date of its last change.
pub proof fn law_changes_are_dated(k: Known, f: Finding, config: TrackerConfig, now: Timestamp)
    ensures
        observed(k, f, config, now).last_probe == Some(now),
        observed(k, f, config, now).state != k.state ==> observed(k, f, config, now).last_transition
            == Some(now),
        observed(k, f, config, now).state == k.state ==> observed(k, f, config, now).last_transition
            == k.last_transition,
{
}

/// The dependencies that fail are just those that are down or have failed
/// since they last worked.
pub proof fn law_failing_dependencies(t: Table, deps: Seq<ControlPlaneComponent>, n: int)
    requires
        0 <= n <= deps.len(),
    ensures
        forall|i: int|
            #![trigger deps[i]]
            0 <= i < n && (t.at(deps[i]).state == ComponentState::Unhealthy || t.at(deps[i]).failures > 0) ==> failing(t, deps, n).contains(deps[i]),
        forall|x: ControlPlaneComponent| #[trigger]
            failing(t, deps, n).contains(x) ==> exists|i: int|
                #![trigger deps[i]]
                0 <= i < n && (t.at(deps[i]).state == ComponentState::Unhealthy || t.at(deps[i]).failures > 0) && x == deps[i],
    decreases n,
{
    if n > 0 {
        law_failing_dependencies(t, deps, n - 1);
        let p = failing(t, deps, n - 1);
        let r = failing(t, deps, n);
        assert forall|i: int|
            #![trigger deps[i]]
            0 <= i < n && (t.at(deps[i]).state == ComponentState::Unhealthy || t.at(deps[i]).failures > 0) implies r.contains(deps[i]) by {
            if i == n - 1 {
                assert(r[p.len() as int] == deps[i]);
            } else {
                assert(p.contains(deps[i]));
                let k = choose|k: int| 0 <= k < p.len() && p[k] == deps[i];
                assert(r[k] == deps[i]);
            }
        }
        assert forall|x: ControlPlaneComponent| #[trigger] r.contains(x) implies exists|i: int|
            #![trigger deps[i]]
            0 <= i < n && (t.at(deps[i]).state == ComponentState::Unhealthy || t.at(deps[i]).failures > 0) && x == deps[i] by {
            let j = choose|j: int| 0 <= j < r.len() && r[j] == x;
            if j < p.len() {
                assert(r[j] == p[j]);
                assert(p.contains(x));
                let i = choose|i: int|
                    #![trigger deps[i]]
                    0 <= i < n - 1 && (t.at(deps[i]).state == ComponentState::Unhealthy || t.at(deps[i]).failures > 0) && x == deps[i];
                assert((t.at(deps[i]).state == ComponentState::Unhealthy || t.at(deps[i]).failures > 0) && x == deps[i]);
            } else {
                let i = n - 1;
                assert((t.at(deps[i]).state == ComponentState::Unhealthy || t.at(deps[i]).failures > 0) && x == deps[i]);
            }
        }
    }
}

/// A failure is put down to the component itself unless something that it
/// depends on fails; whatever else was found stays as it is.
pub proof fn law_failure_is_attributed_or_not(t: Table, c: ControlPlaneComponent, m: Seq<char>)
    ensures
        ({
            let blamed = exists|i: int|
                0 <= i < c.dependencies().len() && is_failing(
                    t.at(#[trigger] c.dependencies()[i]),
                );
            &&& blamed ==> attributed(t, c, Finding::Unhealthy(m)) is Inconclusive
            &&& !blamed ==> attributed(t, c, Finding::Unhealthy(m)) == Finding::Unhealthy(m)
            &&& attributed(t, c, Finding::Healthy) == Finding::Healthy
            &&& attributed(t, c, Finding::Inconclusive(m)) == Finding::Inconclusive(m)
        }),
{
    let deps = c.dependencies();
    law_failing_dependencies(t, deps, deps.len() as int);
    let all = failing_dependencies(t, c);
    if all.len() > 0 {
        assert(all.contains(all[0]));
    }
    assert forall|i: int| 0 <= i < deps.len() && is_failing(t.at(#[trigger] deps[i])) implies all.len()
        > 0 by {
        assert(all.contains(deps[i]));
    }
}

/// The results that are taken in a pass are those of the components that depend
/// on others, or those of the rest.
pub proof fn law_results_are_picked(s: Seq<(ControlPlaneComponent, ProbeOutcome)>, dependent: bool, n: int)
    requires
        0 <= n <= s.len(),
    ensures
        forall|i: int|
            #![trigger s[i]]
            0 <= i < n && (s[i].0.dependencies().len() > 0) == dependent ==> picked(s, n, dependent).contains((s[i].0, s[i].1@)),
        forall|x: (ControlPlaneComponent, Finding)| #[trigger]
            picked(s, n, dependent).contains(x) ==> exists|i: int|
                #![trigger s[i]]
                0 <= i < n && (s[i].0.dependencies().len() > 0) == dependent && x == (s[i].0, s[i].1@),
    decreases n,
{
    if n > 0 {
        law_results_are_picked(s, dependent, n - 1);
        let p = picked(s, n - 1, dependent);
        let r = picked(s, n, dependent);
        assert forall|i: int|
            #![trigger s[i]]
            0 <= i < n && (s[i].0.dependencies().len() > 0) == dependent implies r.contains((s[i].0, s[i].1@)) by {
            if i == n - 1 {
                assert(r[p.len() as int] == (s[i].0, s[i].1@));
            } else {
                assert(p.contains((s[i].0, s[i].1@)));
                let k = choose|k: int| 0 <= k < p.len() && p[k] == (s[i].0, s[i].1@);
                assert(r[k] == (s[i].0, s[i].1@));
            }
        }
        assert forall|x: (ControlPlaneComponent, Finding)| #[trigger] r.contains(x) implies exists|i: int|
            #![trigger s[i]]
            0 <= i < n && (s[i].0.dependencies().len() > 0) == dependent && x == (s[i].0, s[i].1@) by {
            let j = choose|j: int| 0 <= j < r.len() && r[j] == x;
            if j < p.len() {
                assert(r[j] == p[j]);
                assert(p.contains(x));
                let i = choose|i: int|
                    #![trigger s[i]]
                    0 <= i < n - 1 && (s[i].0.dependencies().len() > 0) == dependent && x == (s[i].0, s[i].1@);
                assert((s[i].0.dependencies().len() > 0) == dependent && x == (s[i].0, s[i].1@));
            } else {
                let i = n - 1;
                assert((s[i].0.dependencies().len() > 0) == dependent && x == (s[i].0, s[i].1@));
            }
        }
    }
}

proof fn lemma_unprobed(
    p: Pass,
    s: Seq<(ControlPlaneComponent, Finding)>,
    n: int,
    config: TrackerConfig,
    now: Timestamp,
    c: ControlPlaneComponent,
)
    requires
        0 <= n <= s.len(),
        forall|i: int| 0 <= i < n ==> (#[trigger] s[i]).0 != c,
    ensures
        all_noted(p, s, n, config, now).table.at(c) == p.table.at(c),
    decreases n,
{
    if n > 0 {
        lemma_unprobed(p, s, n - 1, config, now, c);
        assert(s[n - 1].0 != c);
    }
}

/// A component of which a round says nothing is known after it as before.
pub proof fn law_unprobed_component_stays(
    m: Machine,
    results: Seq<(ControlPlaneComponent, ProbeOutcome)>,
    suppressed: u64,
    now: Timestamp,
    c: ControlPlaneComponent,
)
    requires
        forall|i: int| 0 <= i < results.len() ==> (#[trigger] results[i]).0 != c,
    ensures
        after_round(m, results, suppressed, now).0.table.at(c) == m.table.at(c),
{
    let n = results.len() as int;
    law_results_are_picked(results, false, n);
    law_results_are_picked(results, true, n);
    let s = in_turn(results);
    assert forall|i: int| 0 <= i < s.len() implies (#[trigger] s[i]).0 != c by {
        let first = picked(results, n, false);
        if i < first.len() {
            assert(s[i] == first[i]);
            assert(first.contains(s[i]));
        } else {
            let rest = picked(results, n, true);
            assert(s[i] == rest[i - first.len()]);
            assert(rest.contains(s[i]));
        }
    }
    lemma_unprobed(
        Pass { table: m.table, changes: Seq::empty() },
        s,
        s.len() as int,
        m.config,
        now,
        c,
    );
}

/// A round with one result: the component is known as that result, attributed,
/// leaves it, and the round tells of a change just where there is one.
pub proof fn law_result_is_noted(
    m: Machine,
    c: ControlPlaneComponent,
    outcome: ProbeOutcome,
    suppressed: u64,
    now: Timestamp,
)
    ensures
        ({
            let (after, round) = after_round(m, seq![(c, outcome)], suppressed, now);
            let before = m.table.at(c);
            let known = after.table.at(c);
            &&& known == observed(before, attributed(m.table, c, outcome@), m.config, now)
            &&& known.state == before.state ==> round.changes.len() == 0
            &&& known.state != before.state ==> round.changes == seq![
                (c, before.state, known.state),
            ]
        }),
{
    let results = seq![(c, outcome)];
    reveal_with_fuel(picked, 2);
    let s = in_turn(results);
    assert(s =~= seq![(c, outcome@)]);
    reveal_with_fuel(all_noted, 2);
    let (after, round) = after_round(m, results, suppressed, now);
    assert(round.changes =~= if after.table.at(c).state != m.table.at(c).state {
        seq![(c, m.table.at(c).state, after.table.at(c).state)]
    } else {
        Seq::empty()
    });
}

/// A round tells of a change of level just where there is one, from the level
/// before to the level after; the level is dated by its last change.
pub proof fn law_change_of_level_is_told(
    m: Machine,
    results: Seq<(ControlPlaneComponent, ProbeOutcome)>,
    suppressed: u64,
    now: Timestamp,
)
    ensures
        ({
            let (after, round) = after_round(m, results, suppressed, now);
            &&& round.transition is Some <==> after.level != m.level
            &&& round.transition is Some ==> round.transition->0.from == m.level
                && round.transition->0.to == after.level && round.transition->0.at == now.text()
                && after.since == now
            &&& round.transition is None ==> after.since == m.since
            &&& after.config == m.config
        }),
{
}

/// An incident begins when the level leaves normal, at that time and with that
/// change as its first; while it lasts it counts what was suppressed since it
/// began, and gains a change just where the level changes.
pub proof fn law_incident_is_followed(
    m: Machine,
    results: Seq<(ControlPlaneComponent, ProbeOutcome)>,
    suppressed: u64,
    now: Timestamp,
)
    requires
        after_round(m, results, suppressed, now).0.level != DegradationLevel::Normal,
        m.active is Some <==> m.level != DegradationLevel::Normal,
    ensures
        ({
            let (after, round) = after_round(m, results, suppressed, now);
            let o = after.active->0;
            &&& after.active is Some && round.closed is None && after.incidents == m.incidents
            &&& m.active is None ==> o.started == now && o.report.started_at == now.text()
                && o.baseline == suppressed && o.report.suppressed_actions == 0
                && o.report.transitions == seq![round.transition->0] && o.report.peak_level
                == after.level
            &&& m.active is Some ==> {
                let before = m.active->0;
                &&& o.started == before.started && o.report.started_at == before.report.started_at
                &&& o.report.id == before.report.id && o.baseline == before.baseline
                &&& suppressed >= before.baseline ==> o.report.suppressed_actions + before.baseline
                    == suppressed
                &&& o.report.peak_level.severity() >= after.level.severity()
                &&& o.report.peak_level.severity() >= before.report.peak_level.severity()
                &&& o.report.peak_level == after.level || o.report.peak_level
                    == before.report.peak_level
                &&& round.transition is None ==> o.report.transitions == before.report.transitions
                &&& round.transition is Some ==> o.report.transitions
                    == before.report.transitions.push(round.transition->0)
            }
            &&& o.report.ended_at is None || m.active is Some
        }),
{
    let (after, round) = after_round(m, results, suppressed, now);
    if m.active is None {
        assert(after.active->0.report.transitions =~= seq![round.transition->0]);
    }
}

/// An incident that ends lasted from its beginning until now, in whole seconds,
/// and never less than none.
pub proof fn law_incident_has_its_length(o: Open, now: Timestamp)
    requires
        now.instant() - o.started.instant() < u64::MAX,
    ensures
        ({
            let r = closed(o, now);
            let span = now.instant() - o.started.instant();
            &&& r.duration_seconds is Some
            &&& span >= 0 ==> r.duration_seconds->0 * 1_000_000_000 <= span < (
            r.duration_seconds->0 + 1) * 1_000_000_000
            &&& span < 0 ==> r.duration_seconds->0 == 0
            &&& r.started_at == o.report.started_at && r.peak_level == o.report.peak_level
            &&& r.components == o.report.components && r.transitions == o.report.transitions
        }),
{
    let span = now.instant() - o.started.instant();
    law_whole_units(span, 1_000_000_000);
}

/// A new configuration counts at once, keeps what is known, and of the incidents
/// only the newest that it has room for.
pub proof fn law_configuration_is_taken(m: Machine, spec: ControlPlaneHealthSpec)
    ensures
        ({
            let c = config_of(spec);
            let after = reconfigured(m, c);
            &&& c.failure_threshold >= 1 && c.recovery_threshold >= 1
            &&& spec.failure_threshold >= 1 ==> c.failure_threshold == spec.failure_threshold
            &&& spec.recovery_threshold >= 1 ==> c.recovery_threshold == spec.recovery_threshold
            &&& c.incident_history == spec.incident_history
            &&& after.config == c && after.table == m.table && after.level == m.level
                && after.active == m.active && after.since == m.since
            &&& after.incidents.len() <= m.incidents.len() && after.incidents.len()
                <= c.incident_history
            &&& after.incidents.len() == m.incidents.len() || after.incidents.len()
                == c.incident_history
            &&& forall|i: int|
                0 <= i < after.incidents.len() ==> #[trigger] after.incidents[i] == m.incidents[i]
        }),
{
}

/// What is down is listed, each once and nothing else.
pub proof fn law_set_is_listed(d: ComponentSet, c: ControlPlaneComponent)
    ensures
        d.listed().contains(c) <==> d.holds(c),
        d.listed().no_duplicates(),
{
    lemma_listed(d, c);
}

/// What is said of a level: that all is well where nothing is down, and else
/// what is down.
pub proof fn law_reason_names_what_is_down(down: ComponentSet)
    ensures
        down == ComponentSet::none() ==> reason_for(down)
            == "all control-plane components healthy"@,
        down != ComponentSet::none() ==> reason_for(down) == "unhealthy components: "@ + joined(
            names(down.listed()),
            ", "@,
        ),
{
    if down.etcd {
        lemma_listed(down, ControlPlaneComponent::Etcd);
    }
    if down.dns {
        lemma_listed(down, ControlPlaneComponent::Dns);
    }
    if down.webhook {
        lemma_listed(down, ControlPlaneComponent::Webhook);
    }
    if down.scheduler {
        lemma_listed(down, ControlPlaneComponent::Scheduler);
    }
}

} // verus!
