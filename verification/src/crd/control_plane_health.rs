//! The health of the control plane and the operator's degradation level.

use vstd::prelude::*;
use vstd::string::*;


verus! {

/// What is probed, and how admission webhooks behave.
#[derive(Clone, Debug, PartialEq)]
pub struct ControlPlaneHealthSpec {
    /// How admission webhooks behave when the webhook layer is unavailable.
    pub webhook_mode: WebhookMode,
    /// Seconds between probe rounds.
    pub probe_interval_seconds: u32,
    /// Timeout of each probe in seconds.
    pub probe_timeout_seconds: u32,
    /// Consecutive failed probes before a component is marked unhealthy.
    pub failure_threshold: u32,
    /// Consecutive successful probes before an unhealthy component recovers.
    pub recovery_threshold: u32,
    pub dns: DnsProbeSpec,
    pub webhook: WebhookProbeSpec,
    pub scheduler: SchedulerProbeSpec,
    /// Number of incident reports that the status keeps.
    pub incident_history: u32,
}

impl Default for ControlPlaneHealthSpec {
    fn default() -> (r: Self)
        ensures
            r.webhook_mode == WebhookMode::Strict,
            r.probe_interval_seconds == 10,
            r.probe_timeout_seconds == 3,
            r.failure_threshold == 3,
            r.recovery_threshold == 3,
            r.dns.is_default(),
            r.webhook.is_default(),
            r.scheduler.is_default(),
            r.incident_history == 10,
    {
        ControlPlaneHealthSpec {
            webhook_mode: WebhookMode::Strict,
            probe_interval_seconds: 10,
            probe_timeout_seconds: 3,
            failure_threshold: 3,
            recovery_threshold: 3,
            dns: DnsProbeSpec::default(),
            webhook: WebhookProbeSpec::default(),
            scheduler: SchedulerProbeSpec::default(),
            incident_history: 10,
        }
    }
}

/// How admission webhooks behave under an outage of the webhook layer.
#[derive(Clone, Copy, Debug, PartialEq, Eq, Structural)]
pub enum WebhookMode {
    /// Webhooks keep `failurePolicy: Fail`; an outage blocks admission.
    Strict,
    /// Webhooks are kept at `failurePolicy: Ignore`, so that an outage never
    /// blocks admission.
    Permissive,
}

impl Default for WebhookMode {
    fn default() -> (r: Self)
        ensures
            r == WebhookMode::Strict,
    {
        WebhookMode::Strict
    }
}

#[derive(Clone, Debug, PartialEq)]
pub struct DnsProbeSpec {
    /// Name that every probe resolves through cluster DNS.
    pub hostname: String,
}

impl DnsProbeSpec {
    pub open spec fn is_default(self) -> bool {
        self.hostname@ == "kubernetes.default.svc.cluster.local"@
    }
}

impl Default for DnsProbeSpec {
    fn default() -> (r: Self)
        ensures
            r.is_default(),
    {
        DnsProbeSpec { hostname: "kubernetes.default.svc.cluster.local".to_string() }
    }
}

#[derive(Clone, Debug, PartialEq)]
pub struct WebhookProbeSpec {
    /// Host of the webhook service.
    pub host: String,
    pub port: u16,
    /// Webhook configurations that the webhook mode governs.
    pub configurations: Vec<WebhookConfigurationRef>,
}

impl WebhookProbeSpec {
    pub open spec fn is_default(self) -> bool {
        &&& self.host@ == "stellar-webhook.stellar-webhook.svc"@
        &&& self.port == 443
        &&& self.configurations@.len() == 1
        &&& self.configurations@[0].kind == WebhookConfigurationKind::Validating
        &&& self.configurations@[0].name@ == "stellar-webhook"@
    }
}

impl Default for WebhookProbeSpec {
    fn default() -> (r: Self)
        ensures
            r.is_default(),
    {
        let mut configurations: Vec<WebhookConfigurationRef> = Vec::new();
        configurations.push(
            WebhookConfigurationRef {
                kind: WebhookConfigurationKind::Validating,
                name: "stellar-webhook".to_string(),
            },
        );
        WebhookProbeSpec {
            host: "stellar-webhook.stellar-webhook.svc".to_string(),
            port: 443,
            configurations,
        }
    }
}

#[derive(Clone, Debug, PartialEq, Eq)]
pub struct WebhookConfigurationRef {
    pub kind: WebhookConfigurationKind,
    pub name: String,
}

#[derive(Clone, Copy, Debug, PartialEq, Eq, Structural)]
pub enum WebhookConfigurationKind {
    Validating,
    Mutating,
}

#[derive(Clone, Debug, PartialEq)]
pub struct SchedulerProbeSpec {
    /// Leader-election lease that the active scheduler renews.
    pub lease_namespace: String,
    pub lease_name: String,
}

impl SchedulerProbeSpec {
    pub open spec fn is_default(self) -> bool {
        self.lease_namespace@ == "kube-system"@ && self.lease_name@ == "kube-scheduler"@
    }
}

impl Default for SchedulerProbeSpec {
    fn default() -> (r: Self)
        ensures
            r.is_default(),
    {
        SchedulerProbeSpec {
            lease_namespace: "kube-system".to_string(),
            lease_name: "kube-scheduler".to_string(),
        }
    }
}

/// A part of the control plane that is probed on its own.
#[derive(Clone, Copy, Debug, PartialEq, Eq, Hash, PartialOrd, Ord, Structural)]
pub enum ControlPlaneComponent {
    Etcd,
    Dns,
    Webhook,
    Scheduler,
}

impl ControlPlaneComponent {
    pub const ALL: [ControlPlaneComponent; 4] = [
        ControlPlaneComponent::Etcd,
        ControlPlaneComponent::Dns,
        ControlPlaneComponent::Webhook,
        ControlPlaneComponent::Scheduler,
    ];

    pub open spec fn name(self) -> Seq<char> {
        match self {
            ControlPlaneComponent::Etcd => "Etcd"@,
            ControlPlaneComponent::Dns => "Dns"@,
            ControlPlaneComponent::Webhook => "Webhook"@,
            ControlPlaneComponent::Scheduler => "Scheduler"@,
        }
    }

    /// The name of the component.
    pub fn as_str(self) -> (r: &'static str)
        ensures
            r@ == self.name(),
    {
        match self {
            ControlPlaneComponent::Etcd => "Etcd",
            ControlPlaneComponent::Dns => "Dns",
            ControlPlaneComponent::Webhook => "Webhook",
            ControlPlaneComponent::Scheduler => "Scheduler",
        }
    }

    pub open spec fn level(self) -> DegradationLevel {
        match self {
            ControlPlaneComponent::Etcd => DegradationLevel::Frozen,
            ControlPlaneComponent::Dns => DegradationLevel::Degraded,
            _ => DegradationLevel::Reduced,
        }
    }

    /// The level that the operator enters while this component is unhealthy.
    pub fn implied_level(self) -> (r: DegradationLevel)
        ensures
            r == self.level(),
    {
        match self {
            ControlPlaneComponent::Etcd => DegradationLevel::Frozen,
            ControlPlaneComponent::Dns => DegradationLevel::Degraded,
            _ => DegradationLevel::Reduced,
        }
    }

    pub open spec fn dependencies(self) -> Seq<ControlPlaneComponent> {
        match self {
            ControlPlaneComponent::Scheduler => seq![ControlPlaneComponent::Etcd],
            _ => Seq::empty(),
        }
    }

    /// The components whose outage makes this component's probe inconclusive.
    ///
    /// The scheduler is observed through its lease, which cannot be renewed, or
    /// read fresh, while etcd is down.
    pub fn depends_on(self) -> (r: Vec<ControlPlaneComponent>)
        ensures
            r@ == self.dependencies(),
    {
        let mut r: Vec<ControlPlaneComponent> = Vec::new();
        match self {
            ControlPlaneComponent::Scheduler => {
                r.push(ControlPlaneComponent::Etcd);
            },
            _ => {},
        }
        assert(r@ =~= self.dependencies());
        r
    }
}

/// How far the operator has degraded, from least to most severe.
#[derive(Clone, Copy, Debug, PartialEq, Eq, PartialOrd, Ord, Structural)]
pub enum DegradationLevel {
    /// All components are healthy; nothing is restricted.
    Normal,
    /// Webhook or scheduler unavailable: no disruptive actions, because
    /// replacement pods might not be admitted or placed.
    Reduced,
    /// Cluster DNS unavailable: health signals are unreliable, so no disruptive
    /// actions; running pods keep their connections.
    Degraded,
    /// etcd unavailable: the operator makes no writes at all and the data plane
    /// runs on its last applied configuration.
    Frozen,
}

impl Default for DegradationLevel {
    fn default() -> (r: Self)
        ensures
            r == DegradationLevel::Normal,
    {
        DegradationLevel::Normal
    }
}

impl DegradationLevel {
    /// How severe the level is.
    pub open spec fn severity(self) -> int {
        match self {
            DegradationLevel::Normal => 0,
            DegradationLevel::Reduced => 1,
            DegradationLevel::Degraded => 2,
            DegradationLevel::Frozen => 3,
        }
    }

    /// The more severe of two levels.
    pub open spec fn or_worse(self, other: DegradationLevel) -> DegradationLevel {
        if other.severity() > self.severity() {
            other
        } else {
            self
        }
    }

    pub fn max_with(self, other: DegradationLevel) -> (r: DegradationLevel)
        ensures
            r == self.or_worse(other),
    {
        if other.as_index() > self.as_index() {
            other
        } else {
            self
        }
    }

    pub open spec fn allows(self) -> PermittedActions {
        PermittedActions {
            writes: self != DegradationLevel::Frozen,
            disruptive_actions: self == DegradationLevel::Normal,
        }
    }

    /// What the operator may do at this level.
    pub fn permitted(self) -> (r: PermittedActions)
        ensures
            r == self.allows(),
    {
        match self {
            DegradationLevel::Normal => PermittedActions { writes: true, disruptive_actions: true },
            DegradationLevel::Frozen => PermittedActions {
                writes: false,
                disruptive_actions: false,
            },
            _ => PermittedActions { writes: true, disruptive_actions: false },
        }
    }

    /// The level as a number; the more severe, the larger.
    pub fn as_index(self) -> (r: u8)
        ensures
            r == self.severity(),
    {
        match self {
            DegradationLevel::Normal => 0,
            DegradationLevel::Reduced => 1,
            DegradationLevel::Degraded => 2,
            DegradationLevel::Frozen => 3,
        }
    }

    pub open spec fn at_index(i: int) -> DegradationLevel {
        if i == 0 {
            DegradationLevel::Normal
        } else if i == 1 {
            DegradationLevel::Reduced
        } else if i == 2 {
            DegradationLevel::Degraded
        } else {
            DegradationLevel::Frozen
        }
    }

    /// The level with a given number; an unknown number is the most severe.
    pub fn from_index(i: u8) -> (r: DegradationLevel)
        ensures
            r == Self::at_index(i as int),
    {
        if i == 0 {
            DegradationLevel::Normal
        } else if i == 1 {
            DegradationLevel::Reduced
        } else if i == 2 {
            DegradationLevel::Degraded
        } else {
            DegradationLevel::Frozen
        }
    }
}

/// A level comes back from its number.
pub proof fn law_level_index(l: DegradationLevel)
    ensures
        DegradationLevel::at_index(l.severity()) == l,
{
}

/// The more severe a level, the less it permits; disruptive actions are
/// permitted only where writes are.
pub proof fn law_permissions_shrink(l: DegradationLevel, m: DegradationLevel)
    requires
        l.severity() <= m.severity(),
    ensures
        m.allows().writes ==> l.allows().writes,
        m.allows().disruptive_actions ==> l.allows().disruptive_actions,
        l.allows().disruptive_actions ==> l.allows().writes,
{
}

/// What the operator may do.
#[derive(Clone, Copy, Debug, PartialEq, Eq, Structural)]
pub struct PermittedActions {
    /// Any write to the Kubernetes API.
    pub writes: bool,
    /// Actions that interrupt serving pods: restarts, deletions, evictions.
    pub disruptive_actions: bool,
}

impl Default for PermittedActions {
    fn default() -> (r: Self)
        ensures
            !r.writes,
            !r.disruptive_actions,
    {
        PermittedActions { writes: false, disruptive_actions: false }
    }
}

#[derive(Clone, Copy, Debug, PartialEq, Eq, Structural)]
pub enum ComponentState {
    Unknown,
    Healthy,
    Unhealthy,
}

impl Default for ComponentState {
    fn default() -> (r: Self)
        ensures
            r == ComponentState::Unknown,
    {
        ComponentState::Unknown
    }
}

#[derive(Clone, Debug, PartialEq)]
pub struct ComponentStatus {
    pub component: ControlPlaneComponent,
    pub state: ComponentState,
    pub implied_level: DegradationLevel,
    pub consecutive_failures: u32,
    pub consecutive_successes: u32,
    pub last_probe_time: Option<String>,
    pub last_transition_time: Option<String>,
    pub message: Option<String>,
}

/// A change of the level.
#[derive(Clone, Debug, PartialEq)]
pub struct LevelTransition {
    pub from: DegradationLevel,
    pub to: DegradationLevel,
    pub at: String,
    pub reason: String,
}

/// A change of the level, as a value.
pub ghost struct Shift {
    pub from: DegradationLevel,
    pub to: DegradationLevel,
    pub at: Seq<char>,
    pub reason: Seq<char>,
}

impl View for LevelTransition {
    type V = Shift;

    open spec fn view(&self) -> Shift {
        Shift { from: self.from, to: self.to, at: self.at@, reason: self.reason@ }
    }
}

/// Report on one excursion away from the normal level.
#[derive(Clone, Debug, PartialEq)]
pub struct IncidentReport {
    pub id: String,
    pub started_at: String,
    pub ended_at: Option<String>,
    pub duration_seconds: Option<u64>,
    pub peak_level: DegradationLevel,
    /// Components that were unhealthy at any point of the incident.
    pub components: Vec<ControlPlaneComponent>,
    pub transitions: Vec<LevelTransition>,
    /// Actions of the operator that the level did not permit.
    pub suppressed_actions: u64,
}

/// Report on an incident, as a value.
#[verifier::ext_equal]
pub ghost struct Incident {
    pub id: Seq<char>,
    pub started_at: Seq<char>,
    pub ended_at: Option<Seq<char>>,
    pub duration_seconds: Option<u64>,
    pub peak_level: DegradationLevel,
    pub components: Seq<ControlPlaneComponent>,
    pub transitions: Seq<Shift>,
    pub suppressed_actions: u64,
}

/// The changes, as values.
pub open spec fn shifts(v: Seq<LevelTransition>) -> Seq<Shift> {
    Seq::new(v.len(), |i: int| v[i]@)
}

/// The reports, as values.
pub open spec fn reports(v: Seq<IncidentReport>) -> Seq<Incident> {
    Seq::new(v.len(), |i: int| v[i]@)
}

/// The text, where there is one.
pub open spec fn opt_view(s: Option<String>) -> Option<Seq<char>> {
    match s {
        Some(t) => Some(t@),
        None => None,
    }
}

impl View for IncidentReport {
    type V = Incident;

    open spec fn view(&self) -> Incident {
        Incident {
            id: self.id@,
            started_at: self.started_at@,
            ended_at: opt_view(self.ended_at),
            duration_seconds: self.duration_seconds,
            peak_level: self.peak_level,
            components: self.components@,
            transitions: shifts(self.transitions@),
            suppressed_actions: self.suppressed_actions,
        }
    }
}

/// A copy of a text that may be missing.
pub fn copy_opt(s: &Option<String>) -> (r: Option<String>)
    ensures
        opt_view(r) == opt_view(*s),
{
    match s {
        Some(t) => Some(t.clone()),
        None => None,
    }
}

impl LevelTransition {
    /// A copy of the change.
    pub fn copy(&self) -> (r: LevelTransition)
        ensures
            r@ == self@,
    {
        LevelTransition {
            from: self.from,
            to: self.to,
            at: self.at.clone(),
            reason: self.reason.clone(),
        }
    }
}

impl IncidentReport {
    /// A copy of the report.
    pub fn copy(&self) -> (r: IncidentReport)
        ensures
            r@ == self@,
    {
        let mut transitions: Vec<LevelTransition> = Vec::new();
        let mut i: usize = 0;
        while i < self.transitions.len()
            invariant
                i <= self.transitions.len(),
                shifts(transitions@) == shifts(self.transitions@).subrange(0, i as int),
            decreases self.transitions@.len() - i,
        {
            let ghost before = shifts(transitions@);
            transitions.push(self.transitions[i].copy());
            assert(shifts(transitions@) =~= before.push(self.transitions@[i as int]@));
            i = i + 1;
            assert(shifts(transitions@) =~= shifts(self.transitions@).subrange(0, i as int));
        }
        let mut components: Vec<ControlPlaneComponent> = Vec::new();
        let mut j: usize = 0;
        while j < self.components.len()
            invariant
                j <= self.components.len(),
                components@ == self.components@.subrange(0, j as int),
            decreases self.components@.len() - j,
        {
            components.push(self.components[j]);
            j = j + 1;
            assert(components@ =~= self.components@.subrange(0, j as int));
        }
        assert(shifts(transitions@) =~= shifts(self.transitions@));
        assert(components@ =~= self.components@);
        IncidentReport {
            id: self.id.clone(),
            started_at: self.started_at.clone(),
            ended_at: copy_opt(&self.ended_at),
            duration_seconds: self.duration_seconds,
            peak_level: self.peak_level,
            components,
            transitions,
            suppressed_actions: self.suppressed_actions,
        }
    }
}

/// Copies of the reports.
pub fn copy_reports(v: &Vec<IncidentReport>) -> (r: Vec<IncidentReport>)
    ensures
        reports(r@) == reports(v@),
{
    let mut r: Vec<IncidentReport> = Vec::new();
    let mut i: usize = 0;
    while i < v.len()
        invariant
            i <= v.len(),
            reports(r@) == reports(v@).subrange(0, i as int),
        decreases v@.len() - i,
    {
        let ghost before = reports(r@);
        r.push(v[i].copy());
        assert(reports(r@) =~= before.push(v@[i as int]@));
        i = i + 1;
        assert(reports(r@) =~= reports(v@).subrange(0, i as int));
    }
    assert(reports(v@).subrange(0, v@.len() as int) =~= reports(v@));
    r
}

#[derive(Clone, Debug, PartialEq)]
pub struct ControlPlaneHealthStatus {
    pub level: DegradationLevel,
    pub level_since: Option<String>,
    pub permitted: PermittedActions,
    pub components: Vec<ComponentStatus>,
    pub active_incident: Option<IncidentReport>,
    /// The closed incidents that are kept, newest first.
    pub incidents: Vec<IncidentReport>,
    pub observed_generation: Option<i64>,
}

impl Default for ControlPlaneHealthStatus {
    fn default() -> (r: Self)
        ensures
            r.level == DegradationLevel::Normal,
            r.level_since is None,
            !r.permitted.writes,
            !r.permitted.disruptive_actions,
            r.components@.len() == 0,
            r.active_incident is None,
            r.incidents@.len() == 0,
            r.observed_generation is None,
    {
        ControlPlaneHealthStatus {
            level: DegradationLevel::Normal,
            level_since: None,
            permitted: PermittedActions::default(),
            components: Vec::new(),
            active_incident: None,
            incidents: Vec::new(),
            observed_generation: None,
        }
    }
}

/// The worse of two levels is one of them, and at least as severe as either.
pub proof fn law_worse_of_two(l: DegradationLevel, m: DegradationLevel)
    ensures
        l.or_worse(m) == l || l.or_worse(m) == m,
        l.or_worse(m).severity() >= l.severity(),
        l.or_worse(m).severity() >= m.severity(),
{
}

/// What the levels permit: everything when all is normal; only writes when some
/// component is missing; nothing when the store is. Losing the store is worse
/// than losing names, and that is worse than losing what schedules or admits.
pub proof fn law_levels_permit(l: DegradationLevel)
    ensures
        l.allows().disruptive_actions <==> l.severity() == 0,
        l.allows().writes <==> l != ControlPlaneComponent::Etcd.level(),
        ControlPlaneComponent::Etcd.level().severity() > ControlPlaneComponent::Dns.level().severity(),
        ControlPlaneComponent::Dns.level().severity() > ControlPlaneComponent::Webhook.level().severity(),
        ControlPlaneComponent::Webhook.level() == ControlPlaneComponent::Scheduler.level(),
        ControlPlaneComponent::Webhook.level().severity() > DegradationLevel::Normal.severity(),
        ControlPlaneComponent::Scheduler.dependencies().contains(ControlPlaneComponent::Etcd),
        ControlPlaneComponent::Etcd.dependencies().len() == 0,
        ControlPlaneComponent::Dns.dependencies().len() == 0,
        ControlPlaneComponent::Webhook.dependencies().len() == 0,
{
    assert(ControlPlaneComponent::Scheduler.dependencies()[0] == ControlPlaneComponent::Etcd);
}

/// By default the name of the API server is resolved, the webhook is asked on the
/// port of HTTPS, and the lease of the scheduler is read.
pub proof fn law_default_probes(
    dns: DnsProbeSpec,
    webhook: WebhookProbeSpec,
    scheduler: SchedulerProbeSpec,
)
    ensures
        dns.is_default() <==> dns.hostname@ == "kubernetes.default.svc.cluster.local"@,
        scheduler.is_default() <==> scheduler.lease_name@ == "kube-scheduler"@
            && scheduler.lease_namespace@ == "kube-system"@,
        webhook.is_default() ==> webhook.port == 443 && webhook.host@
            == "stellar-webhook.stellar-webhook.svc"@ && webhook.configurations@.len() == 1
            && webhook.configurations@[0].kind == WebhookConfigurationKind::Validating
            && webhook.configurations@[0].name@ == "stellar-webhook"@,
{
}

} // verus!
