//! Probes of the control plane: what each looks at, and what its answer means.
//!
//! A probe exercises one component. The answers come from outside: here is what
//! they say of the component.

use vstd::prelude::*;
use vstd::string::*;
use crate::clock::{Timestamp, law_whole_units, whole};
use crate::crd::control_plane_health::{ControlPlaneComponent, ControlPlaneHealthSpec, opt_view};
use crate::degradation::tracker::{Finding, ProbeOutcome};
use crate::text::{
    cat2, cat3, cat5, cat7, copy_texts, decimal, decimal_text, same, signed_decimal,
    signed_decimal_text, trim, trimmed, views,
};

verus! {

/// Asks the API server's `/readyz/etcd` check.
pub struct EtcdProbe {}

/// The API server's answer on etcd.
pub enum EtcdReply {
    Body(String),
    /// The request could not be made.
    NotBuilt(String),
    /// The API server refused, with a code and a message; `text` is all of the
    /// error.
    ApiError { code: u16, message: String, text: String },
    Error(String),
}

/// What the answer on etcd says. An API server that cannot be reached counts
/// as unhealthy: the way to the storage is gone either way.
pub open spec fn etcd_finding(r: EtcdReply) -> Finding {
    match r {
        EtcdReply::Body(b) => if trimmed(b@) == "ok"@ {
            Finding::Healthy
        } else {
            Finding::Unhealthy("/readyz/etcd: "@ + trimmed(b@))
        },
        EtcdReply::NotBuilt(e) => Finding::Inconclusive("building request: "@ + e@),
        EtcdReply::ApiError { code, message, text } => if code == 401 || code == 403 {
            Finding::Inconclusive("/readyz/etcd not permitted: "@ + message@)
        } else {
            Finding::Unhealthy("/readyz/etcd: "@ + text@)
        },
        EtcdReply::Error(e) => Finding::Unhealthy("/readyz/etcd: "@ + e@),
    }
}

impl EtcdProbe {
    pub fn component(&self) -> (r: ControlPlaneComponent)
        ensures
            r == ControlPlaneComponent::Etcd,
    {
        ControlPlaneComponent::Etcd
    }

    /// What the answer says.
    pub fn outcome(&self, reply: &EtcdReply) -> (r: ProbeOutcome)
        ensures
            r@ == etcd_finding(*reply),
    {
        match reply {
            EtcdReply::Body(b) => {
                let b = trim(b);
                if same(&b, "ok") {
                    ProbeOutcome::Healthy
                } else {
                    ProbeOutcome::Unhealthy(cat2("/readyz/etcd: ", &b))
                }
            },
            EtcdReply::NotBuilt(e) => ProbeOutcome::Inconclusive(cat2("building request: ", e)),
            EtcdReply::ApiError { code, message, text } => {
                if *code == 401 || *code == 403 {
                    ProbeOutcome::Inconclusive(cat2("/readyz/etcd not permitted: ", message))
                } else {
                    ProbeOutcome::Unhealthy(cat2("/readyz/etcd: ", text))
                }
            },
            EtcdReply::Error(e) => ProbeOutcome::Unhealthy(cat2("/readyz/etcd: ", e)),
        }
    }
}

/// Resolves a well-known name through cluster DNS.
pub struct DnsProbe {
    pub hostname: String,
}

/// What the resolver's answer says: whether it gave an address, or its error.
pub open spec fn dns_finding(hostname: Seq<char>, reply: Result<bool, String>) -> Finding {
    match reply {
        Ok(found) => if found {
            Finding::Healthy
        } else {
            Finding::Unhealthy(hostname + " resolved to no addresses"@)
        },
        Err(e) => Finding::Unhealthy("resolving "@ + hostname + ": "@ + e@),
    }
}

impl DnsProbe {
    pub fn component(&self) -> (r: ControlPlaneComponent)
        ensures
            r == ControlPlaneComponent::Dns,
    {
        ControlPlaneComponent::Dns
    }

    /// What the resolver's answer says: whether it gave an address, or its
    /// error.
    pub fn outcome(&self, reply: &Result<bool, String>) -> (r: ProbeOutcome)
        ensures
            r@ == dns_finding(self.hostname@, *reply),
    {
        match reply {
            Ok(found) => {
                if *found {
                    ProbeOutcome::Healthy
                } else {
                    ProbeOutcome::Unhealthy(cat2(&self.hostname, " resolved to no addresses"))
                }
            },
            Err(e) => ProbeOutcome::Unhealthy(
                crate::text::cat4("resolving ", &self.hostname, ": ", e),
            ),
        }
    }
}

/// Connects to the admission webhook service.
///
/// The last addresses are kept, so that an outage of DNS does not pass for one
/// of the webhook.
pub struct WebhookProbe {
    host: String,
    port: u16,
    cached: Vec<String>,
}

/// An attempt to connect to an address: the error, where it failed.
pub struct Attempt {
    pub address: String,
    pub error: Option<String>,
}

/// Whether one of the attempts succeeded.
pub open spec fn connected(v: Seq<Attempt>) -> bool {
    exists|i: int| 0 <= i < v.len() && (#[trigger] v[i]).error is None
}

fn any_connected(v: &Vec<Attempt>) -> (r: bool)
    ensures
        r == connected(v@),
{
    let mut i: usize = 0;
    while i < v.len()
        invariant
            i <= v.len(),
            forall|j: int| 0 <= j < i ==> (#[trigger] v@[j]).error is Some,
        decreases v@.len() - i,
    {
        if v[i].error.is_none() {
            assert(v@[i as int].error is None);
            return true;
        }
        i = i + 1;
    }
    false
}

/// Why the last attempt failed.
pub open spec fn last_failure(v: Seq<Attempt>) -> Seq<char> {
    if v.len() == 0 {
        ""@
    } else {
        v.last().address@ + ": "@ + opt_view(v.last().error)->0
    }
}

/// What the attempts to connect say; without an address there were none.
pub open spec fn webhook_finding(
    host: Seq<char>,
    port: u16,
    attempts: Option<Vec<Attempt>>,
) -> Finding {
    match attempts {
        None => Finding::Inconclusive("cannot resolve "@ + host + " and no cached address"@),
        Some(v) => if connected(v@) {
            Finding::Healthy
        } else {
            Finding::Unhealthy(
                "webhook "@ + host + ":"@ + decimal(port as int) + " unreachable ("@ + last_failure(
                    v@,
                ) + ")"@,
            )
        },
    }
}

impl WebhookProbe {
    pub closed spec fn address(self) -> (Seq<char>, u16) {
        (self.host@, self.port)
    }

    pub closed spec fn kept(self) -> Seq<Seq<char>> {
        views(self.cached@)
    }

    pub fn new(host: String, port: u16) -> (r: Self)
        ensures
            r.address() == (host@, port),
            r.kept() == Seq::<Seq<char>>::empty(),
    {
        let r = WebhookProbe { host, port, cached: Vec::new() };
        assert(views(r.cached@) =~= Seq::<Seq<char>>::empty());
        r
    }

    pub fn component(&self) -> (r: ControlPlaneComponent)
        ensures
            r == ControlPlaneComponent::Webhook,
    {
        ControlPlaneComponent::Webhook
    }

    pub fn host(&self) -> (r: &str)
        ensures
            r@ == self.address().0,
    {
        self.host.as_str()
    }

    pub fn port(&self) -> (r: u16)
        ensures
            r == self.address().1,
    {
        self.port
    }

    /// The addresses to connect to: those that the resolver gave, which are
    /// kept, else those that were kept.
    pub fn addresses(&mut self, resolved: Option<Vec<String>>) -> (r: Option<Vec<String>>)
        ensures
            final(self).address() == old(self).address(),
            (match resolved {
                Some(v) => if v@.len() > 0 {
                    final(self).kept() == views(v@)
                } else {
                    final(self).kept() == old(self).kept()
                },
                None => final(self).kept() == old(self).kept(),
            }),
            (match r {
                Some(v) => views(v@) == final(self).kept() && v@.len() > 0,
                None => final(self).kept().len() == 0,
            }),
    {
        if let Some(v) = resolved {
            if v.len() > 0 {
                self.cached = copy_texts(&v);
                return Some(v);
            }
        }
        if self.cached.len() > 0 {
            Some(copy_texts(&self.cached))
        } else {
            None
        }
    }

    /// What the attempts to connect say; without an address there were none.
    pub fn outcome(&self, attempts: &Option<Vec<Attempt>>) -> (r: ProbeOutcome)
        ensures
            r@ == webhook_finding(self.address().0, self.address().1, *attempts),
    {
        let v = match attempts {
            Some(v) => v,
            None => {
                return ProbeOutcome::Inconclusive(
                    cat3("cannot resolve ", &self.host, " and no cached address"),
                );
            },
        };
        if any_connected(v) {
            return ProbeOutcome::Healthy;
        }
        let last = if v.len() == 0 {
            "".to_string()
        } else {
            let a = &v[v.len() - 1];
            assert(v@[v@.len() - 1].error is Some);
            match &a.error {
                Some(e) => cat3(&a.address, ": ", e),
                None => "".to_string(),
            }
        };
        assert(last@ == last_failure(v@));
        ProbeOutcome::Unhealthy(
            cat7(
                "webhook ",
                &self.host,
                ":",
                &decimal_text(self.port as u64),
                " unreachable (",
                &last,
                ")",
            ),
        )
    }
}

/// Reads how fresh the scheduler's leader-election lease is.
///
/// Clusters that do not show the lease give inconclusive results, which never
/// degrade the level.
pub struct SchedulerProbe {
    pub namespace: String,
    pub name: String,
}

/// What a lease says.
#[derive(Clone, Copy, Debug)]
pub struct LeaseSpec {
    pub renew_time: Option<Timestamp>,
    pub lease_duration_seconds: Option<i32>,
}

/// A leader-election lease.
#[derive(Clone, Copy, Debug)]
pub struct Lease {
    pub spec: Option<LeaseSpec>,
}

/// How long a lease lasts, in seconds.
pub open spec fn lease_duration(s: LeaseSpec) -> int {
    match s.lease_duration_seconds {
        Some(d) => if d < 1 {
            1
        } else {
            d as int
        },
        None => 15,
    }
}

/// What the lease says: the scheduler is healthy while it was renewed within
/// two durations.
pub open spec fn lease_finding(lease: Lease, now: Timestamp) -> Finding {
    match lease.spec {
        None => Finding::Inconclusive("scheduler lease has no spec"@),
        Some(s) => match s.renew_time {
            None => Finding::Unhealthy("scheduler lease never renewed"@),
            Some(t) => {
                let age = whole(now.instant() - t.instant(), 1_000_000_000);
                if age <= 2 * lease_duration(s) {
                    Finding::Healthy
                } else {
                    Finding::Unhealthy(
                        "scheduler lease last renewed "@ + signed_decimal(age)
                            + "s ago (lease duration "@ + signed_decimal(lease_duration(s)) + "s)"@,
                    )
                }
            },
        },
    }
}

/// What the lease says.
pub fn lease_outcome(lease: &Lease, now: Timestamp) -> (r: ProbeOutcome)
    ensures
        r@ == lease_finding(*lease, now),
{
    let spec = match &lease.spec {
        Some(s) => s,
        None => {
            return ProbeOutcome::Inconclusive("scheduler lease has no spec".to_string());
        },
    };
    let renewed = match spec.renew_time {
        Some(t) => t,
        None => {
            return ProbeOutcome::Unhealthy("scheduler lease never renewed".to_string());
        },
    };
    let duration: i64 = match spec.lease_duration_seconds {
        Some(d) => if d < 1 {
            1
        } else {
            d as i64
        },
        None => 15,
    };
    let age: i64 = now.seconds_since(renewed);
    if age <= 2 * duration {
        ProbeOutcome::Healthy
    } else {
        ProbeOutcome::Unhealthy(
            cat5(
                "scheduler lease last renewed ",
                &signed_decimal_text(age),
                "s ago (lease duration ",
                &signed_decimal_text(duration),
                "s)",
            ),
        )
    }
}

/// The answer to a look at the scheduler's lease.
pub enum LeaseReply {
    Found(Lease),
    Missing,
    Error(String),
}

/// What the answer says of the scheduler.
pub open spec fn scheduler_finding(
    namespace: Seq<char>,
    name: Seq<char>,
    reply: LeaseReply,
    now: Timestamp,
) -> Finding {
    match reply {
        LeaseReply::Found(l) => lease_finding(l, now),
        LeaseReply::Missing => Finding::Inconclusive(
            "lease "@ + namespace + "/"@ + name + " not found"@,
        ),
        LeaseReply::Error(e) => Finding::Inconclusive("reading scheduler lease: "@ + e@),
    }
}

impl SchedulerProbe {
    pub fn component(&self) -> (r: ControlPlaneComponent)
        ensures
            r == ControlPlaneComponent::Scheduler,
    {
        ControlPlaneComponent::Scheduler
    }

    /// What the answer says of the scheduler.
    pub fn outcome(&self, reply: &LeaseReply, now: Timestamp) -> (r: ProbeOutcome)
        ensures
            r@ == scheduler_finding(self.namespace@, self.name@, *reply, now),
    {
        match reply {
            LeaseReply::Found(l) => lease_outcome(l, now),
            LeaseReply::Missing => ProbeOutcome::Inconclusive(
                cat5("lease ", &self.namespace, "/", &self.name, " not found"),
            ),
            LeaseReply::Error(e) => ProbeOutcome::Inconclusive(
                cat2("reading scheduler lease: ", e),
            ),
        }
    }
}

/// What a probe says that did not answer in time.
pub fn timed_out(timeout_seconds: u64) -> (r: ProbeOutcome)
    ensures
        r@ == Finding::Unhealthy("probe timed out after "@ + decimal(timeout_seconds as int) + "s"@),
{
    ProbeOutcome::Unhealthy(
        cat3("probe timed out after ", &decimal_text(timeout_seconds), "s"),
    )
}

/// A probe of one of the components.
pub enum Probe {
    Etcd(EtcdProbe),
    Dns(DnsProbe),
    Webhook(WebhookProbe),
    Scheduler(SchedulerProbe),
}

/// The probe looks at what the specification names.
pub open spec fn probes(p: Probe, spec: ControlPlaneHealthSpec) -> bool {
    match p {
        Probe::Etcd(_) => true,
        Probe::Dns(d) => d.hostname@ == spec.dns.hostname@,
        Probe::Webhook(w) => w.address() == (spec.webhook.host@, spec.webhook.port)
            && w.kept().len() == 0,
        Probe::Scheduler(s) => s.namespace@ == spec.scheduler.lease_namespace@ && s.name@
            == spec.scheduler.lease_name@,
    }
}

/// The standard probes, one of each component in order.
pub fn default_probes(spec: &ControlPlaneHealthSpec) -> (r: Vec<Probe>)
    ensures
        r@.len() == 4,
        r@[0] is Etcd,
        r@[1] is Dns,
        r@[2] is Webhook,
        r@[3] is Scheduler,
        forall|i: int| 0 <= i < 4 ==> probes(#[trigger] r@[i], *spec),
{
    let mut r: Vec<Probe> = Vec::new();
    r.push(Probe::Etcd(EtcdProbe {  }));
    r.push(Probe::Dns(DnsProbe { hostname: spec.dns.hostname.clone() }));
    r.push(Probe::Webhook(WebhookProbe::new(spec.webhook.host.clone(), spec.webhook.port)));
    r.push(
        Probe::Scheduler(
            SchedulerProbe {
                namespace: spec.scheduler.lease_namespace.clone(),
                name: spec.scheduler.lease_name.clone(),
            },
        ),
    );
    r
}

/// What a reply of the store tells: it works where the reply says so, nothing is
/// known where it was not allowed to answer or could not be asked, and it does
/// not work in every other case.
pub proof fn law_store_is_judged(r: EtcdReply)
    ensures
        etcd_finding(r) is Healthy <==> r is Body && trimmed(r->Body_0@) == "ok"@,
        etcd_finding(r) is Inconclusive <==> r is NotBuilt || (r is ApiError && (
        r->ApiError_code == 401 || r->ApiError_code == 403)),
{
}

/// Names are resolved where an address was found.
pub proof fn law_names_are_judged(hostname: Seq<char>, reply: Result<bool, String>)
    ensures
        dns_finding(hostname, reply) is Healthy <==> reply == Ok::<bool, String>(true),
        dns_finding(hostname, reply) !is Inconclusive,
{
}

/// The webhook works where one of its addresses could be reached; nothing is
/// known where there is none to try.
pub proof fn law_webhook_is_judged(host: Seq<char>, port: u16, attempts: Option<Vec<Attempt>>)
    ensures
        webhook_finding(host, port, attempts) is Inconclusive <==> attempts is None,
        webhook_finding(host, port, attempts) is Healthy <==> attempts is Some && exists|i: int|
            0 <= i < attempts->0@.len() && (#[trigger] attempts->0@[i]).error is None,
{
}

/// The scheduler works where its lease was renewed no longer ago than twice the
/// time that it lasts; a lease lasts as long as it says, and a second at least.
pub proof fn law_scheduler_is_judged(s: LeaseSpec, t: Timestamp, now: Timestamp)
    requires
        s.renew_time == Some(t),
    ensures
        lease_finding(Lease { spec: Some(s) }, now) is Healthy <==> now.instant() - t.instant() < (2
            * lease_duration(s) + 1) * 1_000_000_000,
        lease_finding(Lease { spec: Some(s) }, now) !is Inconclusive,
        lease_duration(s) >= 1,
        s.lease_duration_seconds is None ==> lease_duration(s) == 15,
        s.lease_duration_seconds is Some && s.lease_duration_seconds->0 >= 1 ==> lease_duration(s)
            == s.lease_duration_seconds->0,
{
    law_whole_units(now.instant() - t.instant(), 1_000_000_000);
}

/// Nothing is known of the scheduler where its lease could not be read, is not
/// there or says nothing; a lease that was never renewed tells that it does not
/// work.
pub proof fn law_lease_that_says_nothing(
    namespace: Seq<char>,
    name: Seq<char>,
    error: String,
    duration: Option<i32>,
    now: Timestamp,
)
    ensures
        scheduler_finding(namespace, name, LeaseReply::Missing, now) is Inconclusive,
        scheduler_finding(namespace, name, LeaseReply::Error(error), now) is Inconclusive,
        scheduler_finding(namespace, name, LeaseReply::Found(Lease { spec: None }), now)
            is Inconclusive,
        scheduler_finding(
            namespace,
            name,
            LeaseReply::Found(
                Lease {
                    spec: Some(LeaseSpec { renew_time: None, lease_duration_seconds: duration }),
                },
            ),
            now,
        ) is Unhealthy,
{
}

/// Where no address could be reached, the finding ends with the last that was
/// tried and why it failed; nothing of the attempts before it is told.
pub proof fn law_last_failure_is_told(host: Seq<char>, port: u16, v: Vec<Attempt>, s: String)
    requires
        forall|i: int| 0 <= i < v@.len() ==> (#[trigger] v@[i]).error is Some,
        v@.len() > 0 ==> v@.last().error == Some(s),
    ensures
        webhook_finding(host, port, Some(v)) is Unhealthy,
        v@.len() > 0 ==> last_failure(v@) == v@.last().address@ + ": "@ + s@,
        v@.len() > 0 ==> webhook_finding(host, port, Some(v))->Unhealthy_0 == "webhook "@ + host
            + ":"@ + decimal(port as int) + " unreachable ("@ + (v@.last().address@ + ": "@ + s@)
            + ")"@,
        v@.len() == 0 ==> last_failure(v@).len() == 0,
{
    reveal_strlit("");
}

} // verus!
