//! Where telemetry may be sent.

use vstd::prelude::*;
use vstd::string::*;
use crate::text::{begins_with, contains, has_text, occurs_at, starts_with};

verus! {

/// The address is on the same machine.
pub open spec fn is_local(endpoint: Seq<char>) -> bool {
    has_text(endpoint, "localhost"@) || has_text(endpoint, "127.0.0.1"@) || has_text(
        endpoint,
        "::1"@,
    )
}

fn is_local_endpoint(endpoint: &str) -> (r: bool)
    ensures
        r == is_local(endpoint@),
{
    contains(endpoint, "localhost") || contains(endpoint, "127.0.0.1") || contains(endpoint, "::1")
}

/// What is sent to the address can be read on the way.
pub open spec fn is_exposed(endpoint: Seq<char>) -> bool {
    begins_with(endpoint, "http://"@) && !is_local(endpoint)
}

/// Whether what is sent to the address can be read on the way.
pub fn is_exposed_endpoint(endpoint: &str) -> (r: bool)
    ensures
        r == is_exposed(endpoint@),
{
    starts_with(endpoint, "http://") && !is_local_endpoint(endpoint)
}

/// Sends telemetry to an address.
pub struct SecureTelemetryProxy {
    pub(crate) endpoint: String,
    pub(crate) use_tls: bool,
}

impl SecureTelemetryProxy {
    /// The address.
    pub open(crate) spec fn address(&self) -> Seq<char> {
        self.endpoint@
    }

    /// Whether the connection is encrypted.
    pub open(crate) spec fn encrypted(&self) -> bool {
        self.use_tls
    }

    pub fn new(endpoint: String) -> (r: Self)
        ensures
            r.address() == endpoint@,
            r.encrypted() == begins_with(endpoint@, "https"@),
    {
        let use_tls = starts_with(&endpoint, "https");
        SecureTelemetryProxy { endpoint, use_tls }
    }

    /// Whether the connection is encrypted, or stays on the same machine.
    pub fn is_secure(&self) -> (r: bool)
        ensures
            r == (self.encrypted() || is_local(self.address())),
    {
        self.use_tls || is_local_endpoint(&self.endpoint)
    }

    /// Whether telemetry may be sent to an address. None at all is in order:
    /// then nothing is sent.
    pub fn verify_privacy_assurance(endpoint: &str) -> (r: Result<(), String>)
        ensures
            (if endpoint@.len() > 0 && is_exposed(endpoint@) {
                r is Err && r->Err_0@
                    == "INSECURE: Telemetry endpoint must use HTTPS or be local (localhost, 127.0.0.1, ::1) for privacy assurance."@
            } else {
                r is Ok
            }),
    {
        if endpoint.is_empty() {
            return Ok(());
        }
        if is_exposed_endpoint(endpoint) {
            return Err(
                "INSECURE: Telemetry endpoint must use HTTPS or be local (localhost, 127.0.0.1, ::1) for privacy assurance.".to_string(),
            );
        }
        Ok(())
    }

    /// The configuration of a collector that scrubs what it collects.
    pub fn get_collector_config() -> (r: &'static str)
        ensures
            r@ == COLLECTOR_CONFIG@,
    {
        COLLECTOR_CONFIG
    }
}

/// The configuration of a collector that scrubs what it collects.
pub const COLLECTOR_CONFIG: &'static str = "\nreceivers:\n  otlp:\n    protocols:\n      grpc:\n      http:\n\nprocessors:\n  batch:\n  transform:\n    error_mode: ignore\n    trace_statements:\n      - context: span\n        statements:\n          - delete_key(attributes, \"ip\")\n          - delete_key(attributes, \"host.ip\")\n          - delete_key(attributes, \"k8s.pod.ip\")\n          - set(attributes[\"k8s.cluster.name\"], \"REDACTED\")\n          - set(attributes[\"cluster.name\"], \"REDACTED\")\n    metric_statements:\n      - context: datapoint\n        statements:\n          - delete_key(attributes, \"ip\")\n          - set(attributes[\"cluster_name\"], \"REDACTED\")\n\nexporters:\n  otlp/public:\n    endpoint: ${PUBLIC_DASHBOARD_ENDPOINT}\n    tls:\n      insecure: false\n\nservice:\n  pipelines:\n    traces:\n      receivers: [otlp]\n      processors: [batch, transform]\n      exporters: [otlp/public]\n    metrics:\n      receivers: [otlp]\n      processors: [batch, transform]\n      exporters: [otlp/public]\n";

/// A proxy to an address that telemetry may not be sent to is never secure.
pub proof fn law_exposed_is_not_secure(p: SecureTelemetryProxy)
    requires
        p.encrypted() == begins_with(p.address(), "https"@),
        is_exposed(p.address()),
    ensures
        !(p.encrypted() || is_local(p.address())),
{
    reveal_strlit("http://");
    reveal_strlit("https");
    let s = p.address();
    assert(s.subrange(0, 7)[4] == s[4]);
    assert("http://"@[4] == ':');
    if begins_with(s, "https"@) {
        assert(s.subrange(0, 5)[4] == s[4]);
        assert("https"@[4] == 's');
    }
}

/// An endpoint on the same machine is local, wherever its name stands; a plain
/// endpoint that is not local is exposed, an encrypted one never is.
pub proof fn law_local_and_exposed_endpoints(a: Seq<char>, b: Seq<char>)
    ensures
        is_local(a + "localhost"@ + b),
        is_local(a + "127.0.0.1"@ + b),
        is_local(a + "::1"@ + b),
        !is_exposed(a + "localhost"@ + b),
        !is_exposed("https://"@ + b),
        !is_local("http://"@ + b) ==> is_exposed("http://"@ + b),
{
    lemma_occurs(a, "localhost"@, b);
    lemma_occurs(a, "127.0.0.1"@, b);
    lemma_occurs(a, "::1"@, b);
    reveal_strlit("https://");
    reveal_strlit("http://");
    let s = "https://"@ + b;
    if begins_with(s, "http://"@) {
        assert(s[4] == s.subrange(0, 7)[4]);
        assert(s[4] == 's');
        assert("http://"@[4] == ':');
    }
    let t = "http://"@ + b;
    assert(t.subrange(0, 7) =~= "http://"@);
}

proof fn lemma_occurs(a: Seq<char>, p: Seq<char>, b: Seq<char>)
    ensures
        has_text(a + p + b, p),
{
    let s = a + p + b;
    let n = a.len() as int;
    assert(s.subrange(n, n + p.len()) =~= p);
    assert(occurs_at(s, p, n));
}

} // verus!
