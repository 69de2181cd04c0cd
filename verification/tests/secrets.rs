//! Leases on credentials.

use stellar_k8s::clock::Timestamp;
use stellar_k8s::secrets_broker::{
    BrokerConfig, SecretsBroker, WorkloadIdentity, DEFAULT_CREDENTIAL_TTL_SECS,
    MAX_CREDENTIAL_TTL_SECS,
};

fn identity() -> WorkloadIdentity {
    WorkloadIdentity::new("cluster.local", "stellar", "validator")
}

fn at(seconds: i64) -> Timestamp {
    Timestamp::new(1_700_000_000 + seconds, 0).unwrap()
}

#[test]
fn ttl_is_capped_at_one_hour() {
    let mut broker = SecretsBroker::new(BrokerConfig::default());
    let cred = broker.issue(&identity(), "db-password", 7200).unwrap();
    assert!(cred.ttl_secs <= MAX_CREDENTIAL_TTL_SECS);
    assert_eq!(cred.workload_spiffe, identity().spiffe_id);
}

#[test]
fn invalid_identity_rejected() {
    let mut broker = SecretsBroker::new(BrokerConfig::default());
    let bad = WorkloadIdentity {
        spiffe_id: "not-a-spiffe-id".to_string(),
        trust_domain: String::new(),
        namespace: String::new(),
        service_account: String::new(),
    };
    assert!(broker.issue(&bad, "s", 60).is_err());
}

#[test]
fn renew_and_fetch_survive_failover() {
    let mut broker = SecretsBroker::new(BrokerConfig::default());
    let cred = broker.issue(&identity(), "api-key", 600).unwrap();
    broker.failover();
    let fetched = broker.fetch(&cred.lease_id).unwrap();
    assert_eq!(fetched.lease_id, cred.lease_id);
    let renewed = broker.renew(&cred.lease_id).unwrap();
    assert_eq!(renewed.lease_id, cred.lease_id);
}

#[test]
fn dual_write_returns_both_refs() {
    let mut broker = SecretsBroker::new(BrokerConfig::default());
    let (dyn_cred, static_ref) =
        broker.issue_dual_write(&identity(), "seed", 300, "static/seed-v1").unwrap();
    assert_eq!(static_ref, "static/seed-v1");
    assert_eq!(dyn_cred.secret_name, "seed");
}

#[test]
fn static_reads_are_logged() {
    let mut broker = SecretsBroker::new(BrokerConfig::default());
    broker.record_static_read(&identity(), "legacy-token");
    assert_eq!(broker.static_reads().len(), 1);
}

#[test]
fn identities_are_read_back() {
    let read = WorkloadIdentity::parse(&identity().spiffe_id).unwrap();
    assert_eq!(identity().spiffe_id, "spiffe://cluster.local/ns/stellar/sa/validator");
    assert_eq!(read.trust_domain, "cluster.local");
    assert_eq!(read.namespace, "stellar");
    assert_eq!(read.service_account, "validator");
    assert!(WorkloadIdentity::parse("spiffe://cluster.local/stellar").is_err());
    assert!(WorkloadIdentity::parse("http://x").is_err());
}

#[test]
fn lease_ends_after_its_time() {
    let mut broker = SecretsBroker::new(BrokerConfig::default());
    let cred = broker
        .issue_at(&identity(), "s", 0, "lease-1".to_string(), "material", at(0))
        .unwrap();
    assert_eq!(cred.ttl_secs, DEFAULT_CREDENTIAL_TTL_SECS);
    assert_eq!(cred.ttl_secs(), 900);
    assert!(broker.fetch_at("lease-1", at(899)).is_ok());
    assert!(broker.fetch_at("lease-1", at(900)).is_err());
    assert!(broker.fetch_at("lease-2", at(0)).is_err());
    assert!(!cred.is_expired(at(899)));
    assert!(cred.needs_renewal(at(899), 60));
    assert!(!cred.needs_renewal(at(0), 60));
    let renewed = broker.renew_at("lease-1", at(800)).unwrap();
    assert_eq!(renewed.expires_at, at(1700));
    assert!(broker.renew_at("lease-2", at(0)).is_err());
    assert!(broker.renew_at("lease-1", at(5000)).is_err());
    assert_eq!((broker.metrics().renewed, broker.metrics().failed), (1, 1));
}

#[test]
fn smaller_limit_holds_for_the_usual_time_too() {
    let config = BrokerConfig { max_ttl_secs: 60, ..BrokerConfig::default() };
    let mut broker = SecretsBroker::new(config);
    let cred =
        broker.issue_at(&identity(), "s", 0, "l".to_string(), "m", at(0)).unwrap();
    assert_eq!(cred.ttl_secs, 60);
}

#[test]
fn revoked_lease_is_gone() {
    let mut broker = SecretsBroker::new(BrokerConfig::default());
    let cred = broker.issue(&identity(), "s", 60).unwrap();
    assert_eq!(cred.lease_id.len(), 36);
    assert_eq!(broker.active_leases(), 1);
    assert!(broker.revoke(&cred.lease_id));
    assert!(!broker.revoke(&cred.lease_id));
    assert_eq!(broker.active_leases(), 0);
    assert!(broker.fetch(&cred.lease_id).is_err());
    let m = broker.metrics();
    assert_eq!((m.issued, m.revoked, m.renewed), (1, 1, 0));
    let other = broker.issue(&identity(), "s", 60).unwrap();
    assert_ne!(other.lease_id, cred.lease_id);
}

#[test]
fn material_is_not_told() {
    let mut broker = SecretsBroker::new(BrokerConfig::default());
    let cred = broker.issue(&identity(), "api-key", 600).unwrap();
    let text = cred.to_text();
    assert!(!cred.material.is_empty());
    assert!(!text.contains(&cred.material));
    assert_eq!(
        text,
        format!("lease {} on api-key for {}: [REDACTED]", cred.lease_id, cred.workload_spiffe)
    );
}
