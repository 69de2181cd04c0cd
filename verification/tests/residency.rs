//! Where data may live.

use ed25519_dalek::Verifier;
use stellar_k8s::clock::Timestamp;
use stellar_k8s::data_residency::{
    export_evidence, sign_event, sign_violation, ResidencyPolicy, ResidencyRule,
    ResidencyViolationEvent, DEFAULT_REGION_LABEL_KEY,
};
use stellar_k8s::digest::hash_text;

fn policy() -> ResidencyPolicy {
    let mut p = ResidencyPolicy::new();
    p.insert(ResidencyRule::new(
        "ledger",
        "tenant-a",
        vec!["eu-west-1".to_string(), "eu-central-1".to_string()],
    ));
    p
}

#[test]
fn allowed_region_passes_forbidden_blocked_with_reason() {
    let p = policy();
    assert!(p.admit_workload("ledger", "tenant-a", "eu-west-1", "stellar-node-0").is_ok());
    let err = p.admit_workload("ledger", "tenant-a", "us-east-1", "stellar-node-0").unwrap_err();
    assert!(err.contains("residency denied"));
    assert!(err.contains("eu-west-1"));
}

#[test]
fn unknown_workload_default_denies() {
    let p = policy();
    assert!(p.admit_workload("unknown", "tenant-a", "eu-west-1", "w").is_err());
}

#[test]
fn node_affinity_and_pvc_topology_honor_rule() {
    let rule = ResidencyRule::new("ledger", "t", vec!["eu-west-1".to_string()]);
    let affinity = rule.node_affinity().unwrap();
    assert_eq!(
        affinity.to_text(),
        format!(
            "{{\"requiredDuringSchedulingIgnoredDuringExecution\":{{\"nodeSelectorTerms\":[{{\"matchExpressions\":[{{\"key\":\"{DEFAULT_REGION_LABEL_KEY}\",\"operator\":\"In\",\"values\":[\"eu-west-1\"]}}]}}]}}}}"
        )
    );
    let topo = rule.pvc_allowed_topologies();
    assert_eq!(topo.len(), 1);
    assert_eq!(
        topo[0].get(DEFAULT_REGION_LABEL_KEY).unwrap(),
        &vec!["eu-west-1".to_string()]
    );
}

#[test]
fn signed_violation_event_verifies_shape() {
    let signed = sign_violation(
        "w",
        "ledger",
        "tenant-a",
        "us-east-1",
        &["eu-west-1".to_string()],
        "denied",
    );
    assert_eq!(signed.payload.requested_region, "us-east-1");
    assert_eq!(signed.sha256.len(), 64);
    assert!(!signed.signature.is_empty());
    assert!(!signed.public_key.is_empty());
}

#[test]
fn coverage_lists_every_workload_and_flags_uncovered() {
    let p = policy();
    let report = p.coverage_report(&[
        ("node-0".to_string(), "ledger".to_string(), "tenant-a".to_string()),
        ("node-1".to_string(), "ledger".to_string(), "tenant-b".to_string()),
    ]);
    assert_eq!(report.entries.len(), 2);
    assert_eq!(report.uncovered().len(), 1);
    let evidence = export_evidence(report, Vec::new(), "0.1.0");
    assert!(evidence.zero_violations_30d);
}

fn event() -> ResidencyViolationEvent {
    ResidencyViolationEvent {
        at: Timestamp::new(1_700_000_000, 0).unwrap(),
        workload: "w".to_string(),
        dataset: "ledger".to_string(),
        tenant: "tenant-a".to_string(),
        requested_region: "us-east-1".to_string(),
        allowed_regions: vec!["eu-west-1".to_string()],
        reason: "denied".to_string(),
    }
}

#[test]
fn signature_is_over_the_digest_of_the_event() {
    let signed = sign_event(event());
    let text = event().to_json();
    assert_eq!(signed.payload.to_json(), text);
    assert_eq!(signed.sha256, hash_text(&text));
    let bytes = |text: &str| -> Vec<u8> {
        (0..text.len() / 2)
            .map(|i| u8::from_str_radix(&text[2 * i..2 * i + 2], 16).unwrap())
            .collect()
    };
    let key: [u8; 32] = bytes(&signed.public_key).try_into().unwrap();
    let signature: [u8; 64] = bytes(&signed.signature).try_into().unwrap();
    let key = ed25519_dalek::VerifyingKey::from_bytes(&key).unwrap();
    let signature = ed25519_dalek::Signature::from_bytes(&signature);
    assert!(key.verify(&bytes(&signed.sha256), &signature).is_ok());
    assert!(key.verify(b"other", &signature).is_err());
}

#[test]
fn event_text_holds_every_field() {
    assert_eq!(
        event().to_json(),
        "{\"at\":\"2023-11-14T22:13:20Z\",\"workload\":\"w\",\"dataset\":\"ledger\",\"tenant\":\"tenant-a\",\"requested_region\":\"us-east-1\",\"allowed_regions\":[\"eu-west-1\"],\"reason\":\"denied\"}"
    );
}

#[test]
fn violations_are_evidence() {
    let report = policy().coverage_report(&[]);
    let evidence = export_evidence(report, vec![sign_event(event())], "0.1.0");
    assert!(evidence.violations.len() == 1 && evidence.operator_version == "0.1.0");
}

#[test]
fn last_rule_of_a_dataset_and_tenant_holds() {
    let mut p = policy();
    p.insert(ResidencyRule::new("ledger", "tenant-a", vec!["us-east-1".to_string()]));
    assert!(p.node_feasible("ledger", "tenant-a", "us-east-1"));
    assert!(!p.node_feasible("ledger", "tenant-a", "eu-west-1"));
    assert_eq!(p.rule_for("ledger", "tenant-a").unwrap().allowed_regions, ["us-east-1"]);
    assert!(p.rule_for("ledger", "tenant-b").is_none());
}

#[test]
fn rule_without_regions_is_reported() {
    let mut p = policy();
    assert!(p.validate().is_empty());
    p.insert(ResidencyRule::new("archive", "tenant-a", Vec::new()));
    let found = p.validate();
    assert_eq!(found.len(), 1);
    assert!(found[0].contains("archive"), "{found:?}");
    assert!(ResidencyRule::new("archive", "tenant-a", Vec::new()).node_affinity().is_none());
}

#[test]
fn signed_event_is_authentic_until_it_is_changed() {
    let signed = sign_event(event());
    assert!(signed.is_authentic());
    let mut changed = sign_event(event());
    changed.payload.reason = "allowed".to_string();
    assert!(!changed.is_authentic());
    let mut other = sign_event(event());
    other.signature = signed.signature.clone();
    assert!(!other.is_authentic());
    other.public_key = signed.public_key.clone();
    assert!(other.is_authentic());
    other.signature.pop();
    assert!(!other.is_authentic());
    let mut short = sign_event(event());
    short.public_key = "ab".to_string();
    assert!(!short.is_authentic());
}
