//! Snapshots of the data plane's configuration.

use sha2::Digest;
use stellar_k8s::crd::config_snapshot::{
    apply_delta, compute_delta, compute_merkle_root, format_config_size, verify_merkle_root,
};
use stellar_k8s::json::Json;

fn nested() -> Json {
    Json::object()
        .with("foo", Json::text("bar"))
        .with("nested", Json::object().with("key", Json::text("value")))
}

#[test]
fn test_compute_merkle_root_deterministic() {
    let config = nested();

    let root1 = compute_merkle_root(&config).expect("merkle root should compute");
    let root2 = compute_merkle_root(&config).expect("merkle root should compute");

    assert_eq!(root1, root2, "Merkle root must be deterministic");
    assert_eq!(root1.len(), 64, "SHA-256 hex digest should be 64 chars");
}

#[test]
fn merkle_root_is_the_digest_of_the_text() {
    let digest = sha2::Sha256::digest(r#"{"foo":"bar","nested":{"key":"value"}}"#.as_bytes());
    let hex: String = digest.iter().map(|b| format!("{b:02x}")).collect();
    assert_eq!(compute_merkle_root(&nested()).unwrap(), hex);
}

#[test]
fn test_verify_merkle_root() {
    let root = "a1b2c3d4e5f6a1b2c3d4e5f6a1b2c3d4e5f6a1b2c3d4e5f6a1b2c3d4e5f6";
    assert!(verify_merkle_root(root, root));
    assert!(verify_merkle_root(root.to_uppercase().as_str(), root));
    assert!(!verify_merkle_root(root, "different"));
}

#[test]
fn test_compute_delta() {
    let prior = Json::object()
        .with("a", Json::number(1))
        .with("b", Json::number(2))
        .with("c", Json::object().with("d", Json::number(4)));

    let current = Json::object()
        .with("a", Json::number(1))
        .with("b", Json::number(3))
        .with("c", Json::object().with("d", Json::number(4)))
        .with("e", Json::number(5));

    let delta = compute_delta(&prior, &current);

    assert!(delta.member("a").is_none(), "Unchanged field should not appear");
    assert!(
        delta.member("b").unwrap().equals(&Json::number(3)),
        "Changed field should appear"
    );
    assert!(delta.member("e").unwrap().equals(&Json::number(5)), "New field should appear");
}

#[test]
fn test_apply_delta() {
    let prior = Json::object().with("a", Json::number(1)).with("b", Json::number(2));

    let delta = Json::object().with("b", Json::number(20)).with("c", Json::number(3));

    let result = apply_delta(&prior, &delta).expect("apply_delta should succeed");

    assert!(result.member("a").unwrap().equals(&Json::number(1)));
    assert!(result.member("b").unwrap().equals(&Json::number(20)));
    assert!(result.member("c").unwrap().equals(&Json::number(3)));
}

#[test]
fn delta_leads_back_to_the_configuration() {
    let prior = nested().with("kept", Json::number(1));
    let current = nested().with("kept", Json::number(2)).with("fresh", Json::list());
    let delta = compute_delta(&prior, &current);
    assert_eq!(delta.to_text(), r#"{"fresh":[],"kept":2}"#);
    let result = apply_delta(&prior, &delta).unwrap();
    assert!(result.equals(&current), "{}", result.to_text());
}

#[test]
fn removed_field_is_removed_again() {
    let current = Json::object().with("foo", Json::text("bar"));
    let delta = compute_delta(&nested(), &current);
    assert_eq!(delta.to_text(), r#"{"$deletions":["nested"]}"#);
    let result = apply_delta(&nested(), &delta).unwrap();
    assert!(result.equals(&current), "{}", result.to_text());
    assert_eq!(compute_delta(&current, &current).to_text(), "{}");
    let changed = Json::object().with("foo", Json::number(2));
    let delta = compute_delta(&nested(), &changed);
    assert_eq!(delta.to_text(), r#"{"$deletions":["nested"],"foo":2}"#);
    let result = apply_delta(&nested(), &delta).unwrap();
    assert!(result.equals(&changed), "{}", result.to_text());
}

#[test]
fn field_named_like_the_deletions_is_kept() {
    let current = Json::object().with("$deletions", Json::list().and(Json::text("foo")));
    let delta = compute_delta(&nested(), &current);
    let result = apply_delta(&nested(), &delta).unwrap();
    assert!(result.equals(&current), "{}", result.to_text());
    let delta = compute_delta(&current, &nested());
    let result = apply_delta(&current, &delta).unwrap();
    assert!(result.equals(&nested()), "{}", result.to_text());
    let other = Json::object().with("$changes", Json::number(1));
    let delta = compute_delta(&nested(), &other);
    let result = apply_delta(&nested(), &delta).unwrap();
    assert!(result.equals(&other), "{}", result.to_text());
}

#[test]
fn configuration_without_fields_is_replaced() {
    assert_eq!(compute_delta(&Json::list(), &nested()).to_text(), nested().to_text());
    assert_eq!(apply_delta(&Json::list(), &nested()).unwrap().to_text(), nested().to_text());
}

#[test]
fn test_format_config_size() {
    assert_eq!(format_config_size(500), "500 bytes");
    assert_eq!(format_config_size(1024), "1.00 KB");
    assert_eq!(format_config_size(1024 * 1024), "1.00 MB");
    assert_eq!(format_config_size(2 * 1024 * 1024 + 512 * 1024), "2.50 MB");
}
