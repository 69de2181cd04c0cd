//! What leaves the cluster as telemetry.

use stellar_k8s::str_map::StrMap;
use stellar_k8s::telemetry::privacy::PrivancyAwareMetric;
use stellar_k8s::telemetry::proxy::{is_exposed_endpoint, SecureTelemetryProxy};
use stellar_k8s::telemetry::scrub::{is_private_key, scrub_attributes, Attribute};

fn attribute(key: &str, value: &str) -> Attribute {
    Attribute { key: key.to_string(), value: value.to_string() }
}

#[test]
fn test_scrubbing_processor() {
    let mut attributes = vec![
        attribute("net.peer.ip", "1.2.3.4"),
        attribute("safe.key", "value"),
        attribute("k8s.cluster.name", "production-cluster"),
    ];

    scrub_attributes(&mut attributes);

    assert_eq!(attributes[0].value, "[REDACTED]");
    assert_eq!(attributes[1].value, "value");
    assert_eq!(attributes[2].value, "[REDACTED]");
    assert!(is_private_key("net.peer.ip"));
    assert!(!is_private_key("safe.key"));
}

#[test]
fn test_scrub_labels() {
    let mut labels = StrMap::new();
    labels.insert("ip".to_string(), "1.2.3.4".to_string());
    labels.insert("cluster_name".to_string(), "prod-cluster".to_string());
    labels.insert("service".to_string(), "stellar".to_string());

    PrivancyAwareMetric::scrub_labels(&mut labels);

    assert_eq!(labels.get("ip").unwrap(), "REDACTED");
    assert_eq!(labels.get("cluster_name").unwrap(), "REDACTED");
    assert_eq!(labels.get("service").unwrap(), "stellar");
}

#[test]
fn test_is_secure() {
    assert!(SecureTelemetryProxy::new("https://tracing.stellar.org".to_string()).is_secure());
    assert!(SecureTelemetryProxy::new("http://localhost:4317".to_string()).is_secure());
    assert!(SecureTelemetryProxy::new("http://127.0.0.1:4317".to_string()).is_secure());
    assert!(SecureTelemetryProxy::new("http://[::1]:4317".to_string()).is_secure());
    assert!(!SecureTelemetryProxy::new("http://tracing.stellar.org".to_string()).is_secure());
}

#[test]
fn test_verify_privacy_assurance() {
    assert!(SecureTelemetryProxy::verify_privacy_assurance("http://localhost:4317").is_ok());

    assert!(SecureTelemetryProxy::verify_privacy_assurance("https://remote:4317").is_ok());

    assert!(SecureTelemetryProxy::verify_privacy_assurance("http://remote:4317").is_err());

    assert!(SecureTelemetryProxy::verify_privacy_assurance("").is_ok());
}

#[test]
fn exposed_endpoint_is_plain_and_remote() {
    assert!(is_exposed_endpoint("http://remote:4317"));
    assert!(!is_exposed_endpoint("http://localhost:4317"));
    assert!(SecureTelemetryProxy::get_collector_config().contains("delete_key(attributes, \"ip\")"));
}
