//! Incidents of a partitioned network.

use stellar_k8s::clock::Timestamp;
use stellar_k8s::crd::incident::{
    AlertChannelConfig, AlertChannelType, IncidentPhase, IncidentSeverity, IncidentType,
};
use stellar_k8s::incident::partition_detector::{
    alert_payload, declare_partition_incident, dispatch_result, incident_title, ChannelReply,
    PartitionIncidentDetector,
};

fn at(seconds: i64) -> Timestamp {
    Timestamp::new(1_700_000_000 + seconds, 0).unwrap()
}

fn peers(names: &[&str]) -> Vec<String> {
    names.iter().map(|n| n.to_string()).collect()
}

fn channel(kind: AlertChannelType) -> AlertChannelConfig {
    AlertChannelConfig {
        name: "ops".to_string(),
        channel_type: kind,
        endpoint_url: "https://alerts.example.org".to_string(),
        routing_key: Some("key".to_string()),
    }
}

#[test]
fn three_missed_ledgers_are_a_partition() {
    let detector = PartitionIncidentDetector::new();
    assert!(detector.evaluate_partition(at(0), at(14), peers(&["a"]), peers(&["b"])).is_none());
    let found = detector
        .evaluate_partition(at(0), at(15), peers(&["a"]), peers(&["b", "c", "d"]))
        .unwrap();
    assert_eq!(found.missed_ledger_closes, 3);
    assert_eq!(found.stall_duration_secs, 15);
    assert_eq!(found.expected_close_time_secs, 5);
}

#[test]
fn recommendation_can_be_met_by_the_reachable_peers() {
    let detector = PartitionIncidentDetector::new();
    let partition = detector
        .evaluate_partition(at(0), at(60), peers(&["x"]), peers(&["a", "b", "c", "d"]))
        .unwrap();
    let rec = detector.generate_quorum_recommendation(&partition);
    assert_eq!(rec.suggested_quorum_set, ["a", "b", "c", "d"]);
    assert_eq!(rec.new_threshold, 3);
    assert!(!rec.action_plan.is_empty());
}

#[test]
fn alerts_carry_the_recommendation() {
    let detector = PartitionIncidentDetector::new();
    let partition =
        detector.evaluate_partition(at(0), at(60), peers(&["x"]), peers(&["a", "b"])).unwrap();
    let rec = detector.generate_quorum_recommendation(&partition);
    let title = incident_title("core-0");
    let payload = |kind: AlertChannelType| {
        alert_payload(&channel(kind), &title, &partition, &rec, "66.7", at(60)).to_text()
    };
    assert!(payload(AlertChannelType::Webhook).contains("\"event\":\"NETWORK_PARTITION_DETECTED\""));
    assert!(payload(AlertChannelType::Webhook).contains("\"quorumHealthPct\":66.7"));
    assert!(payload(AlertChannelType::Slack).contains("\"icon_emoji\":\":rotating_light:\""));
    assert_eq!(
        payload(AlertChannelType::PagerDuty),
        "{\"event_action\":\"trigger\",\"payload\":{\"severity\":\"critical\",\"source\":\"stellar-k8s-operator\",\"summary\":\"Stellar Network Partition: 12 missed closes\"},\"routing_key\":\"key\"}"
    );
    assert!(payload(AlertChannelType::OpsGenie).contains(&format!("\"message\":\"{title}\"")));
    let sent = dispatch_result(
        &channel(AlertChannelType::Slack),
        ChannelReply::Status { success: true, status: "200 OK".to_string() },
        12,
        at(61),
    );
    assert!(sent.success);
    assert_eq!(sent.latency_ms, 12);
    let failed = dispatch_result(
        &channel(AlertChannelType::Slack),
        ChannelReply::Error("refused".to_string()),
        12,
        at(61),
    );
    assert!(!failed.success);
    let incident =
        declare_partition_incident("core-0", partition, rec, Vec::new(), vec![sent], at(62));
    assert_eq!(incident.status.phase, IncidentPhase::Escalated);
    assert!(matches!(incident.spec.incident_type, IncidentType::NetworkPartition));
    assert_eq!(incident.spec.severity, IncidentSeverity::Critical);
    assert_eq!(incident.spec.affected_nodes, ["core-0"]);
    assert_eq!(incident.name, "incident-partition-1700000062");
    assert_eq!(incident.labels.get("incident.stellar.org/validator").unwrap(), "core-0");
    assert_eq!(incident.spec.title, "Network partition detected on validator core-0");
    assert_eq!(incident.status.timeline.len(), 5);
    assert_eq!(incident.status.timeline[0].timestamp, at(47));
}

#[test]
fn threshold_is_two_thirds_rounded_up() {
    let detector = PartitionIncidentDetector::new();
    for (names, threshold) in [
        (vec!["a"], 1),
        (vec!["a", "b"], 2),
        (vec!["a", "b", "c"], 2),
        (vec!["a", "b", "c", "d", "e", "f", "g"], 5),
    ] {
        let partition =
            detector.evaluate_partition(at(0), at(60), peers(&["x"]), peers(&names)).unwrap();
        assert_eq!(detector.generate_quorum_recommendation(&partition).new_threshold, threshold);
    }
}
