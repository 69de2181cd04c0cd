//! Shares, scores, pools, databases, texts and times.

use stellar_k8s::clock::Timestamp;
use stellar_k8s::controller::validator_scoring::{
    is_synced, leaderboard_order, push_sample, summarize_scores,
};
use stellar_k8s::crd::read_only_pool::{
    LoadBalancingConfig, ReadOnlyPoolSpec, ReadOnlyPoolStatus, ShardBalancingConfig, ShardStrategy,
};
use stellar_k8s::crd::types::{
    Condition, ResourceRequirements, ResourceSpec, RetentionPolicy, StellarNetwork, StorageMode,
};
use stellar_k8s::crd::validator_score::{PerformanceGrade, ValidatorLeaderboardSpec};
use stellar_k8s::database::cnpg::{
    BackupConfig, CNPGManager, DatabaseConfig, PoolerConfig, S3Config, S3CredentialsConfig,
    StorageConfig,
};
use stellar_k8s::digest::{hash_text, to_hex};
use stellar_k8s::fair_share_rate_limiter::{ConsumerId, UsageTracker};
use stellar_k8s::json::Json;
use stellar_k8s::str_map::StrMap;

fn consumer(tenant: &str) -> ConsumerId {
    ConsumerId { tenant: tenant.to_string(), workload: None, api_key_hash: None }
}

#[test]
fn equal_use_is_fair() {
    let mut usage = UsageTracker::new();
    assert_eq!(usage.jain_parts(), Some((1, 1)));
    for _ in 0..20 {
        usage.record_usage(&consumer("tenant-a"), true);
        usage.record_usage(&consumer("tenant-b"), true);
    }
    let (top, bottom) = usage.jain_parts().unwrap();
    assert_eq!(top, bottom);
    assert_eq!(usage.total_requests, 40);
    assert_eq!(usage.usage(&consumer("tenant-a")).unwrap().requests, 20);
}

#[test]
fn unequal_use_is_less_fair() {
    let mut usage = UsageTracker::new();
    for _ in 0..3 {
        usage.record_usage(&consumer("a"), true);
    }
    usage.record_usage(&consumer("b"), true);
    usage.record_usage(&consumer("b"), false);
    let (top, bottom) = usage.jain_parts().unwrap();
    assert!(top < bottom, "{top} {bottom}");
    assert_eq!(usage.total_rejected, 1);
    assert_eq!(usage.usage(&consumer("b")).unwrap().rejected, 1);
    assert!(usage.usage(&consumer("c")).is_none());
}

#[test]
fn best_scores_come_first() {
    assert_eq!(leaderboard_order(&vec![5, 9, 7, 9], 3), vec![1, 3, 2]);
    assert_eq!(leaderboard_order(&vec![1, 2], 0), Vec::<usize>::new());
    assert!(is_synced(&Some("Synced".to_string())));
    assert!(!is_synced(&Some("Catching up".to_string())));
    assert!(!is_synced(&None));
    assert_eq!(push_sample(vec![1, 2, 3], 4, 3), vec![2, 3, 4]);
    assert_eq!(PerformanceGrade::APlus.as_str(), "A+");
    assert_eq!(PerformanceGrade::default(), PerformanceGrade::Pending);
    assert!(ValidatorLeaderboardSpec::default().top_n > 0);
}

fn pool() -> ReadOnlyPoolSpec {
    ReadOnlyPoolSpec {
        network: StellarNetwork::Testnet,
        version: "v21".to_string(),
        min_replicas: 1,
        max_replicas: 3,
        target_replicas: 2,
        resources: ResourceRequirements {
            requests: ResourceSpec { cpu: "1".to_string(), memory: "1Gi".to_string() },
            limits: ResourceSpec { cpu: "1".to_string(), memory: "1Gi".to_string() },
        },
        storage: stellar_k8s::crd::types::StorageConfig {
            mode: StorageMode::PersistentVolume,
            storage_class: String::new(),
            size: "10Gi".to_string(),
            retention_policy: RetentionPolicy::Delete,
            annotations: None,
            node_affinity: None,
            snapshot_ref: None,
        },
        load_balancing: LoadBalancingConfig {
            enabled: true,
            fresh_node_weight: 100,
            lagging_node_weight: 10,
            lag_threshold: 10,
            update_interval_seconds: 30,
        },
        shard_balancing: ShardBalancingConfig {
            enabled: false,
            shard_count: 1,
            strategy: ShardStrategy::RoundRobin,
            auto_rebalance: false,
        },
        history_archive_urls: vec!["https://history.example.org".to_string()],
        core_config_override: None,
        alerting: false,
    }
}

#[test]
fn pools_are_checked() {
    assert_eq!(pool().validate(), Ok(()));
    assert_eq!(pool().container_image(), "stellar/stellar-core:v21");
    let mut p = pool();
    p.target_replicas = 4;
    assert!(p.validate().is_err());
    let mut p = pool();
    p.min_replicas = 0;
    assert!(p.validate().is_err());
    let mut p = pool();
    p.history_archive_urls = Vec::new();
    assert_eq!(p.validate(), Ok(()));
    p.shard_balancing.enabled = true;
    assert_eq!(
        p.validate(),
        Err("historyArchiveUrls must not be empty when shardBalancing is enabled".to_string())
    );
    let mut p = pool();
    p.max_replicas = 0;
    assert_eq!(p.validate(), Err("maxReplicas must be >= minReplicas".to_string()));
    let mut status = ReadOnlyPoolStatus {
        current_replicas: 2,
        ready_replicas: 2,
        fresh_replicas: 0,
        lagging_replicas: 0,
        observed_generation: None,
        conditions: Vec::new(),
        replica_weights: Vec::new(),
        shard_assignments: Vec::new(),
        average_ledger_sequence: None,
        network_latest_ledger: None,
        average_lag: None,
    };
    assert!(status.get_condition("Ready").is_none());
    assert!(!status.is_ready());
    status.conditions.push(Condition {
        type_: "Ready".to_string(),
        status: "True".to_string(),
        reason: String::new(),
        message: String::new(),
        last_transition_time: String::new(),
        observed_generation: None,
    });
    assert!(status.is_ready());
    assert_eq!(status.get_condition("Ready").unwrap().status, "True");
    status.current_replicas = 3;
    assert!(!status.is_ready());
}

#[test]
fn database_parts_belong_together() {
    let config = DatabaseConfig {
        instances: 3,
        storage: StorageConfig { size: "10Gi".to_string(), storage_class: None },
        backup: BackupConfig {
            enabled: true,
            retention_policy: "30d".to_string(),
            schedule: "0 0 * * *".to_string(),
            s3: Some(S3Config {
                bucket: "backups".to_string(),
                region: "eu".to_string(),
                endpoint_url: "https://s3".to_string(),
                credentials: S3CredentialsConfig { secret_name: "creds".to_string() },
            }),
        },
        pooler: PoolerConfig {
            enabled: true,
            instances: 2,
            pool_mode: "transaction".to_string(),
            max_client_conn: 100,
        },
    };
    let plan = CNPGManager::reconcile_database("db", "stellar", &config);
    assert_eq!(plan.cluster.spec.instances, 3);
    assert_eq!(plan.pooler.unwrap().spec.cluster.name, plan.cluster.metadata.name);
    assert_eq!(plan.scheduled_backup.unwrap().spec.cluster.name, plan.cluster.metadata.name);
    let store = plan.cluster.spec.backup.unwrap().barman_object_store;
    assert!(store.destination_path.contains("backups"), "{}", store.destination_path);
}

#[test]
fn digests_are_written_in_hex() {
    assert_eq!(to_hex(&vec![0, 15, 255]), "000fff");
    assert_eq!(
        hash_text("abc"),
        "ba7816bf8f01cfea414140de5dae2223b00361a396177a9cb410ff61f20015ad"
    );
}

#[test]
fn times_are_written_out() {
    let t = Timestamp::new(1_700_000_000, 500_000_000).unwrap();
    assert_eq!(t.to_rfc3339(), "2023-11-14T22:13:20.500+00:00");
    assert_eq!(t.to_rfc3339_z(), "2023-11-14T22:13:20.500Z");
    assert_eq!(t.plus(40).seconds_since(t), 40);
    assert!(t.minus(1).is_before(t));
    assert!(Timestamp::new(i64::MAX, 0).is_none());
    assert!(Timestamp::new(0, 2_000_000_000).is_none());
}

#[test]
fn texts_are_escaped() {
    let d = Json::object()
        .with("b", Json::text("a\"\\\n\u{1}"))
        .with("a", Json::list().and(Json::Null).and(Json::flag(true)).and(Json::number(-3)));
    assert_eq!(d.to_text(), "{\"a\":[null,true,-3],\"b\":\"a\\\"\\\\\\n\\u0001\"}");
    assert_eq!(Json::object().to_pretty_text(), "{}");
    let read: serde_json::Value = serde_json::from_str(&d.to_pretty_text()).unwrap();
    assert_eq!(read["a"][2], -3);
    assert!(d.without("b").member("b").is_none());
}

#[test]
fn maps_are_kept_in_order() {
    let mut m: StrMap<u32> = StrMap::new();
    for (i, k) in ["b", "a", "c", "a"].iter().enumerate() {
        m.insert(k.to_string(), i as u32);
    }
    assert_eq!(m.len(), 3);
    assert_eq!((m.key_at(0).as_str(), *m.value_at(0)), ("a", 3));
    assert_eq!(m.remove("b"), Some(0));
    assert_eq!(m.remove("b"), None);
    assert!(m.has("c") && !m.has("b"));
}

#[test]
fn summary_is_of_all_scores() {
    let none = summarize_scores(&Vec::new());
    assert_eq!((none.total, none.median), (0, None));
    let scores = vec![50, 90, 70, 10, 30];
    let summary = summarize_scores(&scores);
    assert_eq!(summary.total, 5);
    assert_eq!(scores[summary.median.unwrap()], 50);
    assert_eq!(leaderboard_order(&scores, 2), vec![1, 2]);
    let even = vec![4, 3, 2, 1];
    assert_eq!(even[summarize_scores(&even).median.unwrap()], 2);
}
