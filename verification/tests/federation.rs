//! Agreement between federated clusters.

use stellar_k8s::clock::Timestamp;
use stellar_k8s::federation_consistency::{
    FederatedResourceState, FederationConsistencyReconciler, GenerationVector,
};
use stellar_k8s::str_map::StrMap;

#[test]
fn test_generation_vector_dominates() {
    let mut v1 = GenerationVector::new();
    v1.increment("cluster-a");
    v1.increment("cluster-a");

    let mut v2 = GenerationVector::new();
    v2.increment("cluster-a");

    assert!(v1.dominates(&v2));
    assert!(!v2.dominates(&v1));
}

#[test]
fn test_generation_vector_merge() {
    let mut v1 = GenerationVector::new();
    v1.increment("cluster-a");
    v1.increment("cluster-a");

    let mut v2 = GenerationVector::new();
    v2.increment("cluster-b");
    v2.increment("cluster-b");

    let merged = v1.merge(&v2);
    assert_eq!(merged.get("cluster-a"), 2);
    assert_eq!(merged.get("cluster-b"), 2);
}

#[test]
fn test_conflict_resolution_last_writer_wins() {
    let local = FederatedResourceState::new(
        "test-resource".to_string(),
        "cluster-a".to_string(),
        "hash1".to_string(),
    );

    let mut remote = FederatedResourceState::new(
        "test-resource".to_string(),
        "cluster-b".to_string(),
        "hash2".to_string(),
    );
    remote.generation_vector.increment("cluster-b");

    let winner = FederatedResourceState::resolve_conflict(&local, &remote, "cluster-a");
    assert_eq!(winner, "remote");
}

#[test]
fn test_partition_detection() {
    let reconciler = FederationConsistencyReconciler::new("cluster-a".to_string());
    let mut peer_state = FederatedResourceState::new(
        "test".to_string(),
        "cluster-b".to_string(),
        "hash".to_string(),
    );

    peer_state.last_modified_at = Timestamp::now().minus(60);

    assert!(reconciler.detect_partition(&[peer_state]));
}

#[test]
fn fresh_peers_are_no_partition() {
    let now = Timestamp::new(1_700_000_000, 0).unwrap();
    let reconciler = FederationConsistencyReconciler::new("cluster-a".to_string());
    let state = |age: u32| {
        FederatedResourceState::new_at(
            "test".to_string(),
            "cluster-b".to_string(),
            "hash".to_string(),
            now.minus(age),
        )
    };
    assert!(!reconciler.detect_partition_at(&[state(30)], now));
    assert!(reconciler.detect_partition_at(&[state(31)], now));
}

#[test]
fn concurrent_changes_do_not_dominate() {
    let mut a = GenerationVector::new();
    a.increment("cluster-a");
    let mut b = GenerationVector::new();
    b.increment("cluster-b");
    assert!(!a.dominates(&b));
    assert!(!b.dominates(&a));
    let ab = a.merge(&b);
    let ba = b.merge(&a);
    assert_eq!(ab.get("cluster-a"), ba.get("cluster-a"));
    assert_eq!(ab.get("cluster-b"), ba.get("cluster-b"));
    assert!(ab.dominates(&a));
    assert_eq!(a.get("cluster-c"), 0);
}

#[test]
fn both_clusters_pick_the_same_state() {
    let a = FederatedResourceState::new(
        "r".to_string(),
        "cluster-a".to_string(),
        "hash-a".to_string(),
    );
    let mut b = a.copy();
    b.spec_hash = "hash-b".to_string();
    b.last_modifier = "cluster-b".to_string();
    let mut a = a;
    a.generation_vector.increment("cluster-a");
    b.generation_vector.increment("cluster-b");
    let at_a = FederatedResourceState::resolve_conflict(&a, &b, "cluster-a");
    let at_b = FederatedResourceState::resolve_conflict(&b, &a, "cluster-b");
    let picked_at_a = if at_a == "local" { &a } else { &b };
    let picked_at_b = if at_b == "local" { &b } else { &a };
    assert_eq!(picked_at_a.spec_hash, picked_at_b.spec_hash);
}

#[test]
fn reconciled_state_is_the_newer_one() {
    let mut reconciler = FederationConsistencyReconciler::new("cluster-a".to_string());
    let now = Timestamp::new(1_700_000_000, 0).unwrap();
    assert!(reconciler.update_state_at("r".to_string(), "h1".to_string(), now).is_ok());
    let local = FederatedResourceState::new_at(
        "r".to_string(),
        "cluster-a".to_string(),
        "h1".to_string(),
        now,
    );
    let mut remote = local.copy();
    remote.spec_hash = "h2".to_string();
    remote.generation_vector.increment("cluster-a");
    let r = reconciler.reconcile_state("r", &local, vec![&remote]).unwrap();
    assert_eq!(r.spec_hash, "h2");
    let kept = reconciler.reconcile_state("r", &local, Vec::new()).unwrap();
    assert_eq!(kept.spec_hash, "h1");
}

#[test]
fn higher_number_decides_between_concurrent_changes() {
    let now = Timestamp::new(1_700_000_000, 0).unwrap();
    let version = |cluster: &str, hash: &str| {
        let mut v = FederatedResourceState::new_at(
            "r".to_string(),
            cluster.to_string(),
            hash.to_string(),
            now,
        );
        v.generation_vector.increment(cluster);
        v
    };
    let a = version("cluster-a", "ha");
    let b = version("cluster-b", "hb");
    let c = version("cluster-c", "hc");
    let mut numbers = StrMap::new();
    numbers.insert("cluster-a".to_string(), 7);
    numbers.insert("cluster-b".to_string(), 9);
    numbers.insert("cluster-c".to_string(), 8);
    assert_eq!(FederatedResourceState::resolve_conflict_by(&a, &b, &numbers), "remote");
    assert_eq!(FederatedResourceState::resolve_conflict_by(&b, &a, &numbers), "local");
    assert_eq!(FederatedResourceState::resolve_conflict_by(&a, &a, &numbers), "local");
    let mut reconciler = FederationConsistencyReconciler::new("cluster-a".to_string());
    let kept = reconciler.reconcile_state_by("r", &a, vec![&c, &b], &numbers).unwrap();
    assert_eq!(kept.spec_hash, "hb");
}

#[test]
fn count_of_zero_is_none() {
    let vector = |counts: &[(&str, u64)]| {
        let mut v = GenerationVector::new();
        for (cluster, count) in counts {
            v.generations.insert(cluster.to_string(), *count);
        }
        v
    };
    let a = vector(&[("y", 1)]);
    let b = vector(&[("x", 0)]);
    assert!(a.dominates(&b));
    assert!(!b.dominates(&a));
    assert!(!b.dominates(&vector(&[])));
    assert!(!vector(&[]).dominates(&b));
    assert!(!a.dominates(&a));
    assert!(vector(&[("x", 2), ("y", 1)]).dominates(&vector(&[("x", 1), ("y", 1)])));
    assert!(!vector(&[("x", 2)]).dominates(&vector(&[("x", 1), ("y", 1)])));
}

#[test]
fn three_clusters_come_to_the_newest_version() {
    let now = Timestamp::new(1_700_000_000, 0).unwrap();
    let version = |cluster: &str, counted: &[&str]| {
        let mut v = FederatedResourceState::new_at(
            "r".to_string(),
            cluster.to_string(),
            format!("h-{cluster}"),
            now,
        );
        for other in counted {
            v.generation_vector.increment(other);
        }
        v
    };
    let a = version("a", &[]);
    let b = version("b", &[]);
    let c = version("c", &["a", "b"]);
    let mut numbers = StrMap::new();
    numbers.insert("a".to_string(), 9);
    numbers.insert("b".to_string(), 5);
    numbers.insert("c".to_string(), 1);
    let kept = |local: &FederatedResourceState, others: Vec<&FederatedResourceState>| {
        FederationConsistencyReconciler::new("x".to_string())
            .reconcile_state_by("r", local, others, &numbers)
            .unwrap()
    };
    for state in [kept(&a, vec![&b, &c]), kept(&b, vec![&c, &a]), kept(&c, vec![&a, &b])] {
        assert_eq!(state.spec_hash, "h-c");
        assert_eq!(state.generation_vector.get("a"), 1);
        let again = kept(&state, vec![&state, &state]);
        assert_eq!(again.spec_hash, "h-c");
        assert_eq!(again.annotations.get("stellar.io/generation-vector").unwrap(), "a=1,b=1,c=1");
    }
    for state in [kept(&a, vec![&b]), kept(&b, vec![&a])] {
        assert_eq!(state.spec_hash, "h-a");
    }
}
