//! Pools of nodes that only read.

use vstd::prelude::*;
use vstd::string::*;
use crate::crd::types::{Condition, ResourceRequirements, StellarNetwork, StorageConfig};
use crate::text::{cat2, same};

verus! {

pub struct ReadOnlyPoolSpec {
    pub network: StellarNetwork,
    /// Version of the container image.
    pub version: String,
    pub min_replicas: i32,
    pub max_replicas: i32,
    pub target_replicas: i32,
    pub resources: ResourceRequirements,
    pub storage: StorageConfig,
    pub load_balancing: LoadBalancingConfig,
    pub shard_balancing: ShardBalancingConfig,
    pub history_archive_urls: Vec<String>,
    /// Settings for Stellar Core, in TOML.
    pub core_config_override: Option<String>,
    pub alerting: bool,
}

/// What is wrong with a pool.
pub open spec fn pool_error(s: ReadOnlyPoolSpec) -> Option<Seq<char>> {
    if s.min_replicas < 1 {
        Some("minReplicas must be at least 1"@)
    } else if s.max_replicas < s.min_replicas {
        Some("maxReplicas must be >= minReplicas"@)
    } else if s.target_replicas < s.min_replicas || s.target_replicas > s.max_replicas {
        Some("targetReplicas must be between minReplicas and maxReplicas"@)
    } else if s.shard_balancing.enabled && s.shard_balancing.shard_count < 1 {
        Some("shardBalancing.shardCount must be at least 1"@)
    } else if s.shard_balancing.enabled && s.history_archive_urls@.len() == 0 {
        Some("historyArchiveUrls must not be empty when shardBalancing is enabled"@)
    } else {
        None
    }
}

impl ReadOnlyPoolSpec {
    /// Checks the pool.
    pub fn validate(&self) -> (r: Result<(), String>)
        ensures
            (match pool_error(*self) {
                Some(e) => r is Err && r->Err_0@ == e,
                None => r is Ok,
            }),
    {
        if self.min_replicas < 1 {
            return Err("minReplicas must be at least 1".to_string());
        }
        if self.max_replicas < self.min_replicas {
            return Err("maxReplicas must be >= minReplicas".to_string());
        }
        if self.target_replicas < self.min_replicas || self.target_replicas > self.max_replicas {
            return Err("targetReplicas must be between minReplicas and maxReplicas".to_string());
        }
        if self.shard_balancing.enabled && self.shard_balancing.shard_count < 1 {
            return Err("shardBalancing.shardCount must be at least 1".to_string());
        }
        if self.shard_balancing.enabled && self.history_archive_urls.len() == 0 {
            return Err(
                "historyArchiveUrls must not be empty when shardBalancing is enabled".to_string(),
            );
        }
        Ok(())
    }

    /// The container image of the pool's nodes.
    pub fn container_image(&self) -> (r: String)
        ensures
            r@ == "stellar/stellar-core:"@ + self.version@,
    {
        cat2("stellar/stellar-core:", &self.version)
    }
}

/// How much traffic goes to nodes that lag behind.
#[derive(Clone, Copy, Debug)]
pub struct LoadBalancingConfig {
    pub enabled: bool,
    pub fresh_node_weight: i32,
    pub lagging_node_weight: i32,
    /// From how many ledgers on a node lags behind.
    pub lag_threshold: u64,
    pub update_interval_seconds: u64,
}

/// How the history archives are spread over the nodes.
#[derive(Clone, Copy, Debug)]
pub struct ShardBalancingConfig {
    pub enabled: bool,
    pub shard_count: i32,
    pub strategy: ShardStrategy,
    pub auto_rebalance: bool,
}

#[derive(Clone, Copy, Debug, PartialEq, Eq, Structural)]
pub enum ShardStrategy {
    RoundRobin,
    HashBased,
    Manual,
}

impl Default for ShardStrategy {
    fn default() -> (r: Self)
        ensures
            r == ShardStrategy::RoundRobin,
    {
        ShardStrategy::RoundRobin
    }
}

pub struct ReadOnlyPoolStatus {
    pub current_replicas: i32,
    pub ready_replicas: i32,
    pub fresh_replicas: i32,
    pub lagging_replicas: i32,
    pub observed_generation: Option<i64>,
    pub conditions: Vec<Condition>,
    pub replica_weights: Vec<ReplicaWeight>,
    pub shard_assignments: Vec<ShardAssignment>,
    pub average_ledger_sequence: Option<u64>,
    pub network_latest_ledger: Option<u64>,
    pub average_lag: Option<i64>,
}

#[derive(Debug)]
pub struct ReplicaWeight {
    pub replica_name: String,
    pub weight: i32,
    pub ledger_sequence: Option<u64>,
    pub lag: Option<i64>,
    pub is_fresh: bool,
    pub last_updated: String,
}

#[derive(Debug)]
pub struct ShardAssignment {
    pub replica_name: String,
    pub shard_id: i32,
    pub archive_url: String,
    pub ledger_range: Option<LedgerRange>,
}

/// Ledgers from the first to the last; to the latest one where none is given.
#[derive(Clone, Copy, Debug)]
pub struct LedgerRange {
    pub start: u64,
    pub end: Option<u64>,
}

/// The place from `i` on of the first condition of a type.
pub open spec fn condition_place(v: Seq<Condition>, t: Seq<char>, i: int) -> int
    decreases v.len() - i,
{
    if i < 0 || i >= v.len() || v[i].type_@ == t {
        i
    } else {
        condition_place(v, t, i + 1)
    }
}

/// Some condition of a type has a status.
pub open spec fn has_condition(v: Seq<Condition>, t: Seq<char>, status: Seq<char>) -> bool {
    exists|i: int| 0 <= i < v.len() && (#[trigger] v[i]).type_@ == t && v[i].status@ == status
}

impl ReadOnlyPoolStatus {
    /// Whether the pool is ready: a condition says so, and as many replicas are
    /// ready as there are.
    pub fn is_ready(&self) -> (r: bool)
        ensures
            r == (has_condition(self.conditions@, "Ready"@, "True"@) && self.ready_replicas
                >= self.current_replicas),
    {
        let mut found = false;
        let mut i: usize = 0;
        while i < self.conditions.len()
            invariant
                i <= self.conditions.len(),
                found == exists|j: int|
                    0 <= j < i && (#[trigger] self.conditions@[j]).type_@ == "Ready"@
                        && self.conditions@[j].status@ == "True"@,
            decreases self.conditions@.len() - i,
        {
            if same(&self.conditions[i].type_, "Ready") && same(
                &self.conditions[i].status,
                "True",
            ) {
                found = true;
            }
            i = i + 1;
        }
        found && self.ready_replicas >= self.current_replicas
    }

    /// The first condition of a type.
    pub fn get_condition(&self, condition_type: &str) -> (r: Option<&Condition>)
        ensures
            ({
                let p = condition_place(self.conditions@, condition_type@, 0);
                match r {
                    Some(c) => 0 <= p < self.conditions@.len() && *c == self.conditions@[p],
                    None => p >= self.conditions@.len(),
                }
            }),
    {
        let mut i: usize = 0;
        while i < self.conditions.len()
            invariant
                i <= self.conditions.len(),
                condition_place(self.conditions@, condition_type@, 0) == condition_place(
                    self.conditions@,
                    condition_type@,
                    i as int,
                ),
            decreases self.conditions@.len() - i,
        {
            if same(&self.conditions[i].type_, condition_type) {
                return Some(&self.conditions[i]);
            }
            i = i + 1;
        }
        None
    }
}

/// A pool is taken just where it keeps at least one replica, its target lies
/// within its bounds, and shards that are balanced are some, over some archive.
pub proof fn law_when_a_pool_is_taken(s: ReadOnlyPoolSpec)
    ensures
        pool_error(s) is None <==> {
            &&& 1 <= s.min_replicas <= s.target_replicas <= s.max_replicas
            &&& s.shard_balancing.enabled ==> s.shard_balancing.shard_count >= 1
                && s.history_archive_urls@.len() > 0
        },
{
}

/// A condition is found by its type: the first of that type, or none where there
/// is none.
pub proof fn law_condition_is_found(v: Seq<Condition>, t: Seq<char>, i: int)
    requires
        0 <= i <= v.len(),
    ensures
        i <= condition_place(v, t, i) <= v.len(),
        condition_place(v, t, i) < v.len() ==> v[condition_place(v, t, i)].type_@ == t,
        forall|j: int| i <= j < condition_place(v, t, i) ==> (#[trigger] v[j]).type_@ != t,
    decreases v.len() - i,
{
    if i < v.len() && v[i].type_@ != t {
        law_condition_is_found(v, t, i + 1);
    }
}

} // verus!
