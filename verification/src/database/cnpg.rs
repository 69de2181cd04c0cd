//! PostgreSQL clusters of CloudNativePG.

use vstd::prelude::*;
use vstd::string::*;
use crate::str_map::{
    StrMap, ascending, entry, lemma_read_after_write, lemma_with_entry_ascending, with_entry,
};
use crate::text::{cat2, cat4, signed_decimal, signed_decimal_text};

verus! {

/// Name, namespace and labels of a resource.
#[derive(Debug)]
pub struct ResourceMeta {
    pub name: String,
    pub namespace: String,
    pub labels: StrMap<String>,
}

#[derive(Debug)]
pub struct CNPGCluster {
    pub api_version: String,
    pub kind: String,
    pub metadata: ResourceMeta,
    pub spec: CNPGClusterSpec,
}

#[derive(Debug)]
pub struct CNPGClusterSpec {
    pub instances: i32,
    pub storage: StorageConfiguration,
    pub bootstrap: Option<Bootstrap>,
    pub backup: Option<BackupConfiguration>,
    pub postgresql: PostgreSQLConfiguration,
    pub monitoring: Option<MonitoringConfiguration>,
}

#[derive(Debug)]
pub struct StorageConfiguration {
    pub size: String,
    pub storage_class: Option<String>,
}

#[derive(Debug)]
pub struct Bootstrap {
    pub initdb: Option<InitDB>,
    pub recovery: Option<Recovery>,
}

#[derive(Debug)]
pub struct InitDB {
    pub database: String,
    pub owner: String,
    pub secret: Option<SecretKeySelector>,
}

#[derive(Debug)]
pub struct Recovery {
    pub source: String,
}

#[derive(Debug)]
pub struct SecretKeySelector {
    pub name: String,
}

#[derive(Debug)]
pub struct BackupConfiguration {
    pub barman_object_store: BarmanObjectStore,
    pub retention_policy: String,
}

#[derive(Debug)]
pub struct BarmanObjectStore {
    pub destination_path: String,
    pub endpoint_url: String,
    pub s3_credentials: S3Credentials,
    pub wal: WalConfiguration,
}

#[derive(Debug)]
pub struct S3Credentials {
    pub access_key_id: SecretKeySelector,
    pub secret_access_key: SecretKeySelector,
    pub region: Option<String>,
}

#[derive(Debug)]
pub struct WalConfiguration {
    pub compression: String,
    pub encryption: String,
}

#[derive(Debug)]
pub struct PostgreSQLConfiguration {
    pub parameters: StrMap<String>,
}

#[derive(Debug)]
pub struct MonitoringConfiguration {
    pub enable_pod_monitor: bool,
}

#[derive(Debug)]
pub struct Pooler {
    pub api_version: String,
    pub kind: String,
    pub metadata: ResourceMeta,
    pub spec: PoolerSpec,
}

#[derive(Debug)]
pub struct PoolerSpec {
    pub cluster: ClusterRef,
    pub instances: i32,
    pub pooler_type: String,
    pub pgbouncer: PgBouncerConfiguration,
}

#[derive(Debug)]
pub struct ClusterRef {
    pub name: String,
}

#[derive(Debug)]
pub struct PgBouncerConfiguration {
    pub pool_mode: String,
    pub parameters: StrMap<String>,
}

#[derive(Debug)]
pub struct ScheduledBackup {
    pub api_version: String,
    pub kind: String,
    pub metadata: ResourceMeta,
    pub spec: ScheduledBackupSpec,
}

#[derive(Debug)]
pub struct ScheduledBackupSpec {
    pub schedule: String,
    pub backup_owner_reference: String,
    pub cluster: ClusterRef,
}

/// What is wanted of a database.
#[derive(Debug)]
pub struct DatabaseConfig {
    pub instances: i32,
    pub storage: StorageConfig,
    pub backup: BackupConfig,
    pub pooler: PoolerConfig,
}

#[derive(Debug)]
pub struct StorageConfig {
    pub size: String,
    pub storage_class: Option<String>,
}

#[derive(Debug)]
pub struct BackupConfig {
    pub enabled: bool,
    pub retention_policy: String,
    pub schedule: String,
    pub s3: Option<S3Config>,
}

#[derive(Debug)]
pub struct S3Config {
    pub bucket: String,
    pub region: String,
    pub endpoint_url: String,
    pub credentials: S3CredentialsConfig,
}

#[derive(Debug)]
pub struct S3CredentialsConfig {
    pub secret_name: String,
}

#[derive(Debug)]
pub struct PoolerConfig {
    pub enabled: bool,
    pub instances: i32,
    pub pool_mode: String,
    pub max_client_conn: i32,
}

/// The labels of a part of a database.
pub open spec fn part_labels(name: Seq<char>, component: Seq<char>) -> Seq<(Seq<char>, Seq<char>)> {
    with_entry(with_entry(Seq::empty(), "app"@, name), "component"@, component)
}

/// The metadata are those of a part of a database.
pub open spec fn is_part(
    m: ResourceMeta,
    name: Seq<char>,
    suffix: Seq<char>,
    namespace: Seq<char>,
    component: Seq<char>,
) -> bool {
    m.name@ == name + suffix && m.namespace@ == namespace && m.labels.texts() == part_labels(
        name,
        component,
    )
}

fn part(name: &str, suffix: &str, namespace: &str, component: &str) -> (r: ResourceMeta)
    ensures
        is_part(r, name@, suffix@, namespace@, component@),
{
    let mut labels: StrMap<String> = StrMap::new();
    assert(labels.texts() =~= Seq::<(Seq<char>, Seq<char>)>::empty());
    labels.put("app", name);
    labels.put("component", component);
    ResourceMeta { name: cat2(name, suffix), namespace: namespace.to_string(), labels }
}

/// The settings of the server.
pub open spec fn server_parameters() -> Seq<(Seq<char>, Seq<char>)> {
    let a = with_entry(Seq::empty(), "max_connections"@, "200"@);
    let b = with_entry(a, "shared_buffers"@, "256MB"@);
    let c = with_entry(b, "effective_cache_size"@, "1GB"@);
    let d = with_entry(c, "maintenance_work_mem"@, "64MB"@);
    let e = with_entry(d, "checkpoint_completion_target"@, "0.9"@);
    let f = with_entry(e, "wal_buffers"@, "16MB"@);
    let g = with_entry(f, "default_statistics_target"@, "100"@);
    let h = with_entry(g, "random_page_cost"@, "1.1"@);
    let i = with_entry(h, "effective_io_concurrency"@, "200"@);
    let j = with_entry(i, "work_mem"@, "4MB"@);
    let k = with_entry(j, "min_wal_size"@, "1GB"@);
    with_entry(k, "max_wal_size"@, "4GB"@)
}

fn server_settings() -> (r: StrMap<String>)
    ensures
        r.texts() == server_parameters(),
{
    let mut m: StrMap<String> = StrMap::new();
    assert(m.texts() =~= Seq::<(Seq<char>, Seq<char>)>::empty());
    m.put("max_connections", "200");
    m.put("shared_buffers", "256MB");
    m.put("effective_cache_size", "1GB");
    m.put("maintenance_work_mem", "64MB");
    m.put("checkpoint_completion_target", "0.9");
    m.put("wal_buffers", "16MB");
    m.put("default_statistics_target", "100");
    m.put("random_page_cost", "1.1");
    m.put("effective_io_concurrency", "200");
    m.put("work_mem", "4MB");
    m.put("min_wal_size", "1GB");
    m.put("max_wal_size", "4GB");
    m
}

/// The settings of the pooler.
pub open spec fn pooler_parameters(max_client_conn: int) -> Seq<(Seq<char>, Seq<char>)> {
    with_entry(
        with_entry(
            with_entry(Seq::empty(), "max_client_conn"@, signed_decimal(max_client_conn)),
            "default_pool_size"@,
            "25"@,
        ),
        "reserve_pool_size"@,
        "5"@,
    )
}

/// The same text, or none in both.
pub open spec fn same_option(a: Option<String>, b: Option<String>) -> bool {
    match (a, b) {
        (Some(x), Some(y)) => x@ == y@,
        (None, None) => true,
        _ => false,
    }
}

/// The backup goes to a store.
pub open spec fn backs_up(b: BackupConfiguration, name: Seq<char>, c: BackupConfig, s3: S3Config) -> bool {
    let store = b.barman_object_store;
    &&& b.retention_policy@ == c.retention_policy@
    &&& store.destination_path@ == "s3://"@ + s3.bucket@ + "/"@ + name
    &&& store.endpoint_url@ == s3.endpoint_url@
    &&& store.s3_credentials.access_key_id.name@ == s3.credentials.secret_name@
    &&& store.s3_credentials.secret_access_key.name@ == s3.credentials.secret_name@
    &&& store.s3_credentials.region is Some
    &&& store.s3_credentials.region->0@ == s3.region@
    &&& store.wal.compression@ == "gzip"@
    &&& store.wal.encryption@ == "AES256"@
}

/// The cluster is the one that is wanted.
pub open spec fn is_cluster(
    c: CNPGCluster,
    name: Seq<char>,
    namespace: Seq<char>,
    config: DatabaseConfig,
) -> bool {
    &&& c.api_version@ == "postgresql.cnpg.io/v1"@
    &&& c.kind@ == "Cluster"@
    &&& is_part(c.metadata, name, "-db"@, namespace, "database"@)
    &&& c.spec.instances == config.instances
    &&& c.spec.storage.size@ == config.storage.size@
    &&& same_option(c.spec.storage.storage_class, config.storage.storage_class)
    &&& c.spec.bootstrap is Some
    &&& c.spec.bootstrap->0.recovery is None
    &&& c.spec.bootstrap->0.initdb is Some
    &&& c.spec.bootstrap->0.initdb->0.database@ == name + "_db"@
    &&& c.spec.bootstrap->0.initdb->0.owner@ == name + "_user"@
    &&& c.spec.bootstrap->0.initdb->0.secret is Some
    &&& c.spec.bootstrap->0.initdb->0.secret->0.name@ == name + "-db-credentials"@
    &&& c.spec.backup is Some <==> config.backup.enabled
    &&& config.backup.enabled ==> backs_up(
        c.spec.backup->0,
        name,
        config.backup,
        config.backup.s3->0,
    )
    &&& c.spec.postgresql.parameters.texts() == server_parameters()
    &&& c.spec.monitoring is Some
    &&& c.spec.monitoring->0.enable_pod_monitor
}

/// The pooler is the one that is wanted.
pub open spec fn is_pooler(
    p: Pooler,
    name: Seq<char>,
    namespace: Seq<char>,
    config: PoolerConfig,
) -> bool {
    &&& p.api_version@ == "postgresql.cnpg.io/v1"@
    &&& p.kind@ == "Pooler"@
    &&& is_part(p.metadata, name, "-pooler"@, namespace, "pooler"@)
    &&& p.spec.cluster.name@ == name + "-db"@
    &&& p.spec.instances == config.instances
    &&& p.spec.pooler_type@ == "rw"@
    &&& p.spec.pgbouncer.pool_mode@ == config.pool_mode@
    &&& p.spec.pgbouncer.parameters.texts() == pooler_parameters(config.max_client_conn as int)
}

/// The scheduled backup is the one that is wanted.
pub open spec fn is_scheduled_backup(
    b: ScheduledBackup,
    name: Seq<char>,
    namespace: Seq<char>,
    config: BackupConfig,
) -> bool {
    &&& b.api_version@ == "postgresql.cnpg.io/v1"@
    &&& b.kind@ == "ScheduledBackup"@
    &&& is_part(b.metadata, name, "-backup"@, namespace, "backup"@)
    &&& b.spec.schedule@ == config.schedule@
    &&& b.spec.backup_owner_reference@ == "self"@
    &&& b.spec.cluster.name@ == name + "-db"@
}

/// What is to be created for a database.
#[derive(Debug)]
pub struct DatabasePlan {
    pub cluster: CNPGCluster,
    pub pooler: Option<Pooler>,
    pub scheduled_backup: Option<ScheduledBackup>,
}

/// Makes the resources of databases.
pub struct CNPGManager;

impl CNPGManager {
    /// What is to be created for a database: its cluster, and a pooler and a
    /// scheduled backup where they are enabled. A backup needs a store.
    pub fn reconcile_database(name: &str, namespace: &str, db_config: &DatabaseConfig) -> (r:
        DatabasePlan)
        requires
            db_config.backup.enabled ==> db_config.backup.s3 is Some,
        ensures
            is_cluster(r.cluster, name@, namespace@, *db_config),
            r.pooler is Some <==> db_config.pooler.enabled,
            r.pooler is Some ==> is_pooler(r.pooler->0, name@, namespace@, db_config.pooler),
            r.scheduled_backup is Some <==> db_config.backup.enabled,
            r.scheduled_backup is Some ==> is_scheduled_backup(
                r.scheduled_backup->0,
                name@,
                namespace@,
                db_config.backup,
            ),
    {
        let cluster = CNPGManager::create_cluster(name, namespace, db_config);
        let pooler = if db_config.pooler.enabled {
            Some(CNPGManager::create_pooler(name, namespace, &db_config.pooler))
        } else {
            None
        };
        let scheduled_backup = if db_config.backup.enabled {
            Some(CNPGManager::create_scheduled_backup(name, namespace, &db_config.backup))
        } else {
            None
        };
        DatabasePlan { cluster, pooler, scheduled_backup }
    }

    fn create_backup(name: &str, config: &BackupConfig, s3: &S3Config) -> (r: BackupConfiguration)
        ensures
            backs_up(r, name@, *config, *s3),
    {
        BackupConfiguration {
            barman_object_store: BarmanObjectStore {
                destination_path: cat4("s3://", &s3.bucket, "/", name),
                endpoint_url: s3.endpoint_url.clone(),
                s3_credentials: S3Credentials {
                    access_key_id: SecretKeySelector { name: s3.credentials.secret_name.clone() },
                    secret_access_key: SecretKeySelector {
                        name: s3.credentials.secret_name.clone(),
                    },
                    region: Some(s3.region.clone()),
                },
                wal: WalConfiguration {
                    compression: "gzip".to_string(),
                    encryption: "AES256".to_string(),
                },
            },
            retention_policy: config.retention_policy.clone(),
        }
    }

    /// The cluster of a database. A backup needs a store.
    pub fn create_cluster(name: &str, namespace: &str, db_config: &DatabaseConfig) -> (r:
        CNPGCluster)
        requires
            db_config.backup.enabled ==> db_config.backup.s3 is Some,
        ensures
            is_cluster(r, name@, namespace@, *db_config),
    {
        let backup = match &db_config.backup.s3 {
            Some(s3) => if db_config.backup.enabled {
                Some(CNPGManager::create_backup(name, &db_config.backup, s3))
            } else {
                None
            },
            None => None,
        };
        let storage_class = match &db_config.storage.storage_class {
            Some(s) => Some(s.clone()),
            None => None,
        };
        CNPGCluster {
            api_version: "postgresql.cnpg.io/v1".to_string(),
            kind: "Cluster".to_string(),
            metadata: part(name, "-db", namespace, "database"),
            spec: CNPGClusterSpec {
                instances: db_config.instances,
                storage: StorageConfiguration {
                    size: db_config.storage.size.clone(),
                    storage_class,
                },
                bootstrap: Some(
                    Bootstrap {
                        initdb: Some(
                            InitDB {
                                database: cat2(name, "_db"),
                                owner: cat2(name, "_user"),
                                secret: Some(
                                    SecretKeySelector { name: cat2(name, "-db-credentials") },
                                ),
                            },
                        ),
                        recovery: None,
                    },
                ),
                backup,
                postgresql: PostgreSQLConfiguration { parameters: server_settings() },
                monitoring: Some(MonitoringConfiguration { enable_pod_monitor: true }),
            },
        }
    }

    /// The pooler of a database.
    pub fn create_pooler(name: &str, namespace: &str, pooler_config: &PoolerConfig) -> (r: Pooler)
        ensures
            is_pooler(r, name@, namespace@, *pooler_config),
    {
        let mut parameters: StrMap<String> = StrMap::new();
        assert(parameters.texts() =~= Seq::<(Seq<char>, Seq<char>)>::empty());
        parameters.put(
            "max_client_conn",
            &signed_decimal_text(pooler_config.max_client_conn as i64),
        );
        parameters.put("default_pool_size", "25");
        parameters.put("reserve_pool_size", "5");
        Pooler {
            api_version: "postgresql.cnpg.io/v1".to_string(),
            kind: "Pooler".to_string(),
            metadata: part(name, "-pooler", namespace, "pooler"),
            spec: PoolerSpec {
                cluster: ClusterRef { name: cat2(name, "-db") },
                instances: pooler_config.instances,
                pooler_type: "rw".to_string(),
                pgbouncer: PgBouncerConfiguration {
                    pool_mode: pooler_config.pool_mode.clone(),
                    parameters,
                },
            },
        }
    }

    /// The scheduled backup of a database.
    pub fn create_scheduled_backup(name: &str, namespace: &str, backup_config: &BackupConfig) -> (r:
        ScheduledBackup)
        ensures
            is_scheduled_backup(r, name@, namespace@, *backup_config),
    {
        ScheduledBackup {
            api_version: "postgresql.cnpg.io/v1".to_string(),
            kind: "ScheduledBackup".to_string(),
            metadata: part(name, "-backup", namespace, "backup"),
            spec: ScheduledBackupSpec {
                schedule: backup_config.schedule.clone(),
                backup_owner_reference: "self".to_string(),
                cluster: ClusterRef { name: cat2(name, "-db") },
            },
        }
    }
}

/// The pooler and the scheduled backup are for the cluster that is created.
pub proof fn law_parts_belong_together(
    c: CNPGCluster,
    p: Pooler,
    b: ScheduledBackup,
    name: Seq<char>,
    namespace: Seq<char>,
    config: DatabaseConfig,
)
    requires
        is_cluster(c, name, namespace, config),
        is_pooler(p, name, namespace, config.pooler),
        is_scheduled_backup(b, name, namespace, config.backup),
    ensures
        p.spec.cluster.name@ == c.metadata.name@,
        b.spec.cluster.name@ == c.metadata.name@,
        p.metadata.namespace@ == c.metadata.namespace@,
        b.metadata.namespace@ == c.metadata.namespace@,
{
}

/// A cluster is as large as it is asked to be, on the storage that is asked for,
/// with a database and an owner that are named after it, and is backed up just
/// where that is enabled.
pub proof fn law_cluster_is_as_configured(
    c: CNPGCluster,
    name: Seq<char>,
    namespace: Seq<char>,
    config: DatabaseConfig,
)
    requires
        is_cluster(c, name, namespace, config),
    ensures
        c.spec.instances == config.instances,
        c.spec.storage.size@ == config.storage.size@,
        c.spec.storage.storage_class is Some <==> config.storage.storage_class is Some,
        c.spec.storage.storage_class is Some ==> c.spec.storage.storage_class->0@
            == config.storage.storage_class->0@,
        c.metadata.name@ == name + "-db"@,
        c.metadata.namespace@ == namespace,
        c.spec.bootstrap is Some,
        c.spec.bootstrap->0.initdb is Some,
        c.spec.bootstrap->0.initdb->0.database@ == name + "_db"@,
        c.spec.bootstrap->0.initdb->0.owner@ == name + "_user"@,
        c.spec.backup is Some <==> config.backup.enabled,
        c.spec.backup is Some ==> c.spec.backup->0.retention_policy@
            == config.backup.retention_policy@,
        c.spec.backup is Some ==> c.spec.backup->0.barman_object_store.destination_path@
            == "s3://"@ + config.backup.s3->0.bucket@ + "/"@ + name,
        c.spec.backup is Some ==> c.spec.backup->0.barman_object_store.endpoint_url@
            == config.backup.s3->0.endpoint_url@,
{
}

/// A pooler is as large and pools as it is asked to; a backup runs when it is
/// asked to.
pub proof fn law_pooler_and_backup_are_as_configured(
    p: Pooler,
    b: ScheduledBackup,
    name: Seq<char>,
    namespace: Seq<char>,
    config: DatabaseConfig,
)
    requires
        is_pooler(p, name, namespace, config.pooler),
        is_scheduled_backup(b, name, namespace, config.backup),
    ensures
        p.spec.instances == config.pooler.instances,
        p.spec.pgbouncer.pool_mode@ == config.pooler.pool_mode@,
        entry(p.spec.pgbouncer.parameters.texts(), "max_client_conn"@) == Some(
            signed_decimal(config.pooler.max_client_conn as int),
        ),
        p.metadata.name@ == name + "-pooler"@,
        b.spec.schedule@ == config.backup.schedule@,
        b.metadata.name@ == name + "-backup"@,
{
    let e = Seq::<(Seq<char>, Seq<char>)>::empty();
    let a = "max_client_conn"@;
    let d = "default_pool_size"@;
    let r = "reserve_pool_size"@;
    let n = signed_decimal(config.pooler.max_client_conn as int);
    reveal_strlit("max_client_conn");
    reveal_strlit("default_pool_size");
    reveal_strlit("reserve_pool_size");
    assert("default_pool_size"@[0] == 'd');
    assert("reserve_pool_size"@[0] == 'r');
    assert(ascending(e));
    let s1 = with_entry(e, a, n);
    let s2 = with_entry(s1, d, "25"@);
    lemma_with_entry_ascending(e, a, n);
    lemma_with_entry_ascending(s1, d, "25"@);
    lemma_read_after_write(e, a, n, a);
    lemma_read_after_write(s1, d, "25"@, a);
    lemma_read_after_write(s2, r, "5"@, a);
}

/// A part is labelled with what it belongs to and what it is.
pub proof fn law_part_is_labelled(name: Seq<char>, component: Seq<char>)
    ensures
        entry(part_labels(name, component), "app"@) == Some(name),
        entry(part_labels(name, component), "component"@) == Some(component),
{
    let e = Seq::<(Seq<char>, Seq<char>)>::empty();
    reveal_strlit("app");
    reveal_strlit("component");
    assert(ascending(e));
    lemma_with_entry_ascending(e, "app"@, name);
    lemma_read_after_write(e, "app"@, name, "app"@);
    lemma_read_after_write(with_entry(e, "app"@, name), "component"@, component, "app"@);
    lemma_read_after_write(with_entry(e, "app"@, name), "component"@, component, "component"@);
}

} // verus!
