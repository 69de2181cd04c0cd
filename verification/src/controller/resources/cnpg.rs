//! CloudNativePG clusters and poolers.

use vstd::prelude::*;
use vstd::string::*;
use crate::controller::context::NodeContext;
use crate::controller::resources::helpers::{
    metadata, metadata_doc, namespace_of, namespace_or_default, opt_doc, opt_text_or, resource_name,
    resource_name_of, standard_labels, standard_labels_doc, text_or,
};
use crate::controller::resources::plan::{
    Kind, Step, Tolerance, acts, apply, apply_act, delete, delete_act, no_acts, no_steps, one_act,
    one_step, push_step,
};
use crate::crd::stellar_node::StellarNode;
use crate::crd::types::{
    ManagedDatabaseBackup, ManagedDatabaseConfig, PgBouncerConfig, PgBouncerPoolMode,
    ReplicationRole,
};
use crate::json::{Doc, Json, at2, at3, group_members};
use crate::text::{cat2, cat4, signed_decimal, signed_decimal_text};

verus! {

/// A resource of CloudNativePG.
pub open spec fn cnpg_manifest_doc(kind: Seq<char>, metadata: Doc, spec: Doc) -> Doc {
    Doc::object()
        .with("apiVersion"@, Doc::text("postgresql.cnpg.io/v1"@))
        .with("kind"@, Doc::text(kind))
        .with("metadata"@, metadata)
        .with("spec"@, spec)
}

pub fn cnpg_manifest(kind: &str, metadata: Json, spec: Json) -> (r: Json)
    ensures
        r@ == cnpg_manifest_doc(kind@, metadata@, spec@),
{
    Json::object()
        .with("apiVersion", Json::text("postgresql.cnpg.io/v1"))
        .with("kind", Json::text(kind))
        .with("metadata", metadata)
        .with("spec", spec)
}

/// An entry of a secret.
pub open spec fn secret_entry_doc(name: Seq<char>, key: Seq<char>) -> Doc {
    Doc::object()
        .with("name"@, Doc::text(name))
        .with("key"@, Doc::text(key))
}

pub fn secret_entry(name: &str, key: &str) -> (r: Json)
    ensures
        r@ == secret_entry_doc(name@, key@),
{
    Json::object()
        .with("name", Json::text(name))
        .with("key", Json::text(key))
}

/// Where backups go.
pub open spec fn backup_doc(path: Seq<char>, secret: Seq<char>, retention: Seq<char>) -> Doc {
    Doc::object()
        .with(
            "barmanObjectStore"@,
            Doc::object()
                .with("destinationPath"@, Doc::text(path))
                .with(
                    "s3Credentials"@,
                    Doc::object()
                        .with("accessKeyId"@, secret_entry_doc(secret, "AWS_ACCESS_KEY_ID"@))
                        .with("secretAccessKey"@, secret_entry_doc(secret, "AWS_SECRET_ACCESS_KEY"@)),
                )
                .with(
                    "wal"@,
                    Doc::object()
                        .with("compression"@, Doc::text("gzip"@)),
                ),
        )
        .with("retentionPolicy"@, Doc::text(retention))
}

pub fn backup(path: &str, secret: &str, retention: &str) -> (r: Json)
    ensures
        r@ == backup_doc(path@, secret@, retention@),
{
    Json::object()
        .with(
            "barmanObjectStore",
            Json::object()
                .with("destinationPath", Json::text(path))
                .with(
                    "s3Credentials",
                    Json::object()
                        .with("accessKeyId", secret_entry(secret, "AWS_ACCESS_KEY_ID"))
                        .with("secretAccessKey", secret_entry(secret, "AWS_SECRET_ACCESS_KEY")),
                )
                .with(
                    "wal",
                    Json::object()
                        .with("compression", Json::text("gzip")),
                ),
        )
        .with("retentionPolicy", Json::text(retention))
}

/// The cluster in another region that a replica follows.
pub open spec fn primary_cluster_doc(name: Seq<char>, host: Seq<char>, secret: Seq<char>) -> Doc {
    Doc::object()
        .with("name"@, Doc::text(name))
        .with(
            "connectionParameters"@,
            Doc::object()
                .with("host"@, Doc::text(host))
                .with("user"@, Doc::text("stellar"@))
                .with("dbname"@, Doc::text("stellar"@))
                .with("sslmode"@, Doc::text("require"@)),
        )
        .with("password"@, secret_entry_doc(secret, "password"@))
}

pub fn primary_cluster(name: &str, host: &str, secret: &str) -> (r: Json)
    ensures
        r@ == primary_cluster_doc(name@, host@, secret@),
{
    Json::object()
        .with("name", Json::text(name))
        .with(
            "connectionParameters",
            Json::object()
                .with("host", Json::text(host))
                .with("user", Json::text("stellar"))
                .with("dbname", Json::text("stellar"))
                .with("sslmode", Json::text("require")),
        )
        .with("password", secret_entry(secret, "password"))
}

/// Monitoring of the pods.
pub open spec fn monitored_doc() -> Doc {
    Doc::object()
        .with("enablePodMonitor"@, Doc::Bool(true))
}

pub fn monitored() -> (r: Json)
    ensures
        r@ == monitored_doc(),
{
    Json::object()
        .with("enablePodMonitor", Json::flag(true))
}

/// The backups of a database, where it has them.
pub open spec fn backup_of(b: Option<ManagedDatabaseBackup>) -> Option<Doc> {
    match b {
        Some(b) => Some(
            backup_doc(b.destination_path@, b.credentials_secret_ref@, b.retention_policy@),
        ),
        None => None,
    }
}

fn build_backup(b: &Option<ManagedDatabaseBackup>) -> (r: Option<Json>)
    ensures
        opt_doc(r) == backup_of(*b),
{
    match b {
        Some(b) => Some(
            backup(&b.destination_path, &b.credentials_secret_ref, &b.retention_policy),
        ),
        None => None,
    }
}

/// The database image of a version, where one is asked for.
pub open spec fn image_of_version(version: Seq<char>) -> Option<Doc> {
    if version.len() == 0 {
        None
    } else {
        Some(Doc::text("ghcr.io/cloudnative-pg/postgresql:"@ + version))
    }
}

fn image_for_version(version: &str) -> (r: Option<Json>)
    ensures
        opt_doc(r) == image_of_version(version@),
{
    if version.is_empty() {
        None
    } else {
        Some(Json::text(&cat2("ghcr.io/cloudnative-pg/postgresql:", version)))
    }
}

/// The remote cluster that a node's database follows.
pub open spec fn followed_cluster(node: StellarNode) -> Option<Seq<char>> {
    match node.spec.replication_config {
        Some(c) => if c.enabled && c.role == ReplicationRole::Passive {
            Some(c.remote_cluster_id@)
        } else {
            None
        },
        None => None,
    }
}

fn cluster_to_follow(node: &StellarNode) -> (r: Option<&String>)
    ensures
        (match r {
            Some(s) => followed_cluster(*node) == Some(s@),
            None => followed_cluster(*node) is None,
        }),
{
    match &node.spec.replication_config {
        Some(c) => {
            if c.enabled && c.role == ReplicationRole::Passive {
                Some(&c.remote_cluster_id)
            } else {
                None
            }
        },
        None => None,
    }
}

/// The specification of a node's database: a replica recovers from the
/// primary that it follows, any other database starts empty.
pub open spec fn cluster_spec(node: StellarNode, c: ManagedDatabaseConfig) -> Doc {
    let base = Doc::object().with("instances"@, Doc::number(c.instances as int)).with_some(
        "imageName"@,
        image_of_version(c.postgres_version@),
    ).with(
        "postgresql"@,
        Doc::object().with(
            "parameters"@,
            Doc::object().with("max_connections"@, Doc::text("100"@)).with(
                "shared_buffers"@,
                Doc::text("256MB"@),
            ),
        ),
    ).with(
        "storage"@,
        Doc::object().with("size"@, Doc::text(c.storage.size@)).with(
            "storageClass"@,
            Doc::text(c.storage.storage_class@),
        ),
    ).with_some("backup"@, backup_of(c.backup)).with("monitoring"@, monitored_doc());
    match followed_cluster(node) {
        Some(remote) => {
            let source = remote + "-primary"@;
            base.with(
                "externalClusters"@,
                Doc::list().and(
                    primary_cluster_doc(
                        source,
                        node.name@ + "."@ + remote + ".svc"@,
                        node.name@ + "-app"@,
                    ),
                ),
            ).with(
                "bootstrap"@,
                Doc::object().with("recovery"@, Doc::object().with("source"@, Doc::text(source))),
            ).with(
                "replica"@,
                Doc::object().with("enabled"@, Doc::Bool(true)).with("source"@, Doc::text(source)),
            )
        },
        None => base.with(
            "bootstrap"@,
            Doc::object().with(
                "initdb"@,
                Doc::object().with(
                    "database"@,
                    Doc::text(opt_text_or(c.database_name, "stellar"@)),
                ).with("owner"@, Doc::text(opt_text_or(c.username, "stellar"@))),
            ),
        ),
    }
}

fn build_cluster_spec(node: &StellarNode, c: &ManagedDatabaseConfig) -> (r: Json)
    ensures
        r@ == cluster_spec(*node, *c),
{
    let base = Json::object().with("instances", Json::number(c.instances as i64)).with_some(
        "imageName",
        image_for_version(&c.postgres_version),
    ).with(
        "postgresql",
        Json::object().with(
            "parameters",
            Json::object().with("max_connections", Json::text("100")).with(
                "shared_buffers",
                Json::text("256MB"),
            ),
        ),
    ).with(
        "storage",
        Json::object().with("size", Json::text(&c.storage.size)).with(
            "storageClass",
            Json::text(&c.storage.storage_class),
        ),
    ).with_some("backup", build_backup(&c.backup)).with("monitoring", monitored());
    match cluster_to_follow(node) {
        Some(remote) => {
            let source = cat2(remote, "-primary");
            base.with(
                "externalClusters",
                Json::list().and(
                    primary_cluster(
                        &source,
                        &cat4(&node.name, ".", remote, ".svc"),
                        &cat2(&node.name, "-app"),
                    ),
                ),
            ).with(
                "bootstrap",
                Json::object().with("recovery", Json::object().with("source", Json::text(&source))),
            ).with(
                "replica",
                Json::object().with("enabled", Json::flag(true)).with("source", Json::text(&source)),
            )
        },
        None => base.with(
            "bootstrap",
            Json::object().with(
                "initdb",
                Json::object().with(
                    "database",
                    Json::text(text_or(&c.database_name, "stellar")),
                ).with("owner", Json::text(text_or(&c.username, "stellar"))),
            ),
        ),
    }
}

/// The database cluster of a node.
pub open spec fn cnpg_cluster_doc(
    node: StellarNode,
    c: ManagedDatabaseConfig,
    ctx: NodeContext,
) -> Doc {
    let labels = standard_labels_doc(node, ctx).with(
        "app.kubernetes.io/managed-by"@,
        Doc::text("cnpg"@),
    );
    cnpg_manifest_doc("Cluster"@, metadata_doc(node, node.name@, labels), cluster_spec(node, c))
}

/// Builds the database cluster of a node.
pub fn build_cnpg_cluster(
    node: &StellarNode,
    config: &ManagedDatabaseConfig,
    ctx: &NodeContext,
) -> (r: Json)
    ensures
        r@ == cnpg_cluster_doc(*node, *config, *ctx),
{
    let labels = standard_labels(node, ctx).with(
        "app.kubernetes.io/managed-by",
        Json::text("cnpg"),
    );
    cnpg_manifest("Cluster", metadata(node, &node.name, labels), build_cluster_spec(node, config))
}

/// Ensures the database cluster of a node that asks for one.
pub fn ensure_cnpg_cluster(node: &StellarNode, dry_run: bool, ctx: &NodeContext) -> (r: Vec<Step>)
    ensures
        acts(r@) == match node.spec.managed_database {
            Some(c) => one_act(
                apply_act(
                    Kind::Cluster,
                    namespace_of(*node),
                    node.name@,
                    cnpg_cluster_doc(*node, c, *ctx),
                    dry_run,
                ),
            ),
            None => no_acts(),
        },
{
    match &node.spec.managed_database {
        Some(c) => one_step(
            apply(
                Kind::Cluster,
                namespace_or_default(node),
                &node.name,
                build_cnpg_cluster(node, c, ctx),
                dry_run,
            ),
        ),
        None => no_steps(),
    }
}

/// The name of a pool mode.
pub open spec fn pool_mode_text(m: PgBouncerPoolMode) -> Seq<char> {
    match m {
        PgBouncerPoolMode::Session => "session"@,
        PgBouncerPoolMode::Transaction => "transaction"@,
        PgBouncerPoolMode::Statement => "statement"@,
    }
}

fn pool_mode_str(m: PgBouncerPoolMode) -> (r: &'static str)
    ensures
        r@ == pool_mode_text(m),
{
    match m {
        PgBouncerPoolMode::Session => "session",
        PgBouncerPoolMode::Transaction => "transaction",
        PgBouncerPoolMode::Statement => "statement",
    }
}

/// The connection pooler of a node's database.
pub open spec fn cnpg_pooler_doc(node: StellarNode, c: PgBouncerConfig, ctx: NodeContext) -> Doc {
    let labels = standard_labels_doc(node, ctx).with(
        "app.kubernetes.io/component"@,
        Doc::text("pooler"@),
    );
    cnpg_manifest_doc(
        "Pooler"@,
        metadata_doc(node, resource_name_of(node, "pooler"@), labels),
        Doc::object().with("cluster"@, Doc::object().with("name"@, Doc::text(node.name@))).with(
            "instances"@,
            Doc::number(c.replicas as int),
        ).with("type"@, Doc::text("pgbouncer"@)).with(
            "pgbouncer"@,
            Doc::object().with("poolMode"@, Doc::text(pool_mode_text(c.pool_mode))).with(
                "parameters"@,
                Doc::object().with(
                    "max_client_conn"@,
                    Doc::text(signed_decimal(c.max_client_conn as int)),
                ).with(
                    "default_pool_size"@,
                    Doc::text(signed_decimal(c.default_pool_size as int)),
                ),
            ),
        ).with("monitoring"@, monitored_doc()),
    )
}

/// Builds the connection pooler of a node's database.
pub fn build_cnpg_pooler(
    node: &StellarNode,
    config: &PgBouncerConfig,
    ctx: &NodeContext,
) -> (r: Json)
    ensures
        r@ == cnpg_pooler_doc(*node, *config, *ctx),
{
    let labels = standard_labels(node, ctx).with(
        "app.kubernetes.io/component",
        Json::text("pooler"),
    );
    cnpg_manifest(
        "Pooler",
        metadata(node, &resource_name(node, "pooler"), labels),
        Json::object().with("cluster", Json::object().with("name", Json::text(&node.name))).with(
            "instances",
            Json::number(config.replicas as i64),
        ).with("type", Json::text("pgbouncer")).with(
            "pgbouncer",
            Json::object().with("poolMode", Json::text(pool_mode_str(config.pool_mode))).with(
                "parameters",
                Json::object().with(
                    "max_client_conn",
                    Json::text(&signed_decimal_text(config.max_client_conn as i64)),
                ).with(
                    "default_pool_size",
                    Json::text(&signed_decimal_text(config.default_pool_size as i64)),
                ),
            ),
        ).with("monitoring", monitored()),
    )
}

/// The pooler that a node asks for.
pub open spec fn pooling_of(node: StellarNode) -> Option<PgBouncerConfig> {
    match node.spec.managed_database {
        Some(c) => match c.pooling {
            Some(p) => if p.enabled {
                Some(p)
            } else {
                None
            },
            None => None,
        },
        None => None,
    }
}

/// Ensures the connection pooler of a node that asks for one.
pub fn ensure_cnpg_pooler(node: &StellarNode, dry_run: bool, ctx: &NodeContext) -> (r: Vec<Step>)
    ensures
        acts(r@) == match pooling_of(*node) {
            Some(p) => one_act(
                apply_act(
                    Kind::Pooler,
                    namespace_of(*node),
                    resource_name_of(*node, "pooler"@),
                    cnpg_pooler_doc(*node, p, *ctx),
                    dry_run,
                ),
            ),
            None => no_acts(),
        },
{
    if let Some(c) = &node.spec.managed_database {
        if let Some(p) = &c.pooling {
            if p.enabled {
                return one_step(
                    apply(
                        Kind::Pooler,
                        namespace_or_default(node),
                        &resource_name(node, "pooler"),
                        build_cnpg_pooler(node, p, ctx),
                        dry_run,
                    ),
                );
            }
        }
    }
    no_steps()
}

/// Deletes the pooler and then the database of a node that asks for one.
/// Failures are passed over.
pub fn delete_cnpg_resources(node: &StellarNode, dry_run: bool) -> (r: Vec<Step>)
    ensures
        acts(r@) == if node.spec.managed_database is Some {
            one_act(
                delete_act(
                    Kind::Pooler,
                    namespace_of(*node),
                    resource_name_of(*node, "pooler"@),
                    Tolerance::Everything,
                    dry_run,
                ),
            ).push(
                delete_act(
                    Kind::Cluster,
                    namespace_of(*node),
                    node.name@,
                    Tolerance::Everything,
                    dry_run,
                ),
            )
        } else {
            no_acts()
        },
{
    if node.spec.managed_database.is_none() {
        return no_steps();
    }
    let namespace = namespace_or_default(node);
    let mut steps = one_step(
        delete(
            Kind::Pooler,
            namespace,
            &resource_name(node, "pooler"),
            Tolerance::Everything,
            dry_run,
        ),
    );
    push_step(
        &mut steps,
        delete(Kind::Cluster, namespace, &node.name, Tolerance::Everything, dry_run),
    );
    steps
}

/// A cluster of databases is as large as it is asked to be, on the storage and in
/// the version that are asked for, and is backed up where that is asked for.
pub proof fn law_cluster_is_as_asked_for(
    node: StellarNode,
    c: ManagedDatabaseConfig,
    ctx: NodeContext,
)
    ensures
        ({
            let d = cnpg_cluster_doc(node, c, ctx);
            let s = d.member("spec"@)->0;
            &&& d.member("kind"@) == Some(Doc::Text("Cluster"@))
            &&& d.member("spec"@) is Some
            &&& at2(d, "metadata"@, "name"@) == Some(Doc::Text(node.name@))
            &&& s.member("instances"@) == Some(Doc::number(c.instances as int))
            &&& at2(s, "storage"@, "size"@) == Some(Doc::Text(c.storage.size@))
            &&& at2(s, "storage"@, "storageClass"@) == Some(Doc::Text(c.storage.storage_class@))
            &&& c.postgres_version@.len() > 0 ==> s.member("imageName"@) == Some(
                Doc::Text("ghcr.io/cloudnative-pg/postgresql:"@ + c.postgres_version@),
            )
            &&& c.postgres_version@.len() == 0 ==> s.member("imageName"@) is None
            &&& c.backup is Some ==> s.member("backup"@) == Some(
                backup_doc(
                    c.backup->0.destination_path@,
                    c.backup->0.credentials_secret_ref@,
                    c.backup->0.retention_policy@,
                ),
            )
            &&& c.backup is None ==> s.member("backup"@) is None
        }),
{
    broadcast use group_members;

    reveal_strlit("apiVersion");
    reveal_strlit("kind");
    reveal_strlit("metadata");
    reveal_strlit("spec");
    reveal_strlit("name");
    reveal_strlit("namespace");
    reveal_strlit("labels");
    reveal_strlit("ownerReferences");
    reveal_strlit("annotations");
    reveal_strlit("instances");
    reveal_strlit("imageName");
    reveal_strlit("postgresql");
    reveal_strlit("storage");
    reveal_strlit("backup");
    reveal_strlit("monitoring");
    reveal_strlit("externalClusters");
    reveal_strlit("bootstrap");
    reveal_strlit("replica");
    reveal_strlit("size");
    reveal_strlit("storageClass");
    assert("kind"@[0] == 'k');
    assert("spec"@[0] == 's');
    assert("name"@[0] == 'n');
    assert("namespace"@[0] == 'n');
    assert("instances"@[0] == 'i');
    assert("imageName"@[0] == 'i');
    assert("instances"@[1] == 'n');
    assert("imageName"@[1] == 'm');
    assert("apiVersion"@[0] == 'a');
    assert("postgresql"@[0] == 'p');
    assert("labels"@[0] == 'l');
    assert("backup"@[0] == 'b');
    assert("monitoring"@[0] == 'm');
    assert("bootstrap"@[0] == 'b');
    assert("storage"@[0] == 's');
    assert("replica"@[0] == 'r');
    assert("size"@[0] == 's');
    assert("spec"@[1] == 'p');
    assert("size"@[1] == 'i');
}

/// A cluster on the passive side of a replication follows the one on the active
/// side; any other begins with a database of its own.
pub proof fn law_passive_cluster_follows(node: StellarNode, c: ManagedDatabaseConfig)
    ensures
        ({
            let s = cluster_spec(node, c);
            let passive = match node.spec.replication_config {
                Some(r) => r.enabled && r.role == ReplicationRole::Passive,
                None => false,
            };
            let source = node.spec.replication_config->0.remote_cluster_id@ + "-primary"@;
            &&& passive ==> at2(s, "replica"@, "enabled"@) == Some(Doc::Bool(true)) && at2(
                s,
                "replica"@,
                "source"@,
            ) == Some(Doc::Text(source)) && at3(s, "bootstrap"@, "recovery"@, "source"@) == Some(
                Doc::Text(source),
            )
            &&& !passive ==> s.member("replica"@) is None && s.member("externalClusters"@) is None
            &&& !passive && c.database_name is Some ==> at3(
                s,
                "bootstrap"@,
                "initdb"@,
                "database"@,
            ) == Some(Doc::Text(c.database_name->0@))
            &&& !passive && c.database_name is None ==> at3(
                s,
                "bootstrap"@,
                "initdb"@,
                "database"@,
            ) == Some(Doc::Text("stellar"@))
            &&& !passive && c.username is Some ==> at3(s, "bootstrap"@, "initdb"@, "owner"@) == Some(
                Doc::Text(c.username->0@),
            )
        }),
{
    broadcast use group_members;

    reveal_strlit("instances");
    reveal_strlit("imageName");
    reveal_strlit("postgresql");
    reveal_strlit("storage");
    reveal_strlit("backup");
    reveal_strlit("monitoring");
    reveal_strlit("externalClusters");
    reveal_strlit("bootstrap");
    reveal_strlit("replica");
    reveal_strlit("enabled");
    reveal_strlit("source");
    reveal_strlit("recovery");
    reveal_strlit("initdb");
    reveal_strlit("database");
    reveal_strlit("owner");
    assert("instances"@[1] == 'n');
    assert("imageName"@[1] == 'm');
    assert("postgresql"@[0] == 'p');
    assert("monitoring"@[0] == 'm');
    assert("instances"@[0] == 'i');
    assert("bootstrap"@[0] == 'b');
    assert("imageName"@[0] == 'i');
    assert("storage"@[0] == 's');
    assert("replica"@[0] == 'r');
    assert("enabled"@[0] == 'e');
    assert("backup"@[0] == 'b');
    assert("source"@[0] == 's');
    assert("initdb"@[0] == 'i');
    assert("recovery"@[0] == 'r');
    assert("database"@[0] == 'd');
}

/// A backup goes where it is asked to go, with the credentials of its secret, and
/// is kept as long as it is asked to be.
pub proof fn law_backup_goes_where_asked(path: Seq<char>, secret: Seq<char>, retention: Seq<char>)
    ensures
        ({
            let d = backup_doc(path, secret, retention);
            let keys = at2(d, "barmanObjectStore"@, "s3Credentials"@);
            &&& at2(d, "barmanObjectStore"@, "destinationPath"@) == Some(Doc::Text(path))
            &&& d.member("retentionPolicy"@) == Some(Doc::Text(retention))
            &&& keys is Some && at2(keys->0, "accessKeyId"@, "name"@) == Some(Doc::Text(secret))
            &&& at2(keys->0, "secretAccessKey"@, "name"@) == Some(Doc::Text(secret))
            &&& at2(keys->0, "accessKeyId"@, "key"@) == Some(Doc::Text("AWS_ACCESS_KEY_ID"@))
            &&& at2(keys->0, "secretAccessKey"@, "key"@) == Some(
                Doc::Text("AWS_SECRET_ACCESS_KEY"@),
            )
        }),
{
    broadcast use group_members;

    reveal_strlit("barmanObjectStore");
    reveal_strlit("destinationPath");
    reveal_strlit("s3Credentials");
    reveal_strlit("wal");
    reveal_strlit("retentionPolicy");
    reveal_strlit("accessKeyId");
    reveal_strlit("secretAccessKey");
    reveal_strlit("name");
    reveal_strlit("key");
    assert("destinationPath"@[0] == 'd');
    assert("retentionPolicy"@[0] == 'r');
    assert("secretAccessKey"@[0] == 's');
    assert("wal"@[0] == 'w');
    assert("key"@[0] == 'k');
}

/// A pooler serves the cluster of its node, as it is configured; there is one
/// just where pooling is enabled.
pub proof fn law_pooler_serves_its_cluster(node: StellarNode, c: PgBouncerConfig, ctx: NodeContext)
    ensures
        ({
            let d = cnpg_pooler_doc(node, c, ctx);
            let s = d.member("spec"@)->0;
            &&& d.member("kind"@) == Some(Doc::Text("Pooler"@))
            &&& d.member("spec"@) is Some
            &&& at2(d, "metadata"@, "name"@) == Some(Doc::Text(resource_name_of(node, "pooler"@)))
            &&& at2(s, "cluster"@, "name"@) == Some(Doc::Text(node.name@))
            &&& s.member("instances"@) == Some(Doc::number(c.replicas as int))
            &&& at2(s, "pgbouncer"@, "poolMode"@) == Some(Doc::Text(pool_mode_text(c.pool_mode)))
            &&& at3(s, "pgbouncer"@, "parameters"@, "max_client_conn"@) == Some(
                Doc::Text(signed_decimal(c.max_client_conn as int)),
            )
            &&& at3(s, "pgbouncer"@, "parameters"@, "default_pool_size"@) == Some(
                Doc::Text(signed_decimal(c.default_pool_size as int)),
            )
        }),
        pooling_of(node) is Some <==> node.spec.managed_database is Some
            && node.spec.managed_database->0.pooling is Some
            && node.spec.managed_database->0.pooling->0.enabled,
        pooling_of(node) is Some ==> pooling_of(node) == node.spec.managed_database->0.pooling,
        pool_mode_text(PgBouncerPoolMode::Session) == "session"@,
        pool_mode_text(PgBouncerPoolMode::Transaction) == "transaction"@,
        pool_mode_text(PgBouncerPoolMode::Statement) == "statement"@,
{
    broadcast use group_members;

    reveal_strlit("apiVersion");
    reveal_strlit("kind");
    reveal_strlit("metadata");
    reveal_strlit("spec");
    reveal_strlit("name");
    reveal_strlit("namespace");
    reveal_strlit("labels");
    reveal_strlit("ownerReferences");
    reveal_strlit("annotations");
    reveal_strlit("cluster");
    reveal_strlit("instances");
    reveal_strlit("type");
    reveal_strlit("pgbouncer");
    reveal_strlit("monitoring");
    reveal_strlit("poolMode");
    reveal_strlit("parameters");
    reveal_strlit("max_client_conn");
    reveal_strlit("default_pool_size");
    assert("kind"@[0] == 'k');
    assert("spec"@[0] == 's');
    assert("name"@[0] == 'n');
    assert("namespace"@[0] == 'n');
    assert("instances"@[0] == 'i');
    assert("type"@[0] == 't');
    assert("pgbouncer"@[0] == 'p');
    assert("apiVersion"@[0] == 'a');
    assert("monitoring"@[0] == 'm');
    assert("metadata"@[0] == 'm');
    assert("poolMode"@[0] == 'p');
    assert("parameters"@[0] == 'p');
    assert("ownerReferences"@[0] == 'o');
    assert("max_client_conn"@[0] == 'm');
}

/// The pods of a cluster and of its pooler are monitored.
pub proof fn law_databases_are_monitored(
    node: StellarNode,
    d: ManagedDatabaseConfig,
    c: PgBouncerConfig,
    ctx: NodeContext,
)
    ensures
        at2(cluster_spec(node, d), "monitoring"@, "enablePodMonitor"@) == Some(Doc::Bool(true)),
        at3(cnpg_pooler_doc(node, c, ctx), "spec"@, "monitoring"@, "enablePodMonitor"@) == Some(
            Doc::Bool(true),
        ),
{
    broadcast use group_members;

    reveal_strlit("apiVersion");
    reveal_strlit("kind");
    reveal_strlit("metadata");
    reveal_strlit("spec");
    reveal_strlit("name");
    reveal_strlit("namespace");
    reveal_strlit("labels");
    reveal_strlit("ownerReferences");
    reveal_strlit("annotations");
    reveal_strlit("instances");
    reveal_strlit("imageName");
    reveal_strlit("postgresql");
    reveal_strlit("storage");
    reveal_strlit("backup");
    reveal_strlit("monitoring");
    reveal_strlit("externalClusters");
    reveal_strlit("bootstrap");
    reveal_strlit("replica");
    reveal_strlit("enablePodMonitor");
    reveal_strlit("cluster");
    reveal_strlit("type");
    reveal_strlit("pgbouncer");
    assert("kind"@[0] == 'k');
    assert("spec"@[0] == 's');
    assert("name"@[0] == 'n');
    assert("namespace"@[0] == 'n');
    assert("instances"@[0] == 'i');
    assert("imageName"@[0] == 'i');
    assert("instances"@[1] == 'n');
    assert("imageName"@[1] == 'm');
    assert("apiVersion"@[0] == 'a');
    assert("postgresql"@[0] == 'p');
    assert("labels"@[0] == 'l');
    assert("backup"@[0] == 'b');
    assert("monitoring"@[0] == 'm');
    assert("bootstrap"@[0] == 'b');
    assert("storage"@[0] == 's');
    assert("replica"@[0] == 'r');
    assert("externalClusters"@[1] == 'x');
    assert("enablePodMonitor"@[1] == 'n');
    assert("cluster"@[0] == 'c');
    assert("type"@[0] == 't');
    assert("pgbouncer"@[0] == 'p');
}

} // verus!
