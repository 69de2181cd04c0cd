//! The template of a node's pods.

use vstd::prelude::*;
use vstd::string::*;
use crate::controller::context::NodeContext;
use crate::controller::resources::helpers::{
    DIAGNOSTIC_SIDECAR_DEFAULT_CPU, DIAGNOSTIC_SIDECAR_DEFAULT_MEMORY, amounts, amounts_doc,
    apply_probe_override, confined, confined_doc, confined_read_only, confined_read_only_doc,
    copies, drop_all, drop_all_doc, env_field, env_field_doc, env_secret, env_secret_doc,
    env_secret_optional, env_secret_optional_doc, env_value, env_value_doc, extend, host_volume,
    host_volume_doc, http_probe, http_probe_doc, label, label_doc, match_labels, match_labels_doc,
    memory_volume, memory_volume_doc, mount, mount_doc, mount_mode, mount_mode_doc, name, name_of,
    none, one, opt_copy, opt_doc, opt_text, opt_text_doc, opt_text_or, overridden_probe,
    probe_times, probe_times_doc, push, resource_name, resource_name_of, runtime_default,
    runtime_default_doc, scratch_volume, scratch_volume_doc, secret_key, secret_key_doc, text_or,
    with_all, with_all_doc,
};
use crate::crd::stellar_node::{StellarNode, StellarNodeSpec, image_for, image_of};
use crate::crd::types::{
    DRSyncStrategy, ExternalDatabaseConfig, HitlessUpgradeConfig, HsmConfig, HsmProvider, KeySource,
    KmsConfig, LogShipperConfig, NatTraversalConfig, NodeType, PodAntiAffinityStrength,
    ProbeOverride, ResourceRequirements, RolloutStrategyType, SorobanCacheConfig,
};
use crate::json::{Doc, Json, at2, at3, docs, group_members, group_removals, is_object};
use crate::str_map::StrMap;
use crate::text::{
    begins_with, blank, cat2, cat5, cat7, chars_of, decimal, decimal_text, ends_in, ends_with,
    is_blank, is_white_space, parse_u32, parsed, replace, replaced, same, starts_with, text_of,
    trim, trimmed,
};

verus! {

/// The selector of the pods of a type on a network.
pub open spec fn spread_selector_doc(spec: StellarNodeSpec, ctx: NodeContext) -> Doc {
    Doc::object()
        .with(
            "matchLabels"@,
            Doc::object()
                .with("app.kubernetes.io/name"@, Doc::text("stellar-node"@))
                .with("stellar-network"@, Doc::text(ctx.network_label@))
                .with("app.kubernetes.io/component"@, Doc::text(spec.node_type.component())),
        )
}

pub fn spread_selector(spec: &StellarNodeSpec, ctx: &NodeContext) -> (r: Json)
    ensures
        r@ == spread_selector_doc(*spec, *ctx),
{
    Json::object()
        .with(
            "matchLabels",
            Json::object()
                .with("app.kubernetes.io/name", Json::text("stellar-node"))
                .with("stellar-network", Json::text(&ctx.network_label))
                .with("app.kubernetes.io/component", Json::text(spec.node_type.component_str())),
        )
}

/// Pods of the same type and network, host by host.
pub open spec fn affinity_term_doc(spec: StellarNodeSpec, ctx: NodeContext) -> Doc {
    Doc::object()
        .with("labelSelector"@, spread_selector_doc(spec, ctx))
        .with("topologyKey"@, Doc::text("kubernetes.io/hostname"@))
}

pub fn affinity_term(spec: &StellarNodeSpec, ctx: &NodeContext) -> (r: Json)
    ensures
        r@ == affinity_term_doc(*spec, *ctx),
{
    Json::object()
        .with("labelSelector", spread_selector(spec, ctx))
        .with("topologyKey", Json::text("kubernetes.io/hostname"))
}

/// A preference of full weight.
pub open spec fn weighted_term_doc(term: Doc) -> Doc {
    Doc::object()
        .with("podAffinityTerm"@, term)
        .with("weight"@, Doc::number(100))
}

pub fn weighted_term(term: Json) -> (r: Json)
    ensures
        r@ == weighted_term_doc(term@),
{
    Json::object()
        .with("podAffinityTerm", term)
        .with("weight", Json::number(100))
}

/// The pods of a quorum set member, host by host.
pub open spec fn peer_term_doc(peer: Seq<char>) -> Doc {
    Doc::object()
        .with("labelSelector"@, match_labels_doc(label_doc("app.kubernetes.io/instance"@, peer)))
        .with("topologyKey"@, Doc::text("kubernetes.io/hostname"@))
}

pub fn peer_term(peer: &str) -> (r: Json)
    ensures
        r@ == peer_term_doc(peer@),
{
    Json::object()
        .with("labelSelector", match_labels(label("app.kubernetes.io/instance", peer)))
        .with("topologyKey", Json::text("kubernetes.io/hostname"))
}

/// Pods spread evenly over a topology.
pub open spec fn spread_constraint_doc(spec: StellarNodeSpec, ctx: NodeContext, topology: Seq<char>, otherwise: Seq<char>) -> Doc {
    Doc::object()
        .with("labelSelector"@, spread_selector_doc(spec, ctx))
        .with("maxSkew"@, Doc::number(1))
        .with("topologyKey"@, Doc::text(topology))
        .with("whenUnsatisfiable"@, Doc::text(otherwise))
}

pub fn spread_constraint(spec: &StellarNodeSpec, ctx: &NodeContext, topology: &str, otherwise: &str) -> (r: Json)
    ensures
        r@ == spread_constraint_doc(*spec, *ctx, topology@, otherwise@),
{
    Json::object()
        .with("labelSelector", spread_selector(spec, ctx))
        .with("maxSkew", Json::number(1))
        .with("topologyKey", Json::text(topology))
        .with("whenUnsatisfiable", Json::text(otherwise))
}

/// The init container that fetches the validator's seed from a key manager.
pub open spec fn kms_fetcher_doc(image: Seq<char>, env: Doc) -> Doc {
    Doc::object()
        .with("name"@, Doc::text("kms-fetcher"@))
        .with("image"@, Doc::text(image))
        .with("env"@, env)
        .with("volumeMounts"@, Doc::list().and(mount_doc("keys"@, "/keys"@)))
        .with("securityContext"@, confined_doc())
}

pub fn kms_fetcher(image: &str, env: Json) -> (r: Json)
    ensures
        r@ == kms_fetcher_doc(image@, env@),
{
    Json::object()
        .with("name", Json::text("kms-fetcher"))
        .with("image", Json::text(image))
        .with("env", env)
        .with("volumeMounts", Json::list().and(mount("keys", "/keys")))
        .with("securityContext", confined())
}

/// The sidecar that connects a hardware security module.
pub open spec fn hsm_client_doc(name: Seq<char>, image: Seq<char>, command: Seq<char>, volume: Seq<char>, path: Seq<char>) -> Doc {
    Doc::object()
        .with("name"@, Doc::text(name))
        .with("image"@, Doc::text(image))
        .with("command"@, Doc::list().and(Doc::text(command)))
        .with("args"@, Doc::list().and(Doc::text("--foreground"@)))
        .with("volumeMounts"@, Doc::list().and(mount_doc(volume, path)))
        .with("securityContext"@, confined_doc())
}

pub fn hsm_client(name: &str, image: &str, command: &str, volume: &str, path: &str) -> (r: Json)
    ensures
        r@ == hsm_client_doc(name@, image@, command@, volume@, path@),
{
    Json::object()
        .with("name", Json::text(name))
        .with("image", Json::text(image))
        .with("command", Json::list().and(Json::text(command)))
        .with("args", Json::list().and(Json::text("--foreground")))
        .with("volumeMounts", Json::list().and(mount(volume, path)))
        .with("securityContext", confined())
}

/// The sidecar that traverses NAT.
pub open spec fn nat_sidecar_doc(image: Seq<char>, env: Doc) -> Doc {
    Doc::object()
        .with("name"@, Doc::text("nat-traversal"@))
        .with("image"@, Doc::text(image))
        .with("env"@, env)
        .with("securityContext"@, confined_doc())
}

pub fn nat_sidecar(image: &str, env: Json) -> (r: Json)
    ensures
        r@ == nat_sidecar_doc(image@, env@),
{
    Json::object()
        .with("name", Json::text("nat-traversal"))
        .with("image", Json::text(image))
        .with("env", env)
        .with("securityContext", confined())
}

/// The sidecar that hands a validator over to its successor.
pub open spec fn handoff_sidecar_doc(image: Seq<char>, timeout: Seq<char>) -> Doc {
    Doc::object()
        .with("name"@, Doc::text("stellar-handoff"@))
        .with("image"@, Doc::text(image))
        .with(
            "args"@,
            Doc::list().and(Doc::text("handoff"@)).and(Doc::text("--socket"@)).and(Doc::text("/handoff/sock"@)).and(Doc::text("--timeout"@)).and(Doc::text(timeout)),
        )
        .with("volumeMounts"@, Doc::list().and(mount_doc("handoff-socket"@, "/handoff"@)))
        .with(
            "livenessProbe"@,
            http_probe_doc("/healthz"@, 8080)
                .with("initialDelaySeconds"@, Doc::number(5))
                .with("periodSeconds"@, Doc::number(10)),
        )
}

pub fn handoff_sidecar(image: &str, timeout: &str) -> (r: Json)
    ensures
        r@ == handoff_sidecar_doc(image@, timeout@),
{
    Json::object()
        .with("name", Json::text("stellar-handoff"))
        .with("image", Json::text(image))
        .with(
            "args",
            Json::list().and(Json::text("handoff")).and(Json::text("--socket")).and(Json::text("/handoff/sock")).and(Json::text("--timeout")).and(Json::text(timeout)),
        )
        .with("volumeMounts", Json::list().and(mount("handoff-socket", "/handoff")))
        .with(
            "livenessProbe",
            http_probe("/healthz", 8080)
                .with("initialDelaySeconds", Json::number(5))
                .with("periodSeconds", Json::number(10)),
        )
}

/// The sidecar that answers the probes of the node.
pub open spec fn health_sidecar_doc(image: Seq<char>, core_url: Seq<char>, resources: Doc) -> Doc {
    Doc::object()
        .with("name"@, Doc::text("stellar-health-check"@))
        .with("image"@, Doc::text(image))
        .with("command"@, Doc::list().and(Doc::text("/stellar-health-sidecar"@)))
        .with(
            "ports"@,
            Doc::list().and(
                Doc::object()
                    .with("containerPort"@, Doc::number(8081))
                    .with("name"@, Doc::text("health"@))
                    .with("protocol"@, Doc::text("TCP"@)),
            ),
        )
        .with(
            "env"@,
            Doc::list().and(env_value_doc("CORE_URL"@, core_url)).and(env_value_doc("RUST_LOG"@, "info"@)),
        )
        .with("securityContext"@, confined_read_only_doc())
        .with("resources"@, resources)
}

pub fn health_sidecar(image: &str, core_url: &str, resources: Json) -> (r: Json)
    ensures
        r@ == health_sidecar_doc(image@, core_url@, resources@),
{
    Json::object()
        .with("name", Json::text("stellar-health-check"))
        .with("image", Json::text(image))
        .with("command", Json::list().and(Json::text("/stellar-health-sidecar")))
        .with(
            "ports",
            Json::list().and(
                Json::object()
                    .with("containerPort", Json::number(8081))
                    .with("name", Json::text("health"))
                    .with("protocol", Json::text("TCP")),
            ),
        )
        .with(
            "env",
            Json::list().and(env_value("CORE_URL", core_url)).and(env_value("RUST_LOG", "info")),
        )
        .with("securityContext", confined_read_only())
        .with("resources", resources)
}

/// The sidecar that ships logs to an object store.
pub open spec fn log_shipper_doc(image: Seq<char>, env: Doc) -> Doc {
    Doc::object()
        .with("name"@, Doc::text("stellar-log-shipper"@))
        .with("image"@, Doc::text(image))
        .with("command"@, Doc::list().and(Doc::text("/stellar-log-shipper"@)))
        .with("env"@, env)
        .with(
            "volumeMounts"@,
            Doc::list().and(mount_mode_doc("stellar-logs"@, "/var/log/stellar"@, true)),
        )
        .with(
            "resources"@,
            Doc::object()
                .with("requests"@, amounts_doc("50m"@, "32Mi"@))
                .with("limits"@, amounts_doc("200m"@, "128Mi"@)),
        )
        .with(
            "securityContext"@,
            Doc::object()
                .with("allowPrivilegeEscalation"@, Doc::Bool(false))
                .with("readOnlyRootFilesystem"@, Doc::Bool(true))
                .with("runAsNonRoot"@, Doc::Bool(true))
                .with("capabilities"@, drop_all_doc())
                .with("seccompProfile"@, runtime_default_doc()),
        )
}

pub fn log_shipper(image: &str, env: Json) -> (r: Json)
    ensures
        r@ == log_shipper_doc(image@, env@),
{
    Json::object()
        .with("name", Json::text("stellar-log-shipper"))
        .with("image", Json::text(image))
        .with("command", Json::list().and(Json::text("/stellar-log-shipper")))
        .with("env", env)
        .with(
            "volumeMounts",
            Json::list().and(mount_mode("stellar-logs", "/var/log/stellar", true)),
        )
        .with(
            "resources",
            Json::object()
                .with("requests", amounts("50m", "32Mi"))
                .with("limits", amounts("200m", "128Mi")),
        )
        .with(
            "securityContext",
            Json::object()
                .with("allowPrivilegeEscalation", Json::flag(false))
                .with("readOnlyRootFilesystem", Json::flag(true))
                .with("runAsNonRoot", Json::flag(true))
                .with("capabilities", drop_all())
                .with("seccompProfile", runtime_default()),
        )
}

/// The sidecar that exports kernel metrics.
pub open spec fn ebpf_exporter_doc() -> Doc {
    Doc::object()
        .with("name"@, Doc::text("ebpf-exporter"@))
        .with("image"@, Doc::text("cloudflare/ebpf_exporter:latest"@))
        .with("args"@, Doc::list().and(Doc::text("--config.file=/ebpf/ebpf-exporter.yaml"@)))
        .with(
            "ports"@,
            Doc::list().and(
                Doc::object()
                    .with("containerPort"@, Doc::number(9435))
                    .with("name"@, Doc::text("metrics"@))
                    .with("protocol"@, Doc::text("TCP"@)),
            ),
        )
        .with(
            "volumeMounts"@,
            Doc::list().and(mount_mode_doc("config"@, "/ebpf"@, true)).and(mount_mode_doc("sys-kernel-debug"@, "/sys/kernel/debug"@, false)).and(mount_mode_doc("lib-modules"@, "/lib/modules"@, true)),
        )
        .with(
            "securityContext"@,
            Doc::object()
                .with("privileged"@, Doc::Bool(true)),
        )
}

pub fn ebpf_exporter() -> (r: Json)
    ensures
        r@ == ebpf_exporter_doc(),
{
    Json::object()
        .with("name", Json::text("ebpf-exporter"))
        .with("image", Json::text("cloudflare/ebpf_exporter:latest"))
        .with(
            "args",
            Json::list().and(Json::text("--config.file=/ebpf/ebpf-exporter.yaml")),
        )
        .with(
            "ports",
            Json::list().and(
                Json::object()
                    .with("containerPort", Json::number(9435))
                    .with("name", Json::text("metrics"))
                    .with("protocol", Json::text("TCP")),
            ),
        )
        .with(
            "volumeMounts",
            Json::list().and(mount_mode("config", "/ebpf", true)).and(mount_mode("sys-kernel-debug", "/sys/kernel/debug", false)).and(mount_mode("lib-modules", "/lib/modules", true)),
        )
        .with(
            "securityContext",
            Json::object()
                .with("privileged", Json::flag(true)),
        )
}

/// The init container that restores the data volume from a backup.
pub open spec fn restore_container_doc(image: Seq<char>, script: Seq<char>, env: Doc) -> Doc {
    Doc::object()
        .with("name"@, Doc::text("snapshot-restore"@))
        .with("image"@, Doc::text(image))
        .with(
            "command"@,
            Doc::list().and(Doc::text("/bin/sh"@)).and(Doc::text("-c"@)).and(Doc::text(script)),
        )
        .with("env"@, env)
        .with("volumeMounts"@, Doc::list().and(mount_doc("data"@, "/data"@)))
        .with(
            "securityContext"@,
            Doc::object()
                .with("runAsNonRoot"@, Doc::Bool(false))
                .with("allowPrivilegeEscalation"@, Doc::Bool(false))
                .with("capabilities"@, drop_all_doc()),
        )
        .with(
            "resources"@,
            Doc::object()
                .with("requests"@, amounts_doc("100m"@, "256Mi"@))
                .with("limits"@, amounts_doc("500m"@, "512Mi"@)),
        )
}

pub fn restore_container(image: &str, script: &str, env: Json) -> (r: Json)
    ensures
        r@ == restore_container_doc(image@, script@, env@),
{
    Json::object()
        .with("name", Json::text("snapshot-restore"))
        .with("image", Json::text(image))
        .with(
            "command",
            Json::list().and(Json::text("/bin/sh")).and(Json::text("-c")).and(Json::text(script)),
        )
        .with("env", env)
        .with("volumeMounts", Json::list().and(mount("data", "/data")))
        .with(
            "securityContext",
            Json::object()
                .with("runAsNonRoot", Json::flag(false))
                .with("allowPrivilegeEscalation", Json::flag(false))
                .with("capabilities", drop_all()),
        )
        .with(
            "resources",
            Json::object()
                .with("requests", amounts("100m", "256Mi"))
                .with("limits", amounts("500m", "512Mi")),
        )
}

/// The security context of a pod.
pub open spec fn pod_security_doc() -> Doc {
    Doc::object()
        .with("runAsNonRoot"@, Doc::Bool(true))
        .with("runAsUser"@, Doc::number(10000))
        .with("runAsGroup"@, Doc::number(10000))
        .with("fsGroup"@, Doc::number(10000))
        .with("seccompProfile"@, runtime_default_doc())
}

pub fn pod_security() -> (r: Json)
    ensures
        r@ == pod_security_doc(),
{
    Json::object()
        .with("runAsNonRoot", Json::flag(true))
        .with("runAsUser", Json::number(10000))
        .with("runAsGroup", Json::number(10000))
        .with("fsGroup", Json::number(10000))
        .with("seccompProfile", runtime_default())
}

/// The volume of a node's data.
pub open spec fn data_volume_doc(claim: Seq<char>) -> Doc {
    Doc::object()
        .with("name"@, Doc::text("data"@))
        .with(
            "persistentVolumeClaim"@,
            Doc::object()
                .with("claimName"@, Doc::text(claim)),
        )
}

pub fn data_volume(claim: &str) -> (r: Json)
    ensures
        r@ == data_volume_doc(claim@),
{
    Json::object()
        .with("name", Json::text("data"))
        .with(
            "persistentVolumeClaim",
            Json::object()
                .with("claimName", Json::text(claim)),
        )
}

/// The volume of a node's configuration.
pub open spec fn config_volume_doc(config_map: Seq<char>) -> Doc {
    Doc::object()
        .with("name"@, Doc::text("config"@))
        .with(
            "configMap"@,
            Doc::object()
                .with("name"@, Doc::text(config_map)),
        )
}

pub fn config_volume(config_map: &str) -> (r: Json)
    ensures
        r@ == config_volume_doc(config_map@),
{
    Json::object()
        .with("name", Json::text("config"))
        .with(
            "configMap",
            Json::object()
                .with("name", Json::text(config_map)),
        )
}

/// The volume of a node's certificates.
pub open spec fn tls_volume_doc(secret: Seq<char>) -> Doc {
    Doc::object()
        .with("name"@, Doc::text("tls"@))
        .with(
            "secret"@,
            Doc::object()
                .with("secretName"@, Doc::text(secret)),
        )
}

pub fn tls_volume(secret: &str) -> (r: Json)
    ensures
        r@ == tls_volume_doc(secret@),
{
    Json::object()
        .with("name", Json::text("tls"))
        .with(
            "secret",
            Json::object()
                .with("secretName", Json::text(secret)),
        )
}

/// The volume of a Soroban node's cache.
pub open spec fn cache_volume_doc(limit: Seq<char>) -> Doc {
    Doc::object()
        .with("name"@, Doc::text("soroban-cache"@))
        .with(
            "emptyDir"@,
            Doc::object()
                .with("sizeLimit"@, Doc::text(limit)),
        )
}

pub fn cache_volume(limit: &str) -> (r: Json)
    ensures
        r@ == cache_volume_doc(limit@),
{
    Json::object()
        .with("name", Json::text("soroban-cache"))
        .with(
            "emptyDir",
            Json::object()
                .with("sizeLimit", Json::text(limit)),
        )
}

/// The liveness probe of the node's container.
pub open spec fn main_liveness_doc() -> Doc {
    probe_times_doc(http_probe_doc("/healthz"@, 8081), 30, 10, 5).with(
        "failureThreshold"@,
        Doc::number(3),
    )
}

pub fn main_liveness() -> (r: Json)
    ensures
        r@ == main_liveness_doc(),
{
    probe_times(http_probe("/healthz", 8081), 30, 10, 5).with(
        "failureThreshold",
        Json::number(3),
    )
}

/// The readiness probe of the node's container.
pub open spec fn main_readiness_doc() -> Doc {
    probe_times_doc(http_probe_doc("/readyz"@, 8081), 60, 5, 5).with(
        "failureThreshold"@,
        Doc::number(2),
    )
}

pub fn main_readiness() -> (r: Json)
    ensures
        r@ == main_readiness_doc(),
{
    probe_times(http_probe("/readyz", 8081), 60, 5, 5).with(
        "failureThreshold",
        Json::number(2),
    )
}

/// The startup probe of the node's container.
pub open spec fn main_startup_doc() -> Doc {
    probe_times_doc(http_probe_doc("/healthz"@, 8081), 0, 10, 5).with(
        "failureThreshold"@,
        Doc::number(30),
    )
}

pub fn main_startup() -> (r: Json)
    ensures
        r@ == main_startup_doc(),
{
    probe_times(http_probe("/healthz", 8081), 0, 10, 5).with(
        "failureThreshold",
        Json::number(30),
    )
}

/// How a validator's seed reaches its pod.
pub struct SeedInjectionSpec {
    pub env_vars: Vec<Json>,
    pub volume_mounts: Vec<Json>,
    pub volumes: Vec<Json>,
    pub pod_annotations: Option<StrMap<String>>,
}

/// No values.
pub open spec fn nothing() -> Seq<Doc> {
    Seq::empty()
}

/// `d` alone.
pub open spec fn just(d: Doc) -> Seq<Doc> {
    Seq::empty().push(d)
}

/// The values, where there are any given.
pub open spec fn given(v: Option<Vec<Json>>) -> Seq<Doc> {
    match v {
        Some(w) => docs(w@),
        None => nothing(),
    }
}

fn given_copies(v: &Option<Vec<Json>>) -> (r: Vec<Json>)
    ensures
        docs(r@) == given(*v),
{
    match v {
        Some(w) => copies(w),
        None => none(),
    }
}

/// The list, unless it is empty.
pub open spec fn unless_none(s: Seq<Doc>) -> Option<Doc> {
    if s.len() == 0 {
        None
    } else {
        Some(Doc::List(s))
    }
}

pub fn list_unless_none(v: Vec<Json>) -> (r: Option<Json>)
    ensures
        opt_doc(r) == unless_none(docs(v@)),
{
    if v.len() == 0 {
        None
    } else {
        Some(Json::List(v))
    }
}

pub open spec fn flag_text(b: bool) -> Seq<char> {
    if b {
        "true"@
    } else {
        "false"@
    }
}

pub fn flag_str(b: bool) -> (r: &'static str)
    ensures
        r@ == flag_text(b),
{
    if b {
        "true"
    } else {
        "false"
    }
}

// CPU amounts

/// An amount of CPU in thousandths of a core. With the suffix `m` it is
/// written so; otherwise it is a number of cores, which `cores` gives.
pub open spec fn millicores(cpu: Seq<char>, cores: Option<u32>) -> Option<int> {
    let t = trimmed(cpu);
    if ends_in(t, "m"@) {
        parsed(t.subrange(0, t.len() - 1), u32::MAX as int)
    } else {
        match cores {
            Some(n) => Some(n as int),
            None => None,
        }
    }
}

pub fn parse_cpu_millicores(cpu: &str, cores: Option<u32>) -> (r: Option<u32>)
    ensures
        (match r {
            Some(n) => millicores(cpu@, cores) == Some(n as int),
            None => millicores(cpu@, cores) is None,
        }),
{
    proof {
        reveal_strlit("m");
    }
    let t = trim(cpu);
    if ends_with(&t, "m") {
        let v = chars_of(&t);
        parse_u32(&text_of(&v, 0, v.len() - 1))
    } else {
        cores
    }
}

/// The worker threads of a node: one per core that it may use, from 1 to 32.
pub open spec fn worker_threads(node: StellarNode, ctx: NodeContext) -> int {
    let limit = millicores(node.spec.resources.limits.cpu@, ctx.limit_millicores);
    let request = millicores(node.spec.resources.requests.cpu@, ctx.request_millicores);
    let m = match limit {
        Some(n) => n,
        None => match request {
            Some(n) => n,
            None => 1000,
        },
    };
    let cores = (m + 999) / 1000;
    if cores < 1 {
        1
    } else if cores > 32 {
        32
    } else {
        cores
    }
}

pub fn derive_worker_threads(node: &StellarNode, ctx: &NodeContext) -> (r: u32)
    ensures
        r == worker_threads(*node, *ctx),
        1 <= r <= 32,
{
    let m: u32 = match parse_cpu_millicores(
        &node.spec.resources.limits.cpu,
        ctx.limit_millicores,
    ) {
        Some(n) => n,
        None => match parse_cpu_millicores(
            &node.spec.resources.requests.cpu,
            ctx.request_millicores,
        ) {
            Some(n) => n,
            None => 1000,
        },
    };
    let cores: u64 = (m as u64 + 999) / 1000;
    if cores < 1 {
        1
    } else if cores > 32 {
        32
    } else {
        cores as u32
    }
}

// Placement

/// The terms by which the node keeps away from its kind, where they must.
pub open spec fn required_terms(node: StellarNode, ctx: NodeContext) -> Seq<Doc> {
    match node.spec.pod_anti_affinity {
        PodAntiAffinityStrength::Hard => just(affinity_term_doc(node.spec, ctx)),
        _ => nothing(),
    }
}

/// The terms by which the node keeps away from its kind, where it can.
pub open spec fn preferred_terms(node: StellarNode, ctx: NodeContext) -> Seq<Doc> {
    match node.spec.pod_anti_affinity {
        PodAntiAffinityStrength::Soft => just(weighted_term_doc(affinity_term_doc(node.spec, ctx))),
        _ => nothing(),
    }
}

/// The terms that keep the node away from the first `n` peers.
pub open spec fn peer_terms(peers: Seq<String>, n: int) -> Seq<Doc>
    decreases n,
{
    if n <= 0 {
        nothing()
    } else {
        peer_terms(peers, n - 1).push(weighted_term_doc(peer_term_doc(peers[n - 1]@)))
    }
}

/// Whether the node keeps away from the members of its quorum set.
pub open spec fn avoids_quorum(node: StellarNode) -> bool {
    &&& node.spec.node_type == NodeType::Validator
    &&& node.spec.placement.scp_aware_anti_affinity
    &&& node.spec.validator_config is Some
    &&& node.spec.validator_config->0.quorum_set is Some
}

/// The terms that keep a validator away from the members of its quorum set.
pub open spec fn quorum_terms(node: StellarNode, ctx: NodeContext) -> Seq<Doc> {
    if avoids_quorum(node) {
        peer_terms(ctx.quorum_peers@, ctx.quorum_peers@.len() as int)
    } else {
        nothing()
    }
}

fn build_network_required_terms(node: &StellarNode, ctx: &NodeContext) -> (r: Vec<Json>)
    ensures
        docs(r@) == required_terms(*node, *ctx),
{
    match node.spec.pod_anti_affinity {
        PodAntiAffinityStrength::Hard => one(affinity_term(&node.spec, ctx)),
        _ => none(),
    }
}

fn build_network_preferred_terms(node: &StellarNode, ctx: &NodeContext) -> (r: Vec<Json>)
    ensures
        docs(r@) == preferred_terms(*node, *ctx),
{
    match node.spec.pod_anti_affinity {
        PodAntiAffinityStrength::Soft => one(weighted_term(affinity_term(&node.spec, ctx))),
        _ => none(),
    }
}

/// The pod anti-affinity of given terms.
pub open spec fn anti_affinity_doc(required: Seq<Doc>, preferred: Seq<Doc>) -> Option<Doc> {
    if required.len() == 0 && preferred.len() == 0 {
        None
    } else {
        Some(
            Doc::object()
                .with_some(
                    "requiredDuringSchedulingIgnoredDuringExecution"@,
                    unless_none(required),
                )
                .with_some(
                    "preferredDuringSchedulingIgnoredDuringExecution"@,
                    unless_none(preferred),
                ),
        )
    }
}

fn anti_affinity(required: Vec<Json>, preferred: Vec<Json>) -> (r: Option<Json>)
    ensures
        opt_doc(r) == anti_affinity_doc(docs(required@), docs(preferred@)),
{
    if required.len() == 0 && preferred.len() == 0 {
        None
    } else {
        Some(
            Json::object()
                .with_some(
                    "requiredDuringSchedulingIgnoredDuringExecution",
                    list_unless_none(required),
                )
                .with_some(
                    "preferredDuringSchedulingIgnoredDuringExecution",
                    list_unless_none(preferred),
                ),
        )
    }
}

/// Keeps the nodes of a network apart, as strictly as the node asks.
pub fn build_network_pod_anti_affinity(node: &StellarNode, ctx: &NodeContext) -> (r: Option<Json>)
    ensures
        opt_doc(r) == anti_affinity_doc(required_terms(*node, *ctx), preferred_terms(*node, *ctx)),
{
    anti_affinity(
        build_network_required_terms(node, ctx),
        build_network_preferred_terms(node, ctx),
    )
}

fn build_quorum_terms(node: &StellarNode, ctx: &NodeContext) -> (r: Vec<Json>)
    ensures
        docs(r@) == quorum_terms(*node, *ctx),
{
    let mut terms = none();
    if node.spec.node_type != NodeType::Validator || !node.spec.placement.scp_aware_anti_affinity {
        return terms;
    }
    match &node.spec.validator_config {
        Some(config) => {
            if config.quorum_set.is_none() {
                return terms;
            }
        },
        None => {
            return terms;
        },
    }
    let peers = &ctx.quorum_peers;
    let mut i: usize = 0;
    while i < peers.len()
        invariant
            i <= peers.len(),
            *peers == ctx.quorum_peers,
            docs(terms@) == peer_terms(peers@, i as int),
        decreases peers@.len() - i,
    {
        push(&mut terms, weighted_term(peer_term(&peers[i])));
        i = i + 1;
    }
    terms
}

/// Keeps a validator away from the members of its quorum set.
pub fn build_scp_aware_pod_anti_affinity(
    node: &StellarNode,
    ctx: &NodeContext,
) -> (r: Option<Json>)
    ensures
        opt_doc(r) == anti_affinity_doc(nothing(), quorum_terms(*node, *ctx)),
{
    anti_affinity(none(), build_quorum_terms(node, ctx))
}

/// The node affinity of a node: the jurisdiction's, else the node's own, else
/// that of its storage.
pub open spec fn node_affinity_of(node: StellarNode, ctx: NodeContext) -> Option<Doc> {
    if node.spec.placement.jurisdiction is Some && ctx.jurisdiction_affinity is Some {
        opt_doc(ctx.jurisdiction_affinity)
    } else if node.spec.node_affinity is Some {
        opt_doc(node.spec.node_affinity)
    } else {
        opt_doc(node.spec.storage.node_affinity)
    }
}

/// The affinity of a node's pods.
pub open spec fn workload_affinity(node: StellarNode, ctx: NodeContext) -> Option<Doc> {
    let near = node_affinity_of(node, ctx);
    let apart = anti_affinity_doc(
        required_terms(node, ctx),
        preferred_terms(node, ctx) + quorum_terms(node, ctx),
    );
    if near is None && apart is None {
        None
    } else {
        Some(Doc::object().with_some("nodeAffinity"@, near).with_some("podAntiAffinity"@, apart))
    }
}

/// Brings the node affinity and the two kinds of anti-affinity together.
pub fn merge_workload_affinity(node: &StellarNode, ctx: &NodeContext) -> (r: Option<Json>)
    ensures
        opt_doc(r) == workload_affinity(*node, *ctx),
{
    let near = if node.spec.placement.jurisdiction.is_some()
        && ctx.jurisdiction_affinity.is_some() {
        opt_copy(&ctx.jurisdiction_affinity)
    } else if node.spec.node_affinity.is_some() {
        opt_copy(&node.spec.node_affinity)
    } else {
        opt_copy(&node.spec.storage.node_affinity)
    };
    let mut preferred = build_network_preferred_terms(node, ctx);
    extend(&mut preferred, build_quorum_terms(node, ctx));
    let apart = anti_affinity(build_network_required_terms(node, ctx), preferred);
    if near.is_none() && apart.is_none() {
        None
    } else {
        Some(Json::object().with_some("nodeAffinity", near).with_some("podAntiAffinity", apart))
    }
}

/// The tolerations of a node's pods.
pub open spec fn workload_tolerations(node: StellarNode, ctx: NodeContext) -> Option<Doc> {
    if node.spec.placement.jurisdiction is Some {
        unless_none(docs(ctx.jurisdiction_tolerations@))
    } else {
        unless_none(docs(node.spec.tolerations@))
    }
}

pub fn build_workload_tolerations(node: &StellarNode, ctx: &NodeContext) -> (r: Option<Json>)
    ensures
        opt_doc(r) == workload_tolerations(*node, *ctx),
{
    if node.spec.placement.jurisdiction.is_some() {
        list_unless_none(copies(&ctx.jurisdiction_tolerations))
    } else {
        list_unless_none(copies(&node.spec.tolerations))
    }
}

/// The spread constraints of a node's pods: the configured ones, else one for
/// the hosts and one for the zones.
pub open spec fn spread_constraints(spec: StellarNodeSpec, ctx: NodeContext) -> Seq<Doc> {
    let otherwise = match spec.pod_anti_affinity {
        PodAntiAffinityStrength::Soft => "ScheduleAnyway"@,
        _ => "DoNotSchedule"@,
    };
    if spec.topology_spread_constraints is Some && spec.topology_spread_constraints->0@.len() > 0 {
        docs(spec.topology_spread_constraints->0@)
    } else {
        just(spread_constraint_doc(spec, ctx, "kubernetes.io/hostname"@, otherwise)).push(
            spread_constraint_doc(spec, ctx, "topology.kubernetes.io/zone"@, otherwise),
        )
    }
}

/// The spread constraints of a node's pods.
pub fn build_topology_spread_constraints(
    spec: &StellarNodeSpec,
    ctx: &NodeContext,
) -> (r: Vec<Json>)
    ensures
        docs(r@) == spread_constraints(*spec, *ctx),
{
    if let Some(constraints) = &spec.topology_spread_constraints {
        if constraints.len() > 0 {
            return copies(constraints);
        }
    }
    let otherwise = match spec.pod_anti_affinity {
        PodAntiAffinityStrength::Soft => "ScheduleAnyway",
        _ => "DoNotSchedule",
    };
    let mut r = one(spread_constraint(spec, ctx, "kubernetes.io/hostname", otherwise));
    push(&mut r, spread_constraint(spec, ctx, "topology.kubernetes.io/zone", otherwise));
    r
}

// The environment of the node's container

/// The variable of the network, and those that size the node.
pub open spec fn sizing_env(node: StellarNode, ctx: NodeContext) -> Seq<Doc> {
    let threads = worker_threads(node, ctx);
    let passphrase = just(env_value_doc("NETWORK_PASSPHRASE"@, ctx.network_passphrase@));
    match node.spec.node_type {
        NodeType::Validator => passphrase.push(
            env_value_doc("STELLAR_CORE_WORKER_THREADS"@, decimal(threads)),
        ).push(
            env_value_doc(
                "STELLAR_CORE_HTTP_QUERY_THREADS"@,
                decimal(if threads <= 2 { 1 } else { threads / 2 }),
            ),
        ),
        NodeType::Horizon => passphrase.push(
            env_value_doc(
                "HORIZON_INGEST_WORKERS"@,
                decimal(
                    match node.spec.horizon_config {
                        Some(c) => if c.ingest_workers == 0 {
                            1
                        } else {
                            c.ingest_workers as int
                        },
                        None => threads,
                    },
                ),
            ),
        ),
        NodeType::SorobanRpc => passphrase.push(
            env_value_doc("SOROBAN_RPC_WORKER_THREADS"@, decimal(threads)),
        ).push(
            env_value_doc(
                "CAPTIVE_CORE_WORKER_THREADS"@,
                decimal(if threads < 2 { 1 } else { threads / 2 }),
            ),
        ),
    }
}

fn build_sizing_env(node: &StellarNode, ctx: &NodeContext) -> (r: Vec<Json>)
    ensures
        docs(r@) == sizing_env(*node, *ctx),
{
    let threads = derive_worker_threads(node, ctx);
    let mut env = one(env_value("NETWORK_PASSPHRASE", &ctx.network_passphrase));
    match node.spec.node_type {
        NodeType::Validator => {
            let query: u32 = if threads <= 2 {
                1
            } else {
                threads / 2
            };
            push(
                &mut env,
                env_value("STELLAR_CORE_WORKER_THREADS", &decimal_text(threads as u64)),
            );
            push(
                &mut env,
                env_value("STELLAR_CORE_HTTP_QUERY_THREADS", &decimal_text(query as u64)),
            );
        },
        NodeType::Horizon => {
            let workers: u32 = match &node.spec.horizon_config {
                Some(c) => if c.ingest_workers == 0 {
                    1
                } else {
                    c.ingest_workers
                },
                None => threads,
            };
            push(&mut env, env_value("HORIZON_INGEST_WORKERS", &decimal_text(workers as u64)));
        },
        NodeType::SorobanRpc => {
            let captive: u32 = if threads < 2 {
                1
            } else {
                threads / 2
            };
            push(
                &mut env,
                env_value("SOROBAN_RPC_WORKER_THREADS", &decimal_text(threads as u64)),
            );
            push(
                &mut env,
                env_value("CAPTIVE_CORE_WORKER_THREADS", &decimal_text(captive as u64)),
            );
        },
    }
    env
}

/// The variable by which a validator finds its seed.
pub open spec fn seed_env(node: StellarNode) -> Seq<Doc> {
    match (node.spec.node_type, node.spec.validator_config) {
        (NodeType::Validator, Some(c)) => match c.key_source {
            KeySource::Secret => if c.seed_secret_source is None && c.seed_secret_ref@.len() > 0 {
                just(
                    env_secret_doc(
                        "STELLAR_CORE_SEED"@,
                        c.seed_secret_ref@,
                        "STELLAR_CORE_SEED"@,
                    ),
                )
            } else {
                nothing()
            },
            KeySource::KMS => just(
                env_value_doc("STELLAR_CORE_SEED_PATH"@, "/keys/validator-seed"@),
            ),
        },
        _ => nothing(),
    }
}

fn build_seed_env(node: &StellarNode) -> (r: Vec<Json>)
    ensures
        docs(r@) == seed_env(*node),
{
    if node.spec.node_type != NodeType::Validator {
        return none();
    }
    match &node.spec.validator_config {
        Some(c) => match c.key_source {
            KeySource::Secret => {
                if c.seed_secret_source.is_none() && !c.seed_secret_ref.as_str().is_empty() {
                    one(env_secret("STELLAR_CORE_SEED", &c.seed_secret_ref, "STELLAR_CORE_SEED"))
                } else {
                    none()
                }
            },
            KeySource::KMS => one(env_value("STELLAR_CORE_SEED_PATH", "/keys/validator-seed")),
        },
        None => none(),
    }
}

/// The name of the variable that holds the database's URL.
pub open spec fn database_variable(t: NodeType) -> Seq<char> {
    match t {
        NodeType::Validator => "DATABASE"@,
        _ => "DATABASE_URL"@,
    }
}

/// The variable of an external database.
pub open spec fn external_database_env_doc(
    name: Seq<char>,
    c: ExternalDatabaseConfig,
) -> Doc {
    Doc::object().with("name"@, Doc::text(name)).with(
        "valueFrom"@,
        match c.secret_key_ref {
            Some(r) => Doc::object().with("secretKeyRef"@, secret_key_doc(r.name@, r.key@)),
            None => Doc::object(),
        },
    )
}

fn external_database_env(name: &str, c: &ExternalDatabaseConfig) -> (r: Json)
    ensures
        r@ == external_database_env_doc(name@, *c),
{
    Json::object().with("name", Json::text(name)).with(
        "valueFrom",
        match &c.secret_key_ref {
            Some(r) => Json::object().with("secretKeyRef", secret_key(&r.name, &r.key)),
            None => Json::object(),
        },
    )
}

/// The variables of the node's databases.
pub open spec fn database_env(node: StellarNode) -> Seq<Doc> {
    let name = database_variable(node.spec.node_type);
    let external = match node.spec.database {
        Some(c) => just(external_database_env_doc(name, c)),
        None => nothing(),
    };
    match node.spec.managed_database {
        Some(_) => external.push(env_secret_doc(name, node.name@ + "-app"@, "uri"@)),
        None => external,
    }
}

fn build_database_env(node: &StellarNode) -> (r: Vec<Json>)
    ensures
        docs(r@) == database_env(*node),
{
    let name = match node.spec.node_type {
        NodeType::Validator => "DATABASE",
        _ => "DATABASE_URL",
    };
    let mut env = match &node.spec.database {
        Some(c) => one(external_database_env(name, c)),
        None => none(),
    };
    if node.spec.managed_database.is_some() {
        push(&mut env, env_secret(name, &cat2(&node.name, "-app"), "uri"));
    }
    env
}

/// The variables of an API node's certificates, where it uses mutual TLS.
pub open spec fn tls_env(node: StellarNode, enable_mtls: bool) -> Seq<Doc> {
    if enable_mtls && node.spec.node_type != NodeType::Validator {
        just(env_value_doc("TLS_CERT_FILE"@, "/etc/stellar/tls/tls.crt"@)).push(
            env_value_doc("TLS_KEY_FILE"@, "/etc/stellar/tls/tls.key"@),
        ).push(env_value_doc("CA_CERT_FILE"@, "/etc/stellar/tls/ca.crt"@))
    } else {
        nothing()
    }
}

fn build_tls_env(node: &StellarNode, enable_mtls: bool) -> (r: Vec<Json>)
    ensures
        docs(r@) == tls_env(*node, enable_mtls),
{
    if enable_mtls && node.spec.node_type != NodeType::Validator {
        let mut env = one(env_value("TLS_CERT_FILE", "/etc/stellar/tls/tls.crt"));
        push(&mut env, env_value("TLS_KEY_FILE", "/etc/stellar/tls/tls.key"));
        push(&mut env, env_value("CA_CERT_FILE", "/etc/stellar/tls/ca.crt"));
        env
    } else {
        none()
    }
}

/// The hardware security module of a validator.
pub open spec fn hsm_of(node: StellarNode) -> Option<HsmConfig> {
    match (node.spec.node_type, node.spec.validator_config) {
        (NodeType::Validator, Some(c)) => c.hsm_config,
        _ => None,
    }
}

fn hsm(node: &StellarNode) -> (r: Option<&HsmConfig>)
    ensures
        (match r {
            Some(c) => hsm_of(*node) == Some(*c),
            None => hsm_of(*node) is None,
        }),
{
    if node.spec.node_type != NodeType::Validator {
        return None;
    }
    match &node.spec.validator_config {
        Some(c) => c.hsm_config.as_ref(),
        None => None,
    }
}

/// The variables of a hardware security module.
pub open spec fn hsm_env(node: StellarNode) -> Seq<Doc> {
    match hsm_of(node) {
        Some(c) => {
            let env = just(env_value_doc("PKCS11_MODULE_PATH"@, c.pkcs11_lib_path@));
            let env = match c.hsm_ip {
                Some(ip) => env.push(env_value_doc("HSM_IP_ADDRESS"@, ip@)),
                None => env,
            };
            match c.hsm_credentials_secret_ref {
                Some(s) => env.push(
                    env_secret_optional_doc("HSM_PIN"@, s@, "HSM_PIN"@, true),
                ).push(env_secret_optional_doc("HSM_USER"@, s@, "HSM_USER"@, true)),
                None => env,
            }
        },
        None => nothing(),
    }
}

fn build_hsm_env(node: &StellarNode) -> (r: Vec<Json>)
    ensures
        docs(r@) == hsm_env(*node),
{
    match hsm(node) {
        Some(c) => {
            let mut env = one(env_value("PKCS11_MODULE_PATH", &c.pkcs11_lib_path));
            if let Some(ip) = &c.hsm_ip {
                push(&mut env, env_value("HSM_IP_ADDRESS", ip));
            }
            if let Some(s) = &c.hsm_credentials_secret_ref {
                push(&mut env, env_secret_optional("HSM_PIN", s, "HSM_PIN", true));
                push(&mut env, env_secret_optional("HSM_USER", s, "HSM_USER", true));
            }
            env
        },
        None => none(),
    }
}

/// The place of the first value with a given name, from `i` on.
pub open spec fn named_from(s: Seq<Doc>, name: Seq<char>, i: int) -> int
    decreases s.len() - i,
{
    if i < 0 || i >= s.len() || name_of(s[i]) == name {
        i
    } else {
        named_from(s, name, i + 1)
    }
}

/// The variables with `o` in place of the first of its name, or behind them.
pub open spec fn with_variable(env: Seq<Doc>, o: Doc) -> Seq<Doc> {
    let i = named_from(env, name_of(o), 0);
    if i < env.len() {
        env.update(i, o)
    } else {
        env.push(o)
    }
}

/// The variables with the first `n` overrides applied one after the other.
pub open spec fn with_overrides(env: Seq<Doc>, overrides: Seq<Doc>, n: int) -> Seq<Doc>
    decreases n,
{
    if n <= 0 {
        env
    } else {
        with_variable(with_overrides(env, overrides, n - 1), overrides[n - 1])
    }
}

/// Applies overrides to variables: each replaces the first of its name, or is
/// added.
pub fn merge_env_overrides(base: &mut Vec<Json>, overrides: &Vec<Json>)
    ensures
        docs(final(base)@) == with_overrides(
            docs(old(base)@),
            docs(overrides@),
            overrides@.len() as int,
        ),
{
    let mut k: usize = 0;
    while k < overrides.len()
        invariant
            k <= overrides.len(),
            docs(base@) == with_overrides(docs(old(base)@), docs(overrides@), k as int),
        decreases overrides@.len() - k,
    {
        let o = &overrides[k];
        let wanted = name(o);
        let ghost before = docs(base@);
        let mut i: usize = 0;
        while i < base.len() && !same(&name(&base[i]), &wanted)
            invariant
                i <= base.len(),
                docs(base@) == before,
                wanted@ == name_of(o@),
                named_from(before, name_of(o@), 0) == named_from(before, name_of(o@), i as int),
            decreases base@.len() - i,
        {
            assert(before[i as int] == base@[i as int]@);
            i = i + 1;
        }
        if i < base.len() {
            assert(before[i as int] == base@[i as int]@);
            base.set(i, o.clone());
            assert(docs(base@) =~= before.update(i as int, o@));
        } else {
            push(base, o.clone());
        }
        assert(docs(overrides@)[k as int] == o@);
        k = k + 1;
    }
}

proof fn lemma_named(s: Seq<Doc>, name: Seq<char>, i: int)
    requires
        0 <= i <= s.len(),
    ensures
        i <= named_from(s, name, i) <= s.len(),
        named_from(s, name, i) < s.len() ==> name_of(s[named_from(s, name, i)]) == name,
        forall|j: int| i <= j < named_from(s, name, i) ==> name_of(#[trigger] s[j]) != name,
    decreases s.len() - i,
{
    if i < s.len() && name_of(s[i]) != name {
        lemma_named(s, name, i + 1);
    }
}

/// An override holds: the first variable of its name is the override itself. Of
/// the other variables none changes.
pub proof fn law_override_holds(env: Seq<Doc>, o: Doc)
    ensures
        ({
            let after = with_variable(env, o);
            let i = named_from(after, name_of(o), 0);
            &&& i < after.len() && after[i] == o
            &&& env.len() <= after.len() <= env.len() + 1
            &&& forall|j: int|
                0 <= j < env.len() && name_of(#[trigger] env[j]) != name_of(o) ==> after[j] == env[j]
        }),
{
    let after = with_variable(env, o);
    let was = named_from(env, name_of(o), 0);
    let i = named_from(after, name_of(o), 0);
    lemma_named(env, name_of(o), 0);
    lemma_named(after, name_of(o), 0);
    assert(after[was] == o);
    if i < was {
        assert(after[i] == env[i]);
    }
    if was < i {
        assert(name_of(after[was]) != name_of(o));
    }
}

/// The overrides of the node's variables.
pub open spec fn env_overrides(node: StellarNode) -> Seq<Doc> {
    match node.spec.node_type {
        NodeType::Validator => docs(node.spec.stellar_core_env@),
        NodeType::Horizon => docs(node.spec.horizon_env@),
        NodeType::SorobanRpc => nothing(),
    }
}

/// The variables of the node's container.
pub open spec fn container_env(node: StellarNode, enable_mtls: bool, ctx: NodeContext) -> Seq<Doc> {
    let base = sizing_env(node, ctx) + seed_env(node) + database_env(node) + tls_env(
        node,
        enable_mtls,
    ) + hsm_env(node);
    let overrides = env_overrides(node);
    with_overrides(base, overrides, overrides.len() as int)
}

fn build_container_env(node: &StellarNode, enable_mtls: bool, ctx: &NodeContext) -> (r: Vec<Json>)
    ensures
        docs(r@) == container_env(*node, enable_mtls, *ctx),
{
    let mut env = build_sizing_env(node, ctx);
    extend(&mut env, build_seed_env(node));
    extend(&mut env, build_database_env(node));
    extend(&mut env, build_tls_env(node, enable_mtls));
    extend(&mut env, build_hsm_env(node));
    match node.spec.node_type {
        NodeType::Validator => merge_env_overrides(&mut env, &node.spec.stellar_core_env),
        NodeType::Horizon => merge_env_overrides(&mut env, &node.spec.horizon_env),
        NodeType::SorobanRpc => {},
    }
    env
}

// The mounts of the node's container

/// Whether the node's seed comes from a key manager.
pub open spec fn uses_kms(node: StellarNode) -> bool {
    &&& node.spec.node_type == NodeType::Validator
    &&& node.spec.validator_config is Some
    &&& node.spec.validator_config->0.key_source == KeySource::KMS
}

fn has_kms(node: &StellarNode) -> (r: bool)
    ensures
        r == uses_kms(*node),
{
    if node.spec.node_type != NodeType::Validator {
        return false;
    }
    match &node.spec.validator_config {
        Some(c) => c.key_source == KeySource::KMS,
        None => false,
    }
}

/// The mount of a hardware security module's socket.
pub open spec fn hsm_mounts(node: StellarNode) -> Seq<Doc> {
    match hsm_of(node) {
        Some(c) => match c.provider {
            HsmProvider::AWS => just(mount_doc("cloudhsm-socket"@, "/var/run/cloudhsm"@)),
            HsmProvider::Azure => just(
                mount_doc("dedicatedhsm-socket"@, "/var/run/dedicatedhsm"@),
            ),
        },
        None => nothing(),
    }
}

fn build_hsm_mounts(node: &StellarNode) -> (r: Vec<Json>)
    ensures
        docs(r@) == hsm_mounts(*node),
{
    match hsm(node) {
        Some(c) => match c.provider {
            HsmProvider::AWS => one(mount("cloudhsm-socket", "/var/run/cloudhsm")),
            HsmProvider::Azure => one(mount("dedicatedhsm-socket", "/var/run/dedicatedhsm")),
        },
        None => none(),
    }
}

/// The mounts that the operator makes.
pub open spec fn operator_mounts(node: StellarNode) -> Seq<Doc> {
    let data = match node.spec.node_type {
        NodeType::Validator => "/opt/stellar/data"@,
        _ => "/data"@,
    };
    let base = just(mount_doc("data"@, data)).push(mount_mode_doc("config"@, "/config"@, true));
    let base = if uses_kms(node) {
        base.push(mount_mode_doc("keys"@, "/keys"@, true))
    } else {
        base
    };
    base.push(mount_mode_doc("tls"@, "/etc/stellar/tls"@, true)) + hsm_mounts(node)
}

fn build_operator_mounts(node: &StellarNode) -> (r: Vec<Json>)
    ensures
        docs(r@) == operator_mounts(*node),
{
    let data = match node.spec.node_type {
        NodeType::Validator => "/opt/stellar/data",
        _ => "/data",
    };
    let mut mounts = one(mount("data", data));
    push(&mut mounts, mount_mode("config", "/config", true));
    if has_kms(node) {
        push(&mut mounts, mount_mode("keys", "/keys", true));
    }
    push(&mut mounts, mount_mode("tls", "/etc/stellar/tls", true));
    extend(&mut mounts, build_hsm_mounts(node));
    mounts
}

/// A value of the given name is among the values.
pub open spec fn has_named(s: Seq<Doc>, name: Seq<char>) -> bool {
    exists|i: int| 0 <= i < s.len() && name_of(#[trigger] s[i]) == name
}

fn is_named(v: &Vec<Json>, n: usize, wanted: &str) -> (r: bool)
    requires
        n <= v@.len(),
    ensures
        r == has_named(docs(v@).subrange(0, n as int), wanted@),
{
    let ghost s = docs(v@).subrange(0, n as int);
    let mut i: usize = 0;
    while i < n
        invariant
            i <= n <= v@.len(),
            s == docs(v@).subrange(0, n as int),
            forall|j: int| 0 <= j < i ==> name_of(#[trigger] s[j]) != wanted@,
        decreases n - i,
    {
        assert(s[i as int] == v@[i as int]@);
        if same(&name(&v[i]), wanted) {
            return true;
        }
        i = i + 1;
    }
    false
}

/// Those of the first `n` custom mounts whose name the operator does not use.
pub open spec fn custom_mounts(base: Seq<Doc>, custom: Seq<Doc>, n: int) -> Seq<Doc>
    decreases n,
{
    if n <= 0 {
        nothing()
    } else if has_named(base, name_of(custom[n - 1])) {
        custom_mounts(base, custom, n - 1)
    } else {
        custom_mounts(base, custom, n - 1).push(custom[n - 1])
    }
}

/// The mounts of the node's container: the operator's, then the custom ones.
pub open spec fn container_mounts(node: StellarNode) -> Seq<Doc> {
    let base = operator_mounts(node);
    let custom = given(node.spec.volume_mounts);
    base + custom_mounts(base, custom, custom.len() as int)
}

fn build_container_mounts(node: &StellarNode) -> (r: Vec<Json>)
    ensures
        docs(r@) == container_mounts(*node),
{
    let mut mounts = build_operator_mounts(node);
    let ghost base = docs(mounts@);
    let n = mounts.len();
    match &node.spec.volume_mounts {
        Some(custom) => {
            let mut k: usize = 0;
            assert(base + nothing() =~= base);
            assert(docs(mounts@).len() == n);
            while k < custom.len()
                invariant
                    k <= custom.len(),
                    n == base.len(),
                    base == operator_mounts(*node),
                    docs(mounts@) == base + custom_mounts(base, docs(custom@), k as int),
                decreases custom@.len() - k,
            {
                let wanted = name(&custom[k]);
                assert(docs(custom@)[k as int] == custom@[k as int]@);
                assert(docs(mounts@).subrange(0, n as int) =~= base);
                assert(docs(mounts@).len() == mounts@.len());
                if !is_named(&mounts, n, &wanted) {
                    push(&mut mounts, custom[k].clone());
                    assert(docs(mounts@) =~= base + custom_mounts(
                        base,
                        docs(custom@),
                        k as int + 1,
                    ));
                }
                k = k + 1;
            }
        },
        None => {
            assert(base + nothing() =~= base);
        },
    }
    mounts
}

// The node's container

/// The override of a probe, where the node has one.
pub open spec fn probe_override(node: StellarNode, which: int) -> Option<ProbeOverride> {
    match node.spec.probes {
        Some(p) => if which == 0 {
            p.liveness
        } else if which == 1 {
            p.readiness
        } else {
            p.startup
        },
        None => None,
    }
}

/// The node's container with given variables and mounts.
pub open spec fn container_with(
    node: StellarNode,
    version: Seq<char>,
    env: Seq<Doc>,
    mounts: Seq<Doc>,
) -> Doc {
    let port = match node.spec.node_type {
        NodeType::Validator => 11625int,
        _ => 8000,
    };
    let r = node.spec.resources;
    Doc::object()
        .with("name"@, Doc::text("stellar-node"@))
        .with("image"@, Doc::text(image_of(node.spec.node_type, version)))
        .with("ports"@, Doc::list().and(Doc::object().with("containerPort"@, Doc::number(port))))
        .with("env"@, Doc::List(env))
        .with(
            "resources"@,
            Doc::object()
                .with("requests"@, amounts_doc(r.requests.cpu@, r.requests.memory@))
                .with("limits"@, amounts_doc(r.limits.cpu@, r.limits.memory@)),
        )
        .with("securityContext"@, confined_read_only_doc())
        .with("volumeMounts"@, Doc::List(mounts))
        .with_some(
            "livenessProbe"@,
            overridden_probe(Some(main_liveness_doc()), probe_override(node, 0)),
        )
        .with_some(
            "readinessProbe"@,
            overridden_probe(Some(main_readiness_doc()), probe_override(node, 1)),
        )
        .with_some(
            "startupProbe"@,
            overridden_probe(Some(main_startup_doc()), probe_override(node, 2)),
        )
}

fn build_container_with(
    node: &StellarNode,
    version: &str,
    env: Vec<Json>,
    mounts: Vec<Json>,
) -> (r: Json)
    ensures
        r@ == container_with(*node, version@, docs(env@), docs(mounts@)),
{
    let port: i64 = match node.spec.node_type {
        NodeType::Validator => 11625,
        _ => 8000,
    };
    let r = &node.spec.resources;
    let (liveness, readiness, startup) = match &node.spec.probes {
        Some(p) => (p.liveness, p.readiness, p.startup),
        None => (None, None, None),
    };
    Json::object()
        .with("name", Json::text("stellar-node"))
        .with("image", Json::text(&image_for(node.spec.node_type, version)))
        .with("ports", Json::list().and(Json::object().with("containerPort", Json::number(port))))
        .with("env", Json::List(env))
        .with(
            "resources",
            Json::object()
                .with("requests", amounts(&r.requests.cpu, &r.requests.memory))
                .with("limits", amounts(&r.limits.cpu, &r.limits.memory)),
        )
        .with("securityContext", confined_read_only())
        .with("volumeMounts", Json::List(mounts))
        .with_some("livenessProbe", apply_probe_override(Some(main_liveness()), liveness))
        .with_some("readinessProbe", apply_probe_override(Some(main_readiness()), readiness))
        .with_some("startupProbe", apply_probe_override(Some(main_startup()), startup))
}

/// The node's container.
pub open spec fn container_doc(
    node: StellarNode,
    version: Seq<char>,
    enable_mtls: bool,
    ctx: NodeContext,
) -> Doc {
    container_with(node, version, container_env(node, enable_mtls, ctx), container_mounts(node))
}

/// Builds the node's container for a version of its image.
pub fn build_container(
    node: &StellarNode,
    version: &str,
    enable_mtls: bool,
    ctx: &NodeContext,
) -> (r: Json)
    ensures
        r@ == container_doc(*node, version@, enable_mtls, *ctx),
{
    build_container_with(
        node,
        version,
        build_container_env(node, enable_mtls, ctx),
        build_container_mounts(node),
    )
}

/// The text, or the default where there is none or it is blank.
pub open spec fn amount_or(r: Option<ResourceRequirements>, which: int) -> Seq<char> {
    let given = match r {
        Some(x) => if which == 0 {
            x.requests.cpu@
        } else if which == 1 {
            x.requests.memory@
        } else if which == 2 {
            x.limits.cpu@
        } else {
            x.limits.memory@
        },
        None => ""@,
    };
    if r is Some && !blank(given) {
        given
    } else if which == 0 || which == 2 {
        DIAGNOSTIC_SIDECAR_DEFAULT_CPU@
    } else {
        DIAGNOSTIC_SIDECAR_DEFAULT_MEMORY@
    }
}

/// The resources of the diagnostic sidecar.
pub open spec fn diagnostic_resources(r: Option<ResourceRequirements>) -> Doc {
    Doc::object()
        .with("requests"@, amounts_doc(amount_or(r, 0), amount_or(r, 1)))
        .with("limits"@, amounts_doc(amount_or(r, 2), amount_or(r, 3)))
}

fn nonblank_or<'a>(s: &'a str, d: &'a str) -> (r: &'a str)
    ensures
        r@ == if blank(s@) {
            d@
        } else {
            s@
        },
{
    if is_blank(s) {
        d
    } else {
        s
    }
}

/// Builds the resources of the diagnostic sidecar: each amount that is set,
/// and the default in place of any that is not.
pub fn build_diagnostic_sidecar_resources(
    override_resources: &Option<ResourceRequirements>,
) -> (r: Json)
    ensures
        r@ == diagnostic_resources(*override_resources),
{
    let cpu = DIAGNOSTIC_SIDECAR_DEFAULT_CPU;
    let memory = DIAGNOSTIC_SIDECAR_DEFAULT_MEMORY;
    match override_resources {
        Some(x) => Json::object()
            .with(
                "requests",
                amounts(
                    nonblank_or(&x.requests.cpu, cpu),
                    nonblank_or(&x.requests.memory, memory),
                ),
            )
            .with(
                "limits",
                amounts(
                    nonblank_or(&x.limits.cpu, cpu),
                    nonblank_or(&x.limits.memory, memory),
                ),
            ),
        None => Json::object()
            .with("requests", amounts(cpu, memory))
            .with("limits", amounts(cpu, memory)),
    }
}

// Init containers

/// The init container that migrates Horizon's database.
pub open spec fn migration_container(
    node: StellarNode,
    version: Seq<char>,
    ctx: NodeContext,
) -> Doc {
    container_doc(node, version, false, ctx)
        .with("name"@, Doc::text("horizon-db-migration"@))
        .with("command"@, Doc::list().and(Doc::text("/bin/sh"@)))
        .with(
            "args"@,
            Doc::list().and(Doc::text("-c"@)).and(
                Doc::text("horizon db upgrade || horizon db init"@),
            ),
        )
        .without("ports"@)
        .without("livenessProbe"@)
        .without("readinessProbe"@)
        .without("startupProbe"@)
        .without("lifecycle"@)
}

/// Builds the init container that migrates Horizon's database.
pub fn build_horizon_migration_container(
    node: &StellarNode,
    version: &str,
    ctx: &NodeContext,
) -> (r: Json)
    ensures
        r@ == migration_container(*node, version@, *ctx),
{
    build_container(node, version, false, ctx)
        .with("name", Json::text("horizon-db-migration"))
        .with("command", Json::list().and(Json::text("/bin/sh")))
        .with(
            "args",
            Json::list().and(Json::text("-c")).and(
                Json::text("horizon db upgrade || horizon db init"),
            ),
        )
        .without("ports")
        .without("livenessProbe")
        .without("readinessProbe")
        .without("startupProbe")
        .without("lifecycle")
}

/// The script that restores the data volume, once, from an archive.
pub open spec fn restore_script(url: Seq<char>) -> Seq<char> {
    let flag = if ends_in(url, ".tar.zst"@) {
        "--use-compress-program=zstd"@
    } else {
        "-z"@
    };
    let fetch = if begins_with(url, "s3://"@) {
        "echo \"Restoring from S3 snapshot: "@ + url + "\"\naws s3 cp \""@ + url
            + "\" /tmp/snapshot.archive\n"@
    } else {
        "echo \"Restoring from backup: "@ + url + "\"\nwget -q -O /tmp/snapshot.archive \""@ + url
            + "\" || curl -fsSL -o /tmp/snapshot.archive \""@ + url + "\"\n"@
    };
    "set -e\n# Skip restore if data volume already has content (idempotent)\nif [ \"$(ls -A /data 2>/dev/null)\" ]; then\n  echo \"Data volume already populated, skipping snapshot restore.\"\n  exit 0\nfi\n"@
        + fetch + "echo \"Extracting archive...\"\ntar "@ + flag
        + " -xf /tmp/snapshot.archive -C /data\nrm -f /tmp/snapshot.archive\necho \"Snapshot restore complete.\"\n"@
}

fn build_restore_script(url: &str) -> (r: String)
    ensures
        r@ == restore_script(url@),
{
    let flag = if ends_with(url, ".tar.zst") {
        "--use-compress-program=zstd"
    } else {
        "-z"
    };
    let fetch = if starts_with(url, "s3://") {
        cat5(
            "echo \"Restoring from S3 snapshot: ",
            url,
            "\"\naws s3 cp \"",
            url,
            "\" /tmp/snapshot.archive\n",
        )
    } else {
        cat7(
            "echo \"Restoring from backup: ",
            url,
            "\"\nwget -q -O /tmp/snapshot.archive \"",
            url,
            "\" || curl -fsSL -o /tmp/snapshot.archive \"",
            url,
            "\"\n",
        )
    };
    cat5(
        "set -e\n# Skip restore if data volume already has content (idempotent)\nif [ \"$(ls -A /data 2>/dev/null)\" ]; then\n  echo \"Data volume already populated, skipping snapshot restore.\"\n  exit 0\nfi\n",
        &fetch,
        "echo \"Extracting archive...\"\ntar ",
        flag,
        " -xf /tmp/snapshot.archive -C /data\nrm -f /tmp/snapshot.archive\necho \"Snapshot restore complete.\"\n",
    )
}

/// The variables of the restore container.
pub open spec fn restore_env(url: Seq<char>, secret: Option<String>) -> Seq<Doc> {
    let base = just(env_value_doc("BACKUP_URL"@, url));
    match secret {
        Some(s) => base.push(
            env_secret_optional_doc("AWS_ACCESS_KEY_ID"@, s@, "AWS_ACCESS_KEY_ID"@, true),
        ).push(
            env_secret_optional_doc("AWS_SECRET_ACCESS_KEY"@, s@, "AWS_SECRET_ACCESS_KEY"@, true),
        ).push(
            env_secret_optional_doc("AWS_DEFAULT_REGION"@, s@, "AWS_DEFAULT_REGION"@, true),
        ).push(env_secret_optional_doc("BEARER_TOKEN"@, s@, "BEARER_TOKEN"@, true)),
        None => base,
    }
}

/// The init container that restores a backup.
pub open spec fn restore_doc(
    url: Seq<char>,
    secret: Option<String>,
    image: Option<String>,
) -> Doc {
    let default_image = if begins_with(url, "s3://"@) {
        "amazon/aws-cli:latest"@
    } else {
        "alpine:3"@
    };
    restore_container_doc(
        opt_text_or(image, default_image),
        restore_script(url),
        Doc::List(restore_env(url, secret)),
    )
}

/// Builds the init container that downloads a backup from `backup_url` and
/// extracts it into an empty data volume.
pub fn build_snapshot_restore_container(
    backup_url: &str,
    credentials_secret_ref: &Option<String>,
    restore_image: &Option<String>,
) -> (r: Json)
    ensures
        r@ == restore_doc(backup_url@, *credentials_secret_ref, *restore_image),
{
    let default_image = if starts_with(backup_url, "s3://") {
        "amazon/aws-cli:latest"
    } else {
        "alpine:3"
    };
    let mut env = one(env_value("BACKUP_URL", backup_url));
    if let Some(s) = credentials_secret_ref {
        push(
            &mut env,
            env_secret_optional("AWS_ACCESS_KEY_ID", s, "AWS_ACCESS_KEY_ID", true),
        );
        push(
            &mut env,
            env_secret_optional("AWS_SECRET_ACCESS_KEY", s, "AWS_SECRET_ACCESS_KEY", true),
        );
        push(
            &mut env,
            env_secret_optional("AWS_DEFAULT_REGION", s, "AWS_DEFAULT_REGION", true),
        );
        push(&mut env, env_secret_optional("BEARER_TOKEN", s, "BEARER_TOKEN", true));
    }
    restore_container(
        text_or(restore_image, default_image),
        &build_restore_script(backup_url),
        Json::List(env),
    )
}

/// The key manager of a validator whose seed comes from one.
pub open spec fn kms_of(node: StellarNode) -> Option<KmsConfig> {
    if uses_kms(node) {
        node.spec.validator_config->0.kms_config
    } else {
        None
    }
}

fn kms(node: &StellarNode) -> (r: Option<&KmsConfig>)
    ensures
        (match r {
            Some(c) => kms_of(*node) == Some(*c),
            None => kms_of(*node) is None,
        }),
{
    if node.spec.node_type != NodeType::Validator {
        return None;
    }
    match &node.spec.validator_config {
        Some(c) => if c.key_source == KeySource::KMS {
            c.kms_config.as_ref()
        } else {
            None
        },
        None => None,
    }
}

/// The variables of the key fetcher.
pub open spec fn kms_env(c: KmsConfig) -> Doc {
    Doc::list()
        .and(env_value_doc("KMS_KEY_ID"@, c.key_id@))
        .and(env_value_doc("KMS_PROVIDER"@, c.provider@))
        .and(
            Doc::object().with("name"@, Doc::text("KMS_REGION"@)).with_some(
                "value"@,
                opt_text_doc(c.region),
            ),
        )
        .and(env_value_doc("KEY_OUTPUT_PATH"@, "/keys/validator-seed"@))
}

/// The init containers of the operator, in their order.
pub open spec fn operator_init(node: StellarNode, version: Seq<char>, ctx: NodeContext) -> Seq<
    Doc,
> {
    let migrates = node.spec.node_type == NodeType::Horizon && node.spec.horizon_config is Some
        && node.spec.horizon_config->0.auto_migration && node.spec.strategy.strategy_type
        != RolloutStrategyType::BlueGreen;
    let migration = if migrates {
        just(migration_container(node, version, ctx))
    } else {
        nothing()
    };
    let restore = match node.spec.storage.snapshot_ref {
        Some(s) => match s.backup_url {
            Some(url) => just(restore_doc(url@, s.credentials_secret_ref, s.restore_image)),
            None => nothing(),
        },
        None => nothing(),
    };
    let fetcher = match kms_of(node) {
        Some(c) => just(
            kms_fetcher_doc(
                opt_text_or(c.fetcher_image, "stellar/kms-fetcher:latest"@),
                kms_env(c),
            ),
        ),
        None => nothing(),
    };
    migration + restore + fetcher
}

fn build_operator_init(node: &StellarNode, version: &str, ctx: &NodeContext) -> (r: Vec<Json>)
    ensures
        docs(r@) == operator_init(*node, version@, *ctx),
{
    let migrates = node.spec.node_type == NodeType::Horizon && match &node.spec.horizon_config {
        Some(c) => c.auto_migration,
        None => false,
    } && node.spec.strategy.strategy_type != RolloutStrategyType::BlueGreen;
    let mut init = if migrates {
        one(build_horizon_migration_container(node, version, ctx))
    } else {
        none()
    };
    let restore = match &node.spec.storage.snapshot_ref {
        Some(s) => match &s.backup_url {
            Some(url) => one(
                build_snapshot_restore_container(url, &s.credentials_secret_ref, &s.restore_image),
            ),
            None => none(),
        },
        None => none(),
    };
    let fetcher = match kms(node) {
        Some(c) => {
            let env = Json::list()
                .and(env_value("KMS_KEY_ID", &c.key_id))
                .and(env_value("KMS_PROVIDER", &c.provider))
                .and(
                    Json::object().with("name", Json::text("KMS_REGION")).with_some(
                        "value",
                        opt_text(&c.region),
                    ),
                )
                .and(env_value("KEY_OUTPUT_PATH", "/keys/validator-seed"));
            one(kms_fetcher(text_or(&c.fetcher_image, "stellar/kms-fetcher:latest"), env))
        },
        None => none(),
    };
    extend(&mut init, restore);
    extend(&mut init, fetcher);
    init
}

/// The init containers of a pod, where it has a list of them: the operator's,
/// then the user's.
pub open spec fn init_containers_of(
    node: StellarNode,
    version: Seq<char>,
    ctx: NodeContext,
) -> Option<Seq<Doc>> {
    let own = operator_init(node, version, ctx);
    if own.len() == 0 && node.spec.init_containers is None {
        None
    } else {
        Some(own + given(node.spec.init_containers))
    }
}

fn build_init_containers(
    node: &StellarNode,
    version: &str,
    ctx: &NodeContext,
) -> (r: Option<Vec<Json>>)
    ensures
        (match r {
            Some(v) => init_containers_of(*node, version@, *ctx) == Some(docs(v@)),
            None => init_containers_of(*node, version@, *ctx) is None,
        }),
{
    let mut init = build_operator_init(node, version, ctx);
    assert(docs(init@).len() == init@.len());
    if init.len() == 0 && node.spec.init_containers.is_none() {
        None
    } else {
        extend(&mut init, given_copies(&node.spec.init_containers));
        Some(init)
    }
}

// Sidecars

/// The variables of the NAT traversal sidecar.
pub open spec fn nat_env(c: NatTraversalConfig) -> Seq<Doc> {
    let env = just(env_value_doc("ENABLE_ICE"@, flag_text(c.enable_ice)));
    let env = match c.stun_server {
        Some(s) => env.push(env_value_doc("STUN_SERVER"@, s@)),
        None => env,
    };
    let env = match c.turn_server {
        Some(s) => env.push(env_value_doc("TURN_SERVER"@, s@)),
        None => env,
    };
    match c.turn_credentials_secret_ref {
        Some(s) => env.push(
            env_secret_optional_doc("TURN_USERNAME"@, s@, "username"@, false),
        ).push(env_secret_optional_doc("TURN_PASSWORD"@, s@, "password"@, false)),
        None => env,
    }
}

fn build_nat_env(c: &NatTraversalConfig) -> (r: Vec<Json>)
    ensures
        docs(r@) == nat_env(*c),
{
    let mut env = one(env_value("ENABLE_ICE", flag_str(c.enable_ice)));
    if let Some(s) = &c.stun_server {
        push(&mut env, env_value("STUN_SERVER", s));
    }
    if let Some(s) = &c.turn_server {
        push(&mut env, env_value("TURN_SERVER", s));
    }
    if let Some(s) = &c.turn_credentials_secret_ref {
        push(&mut env, env_secret_optional("TURN_USERNAME", s, "username", false));
        push(&mut env, env_secret_optional("TURN_PASSWORD", s, "password", false));
    }
    env
}

/// Whether the node streams its ledgers to a standby.
pub open spec fn streams(node: StellarNode) -> bool {
    node.spec.dr_config is Some && node.spec.dr_config->0.enabled
        && node.spec.dr_config->0.sync_strategy == DRSyncStrategy::StreamingLedger
}

/// Whether the node is a validator that is upgraded without a gap.
pub open spec fn hands_off(node: StellarNode) -> bool {
    node.spec.hitless_upgrade is Some && node.spec.hitless_upgrade->0.enabled
        && node.spec.node_type == NodeType::Validator
}

fn has_handoff(node: &StellarNode) -> (r: Option<&HitlessUpgradeConfig>)
    ensures
        (match r {
            Some(c) => hands_off(*node) && node.spec.hitless_upgrade == Some(*c),
            None => !hands_off(*node),
        }),
{
    match &node.spec.hitless_upgrade {
        Some(c) => if c.enabled && node.spec.node_type == NodeType::Validator {
            Some(c)
        } else {
            None
        },
        None => None,
    }
}

/// Whether the node's logs are shipped.
pub open spec fn ships_logs(node: StellarNode) -> bool {
    node.spec.log_shipper is Some && node.spec.log_shipper->0.enabled
}

fn has_log_shipper(node: &StellarNode) -> (r: Option<&LogShipperConfig>)
    ensures
        (match r {
            Some(c) => ships_logs(*node) && node.spec.log_shipper == Some(*c),
            None => !ships_logs(*node),
        }),
{
    match &node.spec.log_shipper {
        Some(c) => if c.enabled {
            Some(c)
        } else {
            None
        },
        None => None,
    }
}

/// Whether the node is a validator that exports kernel metrics.
pub open spec fn exports_kernel(node: StellarNode) -> bool {
    node.spec.ebpf_config is Some && node.spec.ebpf_config->0.enabled && node.spec.node_type
        == NodeType::Validator
}

fn has_ebpf(node: &StellarNode) -> (r: bool)
    ensures
        r == exports_kernel(*node),
{
    match &node.spec.ebpf_config {
        Some(c) => c.enabled && node.spec.node_type == NodeType::Validator,
        None => false,
    }
}

/// The cache of a Soroban node.
pub open spec fn cache_of(node: StellarNode) -> Option<SorobanCacheConfig> {
    match (node.spec.node_type, node.spec.soroban_config) {
        (NodeType::SorobanRpc, Some(c)) => c.cache_config,
        _ => None,
    }
}

fn cache(node: &StellarNode) -> (r: Option<&SorobanCacheConfig>)
    ensures
        (match r {
            Some(c) => cache_of(*node) == Some(*c),
            None => cache_of(*node) is None,
        }),
{
    if node.spec.node_type != NodeType::SorobanRpc {
        return None;
    }
    match &node.spec.soroban_config {
        Some(c) => c.cache_config.as_ref(),
        None => None,
    }
}

/// The variables of the log shipper.
pub open spec fn shipper_env(c: LogShipperConfig) -> Seq<Doc> {
    let env = just(env_value_doc("S3_BUCKET"@, c.s3_bucket@)).push(
        env_value_doc("S3_PREFIX"@, opt_text_or(c.s3_prefix, "stellar-logs"@)),
    ).push(env_value_doc("S3_REGION"@, opt_text_or(c.s3_region, "us-east-1"@))).push(
        env_value_doc("BATCH_SIZE_LINES"@, decimal(c.batch_size_lines as int)),
    ).push(env_value_doc("FLUSH_INTERVAL_SECS"@, decimal(c.flush_interval_secs as int))).push(
        env_field_doc("NODE_NAME"@, "metadata.name"@),
    );
    match c.credentials_secret_ref {
        Some(s) => env.push(
            env_secret_optional_doc("AWS_ACCESS_KEY_ID"@, s@, "AWS_ACCESS_KEY_ID"@, false),
        ).push(
            env_secret_optional_doc("AWS_SECRET_ACCESS_KEY"@, s@, "AWS_SECRET_ACCESS_KEY"@, false),
        ),
        None => env,
    }
}

fn build_shipper_env(c: &LogShipperConfig) -> (r: Vec<Json>)
    ensures
        docs(r@) == shipper_env(*c),
{
    let mut env = one(env_value("S3_BUCKET", &c.s3_bucket));
    push(&mut env, env_value("S3_PREFIX", text_or(&c.s3_prefix, "stellar-logs")));
    push(&mut env, env_value("S3_REGION", text_or(&c.s3_region, "us-east-1")));
    push(&mut env, env_value("BATCH_SIZE_LINES", &decimal_text(c.batch_size_lines)));
    push(&mut env, env_value("FLUSH_INTERVAL_SECS", &decimal_text(c.flush_interval_secs)));
    push(&mut env, env_field("NODE_NAME", "metadata.name"));
    if let Some(s) = &c.credentials_secret_ref {
        push(
            &mut env,
            env_secret_optional("AWS_ACCESS_KEY_ID", s, "AWS_ACCESS_KEY_ID", false),
        );
        push(
            &mut env,
            env_secret_optional("AWS_SECRET_ACCESS_KEY", s, "AWS_SECRET_ACCESS_KEY", false),
        );
    }
    env
}

/// The sidecars before those of the user.
pub open spec fn leading_sidecars(node: StellarNode, ctx: NodeContext) -> Seq<Doc> {
    let sync = if streams(node) {
        just(ctx.state_sync_sidecar@)
    } else {
        nothing()
    };
    let module = match hsm_of(node) {
        Some(c) => match c.provider {
            HsmProvider::AWS => just(
                hsm_client_doc(
                    "cloudhsm-client"@,
                    "amazon/cloudhsm-client:latest"@,
                    "/opt/cloudhsm/bin/cloudhsm_client"@,
                    "cloudhsm-socket"@,
                    "/var/run/cloudhsm"@,
                ),
            ),
            HsmProvider::Azure => just(
                hsm_client_doc(
                    "dedicatedhsm-client"@,
                    "azure/dedicated-hsm-client:latest"@,
                    "/opt/dedicatedhsm/bin/dedicatedhsm_client"@,
                    "dedicatedhsm-socket"@,
                    "/var/run/dedicatedhsm"@,
                ),
            ),
        },
        None => nothing(),
    };
    let traversal = match node.spec.nat_traversal {
        Some(c) => if c.enabled {
            just(
                nat_sidecar_doc(
                    opt_text_or(c.sidecar_image, "stellar/nat-traversal:latest"@),
                    Doc::List(nat_env(c)),
                ),
            )
        } else {
            nothing()
        },
        None => nothing(),
    };
    sync + module + traversal
}

fn build_leading_sidecars(node: &StellarNode, ctx: &NodeContext) -> (r: Vec<Json>)
    ensures
        docs(r@) == leading_sidecars(*node, *ctx),
{
    let stream = match &node.spec.dr_config {
        Some(c) => c.enabled && c.sync_strategy == DRSyncStrategy::StreamingLedger,
        None => false,
    };
    let mut all = if stream {
        one(ctx.state_sync_sidecar.clone())
    } else {
        none()
    };
    let module = match hsm(node) {
        Some(c) => match c.provider {
            HsmProvider::AWS => one(
                hsm_client(
                    "cloudhsm-client",
                    "amazon/cloudhsm-client:latest",
                    "/opt/cloudhsm/bin/cloudhsm_client",
                    "cloudhsm-socket",
                    "/var/run/cloudhsm",
                ),
            ),
            HsmProvider::Azure => one(
                hsm_client(
                    "dedicatedhsm-client",
                    "azure/dedicated-hsm-client:latest",
                    "/opt/dedicatedhsm/bin/dedicatedhsm_client",
                    "dedicatedhsm-socket",
                    "/var/run/dedicatedhsm",
                ),
            ),
        },
        None => none(),
    };
    let traversal = match &node.spec.nat_traversal {
        Some(c) => if c.enabled {
            one(
                nat_sidecar(
                    text_or(&c.sidecar_image, "stellar/nat-traversal:latest"),
                    Json::List(build_nat_env(c)),
                ),
            )
        } else {
            none()
        },
        None => none(),
    };
    extend(&mut all, module);
    extend(&mut all, traversal);
    all
}

/// The image of the health sidecar.
pub open spec fn health_image(t: NodeType, version: Seq<char>) -> Seq<char> {
    replaced(
        replaced(image_of(t, version), "stellar-core"@, "stellar-k8s"@),
        "horizon"@,
        "stellar-k8s"@,
    )
}

/// The sidecars behind those of the user.
pub open spec fn trailing_sidecars(
    node: StellarNode,
    version: Seq<char>,
    ctx: NodeContext,
) -> Seq<Doc> {
    let handoff = if hands_off(node) {
        let c = node.spec.hitless_upgrade->0;
        just(
            handoff_sidecar_doc(
                opt_text_or(c.sidecar_image, "stellar-k8s/handoff-sidecar:latest"@),
                decimal(c.handoff_timeout_seconds as int),
            ),
        )
    } else {
        nothing()
    };
    let core_url = match node.spec.node_type {
        NodeType::Validator => "http://localhost:11626"@,
        _ => "http://localhost:8000"@,
    };
    let health = just(
        health_sidecar_doc(
            health_image(node.spec.node_type, version),
            core_url,
            diagnostic_resources(node.spec.diagnostic_sidecar_resources),
        ),
    );
    let shipper = if ships_logs(node) {
        let c = node.spec.log_shipper->0;
        just(
            log_shipper_doc(
                opt_text_or(c.image, "ghcr.io/stellar/stellar-k8s:"@ + ctx.operator_version@),
                Doc::List(shipper_env(c)),
            ),
        )
    } else {
        nothing()
    };
    let exporter = if exports_kernel(node) {
        just(ebpf_exporter_doc())
    } else {
        nothing()
    };
    handoff + health + shipper + exporter
}

fn build_trailing_sidecars(node: &StellarNode, version: &str, ctx: &NodeContext) -> (r: Vec<Json>)
    ensures
        docs(r@) == trailing_sidecars(*node, version@, *ctx),
{
    proof {
        reveal_strlit("stellar-core");
        reveal_strlit("horizon");
    }
    let mut all = match has_handoff(node) {
        Some(c) => one(
            handoff_sidecar(
                text_or(&c.sidecar_image, "stellar-k8s/handoff-sidecar:latest"),
                &decimal_text(c.handoff_timeout_seconds as u64),
            ),
        ),
        None => none(),
    };
    let core_url = match node.spec.node_type {
        NodeType::Validator => "http://localhost:11626",
        _ => "http://localhost:8000",
    };
    let image = replace(
        &replace(&image_for(node.spec.node_type, version), "stellar-core", "stellar-k8s"),
        "horizon",
        "stellar-k8s",
    );
    let health = one(
        health_sidecar(
            &image,
            core_url,
            build_diagnostic_sidecar_resources(&node.spec.diagnostic_sidecar_resources),
        ),
    );
    let shipper = match has_log_shipper(node) {
        Some(c) => {
            let default_image = cat2("ghcr.io/stellar/stellar-k8s:", &ctx.operator_version);
            one(
                log_shipper(
                    text_or(&c.image, &default_image),
                    Json::List(build_shipper_env(c)),
                ),
            )
        },
        None => none(),
    };
    let exporter = if has_ebpf(node) {
        one(ebpf_exporter())
    } else {
        none()
    };
    extend(&mut all, health);
    extend(&mut all, shipper);
    extend(&mut all, exporter);
    all
}

// Volumes

/// The volumes of a pod.
pub open spec fn volumes_of(node: StellarNode, seed: Option<SeedInjectionSpec>) -> Seq<Doc> {
    let own = just(data_volume_doc(resource_name_of(node, "data"@))).push(
        config_volume_doc(resource_name_of(node, "config"@)),
    );
    let keys = if kms_of(node) is Some {
        just(memory_volume_doc("keys"@))
    } else {
        nothing()
    };
    let tls = just(tls_volume_doc(node.name@ + "-client-cert"@));
    let module = match hsm_of(node) {
        Some(c) => match c.provider {
            HsmProvider::AWS => just(memory_volume_doc("cloudhsm-socket"@)),
            HsmProvider::Azure => just(memory_volume_doc("dedicatedhsm-socket"@)),
        },
        None => nothing(),
    };
    let handoff = if hands_off(node) {
        just(scratch_volume_doc("handoff-socket"@))
    } else {
        nothing()
    };
    let injected = match seed {
        Some(s) => docs(s.volumes@),
        None => nothing(),
    };
    let logs = if ships_logs(node) {
        just(scratch_volume_doc("stellar-logs"@))
    } else {
        nothing()
    };
    let kernel = if exports_kernel(node) {
        just(
            host_volume_doc(
                "sys-kernel-debug"@,
                "/sys/kernel/debug"@,
                "DirectoryOrCreate"@,
            ),
        ).push(host_volume_doc("lib-modules"@, "/lib/modules"@, "Directory"@))
    } else {
        nothing()
    };
    let cached = match cache_of(node) {
        Some(c) => just(cache_volume_doc(decimal(c.l2_max_bytes as int))),
        None => nothing(),
    };
    own + given(node.spec.volumes) + keys + tls + module + handoff + injected + logs + kernel
        + cached
}

fn build_volumes(node: &StellarNode, seed: Option<&SeedInjectionSpec>) -> (r: Vec<Json>)
    ensures
        docs(r@) == volumes_of(
            *node,
            match seed {
                Some(s) => Some(*s),
                None => None,
            },
        ),
{
    let mut all = one(data_volume(&resource_name(node, "data")));
    push(&mut all, config_volume(&resource_name(node, "config")));
    extend(&mut all, given_copies(&node.spec.volumes));
    let keys = if kms(node).is_some() {
        one(memory_volume("keys"))
    } else {
        none()
    };
    extend(&mut all, keys);
    extend(&mut all, one(tls_volume(&cat2(&node.name, "-client-cert"))));
    let module = match hsm(node) {
        Some(c) => match c.provider {
            HsmProvider::AWS => one(memory_volume("cloudhsm-socket")),
            HsmProvider::Azure => one(memory_volume("dedicatedhsm-socket")),
        },
        None => none(),
    };
    extend(&mut all, module);
    let handoff = if has_handoff(node).is_some() {
        one(scratch_volume("handoff-socket"))
    } else {
        none()
    };
    extend(&mut all, handoff);
    let injected = match seed {
        Some(s) => copies(&s.volumes),
        None => none(),
    };
    extend(&mut all, injected);
    let logs = if has_log_shipper(node).is_some() {
        one(scratch_volume("stellar-logs"))
    } else {
        none()
    };
    extend(&mut all, logs);
    let kernel = if has_ebpf(node) {
        let mut v = one(
            host_volume("sys-kernel-debug", "/sys/kernel/debug", "DirectoryOrCreate"),
        );
        push(&mut v, host_volume("lib-modules", "/lib/modules", "Directory"));
        v
    } else {
        none()
    };
    extend(&mut all, kernel);
    let cached = match cache(node) {
        Some(c) => one(cache_volume(&decimal_text(c.l2_max_bytes))),
        None => none(),
    };
    extend(&mut all, cached);
    all
}

/// The variables of the main container in a pod.
pub open spec fn pod_env(
    node: StellarNode,
    enable_mtls: bool,
    ctx: NodeContext,
    seed: Option<SeedInjectionSpec>,
) -> Seq<Doc> {
    let injected = match seed {
        Some(s) => docs(s.env_vars@),
        None => nothing(),
    };
    let cached = match cache_of(node) {
        Some(c) => just(env_value_doc("SOROBAN_CACHE_PATH"@, c.l2_path@)).push(
            env_value_doc("SOROBAN_CACHE_MAX_BYTES"@, decimal(c.l2_max_bytes as int)),
        ).push(env_value_doc("SOROBAN_CACHE_L1_CAPACITY"@, decimal(c.l1_capacity as int))),
        None => nothing(),
    };
    container_env(node, enable_mtls, ctx) + injected + cached
}

fn build_pod_env(
    node: &StellarNode,
    enable_mtls: bool,
    ctx: &NodeContext,
    seed: Option<&SeedInjectionSpec>,
) -> (r: Vec<Json>)
    ensures
        docs(r@) == pod_env(
            *node,
            enable_mtls,
            *ctx,
            match seed {
                Some(s) => Some(*s),
                None => None,
            },
        ),
{
    let mut env = build_container_env(node, enable_mtls, ctx);
    let injected = match seed {
        Some(s) => copies(&s.env_vars),
        None => none(),
    };
    extend(&mut env, injected);
    let cached = match cache(node) {
        Some(c) => {
            let mut v = one(env_value("SOROBAN_CACHE_PATH", &c.l2_path));
            push(&mut v, env_value("SOROBAN_CACHE_MAX_BYTES", &decimal_text(c.l2_max_bytes)));
            push(&mut v, env_value("SOROBAN_CACHE_L1_CAPACITY", &decimal_text(c.l1_capacity)));
            v
        },
        None => none(),
    };
    extend(&mut env, cached);
    env
}

/// The mounts of the main container in a pod.
pub open spec fn pod_mounts(node: StellarNode, seed: Option<SeedInjectionSpec>) -> Seq<Doc> {
    let handoff = if hands_off(node) {
        just(mount_doc("handoff-socket"@, "/handoff"@))
    } else {
        nothing()
    };
    let injected = match seed {
        Some(s) => docs(s.volume_mounts@),
        None => nothing(),
    };
    let logs = if ships_logs(node) {
        just(mount_doc("stellar-logs"@, "/var/log/stellar"@))
    } else {
        nothing()
    };
    let cached = match cache_of(node) {
        Some(c) => just(mount_doc("soroban-cache"@, c.l2_path@)),
        None => nothing(),
    };
    container_mounts(node) + handoff + injected + logs + cached
}

fn build_pod_mounts(node: &StellarNode, seed: Option<&SeedInjectionSpec>) -> (r: Vec<Json>)
    ensures
        docs(r@) == pod_mounts(
            *node,
            match seed {
                Some(s) => Some(*s),
                None => None,
            },
        ),
{
    let mut mounts = build_container_mounts(node);
    let handoff = if has_handoff(node).is_some() {
        one(mount("handoff-socket", "/handoff"))
    } else {
        none()
    };
    extend(&mut mounts, handoff);
    let injected = match seed {
        Some(s) => copies(&s.volume_mounts),
        None => none(),
    };
    extend(&mut mounts, injected);
    let logs = if has_log_shipper(node).is_some() {
        one(mount("stellar-logs", "/var/log/stellar"))
    } else {
        none()
    };
    extend(&mut mounts, logs);
    let cached = match cache(node) {
        Some(c) => one(mount("soroban-cache", &c.l2_path)),
        None => none(),
    };
    extend(&mut mounts, cached);
    mounts
}

/// The containers of a pod: the node, the operator's sidecars and the user's.
pub open spec fn containers_of(
    node: StellarNode,
    version: Seq<char>,
    enable_mtls: bool,
    ctx: NodeContext,
    seed: Option<SeedInjectionSpec>,
) -> Seq<Doc> {
    let main = container_with(
        node,
        version,
        pod_env(node, enable_mtls, ctx, seed),
        pod_mounts(node, seed),
    );
    just(main) + leading_sidecars(node, ctx) + given(node.spec.sidecars) + trailing_sidecars(
        node,
        version,
        ctx,
    )
}

fn build_containers(
    node: &StellarNode,
    version: &str,
    enable_mtls: bool,
    ctx: &NodeContext,
    seed: Option<&SeedInjectionSpec>,
) -> (r: Vec<Json>)
    ensures
        docs(r@) == containers_of(
            *node,
            version@,
            enable_mtls,
            *ctx,
            match seed {
                Some(s) => Some(*s),
                None => None,
            },
        ),
{
    let mut all = one(
        build_container_with(
            node,
            version,
            build_pod_env(node, enable_mtls, ctx, seed),
            build_pod_mounts(node, seed),
        ),
    );
    extend(&mut all, build_leading_sidecars(node, ctx));
    extend(&mut all, given_copies(&node.spec.sidecars));
    extend(&mut all, build_trailing_sidecars(node, version, ctx));
    all
}

/// The annotations with the AppArmor profile of the first `n` containers.
pub open spec fn with_profiles(d: Doc, containers: Seq<Doc>, n: int) -> Doc
    decreases n,
{
    if n <= 0 {
        d
    } else {
        with_profiles(d, containers, n - 1).with(
            "container.apparmor.security.beta.kubernetes.io/"@ + name_of(containers[n - 1]),
            Doc::text("runtime/default"@),
        )
    }
}

fn add_profiles(d: Json, containers: &Vec<Json>) -> (r: Json)
    ensures
        r@ == with_profiles(d@, docs(containers@), containers@.len() as int),
{
    let ghost start = d@;
    let mut d = d;
    let mut i: usize = 0;
    while i < containers.len()
        invariant
            i <= containers.len(),
            d@ == with_profiles(start, docs(containers@), i as int),
        decreases containers@.len() - i,
    {
        assert(docs(containers@)[i as int] == containers@[i as int]@);
        let key = cat2("container.apparmor.security.beta.kubernetes.io/", &name(&containers[i]));
        d = d.with(&key, Json::text("runtime/default"));
        i = i + 1;
    }
    d
}

/// The annotations of a pod: the AppArmor profile of every container, and
/// what comes with the seed.
pub open spec fn pod_annotations_doc(
    init: Option<Seq<Doc>>,
    containers: Seq<Doc>,
    seed: Option<SeedInjectionSpec>,
) -> Doc {
    let base = match init {
        Some(s) => with_profiles(Doc::object(), s, s.len() as int),
        None => Doc::object(),
    };
    let all = with_profiles(base, containers, containers.len() as int);
    match seed {
        Some(s) => match s.pod_annotations {
            Some(m) => with_all_doc(all, m),
            None => all,
        },
        None => all,
    }
}

/// Whether a validator's containers share a process namespace.
pub open spec fn shares_processes(node: StellarNode) -> bool {
    node.spec.node_type == NodeType::Validator && node.spec.forensic_snapshot is Some
        && node.spec.forensic_snapshot->0.enable_share_process_namespace
}

/// The template of a node's pods.
pub open spec fn pod_template_doc(
    node: StellarNode,
    version: Seq<char>,
    labels: Doc,
    enable_mtls: bool,
    seed: Option<SeedInjectionSpec>,
    ctx: NodeContext,
) -> Doc {
    let init = init_containers_of(node, version, ctx);
    let containers = containers_of(node, version, enable_mtls, ctx, seed);
    let spec = Doc::object()
        .with("containers"@, Doc::List(containers))
        .with("volumes"@, Doc::List(volumes_of(node, seed)))
        .with("topologySpreadConstraints"@, Doc::List(spread_constraints(node.spec, ctx)))
        .with_some("affinity"@, workload_affinity(node, ctx))
        .with_some("tolerations"@, workload_tolerations(node, ctx))
        .with("securityContext"@, pod_security_doc())
        .with_some("priorityClassName"@, opt_text_doc(node.spec.priority_class_name))
        .with_some(
            "shareProcessNamespace"@,
            if shares_processes(node) {
                Some(Doc::Bool(true))
            } else {
                None
            },
        )
        .with_some(
            "initContainers"@,
            match init {
                Some(s) => Some(Doc::List(s)),
                None => None,
            },
        );
    Doc::object()
        .with(
            "metadata"@,
            Doc::object()
                .with("labels"@, labels)
                .with("annotations"@, pod_annotations_doc(init, containers, seed)),
        )
        .with("spec"@, spec)
}

/// Builds the template of a node's pods for a version of its image.
///
/// A seed injection is given for the StatefulSet of a validator only.
pub fn build_pod_template(
    node: &StellarNode,
    version: &str,
    labels: Json,
    enable_mtls: bool,
    seed_injection: Option<&SeedInjectionSpec>,
    ctx: &NodeContext,
) -> (r: Json)
    ensures
        r@ == pod_template_doc(
            *node,
            version@,
            labels@,
            enable_mtls,
            match seed_injection {
                Some(s) => Some(*s),
                None => None,
            },
            *ctx,
        ),
{
    let init = build_init_containers(node, version, ctx);
    let containers = build_containers(node, version, enable_mtls, ctx, seed_injection);
    let base = match &init {
        Some(v) => add_profiles(Json::object(), v),
        None => Json::object(),
    };
    let profiled = add_profiles(base, &containers);
    let annotations = match seed_injection {
        Some(s) => match &s.pod_annotations {
            Some(m) => with_all(profiled, m),
            None => profiled,
        },
        None => profiled,
    };
    let shares = node.spec.node_type == NodeType::Validator && match &node.spec.forensic_snapshot {
        Some(c) => c.enable_share_process_namespace,
        None => false,
    };
    let spec = Json::object()
        .with("containers", Json::List(containers))
        .with("volumes", Json::List(build_volumes(node, seed_injection)))
        .with(
            "topologySpreadConstraints",
            Json::List(build_topology_spread_constraints(&node.spec, ctx)),
        )
        .with_some("affinity", merge_workload_affinity(node, ctx))
        .with_some("tolerations", build_workload_tolerations(node, ctx))
        .with("securityContext", pod_security())
        .with_some("priorityClassName", opt_text(&node.spec.priority_class_name))
        .with_some(
            "shareProcessNamespace",
            if shares {
                Some(Json::flag(true))
            } else {
                None
            },
        )
        .with_some(
            "initContainers",
            match init {
                Some(v) => Some(Json::List(v)),
                None => None,
            },
        );
    Json::object()
        .with(
            "metadata",
            Json::object().with("labels", labels).with("annotations", annotations),
        )
        .with("spec", spec)
}

/// The container of a node runs the image of its type in the version that is
/// asked for, with the resources of the node, without privileges, and offers the
/// port of its type.
pub proof fn law_container_runs_the_node(
    node: StellarNode,
    version: Seq<char>,
    env: Seq<Doc>,
    mounts: Seq<Doc>,
)
    ensures
        ({
            let d = container_with(node, version, env, mounts);
            let r = node.spec.resources;
            let ports = d.member("ports"@);
            &&& d.member("name"@) == Some(Doc::Text("stellar-node"@))
            &&& d.member("image"@) == Some(Doc::Text(image_of(node.spec.node_type, version)))
            &&& d.member("env"@) == Some(Doc::List(env))
            &&& d.member("volumeMounts"@) == Some(Doc::List(mounts))
            &&& at3(d, "resources"@, "requests"@, "cpu"@) == Some(Doc::Text(r.requests.cpu@))
            &&& at3(d, "resources"@, "requests"@, "memory"@) == Some(Doc::Text(r.requests.memory@))
            &&& at3(d, "resources"@, "limits"@, "cpu"@) == Some(Doc::Text(r.limits.cpu@))
            &&& at3(d, "resources"@, "limits"@, "memory"@) == Some(Doc::Text(r.limits.memory@))
            &&& d.member("securityContext"@) == Some(confined_read_only_doc())
            &&& ports is Some && ports->0 is List && ports->0->List_0.len() == 1
            &&& node.spec.node_type == NodeType::Validator ==> ports->0->List_0[0].member(
                "containerPort"@,
            ) == Some(Doc::number(11625))
            &&& node.spec.node_type != NodeType::Validator ==> ports->0->List_0[0].member(
                "containerPort"@,
            ) == Some(Doc::number(8000))
        }),
{
    broadcast use group_members;

    reveal_strlit("name");
    reveal_strlit("image");
    reveal_strlit("ports");
    reveal_strlit("env");
    reveal_strlit("resources");
    reveal_strlit("securityContext");
    reveal_strlit("volumeMounts");
    reveal_strlit("livenessProbe");
    reveal_strlit("readinessProbe");
    reveal_strlit("startupProbe");
    reveal_strlit("containerPort");
    reveal_strlit("requests");
    reveal_strlit("limits");
    reveal_strlit("cpu");
    reveal_strlit("memory");
    assert("image"@[0] == 'i');
    assert("ports"@[0] == 'p');
    assert("volumeMounts"@[0] == 'v');
    assert("startupProbe"@[0] == 's');
    assert("livenessProbe"@[0] == 'l');
    assert("containerPort"@[0] == 'c');
    assert("env"@[0] == 'e');
    assert("cpu"@[0] == 'c');
    assert("limits"@[0] == 'l');
    assert("memory"@[0] == 'm');
}

/// The image of a node is that of its type, in the version.
pub proof fn law_image_is_of_the_version(t: NodeType, version: Seq<char>, other: Seq<char>)
    ensures
        ends_in(image_of(t, version), version),
        image_of(t, version) == image_of(t, other) ==> version == other,
        begins_with(image_of(NodeType::Validator, version), "stellar/stellar-core:"@),
        begins_with(image_of(NodeType::Horizon, version), "stellar/stellar-horizon:"@),
        begins_with(image_of(NodeType::SorobanRpc, version), "stellar/soroban-rpc:"@),
{
    let p = match t {
        NodeType::Validator => "stellar/stellar-core:"@,
        NodeType::Horizon => "stellar/stellar-horizon:"@,
        NodeType::SorobanRpc => "stellar/soroban-rpc:"@,
    };
    let s = image_of(t, version);
    let n = p.len() as int;
    assert(s.subrange(n, s.len() as int) =~= version);
    let o = image_of(t, other);
    assert(o.subrange(n, o.len() as int) =~= other);
    lemma_begins("stellar/stellar-core:"@, version);
    lemma_begins("stellar/stellar-horizon:"@, version);
    lemma_begins("stellar/soroban-rpc:"@, version);
}

proof fn lemma_begins(a: Seq<char>, b: Seq<char>)
    ensures
        begins_with(a + b, a),
{
    assert((a + b).subrange(0, a.len() as int) =~= a);
}

/// A node has a worker for every core that it is given, a begun one counted, and
/// at least one and at most thirty-two; what limits it counts before what it
/// requests.
pub proof fn law_workers_fit_the_cores(node: StellarNode, ctx: NodeContext)
    ensures
        ({
            let t = worker_threads(node, ctx);
            let limit = millicores(node.spec.resources.limits.cpu@, ctx.limit_millicores);
            let request = millicores(node.spec.resources.requests.cpu@, ctx.request_millicores);
            &&& 1 <= t <= 32
            &&& limit is Some && t < 32 ==> limit->0 <= 1000 * t
            &&& limit is Some && t > 1 ==> 1000 * (t - 1) < limit->0
            &&& limit is None && request is Some && t < 32 ==> request->0 <= 1000 * t
            &&& limit is None && request is Some && t > 1 ==> 1000 * (t - 1) < request->0
            &&& limit is None && request is None ==> t == 1
        }),
{
}

/// The variables that size a node: its passphrase comes first, and its threads
/// are as many as it has workers, or half as many beside them.
pub proof fn law_variables_size_the_node(node: StellarNode, ctx: NodeContext)
    ensures
        ({
            let s = sizing_env(node, ctx);
            let t = worker_threads(node, ctx);
            &&& s.len() >= 2
            &&& s[0] == env_value_doc("NETWORK_PASSPHRASE"@, ctx.network_passphrase@)
            &&& node.spec.node_type == NodeType::Validator ==> s[1] == env_value_doc(
                "STELLAR_CORE_WORKER_THREADS"@,
                decimal(t),
            )
            &&& node.spec.node_type == NodeType::SorobanRpc ==> s[1] == env_value_doc(
                "SOROBAN_RPC_WORKER_THREADS"@,
                decimal(t),
            )
            &&& node.spec.node_type == NodeType::Horizon && node.spec.horizon_config is Some
                && node.spec.horizon_config->0.ingest_workers > 0 ==> s[1] == env_value_doc(
                "HORIZON_INGEST_WORKERS"@,
                decimal(node.spec.horizon_config->0.ingest_workers as int),
            )
            &&& node.spec.node_type == NodeType::Horizon && node.spec.horizon_config is None
                ==> s[1] == env_value_doc("HORIZON_INGEST_WORKERS"@, decimal(t))
            &&& node.spec.node_type == NodeType::Validator && t >= 2 ==> s.len() == 3 && s[2]
                == env_value_doc("STELLAR_CORE_HTTP_QUERY_THREADS"@, decimal(t / 2))
            &&& node.spec.node_type == NodeType::SorobanRpc && t >= 2 ==> s.len() == 3 && s[2]
                == env_value_doc("CAPTIVE_CORE_WORKER_THREADS"@, decimal(t / 2))
        }),
{
}

/// The seed of a validator is read from the secret that holds it, or from where
/// the key service puts it; it never stands in a variable itself, and no other
/// node has one.
pub proof fn law_seed_is_read_from_its_secret(node: StellarNode, i: int)
    requires
        0 <= i < seed_env(node).len(),
    ensures
        node.spec.node_type == NodeType::Validator,
        ({
            let c = node.spec.validator_config->0;
            let v = seed_env(node)[i];
            &&& c.key_source == KeySource::Secret ==> v.member("value"@) is None && at3(
                v,
                "valueFrom"@,
                "secretKeyRef"@,
                "name"@,
            ) == Some(Doc::Text(c.seed_secret_ref@))
            &&& c.key_source == KeySource::KMS ==> v.member("value"@) == Some(
                Doc::Text("/keys/validator-seed"@),
            )
        }),
{
    broadcast use group_members;

    reveal_strlit("name");
    reveal_strlit("value");
    reveal_strlit("valueFrom");
    reveal_strlit("secretKeyRef");
    reveal_strlit("key");
}

/// A validator whose seed is in a secret has it, unless it is injected.
pub proof fn law_validator_has_its_seed(node: StellarNode)
    requires
        node.spec.node_type == NodeType::Validator,
        node.spec.validator_config is Some,
    ensures
        ({
            let c = node.spec.validator_config->0;
            seed_env(node).len() == 1 <==> c.key_source == KeySource::KMS || (c.seed_secret_source
                is None && c.seed_secret_ref@.len() > 0)
        }),
{
}

/// A node finds its database under the name that its type looks for: the address
/// of one that is given, or of the one that is managed for it.
pub proof fn law_database_is_found(node: StellarNode)
    ensures
        ({
            let s = database_env(node);
            let name = database_variable(node.spec.node_type);
            &&& node.spec.database is None && node.spec.managed_database is None ==> s.len() == 0
            &&& node.spec.managed_database is Some ==> s.len() >= 1 && s.last().member("name"@)
                == Some(Doc::Text(name)) && at3(
                s.last(),
                "valueFrom"@,
                "secretKeyRef"@,
                "name"@,
            ) == Some(Doc::Text(node.name@ + "-app"@))
            &&& node.spec.database is Some ==> s.len() >= 1 && s[0].member("name"@) == Some(
                Doc::Text(name),
            )
            &&& node.spec.database is Some && node.spec.database->0.secret_key_ref is Some ==> at3(
                s[0],
                "valueFrom"@,
                "secretKeyRef"@,
                "key"@,
            ) == Some(Doc::Text(node.spec.database->0.secret_key_ref->0.key@))
            &&& node.spec.node_type == NodeType::Validator ==> name == "DATABASE"@
            &&& node.spec.node_type != NodeType::Validator ==> name == "DATABASE_URL"@
        }),
{
    broadcast use group_members;

    reveal_strlit("name");
    reveal_strlit("value");
    reveal_strlit("valueFrom");
    reveal_strlit("secretKeyRef");
    reveal_strlit("key");
}

/// A node that is no validator is told where its certificates are just where
/// connections are encrypted.
pub proof fn law_certificates_are_found(node: StellarNode, enable_mtls: bool)
    ensures
        tls_env(node, enable_mtls).len() == if enable_mtls && node.spec.node_type
            != NodeType::Validator {
            3int
        } else {
            0
        },
        enable_mtls && node.spec.node_type != NodeType::Validator ==> tls_env(node, enable_mtls)[0]
            == env_value_doc("TLS_CERT_FILE"@, "/etc/stellar/tls/tls.crt"@) && tls_env(
            node,
            enable_mtls,
        )[1] == env_value_doc("TLS_KEY_FILE"@, "/etc/stellar/tls/tls.key"@) && tls_env(
            node,
            enable_mtls,
        )[2] == env_value_doc("CA_CERT_FILE"@, "/etc/stellar/tls/ca.crt"@),
{
}

proof fn lemma_overrides(env: Seq<Doc>, overrides: Seq<Doc>, n: int, j: int, k: int)
    requires
        0 <= n <= overrides.len(),
    ensures
        with_overrides(env, overrides, n).len() >= env.len(),
        0 <= j < env.len() && (forall|i: int|
            0 <= i < n ==> name_of(#[trigger] overrides[i]) != name_of(env[j]))
            ==> with_overrides(env, overrides, n)[j] == env[j],
        0 <= k < n && (forall|i: int|
            k < i < n ==> name_of(#[trigger] overrides[i]) != name_of(overrides[k]))
            ==> with_overrides(env, overrides, n).contains(overrides[k]),
    decreases n,
{
    if n > 0 {
        let before = with_overrides(env, overrides, n - 1);
        let o = overrides[n - 1];
        let after = with_overrides(env, overrides, n);
        lemma_overrides(env, overrides, n - 1, j, k);
        law_override_holds(before, o);
        if 0 <= k < n && (forall|i: int|
            k < i < n ==> name_of(#[trigger] overrides[i]) != name_of(overrides[k])) {
            if k == n - 1 {
                let i = named_from(after, name_of(o), 0);
                lemma_named(after, name_of(o), 0);
                assert(after[i] == o);
            } else {
                assert(before.contains(overrides[k]));
                let i = choose|i: int| 0 <= i < before.len() && before[i] == overrides[k];
                assert(name_of(before[i]) != name_of(o));
                assert(after[i] == before[i]);
            }
        }
    }
}

/// Of the variables that a user sets the last of a name holds; a variable of the
/// operator that no user sets stays as it is.
pub proof fn law_users_variables_hold(env: Seq<Doc>, overrides: Seq<Doc>, j: int, k: int)
    ensures
        0 <= j < env.len() && (forall|i: int|
            0 <= i < overrides.len() ==> name_of(#[trigger] overrides[i]) != name_of(env[j]))
            ==> with_overrides(env, overrides, overrides.len() as int)[j] == env[j],
        0 <= k < overrides.len() && (forall|i: int|
            k < i < overrides.len() ==> name_of(#[trigger] overrides[i]) != name_of(overrides[k]))
            ==> with_overrides(env, overrides, overrides.len() as int).contains(overrides[k]),
{
    lemma_overrides(env, overrides, overrides.len() as int, j, k);
}

/// A user's mount is taken unless the operator has one of its name.
pub proof fn law_users_mounts_are_taken(base: Seq<Doc>, custom: Seq<Doc>, n: int)
    requires
        0 <= n <= custom.len(),
    ensures
        forall|i: int|
            #![trigger custom[i]]
            0 <= i < n && !has_named(base, name_of(custom[i])) ==> custom_mounts(base, custom, n).contains(custom[i]),
        forall|x: Doc| #[trigger]
            custom_mounts(base, custom, n).contains(x) ==> exists|i: int|
                #![trigger custom[i]]
                0 <= i < n && !has_named(base, name_of(custom[i])) && x == custom[i],
    decreases n,
{
    if n > 0 {
        law_users_mounts_are_taken(base, custom, n - 1);
        let p = custom_mounts(base, custom, n - 1);
        let r = custom_mounts(base, custom, n);
        assert forall|i: int|
            #![trigger custom[i]]
            0 <= i < n && !has_named(base, name_of(custom[i])) implies r.contains(custom[i]) by {
            if i == n - 1 {
                assert(r[p.len() as int] == custom[i]);
            } else {
                assert(p.contains(custom[i]));
                let k = choose|k: int| 0 <= k < p.len() && p[k] == custom[i];
                assert(r[k] == custom[i]);
            }
        }
        assert forall|x: Doc| #[trigger] r.contains(x) implies exists|i: int|
            #![trigger custom[i]]
            0 <= i < n && !has_named(base, name_of(custom[i])) && x == custom[i] by {
            let j = choose|j: int| 0 <= j < r.len() && r[j] == x;
            if j < p.len() {
                assert(r[j] == p[j]);
                assert(p.contains(x));
                let i = choose|i: int|
                    #![trigger custom[i]]
                    0 <= i < n - 1 && !has_named(base, name_of(custom[i])) && x == custom[i];
                assert(!has_named(base, name_of(custom[i])) && x == custom[i]);
            } else {
                let i = n - 1;
                assert(!has_named(base, name_of(custom[i])) && x == custom[i]);
            }
        }
    }
}

/// The pods of a node mount the claim and the configuration that are made for
/// it, and a certificate of its own; they have every volume that a user adds.
pub proof fn law_pods_have_their_volumes(node: StellarNode, seed: Option<SeedInjectionSpec>, i: int)
    ensures
        ({
            let v = volumes_of(node, seed);
            &&& v.len() >= 2
            &&& v[0].member("name"@) == Some(Doc::Text("data"@))
            &&& at2(v[0], "persistentVolumeClaim"@, "claimName"@) == Some(
                Doc::Text(resource_name_of(node, "data"@)),
            )
            &&& v[1].member("name"@) == Some(Doc::Text("config"@))
            &&& at2(v[1], "configMap"@, "name"@) == Some(
                Doc::Text(resource_name_of(node, "config"@)),
            )
            &&& v.contains(tls_volume_doc(node.name@ + "-client-cert"@))
            &&& 0 <= i < given(node.spec.volumes).len() ==> v.contains(given(node.spec.volumes)[i])
            &&& kms_of(node) is Some ==> v.contains(memory_volume_doc("keys"@))
        }),
{
    broadcast use group_members;

    reveal_strlit("name");
    reveal_strlit("persistentVolumeClaim");
    reveal_strlit("claimName");
    reveal_strlit("configMap");
    assert("claimName"@[1] == 'l');
    assert("configMap"@[1] == 'o');
    let v = volumes_of(node, seed);
    let g = given(node.spec.volumes);
    let keys = if kms_of(node) is Some {
        just(memory_volume_doc("keys"@))
    } else {
        nothing()
    };
    let n = 2 + g.len() as int;
    if 0 <= i < g.len() {
        assert(v[2 + i] == g[i]);
    }
    if kms_of(node) is Some {
        assert(v[n] == memory_volume_doc("keys"@));
    }
    assert(v[n + keys.len()] == tls_volume_doc(node.name@ + "-client-cert"@));
    assert(v[0] == data_volume_doc(resource_name_of(node, "data"@)));
    assert(v[1] == config_volume_doc(resource_name_of(node, "config"@)));
}

/// What the operator mounts: the data where the type of the node looks for it,
/// the configuration and the certificates, and the keys where a key service
/// provides them.
pub proof fn law_operator_mounts(node: StellarNode)
    ensures
        ({
            let m = operator_mounts(node);
            let data = if node.spec.node_type == NodeType::Validator {
                "/opt/stellar/data"@
            } else {
                "/data"@
            };
            let served = node.spec.node_type == NodeType::Validator
                && node.spec.validator_config is Some
                && node.spec.validator_config->0.key_source == KeySource::KMS;
            &&& m.len() >= 3
            &&& m[0] == mount_doc("data"@, data)
            &&& m[1] == mount_mode_doc("config"@, "/config"@, true)
            &&& served ==> m[2] == mount_mode_doc("keys"@, "/keys"@, true)
            &&& m.contains(mount_mode_doc("tls"@, "/etc/stellar/tls"@, true))
        }),
{
    let m = operator_mounts(node);
    if uses_kms(node) {
        assert(m[3] == mount_mode_doc("tls"@, "/etc/stellar/tls"@, true));
    } else {
        assert(m[2] == mount_mode_doc("tls"@, "/etc/stellar/tls"@, true));
    }
}

/// Pods are kept apart as hard as the node asks for: on other hosts only, on
/// other hosts if possible, or not at all.
pub proof fn law_pods_are_kept_apart(node: StellarNode, ctx: NodeContext)
    ensures
        ({
            let must = required_terms(node, ctx);
            let should = preferred_terms(node, ctx);
            let term = affinity_term_doc(node.spec, ctx);
            let hard = node.spec.pod_anti_affinity == PodAntiAffinityStrength::Hard;
            let soft = node.spec.pod_anti_affinity == PodAntiAffinityStrength::Soft;
            &&& hard ==> must == seq![term] && should.len() == 0
            &&& soft ==> must.len() == 0 && should.len() == 1 && should[0].member(
                "podAffinityTerm"@,
            ) == Some(term) && should[0].member("weight"@) == Some(Doc::number(100))
            &&& !hard && !soft ==> must.len() == 0 && should.len() == 0
            &&& term.member("topologyKey"@) == Some(Doc::Text("kubernetes.io/hostname"@))
            &&& at3(term, "labelSelector"@, "matchLabels"@, "stellar-network"@) == Some(
                Doc::Text(ctx.network_label@),
            )
            &&& at3(term, "labelSelector"@, "matchLabels"@, "app.kubernetes.io/component"@) == Some(
                Doc::Text(node.spec.node_type.component()),
            )
        }),
{
    broadcast use group_members;

    reveal_strlit("podAffinityTerm");
    reveal_strlit("weight");
    reveal_strlit("topologyKey");
    reveal_strlit("labelSelector");
    reveal_strlit("matchLabels");
    reveal_strlit("app.kubernetes.io/name");
    reveal_strlit("stellar-network");
    reveal_strlit("app.kubernetes.io/component");
    assert("topologyKey"@[0] == 't');
    assert("matchLabels"@[0] == 'm');
    assert("podAffinityTerm"@[0] == 'p');
    assert("stellar-network"@[0] == 's');
    if node.spec.pod_anti_affinity == PodAntiAffinityStrength::Hard {
        assert(required_terms(node, ctx) =~= seq![affinity_term_doc(node.spec, ctx)]);
    }
}

/// What keeps pods apart stands under its name; where nothing does, there is
/// nothing.
pub proof fn law_terms_stand_under_their_names(required: Seq<Doc>, preferred: Seq<Doc>)
    ensures
        ({
            let d = anti_affinity_doc(required, preferred);
            &&& d is None <==> required.len() == 0 && preferred.len() == 0
            &&& required.len() > 0 ==> d->0.member(
                "requiredDuringSchedulingIgnoredDuringExecution"@,
            ) == Some(Doc::List(required))
            &&& preferred.len() > 0 ==> d->0.member(
                "preferredDuringSchedulingIgnoredDuringExecution"@,
            ) == Some(Doc::List(preferred))
            &&& d is Some && required.len() == 0 ==> d->0.member(
                "requiredDuringSchedulingIgnoredDuringExecution"@,
            ) is None
        }),
{
    broadcast use group_members;

    reveal_strlit("requiredDuringSchedulingIgnoredDuringExecution");
    reveal_strlit("preferredDuringSchedulingIgnoredDuringExecution");
}

/// Every peer in a validator's quorum is kept away from it where that is asked
/// for.
pub proof fn law_quorum_peers_are_kept_away(peers: Seq<String>, n: int, i: int)
    requires
        0 <= i < n <= peers.len(),
    ensures
        peer_terms(peers, n).len() == n,
        peer_terms(peers, n)[i] == weighted_term_doc(peer_term_doc(peers[i]@)),
        at3(
            peer_term_doc(peers[i]@),
            "labelSelector"@,
            "matchLabels"@,
            "app.kubernetes.io/instance"@,
        ) == Some(Doc::Text(peers[i]@)),
    decreases n,
{
    broadcast use group_members;

    reveal_strlit("labelSelector");
    reveal_strlit("topologyKey");
    reveal_strlit("matchLabels");
    assert("topologyKey"@[0] == 't');
    assert("matchLabels"@[0] == 'm');
    lemma_peer_terms(peers, n, i);
}

proof fn lemma_peer_terms(peers: Seq<String>, n: int, i: int)
    requires
        0 <= n <= peers.len(),
    ensures
        peer_terms(peers, n).len() == n,
        0 <= i < n ==> peer_terms(peers, n)[i] == weighted_term_doc(peer_term_doc(peers[i]@)),
    decreases n,
{
    if n > 0 {
        lemma_peer_terms(peers, n - 1, i);
    }
}

/// Where pods may stand: a jurisdiction comes before the node's own wishes, and
/// those before the wishes of its storage.
pub proof fn law_jurisdiction_comes_first(node: StellarNode, ctx: NodeContext)
    ensures
        ({
            let bound = node.spec.placement.jurisdiction is Some;
            let near = node_affinity_of(node, ctx);
            &&& bound && ctx.jurisdiction_affinity is Some ==> near == opt_doc(
                ctx.jurisdiction_affinity,
            )
            &&& !bound && node.spec.node_affinity is Some ==> near == opt_doc(
                node.spec.node_affinity,
            )
            &&& !bound && node.spec.node_affinity is None ==> near == opt_doc(
                node.spec.storage.node_affinity,
            )
            &&& near is Some ==> workload_affinity(node, ctx) is Some && workload_affinity(
                node,
                ctx,
            )->0.member("nodeAffinity"@) == near
            &&& bound && ctx.jurisdiction_tolerations@.len() > 0 ==> workload_tolerations(node, ctx)
                == Some(Doc::List(docs(ctx.jurisdiction_tolerations@)))
            &&& !bound && node.spec.tolerations@.len() > 0 ==> workload_tolerations(node, ctx)
                == Some(Doc::List(docs(node.spec.tolerations@)))
            &&& !bound && node.spec.tolerations@.len() == 0 ==> workload_tolerations(node, ctx)
                is None
        }),
{
    broadcast use group_members;

    reveal_strlit("nodeAffinity");
    reveal_strlit("podAntiAffinity");
}

/// Pods are spread as the node says; where it says nothing they are spread over
/// hosts and over zones, by one at most, and if need be not at all where they are
/// kept apart only softly.
pub proof fn law_pods_are_spread(spec: StellarNodeSpec, ctx: NodeContext)
    ensures
        ({
            let s = spread_constraints(spec, ctx);
            let own = spec.topology_spread_constraints is Some
                && spec.topology_spread_constraints->0@.len() > 0;
            let otherwise = if spec.pod_anti_affinity == PodAntiAffinityStrength::Soft {
                "ScheduleAnyway"@
            } else {
                "DoNotSchedule"@
            };
            &&& own ==> s == docs(spec.topology_spread_constraints->0@)
            &&& !own ==> s.len() == 2 && s[0].member("topologyKey"@) == Some(
                Doc::Text("kubernetes.io/hostname"@),
            ) && s[1].member("topologyKey"@) == Some(Doc::Text("topology.kubernetes.io/zone"@))
                && s[0].member("maxSkew"@) == Some(Doc::number(1)) && s[1].member("maxSkew"@)
                == Some(Doc::number(1)) && s[0].member("whenUnsatisfiable"@) == Some(
                Doc::Text(otherwise),
            ) && s[1].member("whenUnsatisfiable"@) == Some(Doc::Text(otherwise)) && s[0].member(
                "labelSelector"@,
            ) == Some(spread_selector_doc(spec, ctx))
        }),
{
    broadcast use group_members;

    reveal_strlit("labelSelector");
    reveal_strlit("maxSkew");
    reveal_strlit("topologyKey");
    reveal_strlit("whenUnsatisfiable");
}

/// The sidecars of a pod: one that checks its health always; a handoff, a log
/// shipper and an exporter each just where it is enabled; and every one of the
/// user's.
pub proof fn law_pod_has_its_sidecars(
    node: StellarNode,
    version: Seq<char>,
    enable_mtls: bool,
    ctx: NodeContext,
    seed: Option<SeedInjectionSpec>,
    i: int,
)
    ensures
        ({
            let all = containers_of(node, version, enable_mtls, ctx, seed);
            let own = given(node.spec.sidecars);
            let lead = leading_sidecars(node, ctx);
            let trail = trailing_sidecars(node, version, ctx);
            &&& all.len() == 1 + lead.len() + own.len() + trail.len()
            &&& all[0] == container_with(
                node,
                version,
                pod_env(node, enable_mtls, ctx, seed),
                pod_mounts(node, seed),
            )
            &&& 0 <= i < own.len() ==> all.contains(own[i])
            &&& trail.len() == 1 + (if hands_off(node) {
                1int
            } else {
                0
            }) + (if ships_logs(node) {
                1int
            } else {
                0
            }) + (if exports_kernel(node) {
                1int
            } else {
                0
            })
            &&& exports_kernel(node) ==> trail.last() == ebpf_exporter_doc()
        }),
        hands_off(node) <==> node.spec.hitless_upgrade is Some
            && node.spec.hitless_upgrade->0.enabled && node.spec.node_type == NodeType::Validator,
        ships_logs(node) <==> node.spec.log_shipper is Some && node.spec.log_shipper->0.enabled,
        exports_kernel(node) <==> node.spec.ebpf_config is Some && node.spec.ebpf_config->0.enabled
            && node.spec.node_type == NodeType::Validator,
{
    let all = containers_of(node, version, enable_mtls, ctx, seed);
    let own = given(node.spec.sidecars);
    let lead = leading_sidecars(node, ctx);
    if 0 <= i < own.len() {
        assert(all[1 + lead.len() as int + i] == own[i]);
    }
}

/// Before a node starts: a database is migrated where that is wanted and no
/// second colour runs, a backup is restored where one is named, keys are
/// fetched where a key service has them; then come the user's own.
pub proof fn law_what_runs_before_a_node(
    node: StellarNode,
    version: Seq<char>,
    ctx: NodeContext,
    i: int,
)
    ensures
        ({
            let own = operator_init(node, version, ctx);
            let all = init_containers_of(node, version, ctx);
            let migrates = node.spec.node_type == NodeType::Horizon
                && node.spec.horizon_config is Some && node.spec.horizon_config->0.auto_migration
                && node.spec.strategy.strategy_type != RolloutStrategyType::BlueGreen;
            let restores = node.spec.storage.snapshot_ref is Some
                && node.spec.storage.snapshot_ref->0.backup_url is Some;
            &&& own.len() == (if migrates {
                1int
            } else {
                0
            }) + (if restores {
                1int
            } else {
                0
            }) + (if kms_of(node) is Some {
                1int
            } else {
                0
            })
            &&& migrates ==> own[0] == migration_container(node, version, ctx)
            &&& restores && !migrates ==> own[0] == restore_doc(
                node.spec.storage.snapshot_ref->0.backup_url->0@,
                node.spec.storage.snapshot_ref->0.credentials_secret_ref,
                node.spec.storage.snapshot_ref->0.restore_image,
            )
            &&& all is None <==> own.len() == 0 && node.spec.init_containers is None
            &&& 0 <= i < given(node.spec.init_containers).len() ==> all is Some && all->0.contains(
                given(node.spec.init_containers)[i],
            )
            &&& 0 <= i < own.len() ==> all is Some && all->0[i] == own[i]
        }),
{
    let own = operator_init(node, version, ctx);
    let all = init_containers_of(node, version, ctx);
    let g = given(node.spec.init_containers);
    if 0 <= i < g.len() {
        assert(all->0[own.len() as int + i] == g[i]);
    }
}

/// The container that restores a backup fetches it from where it is, with the
/// credentials that are named.
pub proof fn law_backup_is_restored(
    url: Seq<char>,
    secret: Option<String>,
    image: Option<String>,
)
    ensures
        ({
            let d = restore_doc(url, secret, image);
            let env = d.member("env"@)->0->List_0;
            &&& image is Some ==> d.member("image"@) == Some(Doc::Text(image->0@))
            &&& image is None && begins_with(url, "s3://"@) ==> d.member("image"@) == Some(
                Doc::Text("amazon/aws-cli:latest"@),
            )
            &&& image is None && !begins_with(url, "s3://"@) ==> d.member("image"@) == Some(
                Doc::Text("alpine:3"@),
            )
            &&& d.member("env"@) is Some && d.member("env"@)->0 is List
            &&& env.len() == (if secret is Some {
                5int
            } else {
                1
            })
            &&& env[0] == env_value_doc("BACKUP_URL"@, url)
            &&& secret is Some ==> env[1] == env_secret_optional_doc(
                "AWS_ACCESS_KEY_ID"@,
                secret->0@,
                "AWS_ACCESS_KEY_ID"@,
                true,
            )
        }),
{
    broadcast use group_members;

    reveal_strlit("name");
    reveal_strlit("image");
    reveal_strlit("command");
    reveal_strlit("env");
    reveal_strlit("volumeMounts");
    reveal_strlit("securityContext");
    reveal_strlit("resources");
}

/// A sidecar for diagnostics has the resources that it is given; an amount that
/// is blank, or not given, is the default.
pub proof fn law_blank_amounts_are_defaults(r: ResourceRequirements)
    ensures
        ({
            let d = diagnostic_resources(Some(r));
            &&& !blank(r.requests.cpu@) ==> at2(d, "requests"@, "cpu"@) == Some(
                Doc::Text(r.requests.cpu@),
            )
            &&& blank(r.requests.cpu@) ==> at2(d, "requests"@, "cpu"@) == Some(
                Doc::Text(DIAGNOSTIC_SIDECAR_DEFAULT_CPU@),
            )
            &&& !blank(r.requests.memory@) ==> at2(d, "requests"@, "memory"@) == Some(
                Doc::Text(r.requests.memory@),
            )
            &&& blank(r.requests.memory@) ==> at2(d, "requests"@, "memory"@) == Some(
                Doc::Text(DIAGNOSTIC_SIDECAR_DEFAULT_MEMORY@),
            )
            &&& !blank(r.limits.cpu@) ==> at2(d, "limits"@, "cpu"@) == Some(Doc::Text(r.limits.cpu@))
            &&& !blank(r.limits.memory@) ==> at2(d, "limits"@, "memory"@) == Some(
                Doc::Text(r.limits.memory@),
            )
        }),
        at2(diagnostic_resources(None), "requests"@, "cpu"@) == Some(
            Doc::Text(DIAGNOSTIC_SIDECAR_DEFAULT_CPU@),
        ),
        at2(diagnostic_resources(None), "limits"@, "memory"@) == Some(
            Doc::Text(DIAGNOSTIC_SIDECAR_DEFAULT_MEMORY@),
        ),
{
    broadcast use group_members;

    reveal_strlit("requests");
    reveal_strlit("limits");
    reveal_strlit("cpu");
    reveal_strlit("memory");
    assert("limits"@[0] == 'l');
    assert("memory"@[0] == 'm');
}

/// A template has the labels that it is given, and its pods the containers, the
/// volumes and the placing of the node; none of them runs as root.
pub proof fn law_template_is_the_nodes(
    node: StellarNode,
    version: Seq<char>,
    labels: Doc,
    enable_mtls: bool,
    seed: Option<SeedInjectionSpec>,
    ctx: NodeContext,
)
    ensures
        ({
            let p = pod_template_doc(node, version, labels, enable_mtls, seed, ctx);
            let s = p.member("spec"@)->0;
            let shared = node.spec.node_type == NodeType::Validator
                && node.spec.forensic_snapshot is Some
                && node.spec.forensic_snapshot->0.enable_share_process_namespace;
            &&& p.member("spec"@) is Some
            &&& at2(p, "metadata"@, "labels"@) == Some(labels)
            &&& s.member("containers"@) == Some(
                Doc::List(containers_of(node, version, enable_mtls, ctx, seed)),
            )
            &&& s.member("volumes"@) == Some(Doc::List(volumes_of(node, seed)))
            &&& s.member("topologySpreadConstraints"@) == Some(
                Doc::List(spread_constraints(node.spec, ctx)),
            )
            &&& s.member("affinity"@) == workload_affinity(node, ctx)
            &&& s.member("tolerations"@) == workload_tolerations(node, ctx)
            &&& s.member("priorityClassName"@) == opt_text_doc(node.spec.priority_class_name)
            &&& s.member("shareProcessNamespace"@) == if shared {
                Some(Doc::Bool(true))
            } else {
                None
            }
            &&& at2(s, "securityContext"@, "runAsNonRoot"@) == Some(Doc::Bool(true))
            &&& init_containers_of(node, version, ctx) is Some ==> s.member("initContainers"@)
                == Some(Doc::List(init_containers_of(node, version, ctx)->0))
        }),
{
    broadcast use group_members;

    reveal_strlit("metadata");
    reveal_strlit("spec");
    reveal_strlit("labels");
    reveal_strlit("annotations");
    reveal_strlit("containers");
    reveal_strlit("volumes");
    reveal_strlit("topologySpreadConstraints");
    reveal_strlit("affinity");
    reveal_strlit("tolerations");
    reveal_strlit("securityContext");
    reveal_strlit("priorityClassName");
    reveal_strlit("shareProcessNamespace");
    reveal_strlit("initContainers");
    reveal_strlit("runAsNonRoot");
    reveal_strlit("runAsUser");
    reveal_strlit("runAsGroup");
    reveal_strlit("fsGroup");
    reveal_strlit("seccompProfile");
    assert("metadata"@[0] == 'm');
    assert("affinity"@[0] == 'a');
    assert("annotations"@[0] == 'a');
    assert("tolerations"@[0] == 't');
    assert("containers"@[0] == 'c');
    assert("runAsGroup"@[0] == 'r');
    assert("volumes"@[0] == 'v');
    assert("fsGroup"@[0] == 'f');
    assert("initContainers"@[0] == 'i');
    assert("seccompProfile"@[0] == 's');
}

/// An amount of processors that ends in an m is read as thousandths; any other is
/// what it was taken for.
pub proof fn law_thousandths_of_processors(t: Seq<char>, cores: Option<u32>)
    requires
        t.len() > 0,
        !is_white_space(t[0]),
    ensures
        millicores(t + "m"@, cores) == parsed(t, u32::MAX as int),
        !is_white_space(t.last()) && t.last() != 'm' && cores is Some ==> millicores(t, cores)
            == Some(cores->0 as int),
        !is_white_space(t.last()) && t.last() != 'm' && cores is None ==> millicores(t, cores)
            is None,
{
    reveal_strlit("m");
    let s = t + "m"@;
    assert(s[0] == t[0]);
    assert(s[s.len() - 1] == 'm');
    assert(trimmed(s) == s);
    assert(s.subrange(s.len() - 1, s.len() as int) =~= "m"@);
    assert(s.subrange(0, s.len() - 1) =~= t);
    if !is_white_space(t.last()) && t.last() != 'm' {
        assert(trimmed(t) == t);
        if ends_in(t, "m"@) {
            assert(t.subrange(t.len() - 1, t.len() as int)[0] == 'm');
        }
    }
}

/// The probes of a node's container ask its health, each in its own time; what
/// a user overrides of one concerns that one alone.
pub proof fn law_container_is_probed(
    node: StellarNode,
    version: Seq<char>,
    env: Seq<Doc>,
    mounts: Seq<Doc>,
)
    ensures
        ({
            let d = container_with(node, version, env, mounts);
            let own = node.spec.probes;
            let live = Some(main_liveness_doc());
            let ready = Some(main_readiness_doc());
            let start = Some(main_startup_doc());
            &&& own is None ==> d.member("livenessProbe"@) == live && d.member("readinessProbe"@)
                == ready && d.member("startupProbe"@) == start
            &&& own is Some ==> d.member("livenessProbe"@) == overridden_probe(
                live,
                own->0.liveness,
            ) && d.member("readinessProbe"@) == overridden_probe(ready, own->0.readiness)
                && d.member("startupProbe"@) == overridden_probe(start, own->0.startup)
            &&& at2(main_liveness_doc(), "httpGet"@, "path"@) == Some(Doc::Text("/healthz"@))
            &&& at2(main_readiness_doc(), "httpGet"@, "path"@) == Some(Doc::Text("/readyz"@))
            &&& at2(main_startup_doc(), "httpGet"@, "path"@) == Some(Doc::Text("/healthz"@))
            &&& at2(main_liveness_doc(), "httpGet"@, "port"@) == Some(Doc::number(8081))
            &&& main_liveness_doc().member("failureThreshold"@) == Some(Doc::number(3))
            &&& main_readiness_doc().member("failureThreshold"@) == Some(Doc::number(2))
            &&& main_startup_doc().member("failureThreshold"@) == Some(Doc::number(30))
            &&& main_liveness_doc().member("initialDelaySeconds"@) == Some(Doc::number(30))
            &&& main_readiness_doc().member("initialDelaySeconds"@) == Some(Doc::number(60))
            &&& main_startup_doc().member("initialDelaySeconds"@) == Some(Doc::number(0))
        }),
{
    broadcast use group_members;

    reveal_strlit("name");
    reveal_strlit("image");
    reveal_strlit("ports");
    reveal_strlit("env");
    reveal_strlit("resources");
    reveal_strlit("securityContext");
    reveal_strlit("volumeMounts");
    reveal_strlit("livenessProbe");
    reveal_strlit("readinessProbe");
    reveal_strlit("startupProbe");
    reveal_strlit("initialDelaySeconds");
    reveal_strlit("periodSeconds");
    reveal_strlit("timeoutSeconds");
    reveal_strlit("failureThreshold");
    reveal_strlit("httpGet");
    reveal_strlit("path");
    reveal_strlit("port");
    assert("image"@[0] == 'i');
    assert("ports"@[0] == 'p');
    assert("volumeMounts"@[0] == 'v');
    assert("startupProbe"@[0] == 's');
    assert("livenessProbe"@[0] == 'l');
    assert("periodSeconds"@[0] == 'p');
    assert("readinessProbe"@[0] == 'r');
    assert("timeoutSeconds"@[0] == 't');
    assert("name"@[0] == 'n');
    assert("path"@[0] == 'p');
    assert("port"@[0] == 'p');
    assert("path"@[1] == 'a');
    assert("port"@[1] == 'o');
}

/// The variables of a container: all that the operator sets are there unless a
/// user sets one of their name.
pub proof fn law_container_has_its_variables(
    node: StellarNode,
    enable_mtls: bool,
    ctx: NodeContext,
    v: Doc,
)
    requires
        sizing_env(node, ctx).contains(v) || seed_env(node).contains(v) || database_env(
            node,
        ).contains(v) || tls_env(node, enable_mtls).contains(v) || hsm_env(node).contains(v),
        forall|i: int|
            0 <= i < env_overrides(node).len() ==> name_of(#[trigger] env_overrides(node)[i])
                != name_of(v),
    ensures
        container_env(node, enable_mtls, ctx).contains(v),
{
    let a = sizing_env(node, ctx);
    let b = seed_env(node);
    let c = database_env(node);
    let d = tls_env(node, enable_mtls);
    let e = hsm_env(node);
    let base = a + b + c + d + e;
    let o = env_overrides(node);
    let j: int = if a.contains(v) {
        choose|j: int| 0 <= j < a.len() && a[j] == v
    } else if b.contains(v) {
        a.len() + choose|j: int| 0 <= j < b.len() && b[j] == v
    } else if c.contains(v) {
        a.len() + b.len() + choose|j: int| 0 <= j < c.len() && c[j] == v
    } else if d.contains(v) {
        a.len() + b.len() + c.len() + choose|j: int| 0 <= j < d.len() && d[j] == v
    } else {
        a.len() + b.len() + c.len() + d.len() + choose|j: int| 0 <= j < e.len() && e[j] == v
    };
    assert(base[j] == v);
    lemma_overrides(base, o, o.len() as int, j, -1);
    assert(container_env(node, enable_mtls, ctx)[j] == v);
}

/// The variables of a pod's container: those of the container, those that carry
/// an injected seed, and those of the cache where there is one.
pub proof fn law_pod_has_its_variables(
    node: StellarNode,
    enable_mtls: bool,
    ctx: NodeContext,
    seed: Option<SeedInjectionSpec>,
    v: Doc,
)
    ensures
        container_env(node, enable_mtls, ctx).contains(v) ==> pod_env(
            node,
            enable_mtls,
            ctx,
            seed,
        ).contains(v),
        seed is Some && docs(seed->0.env_vars@).contains(v) ==> pod_env(
            node,
            enable_mtls,
            ctx,
            seed,
        ).contains(v),
        cache_of(node) is Some ==> pod_env(node, enable_mtls, ctx, seed).contains(
            env_value_doc("SOROBAN_CACHE_PATH"@, cache_of(node)->0.l2_path@),
        ) && pod_env(node, enable_mtls, ctx, seed).contains(
            env_value_doc(
                "SOROBAN_CACHE_MAX_BYTES"@,
                decimal(cache_of(node)->0.l2_max_bytes as int),
            ),
        ),
        cache_of(node) is Some <==> node.spec.node_type == NodeType::SorobanRpc
            && node.spec.soroban_config is Some && node.spec.soroban_config->0.cache_config
            is Some,
{
    let a = container_env(node, enable_mtls, ctx);
    let b = match seed {
        Some(s) => docs(s.env_vars@),
        None => nothing(),
    };
    let all = pod_env(node, enable_mtls, ctx, seed);
    if a.contains(v) {
        let j = choose|j: int| 0 <= j < a.len() && a[j] == v;
        assert(all[j] == v);
    }
    if b.contains(v) {
        let j = choose|j: int| 0 <= j < b.len() && b[j] == v;
        assert(all[a.len() + j] == v);
    }
    if cache_of(node) is Some {
        let c = cache_of(node)->0;
        let n = a.len() as int + b.len() as int;
        assert(all[n] == env_value_doc("SOROBAN_CACHE_PATH"@, c.l2_path@));
        assert(all[n + 1] == env_value_doc(
            "SOROBAN_CACHE_MAX_BYTES"@,
            decimal(c.l2_max_bytes as int),
        ));
    }
}

/// What a pod's container mounts: all that its container does, and what a
/// handoff, an injected seed, shipped logs or a cache ask for.
pub proof fn law_pod_has_its_mounts(node: StellarNode, seed: Option<SeedInjectionSpec>, v: Doc)
    ensures
        ({
            let all = pod_mounts(node, seed);
            &&& container_mounts(node).contains(v) ==> all.contains(v)
            &&& operator_mounts(node).contains(v) ==> container_mounts(node).contains(v)
            &&& hands_off(node) ==> all.contains(mount_doc("handoff-socket"@, "/handoff"@))
            &&& ships_logs(node) ==> all.contains(mount_doc("stellar-logs"@, "/var/log/stellar"@))
            &&& cache_of(node) is Some ==> all.contains(
                mount_doc("soroban-cache"@, cache_of(node)->0.l2_path@),
            )
            &&& seed is Some && docs(seed->0.volume_mounts@).contains(v) ==> all.contains(v)
        }),
{
    let all = pod_mounts(node, seed);
    let own = operator_mounts(node);
    let a = container_mounts(node);
    let b = if hands_off(node) {
        just(mount_doc("handoff-socket"@, "/handoff"@))
    } else {
        nothing()
    };
    let c = match seed {
        Some(s) => docs(s.volume_mounts@),
        None => nothing(),
    };
    let d = if ships_logs(node) {
        just(mount_doc("stellar-logs"@, "/var/log/stellar"@))
    } else {
        nothing()
    };
    if own.contains(v) {
        let j = choose|j: int| 0 <= j < own.len() && own[j] == v;
        assert(a[j] == v);
    }
    if a.contains(v) {
        let j = choose|j: int| 0 <= j < a.len() && a[j] == v;
        assert(all[j] == v);
    }
    if hands_off(node) {
        assert(all[a.len() as int] == b[0]);
    }
    if c.contains(v) {
        let j = choose|j: int| 0 <= j < c.len() && c[j] == v;
        assert(all[a.len() + b.len() + j] == v);
    }
    if ships_logs(node) {
        assert(all[a.len() as int + b.len() as int + c.len() as int] == d[0]);
    }
    if cache_of(node) is Some {
        assert(all[a.len() as int + b.len() as int + c.len() as int + d.len() as int] == mount_doc(
            "soroban-cache"@,
            cache_of(node)->0.l2_path@,
        ));
    }
}

/// A security module is used by a validator that names one: it is told where the
/// module's library is, it mounts the socket of the provider, and the client of
/// that provider runs beside it.
pub proof fn law_security_module_is_used(node: StellarNode, ctx: NodeContext)
    ensures
        hsm_of(node) is Some <==> node.spec.node_type == NodeType::Validator
            && node.spec.validator_config is Some && node.spec.validator_config->0.hsm_config
            is Some,
        hsm_of(node) is Some ==> hsm_of(node) == node.spec.validator_config->0.hsm_config,
        hsm_of(node) is None ==> hsm_env(node).len() == 0 && hsm_mounts(node).len() == 0,
        hsm_of(node) is Some ==> {
            let c = hsm_of(node)->0;
            &&& hsm_env(node).len() >= 1 && hsm_env(node)[0] == env_value_doc(
                "PKCS11_MODULE_PATH"@,
                c.pkcs11_lib_path@,
            )
            &&& c.hsm_ip is Some ==> hsm_env(node).len() >= 2 && hsm_env(node)[1] == env_value_doc(
                "HSM_IP_ADDRESS"@,
                c.hsm_ip->0@,
            )
            &&& c.hsm_credentials_secret_ref is Some ==> hsm_env(node).len() >= 3
                && hsm_env(node).last() == env_secret_optional_doc(
                "HSM_USER"@,
                c.hsm_credentials_secret_ref->0@,
                "HSM_USER"@,
                true,
            )
            &&& c.provider == HsmProvider::AWS ==> hsm_mounts(node) == seq![
                mount_doc("cloudhsm-socket"@, "/var/run/cloudhsm"@),
            ]
            &&& c.provider == HsmProvider::Azure ==> hsm_mounts(node) == seq![
                mount_doc("dedicatedhsm-socket"@, "/var/run/dedicatedhsm"@),
            ]
        },
{
    if let Some(c) = hsm_of(node) {
        if c.provider == HsmProvider::AWS {
            assert(hsm_mounts(node) =~= seq![
                mount_doc("cloudhsm-socket"@, "/var/run/cloudhsm"@),
            ]);
        } else {
            assert(hsm_mounts(node) =~= seq![
                mount_doc("dedicatedhsm-socket"@, "/var/run/dedicatedhsm"@),
            ]);
        }
    }
}

/// The sidecars that come first: one that follows the ledger where recovery
/// streams it, the client of a security module, and one that opens a way through
/// an address translation where that is enabled.
pub proof fn law_leading_sidecars(node: StellarNode, ctx: NodeContext)
    ensures
        ({
            let s = leading_sidecars(node, ctx);
            let streamed = node.spec.dr_config is Some && node.spec.dr_config->0.enabled
                && node.spec.dr_config->0.sync_strategy == DRSyncStrategy::StreamingLedger;
            let opened = node.spec.nat_traversal is Some && node.spec.nat_traversal->0.enabled;
            &&& s.len() == (if streamed {
                1int
            } else {
                0
            }) + (if hsm_of(node) is Some {
                1int
            } else {
                0
            }) + (if opened {
                1int
            } else {
                0
            })
            &&& streamed ==> s[0] == ctx.state_sync_sidecar@
            &&& opened ==> s.last().member("name"@) == Some(Doc::Text("nat-traversal"@))
            &&& opened && node.spec.nat_traversal->0.sidecar_image is Some ==> s.last().member(
                "image"@,
            ) == Some(Doc::Text(node.spec.nat_traversal->0.sidecar_image->0@))
        }),
{
    broadcast use group_members;

    reveal_strlit("name");
    reveal_strlit("image");
    reveal_strlit("env");
    reveal_strlit("securityContext");
}

/// A way through an address translation is opened with the servers and the
/// credentials that are named.
pub proof fn law_way_is_opened_with_its_servers(c: NatTraversalConfig)
    ensures
        ({
            let s = nat_env(c);
            &&& s.len() >= 1
            &&& c.enable_ice ==> s[0] == env_value_doc("ENABLE_ICE"@, "true"@)
            &&& !c.enable_ice ==> s[0] == env_value_doc("ENABLE_ICE"@, "false"@)
            &&& c.stun_server is Some ==> s.len() >= 2 && s[1] == env_value_doc(
                "STUN_SERVER"@,
                c.stun_server->0@,
            )
            &&& c.turn_server is Some ==> s.contains(
                env_value_doc("TURN_SERVER"@, c.turn_server->0@),
            )
            &&& c.turn_credentials_secret_ref is Some ==> s.last() == env_secret_optional_doc(
                "TURN_PASSWORD"@,
                c.turn_credentials_secret_ref->0@,
                "password"@,
                false,
            )
        }),
{
    let s = nat_env(c);
    if c.turn_server is Some {
        if c.stun_server is Some {
            assert(s[2] == env_value_doc("TURN_SERVER"@, c.turn_server->0@));
        } else {
            assert(s[1] == env_value_doc("TURN_SERVER"@, c.turn_server->0@));
        }
    }
}

/// Logs are shipped to the bucket that is named, in the batches and at the pace
/// that are asked for.
pub proof fn law_logs_are_shipped_to_their_bucket(c: LogShipperConfig)
    ensures
        ({
            let s = shipper_env(c);
            &&& s.len() >= 6
            &&& s[0] == env_value_doc("S3_BUCKET"@, c.s3_bucket@)
            &&& c.s3_prefix is Some ==> s[1] == env_value_doc("S3_PREFIX"@, c.s3_prefix->0@)
            &&& c.s3_region is Some ==> s[2] == env_value_doc("S3_REGION"@, c.s3_region->0@)
            &&& s[3] == env_value_doc("BATCH_SIZE_LINES"@, decimal(c.batch_size_lines as int))
            &&& s[4] == env_value_doc(
                "FLUSH_INTERVAL_SECS"@,
                decimal(c.flush_interval_secs as int),
            )
            &&& c.credentials_secret_ref is Some <==> s.len() == 8
        }),
{
}

/// Keys are fetched from the service and the provider that are named, to where
/// the validator looks for its seed.
pub proof fn law_keys_are_fetched(c: KmsConfig)
    ensures
        ({
            let s = kms_env(c)->List_0;
            &&& kms_env(c) is List && s.len() == 4
            &&& s[0] == env_value_doc("KMS_KEY_ID"@, c.key_id@)
            &&& s[1] == env_value_doc("KMS_PROVIDER"@, c.provider@)
            &&& s[2].member("value"@) == opt_text_doc(c.region)
            &&& s[3] == env_value_doc("KEY_OUTPUT_PATH"@, "/keys/validator-seed"@)
        }),
{
    broadcast use group_members;

    reveal_strlit("name");
    reveal_strlit("value");
}

/// A validator avoids the hosts of its quorum where it is asked to and knows its
/// quorum.
pub proof fn law_when_a_quorum_is_avoided(node: StellarNode, ctx: NodeContext)
    ensures
        quorum_terms(node, ctx).len() > 0 ==> node.spec.node_type == NodeType::Validator
            && node.spec.placement.scp_aware_anti_affinity && node.spec.validator_config is Some
            && node.spec.validator_config->0.quorum_set is Some,
        node.spec.node_type == NodeType::Validator && node.spec.placement.scp_aware_anti_affinity
            && node.spec.validator_config is Some && node.spec.validator_config->0.quorum_set
            is Some ==> quorum_terms(node, ctx).len() == ctx.quorum_peers@.len(),
{
    lemma_peer_terms(ctx.quorum_peers@, ctx.quorum_peers@.len() as int, 0);
}

/// The container that migrates a database is the node's, with a name and a
/// command of its own, and is not probed.
pub proof fn law_migration_is_the_nodes(node: StellarNode, version: Seq<char>, ctx: NodeContext)
    ensures
        ({
            let d = migration_container(node, version, ctx);
            &&& d.member("name"@) == Some(Doc::Text("horizon-db-migration"@))
            &&& d.member("image"@) == Some(Doc::Text(image_of(node.spec.node_type, version)))
            &&& d.member("env"@) == Some(Doc::List(container_env(node, false, ctx)))
            &&& d.member("livenessProbe"@) is None
            &&& d.member("readinessProbe"@) is None
            &&& d.member("startupProbe"@) is None
            &&& d.member("ports"@) is None
        }),
{
    broadcast use group_members;
    broadcast use group_removals;

    reveal_strlit("name");
    reveal_strlit("image");
    reveal_strlit("ports");
    reveal_strlit("env");
    reveal_strlit("resources");
    reveal_strlit("securityContext");
    reveal_strlit("volumeMounts");
    reveal_strlit("livenessProbe");
    reveal_strlit("readinessProbe");
    reveal_strlit("startupProbe");
    reveal_strlit("command");
    reveal_strlit("args");
    reveal_strlit("lifecycle");
    assert("image"@[0] == 'i');
    assert("ports"@[0] == 'p');
    assert("volumeMounts"@[0] == 'v');
    assert("startupProbe"@[0] == 's');
    assert("name"@[0] == 'n');
    assert("args"@[0] == 'a');
    assert("resources"@[0] == 'r');
    assert("lifecycle"@[0] == 'l');
}

proof fn lemma_profiles(d: Doc, containers: Seq<Doc>, n: int, i: int)
    requires
        is_object(d),
        0 <= n <= containers.len(),
    ensures
        is_object(with_profiles(d, containers, n)),
        0 <= i < n ==> with_profiles(d, containers, n).member(
            "container.apparmor.security.beta.kubernetes.io/"@ + name_of(containers[i]),
        ) == Some(Doc::Text("runtime/default"@)),
    decreases n,
{
    broadcast use group_members;

    if n > 0 {
        lemma_profiles(d, containers, n - 1, i);
    }
}

/// Every container of a pod runs under the default profile.
pub proof fn law_every_container_has_its_profile(
    init: Option<Seq<Doc>>,
    containers: Seq<Doc>,
    i: int,
)
    requires
        0 <= i < containers.len(),
    ensures
        pod_annotations_doc(init, containers, None).member(
            "container.apparmor.security.beta.kubernetes.io/"@ + name_of(containers[i]),
        ) == Some(Doc::Text("runtime/default"@)),
{
    let base = match init {
        Some(s) => with_profiles(Doc::object(), s, s.len() as int),
        None => Doc::object(),
    };
    if let Some(s) = init {
        lemma_profiles(Doc::object(), s, s.len() as int, 0);
    }
    lemma_profiles(base, containers, containers.len() as int, i);
}

} // verus!
