//! Fragments that several manifests share.

use vstd::prelude::*;
use vstd::string::*;
use crate::controller::context::NodeContext;
use crate::crd::stellar_node::StellarNode;
use crate::crd::types::{NodeType, ProbeOverride};
use crate::json::{Doc, Json, at2, at3, docs, group_members, has_item, is_object};
use crate::str_map::{
    StrMap, ascending, entry, lemma_distinct, lemma_entry_found, lemma_entry_missing, lemma_slot,
    slot,
};
use crate::text::{
    begins_with, cat3, ends_in, has_text, law_only_occurrences_are_replaced, occurs_at, replace,
    replaced,
};

verus! {

pub const DIAGNOSTIC_SIDECAR_DEFAULT_CPU: &'static str = "50m";

pub const DIAGNOSTIC_SIDECAR_DEFAULT_MEMORY: &'static str = "64Mi";

/// The text, or `d` where there is none.
pub open spec fn opt_text_or(s: Option<String>, d: Seq<char>) -> Seq<char> {
    match s {
        Some(t) => t@,
        None => d,
    }
}

pub fn text_or<'a>(s: &'a Option<String>, d: &'a str) -> (r: &'a str)
    ensures
        r@ == opt_text_or(*s, d@),
{
    match s {
        Some(t) => t.as_str(),
        None => d,
    }
}

/// The text as a value, where there is one.
pub open spec fn opt_text_doc(s: Option<String>) -> Option<Doc> {
    match s {
        Some(t) => Some(Doc::text(t@)),
        None => None,
    }
}

pub fn opt_text(s: &Option<String>) -> (r: Option<Json>)
    ensures
        opt_doc(r) == opt_text_doc(*s),
{
    match s {
        Some(t) => Some(Json::text(t)),
        None => None,
    }
}

/// What an optional value says.
pub open spec fn opt_doc(j: Option<Json>) -> Option<Doc> {
    match j {
        Some(v) => Some(v@),
        None => None,
    }
}

pub fn opt_copy(j: &Option<Json>) -> (r: Option<Json>)
    ensures
        opt_doc(r) == opt_doc(*j),
{
    match j {
        Some(v) => Some(v.clone()),
        None => None,
    }
}

/// The integer as a value, where there is one.
pub open spec fn opt_number_doc(n: Option<i32>) -> Option<Doc> {
    match n {
        Some(v) => Some(Doc::number(v as int)),
        None => None,
    }
}

pub fn opt_number(n: Option<i32>) -> (r: Option<Json>)
    ensures
        opt_doc(r) == opt_number_doc(n),
{
    match n {
        Some(v) => Some(Json::number(v as i64)),
        None => None,
    }
}

/// A copy of a list of values.
pub fn copies(v: &Vec<Json>) -> (r: Vec<Json>)
    ensures
        docs(r@) == docs(v@),
{
    let mut r: Vec<Json> = Vec::new();
    let mut i: usize = 0;
    while i < v.len()
        invariant
            i <= v.len(),
            docs(r@) == docs(v@).subrange(0, i as int),
        decreases v@.len() - i,
    {
        push(&mut r, v[i].clone());
        i = i + 1;
        assert(docs(v@).subrange(0, i as int) =~= docs(v@).subrange(0, i as int - 1).push(
            docs(v@)[i as int - 1],
        ));
    }
    assert(docs(v@).subrange(0, v@.len() as int) =~= docs(v@));
    r
}

/// Appends a value.
pub fn push(v: &mut Vec<Json>, x: Json)
    ensures
        docs(final(v)@) == docs(old(v)@).push(x@),
{
    v.push(x);
    assert(docs(v@) =~= docs(old(v)@).push(x@));
}

/// Appends values.
pub fn extend(v: &mut Vec<Json>, w: Vec<Json>)
    ensures
        docs(final(v)@) == docs(old(v)@) + docs(w@),
{
    let mut w = w;
    let ghost added = w@;
    v.append(&mut w);
    assert(docs(v@) =~= docs(old(v)@) + docs(added));
}

/// No values.
pub fn none() -> (r: Vec<Json>)
    ensures
        docs(r@) == Seq::<Doc>::empty(),
{
    let r: Vec<Json> = Vec::new();
    assert(docs(r@) =~= Seq::<Doc>::empty());
    r
}

/// One value.
pub fn one(x: Json) -> (r: Vec<Json>)
    ensures
        docs(r@) == Seq::<Doc>::empty().push(x@),
{
    let mut r = none();
    push(&mut r, x);
    r
}

/// The object `d` with every entry of the first `n` set in it.
pub open spec fn with_texts(d: Doc, s: Seq<(Seq<char>, String)>, n: int) -> Doc
    decreases n,
{
    if n <= 0 {
        d
    } else {
        with_texts(d, s, n - 1).with(s[n - 1].0, Doc::text(s[n - 1].1@))
    }
}

/// The object `d` with every entry of the map set in it.
pub open spec fn with_all_doc(d: Doc, m: StrMap<String>) -> Doc {
    with_texts(d, m.list(), m.list().len() as int)
}

pub fn with_all(d: Json, m: &StrMap<String>) -> (r: Json)
    ensures
        r@ == with_all_doc(d@, *m),
{
    let ghost start = d@;
    let mut d = d;
    let n = m.len();
    let mut i: usize = 0;
    while i < n
        invariant
            i <= n,
            n == m.list().len(),
            d@ == with_texts(start, m.list(), i as int),
        decreases n - i,
    {
        d = d.with(m.key_at(i), Json::text(m.value_at(i)));
        i = i + 1;
    }
    d
}

/// The object that holds the entries of the map, where there is one.
pub open spec fn map_or_empty_doc(m: Option<StrMap<String>>) -> Doc {
    match m {
        Some(t) => with_all_doc(Doc::object(), t),
        None => Doc::object(),
    }
}

pub fn map_or_empty(m: &Option<StrMap<String>>) -> (r: Json)
    ensures
        r@ == map_or_empty_doc(*m),
{
    match m {
        Some(t) => with_all(Json::object(), t),
        None => Json::object(),
    }
}

/// The object, unless it has no members.
pub open spec fn unless_empty_doc(d: Doc) -> Option<Doc> {
    match d {
        Doc::Object(s) => if s.len() == 0 {
            None
        } else {
            Some(d)
        },
        _ => Some(d),
    }
}

pub fn unless_empty(d: Json) -> (r: Option<Json>)
    ensures
        opt_doc(r) == unless_empty_doc(d@),
{
    match d {
        Json::Object(m) => {
            if m.len() == 0 {
                None
            } else {
                Some(Json::Object(m))
            }
        },
        other => Some(other),
    }
}

/// The namespace as a value, where the node has one.
pub open spec fn namespace_doc(node: StellarNode) -> Option<Doc> {
    opt_text_doc(node.namespace)
}

pub fn namespace_value(node: &StellarNode) -> (r: Option<Json>)
    ensures
        opt_doc(r) == namespace_doc(*node),
{
    opt_text(&node.namespace)
}

/// The namespace that the node's resources are in.
pub open spec fn namespace_of(node: StellarNode) -> Seq<char> {
    opt_text_or(node.namespace, "default"@)
}

pub fn namespace_or_default(node: &StellarNode) -> (r: &str)
    ensures
        r@ == namespace_of(*node),
{
    text_or(&node.namespace, "default")
}

/// The name of a component of the node.
pub open spec fn resource_name_of(node: StellarNode, suffix: Seq<char>) -> Seq<char> {
    node.name@ + "-"@ + suffix
}

/// The name of a component of the node.
pub fn resource_name(node: &StellarNode, suffix: &str) -> (r: String)
    ensures
        r@ == resource_name_of(*node, suffix@),
{
    cat3(&node.name, "-", suffix)
}

/// An environment variable with a plain value.
pub open spec fn env_value_doc(name: Seq<char>, value: Seq<char>) -> Doc {
    Doc::object()
        .with("name"@, Doc::text(name))
        .with("value"@, Doc::text(value))
}

pub fn env_value(name: &str, value: &str) -> (r: Json)
    ensures
        r@ == env_value_doc(name@, value@),
{
    Json::object()
        .with("name", Json::text(name))
        .with("value", Json::text(value))
}

/// A key of a secret.
pub open spec fn secret_key_doc(secret: Seq<char>, key: Seq<char>) -> Doc {
    Doc::object()
        .with("key"@, Doc::text(key))
        .with("name"@, Doc::text(secret))
}

pub fn secret_key(secret: &str, key: &str) -> (r: Json)
    ensures
        r@ == secret_key_doc(secret@, key@),
{
    Json::object()
        .with("key", Json::text(key))
        .with("name", Json::text(secret))
}

/// An environment variable with the value of a secret's key.
pub open spec fn env_secret_doc(name: Seq<char>, secret: Seq<char>, key: Seq<char>) -> Doc {
    Doc::object()
        .with("name"@, Doc::text(name))
        .with(
            "valueFrom"@,
            Doc::object()
                .with("secretKeyRef"@, secret_key_doc(secret, key)),
        )
}

pub fn env_secret(name: &str, secret: &str, key: &str) -> (r: Json)
    ensures
        r@ == env_secret_doc(name@, secret@, key@),
{
    Json::object()
        .with("name", Json::text(name))
        .with(
            "valueFrom",
            Json::object()
                .with("secretKeyRef", secret_key(secret, key)),
        )
}

/// An environment variable with the value of a secret's key, which may or
/// may not be allowed to be missing.
pub open spec fn env_secret_optional_doc(name: Seq<char>, secret: Seq<char>, key: Seq<char>, optional: bool) -> Doc {
    Doc::object()
        .with("name"@, Doc::text(name))
        .with(
            "valueFrom"@,
            Doc::object()
                .with("secretKeyRef"@, secret_key_doc(secret, key).with("optional"@, Doc::Bool(optional))),
        )
}

pub fn env_secret_optional(name: &str, secret: &str, key: &str, optional: bool) -> (r: Json)
    ensures
        r@ == env_secret_optional_doc(name@, secret@, key@, optional),
{
    Json::object()
        .with("name", Json::text(name))
        .with(
            "valueFrom",
            Json::object()
                .with("secretKeyRef", secret_key(secret, key).with("optional", Json::flag(optional))),
        )
}

/// An environment variable with the value of a field of the pod.
pub open spec fn env_field_doc(name: Seq<char>, path: Seq<char>) -> Doc {
    Doc::object()
        .with("name"@, Doc::text(name))
        .with(
            "valueFrom"@,
            Doc::object()
                .with(
                    "fieldRef"@,
                    Doc::object()
                        .with("fieldPath"@, Doc::text(path)),
                ),
        )
}

pub fn env_field(name: &str, path: &str) -> (r: Json)
    ensures
        r@ == env_field_doc(name@, path@),
{
    Json::object()
        .with("name", Json::text(name))
        .with(
            "valueFrom",
            Json::object()
                .with(
                    "fieldRef",
                    Json::object()
                        .with("fieldPath", Json::text(path)),
                ),
        )
}

/// A volume mount.
pub open spec fn mount_doc(name: Seq<char>, path: Seq<char>) -> Doc {
    Doc::object()
        .with("mountPath"@, Doc::text(path))
        .with("name"@, Doc::text(name))
}

pub fn mount(name: &str, path: &str) -> (r: Json)
    ensures
        r@ == mount_doc(name@, path@),
{
    Json::object()
        .with("mountPath", Json::text(path))
        .with("name", Json::text(name))
}

/// A volume mount that is read-only or not.
pub open spec fn mount_mode_doc(name: Seq<char>, path: Seq<char>, read_only: bool) -> Doc {
    mount_doc(name, path).with("readOnly"@, Doc::Bool(read_only))
}

pub fn mount_mode(name: &str, path: &str, read_only: bool) -> (r: Json)
    ensures
        r@ == mount_mode_doc(name@, path@, read_only),
{
    mount(name, path).with("readOnly", Json::flag(read_only))
}

/// A volume in memory.
pub open spec fn memory_volume_doc(name: Seq<char>) -> Doc {
    Doc::object()
        .with(
            "emptyDir"@,
            Doc::object()
                .with("medium"@, Doc::text("Memory"@)),
        )
        .with("name"@, Doc::text(name))
}

pub fn memory_volume(name: &str) -> (r: Json)
    ensures
        r@ == memory_volume_doc(name@),
{
    Json::object()
        .with(
            "emptyDir",
            Json::object()
                .with("medium", Json::text("Memory")),
        )
        .with("name", Json::text(name))
}

/// An empty volume.
pub open spec fn scratch_volume_doc(name: Seq<char>) -> Doc {
    Doc::object()
        .with("emptyDir"@, Doc::object())
        .with("name"@, Doc::text(name))
}

pub fn scratch_volume(name: &str) -> (r: Json)
    ensures
        r@ == scratch_volume_doc(name@),
{
    Json::object()
        .with("emptyDir", Json::object())
        .with("name", Json::text(name))
}

/// A volume that is a path of the host.
pub open spec fn host_volume_doc(name: Seq<char>, path: Seq<char>, kind: Seq<char>) -> Doc {
    Doc::object()
        .with(
            "hostPath"@,
            Doc::object()
                .with("path"@, Doc::text(path))
                .with("type"@, Doc::text(kind)),
        )
        .with("name"@, Doc::text(name))
}

pub fn host_volume(name: &str, path: &str, kind: &str) -> (r: Json)
    ensures
        r@ == host_volume_doc(name@, path@, kind@),
{
    Json::object()
        .with(
            "hostPath",
            Json::object()
                .with("path", Json::text(path))
                .with("type", Json::text(kind)),
        )
        .with("name", Json::text(name))
}

/// Amounts of CPU and memory.
pub open spec fn amounts_doc(cpu: Seq<char>, memory: Seq<char>) -> Doc {
    Doc::object()
        .with("cpu"@, Doc::text(cpu))
        .with("memory"@, Doc::text(memory))
}

pub fn amounts(cpu: &str, memory: &str) -> (r: Json)
    ensures
        r@ == amounts_doc(cpu@, memory@),
{
    Json::object()
        .with("cpu", Json::text(cpu))
        .with("memory", Json::text(memory))
}

/// The default seccomp profile of the container runtime.
pub open spec fn runtime_default_doc() -> Doc {
    Doc::object()
        .with("type"@, Doc::text("RuntimeDefault"@))
}

pub fn runtime_default() -> (r: Json)
    ensures
        r@ == runtime_default_doc(),
{
    Json::object()
        .with("type", Json::text("RuntimeDefault"))
}

/// No capabilities at all.
pub open spec fn drop_all_doc() -> Doc {
    Doc::object()
        .with("drop"@, Doc::list().and(Doc::text("ALL"@)))
}

pub fn drop_all() -> (r: Json)
    ensures
        r@ == drop_all_doc(),
{
    Json::object()
        .with("drop", Json::list().and(Json::text("ALL")))
}

/// The security context of a confined container.
pub open spec fn confined_doc() -> Doc {
    Doc::object()
        .with("allowPrivilegeEscalation"@, Doc::Bool(false))
        .with("capabilities"@, drop_all_doc())
        .with("privileged"@, Doc::Bool(false))
        .with("runAsNonRoot"@, Doc::Bool(true))
        .with("seccompProfile"@, runtime_default_doc())
}

pub fn confined() -> (r: Json)
    ensures
        r@ == confined_doc(),
{
    Json::object()
        .with("allowPrivilegeEscalation", Json::flag(false))
        .with("capabilities", drop_all())
        .with("privileged", Json::flag(false))
        .with("runAsNonRoot", Json::flag(true))
        .with("seccompProfile", runtime_default())
}

/// The security context of a confined container whose root file system is
/// read-only.
pub open spec fn confined_read_only_doc() -> Doc {
    confined_doc().with("readOnlyRootFilesystem"@, Doc::Bool(true))
}

pub fn confined_read_only() -> (r: Json)
    ensures
        r@ == confined_read_only_doc(),
{
    confined().with("readOnlyRootFilesystem", Json::flag(true))
}

/// A probe by an HTTP request.
pub open spec fn http_probe_doc(path: Seq<char>, port: int) -> Doc {
    Doc::object()
        .with(
            "httpGet"@,
            Doc::object()
                .with("path"@, Doc::text(path))
                .with("port"@, Doc::number(port)),
        )
}

pub fn http_probe(path: &str, port: i64) -> (r: Json)
    ensures
        r@ == http_probe_doc(path@, port as int),
{
    Json::object()
        .with(
            "httpGet",
            Json::object()
                .with("path", Json::text(path))
                .with("port", Json::number(port)),
        )
}

/// A probe by a TCP connection.
pub open spec fn tcp_probe_doc(port: int) -> Doc {
    Doc::object()
        .with(
            "tcpSocket"@,
            Doc::object()
                .with("port"@, Doc::number(port)),
        )
}

pub fn tcp_probe(port: i64) -> (r: Json)
    ensures
        r@ == tcp_probe_doc(port as int),
{
    Json::object()
        .with(
            "tcpSocket",
            Json::object()
                .with("port", Json::number(port)),
        )
}

/// A probe with its delay, period and timeout.
pub open spec fn probe_times_doc(probe: Doc, delay: int, period: int, timeout: int) -> Doc {
    probe
        .with("initialDelaySeconds"@, Doc::number(delay))
        .with("periodSeconds"@, Doc::number(period))
        .with("timeoutSeconds"@, Doc::number(timeout))
}

pub fn probe_times(probe: Json, delay: i64, period: i64, timeout: i64) -> (r: Json)
    ensures
        r@ == probe_times_doc(probe@, delay as int, period as int, timeout as int),
{
    probe
        .with("initialDelaySeconds", Json::number(delay))
        .with("periodSeconds", Json::number(period))
        .with("timeoutSeconds", Json::number(timeout))
}

/// A selector by labels.
pub open spec fn match_labels_doc(labels: Doc) -> Doc {
    Doc::object()
        .with("matchLabels"@, labels)
}

pub fn match_labels(labels: Json) -> (r: Json)
    ensures
        r@ == match_labels_doc(labels@),
{
    Json::object()
        .with("matchLabels", labels)
}

/// A single label.
pub open spec fn label_doc(key: Seq<char>, value: Seq<char>) -> Doc {
    Doc::object().with(key, Doc::text(value))
}

pub fn label(key: &str, value: &str) -> (r: Json)
    ensures
        r@ == label_doc(key@, value@),
{
    Json::object().with(key, Json::text(value))
}

/// The reference by which a resource belongs to its node.
pub open spec fn owner_reference_doc(node: StellarNode) -> Doc {
    Doc::object()
        .with("apiVersion"@, Doc::text("stellar.org/v1alpha1"@))
        .with("blockOwnerDeletion"@, Doc::Bool(true))
        .with("controller"@, Doc::Bool(true))
        .with("kind"@, Doc::text("StellarNode"@))
        .with("name"@, Doc::text(node.name@))
        .with("uid"@, Doc::text(opt_text_or(node.uid, ""@)))
}

pub fn owner_reference(node: &StellarNode) -> (r: Json)
    ensures
        r@ == owner_reference_doc(*node),
{
    Json::object()
        .with("apiVersion", Json::text("stellar.org/v1alpha1"))
        .with("blockOwnerDeletion", Json::flag(true))
        .with("controller", Json::flag(true))
        .with("kind", Json::text("StellarNode"))
        .with("name", Json::text(&node.name))
        .with("uid", Json::text(text_or(&node.uid, "")))
}

/// The labels that every resource of a node carries.
pub open spec fn standard_labels_doc(node: StellarNode, ctx: NodeContext) -> Doc {
    Doc::object()
        .with("app.kubernetes.io/name"@, Doc::text("stellar-node"@))
        .with("app.kubernetes.io/instance"@, Doc::text(node.name@))
        .with("app.kubernetes.io/component"@, Doc::text(node.spec.node_type.component()))
        .with("app.kubernetes.io/managed-by"@, Doc::text("stellar-operator"@))
        .with("stellar.org/node-type"@, Doc::text(node.spec.node_type.name()))
        .with("stellar-network"@, Doc::text(ctx.network_label@))
}

pub fn standard_labels(node: &StellarNode, ctx: &NodeContext) -> (r: Json)
    ensures
        r@ == standard_labels_doc(*node, *ctx),
{
    Json::object()
        .with("app.kubernetes.io/name", Json::text("stellar-node"))
        .with("app.kubernetes.io/instance", Json::text(&node.name))
        .with("app.kubernetes.io/component", Json::text(node.spec.node_type.component_str()))
        .with("app.kubernetes.io/managed-by", Json::text("stellar-operator"))
        .with("stellar.org/node-type", Json::text(node.spec.node_type.as_str()))
        .with("stellar-network", Json::text(&ctx.network_label))
}

/// The metadata of a resource of a node.
pub open spec fn metadata_doc(node: StellarNode, name: Seq<char>, labels: Doc) -> Doc {
    Doc::object()
        .with("name"@, Doc::text(name))
        .with_some("namespace"@, namespace_doc(node))
        .with("labels"@, labels)
        .with("ownerReferences"@, Doc::list().and(owner_reference_doc(node)))
}

pub fn metadata(node: &StellarNode, name: &str, labels: Json) -> (r: Json)
    ensures
        r@ == metadata_doc(*node, name@, labels@),
{
    Json::object()
        .with("name", Json::text(name))
        .with_some("namespace", namespace_value(node))
        .with("labels", labels)
        .with("ownerReferences", Json::list().and(owner_reference(node)))
}

/// A probe of the peer port.
pub open spec fn tcp_liveness_doc(delay: int, period: int, failures: int) -> Doc {
    probe_times_doc(tcp_probe_doc(11625), delay, period, 5)
        .with("failureThreshold"@, Doc::number(failures))
        .with("successThreshold"@, Doc::number(1))
}

pub fn tcp_liveness(delay: i64, period: i64, failures: i64) -> (r: Json)
    ensures
        r@ == tcp_liveness_doc(delay as int, period as int, failures as int),
{
    probe_times(tcp_probe(11625), delay, period, 5)
        .with("failureThreshold", Json::number(failures))
        .with("successThreshold", Json::number(1))
}

/// A probe of the health endpoint.
pub open spec fn http_liveness_doc(delay: int, period: int, failures: int) -> Doc {
    probe_times_doc(http_probe_doc("/health"@, 8000), delay, period, 5)
        .with("failureThreshold"@, Doc::number(failures))
        .with("successThreshold"@, Doc::number(1))
}

pub fn http_liveness(delay: i64, period: i64, failures: i64) -> (r: Json)
    ensures
        r@ == http_liveness_doc(delay as int, period as int, failures as int),
{
    probe_times(http_probe("/health", 8000), delay, period, 5)
        .with("failureThreshold", Json::number(failures))
        .with("successThreshold", Json::number(1))
}

/// A probe that fails while the node is catching up or syncing.
pub open spec fn sync_probe_doc() -> Doc {
    probe_times_doc(Doc::object()
        .with(
            "exec"@,
            Doc::object()
                .with(
                    "command"@,
                    Doc::list().and(Doc::text("/bin/sh"@)).and(Doc::text("-c"@)).and(Doc::text("RESP=$(wget -qO- http://localhost:11626/info 2>/dev/null) && echo \"$RESP\" | grep -qv '\"state\".*\"CATCHING_UP\"' && echo \"$RESP\" | grep -qv '\"state\".*\"SYNCING\"'"@)),
                ),
        ), 15, 10, 5)
        .with("failureThreshold"@, Doc::number(3))
        .with("successThreshold"@, Doc::number(1))
}

pub fn sync_probe() -> (r: Json)
    ensures
        r@ == sync_probe_doc(),
{
    probe_times(Json::object()
        .with(
            "exec",
            Json::object()
                .with(
                    "command",
                    Json::list().and(Json::text("/bin/sh")).and(Json::text("-c")).and(Json::text("RESP=$(wget -qO- http://localhost:11626/info 2>/dev/null) && echo \"$RESP\" | grep -qv '\"state\".*\"CATCHING_UP\"' && echo \"$RESP\" | grep -qv '\"state\".*\"SYNCING\"'")),
                ),
        ), 15, 10, 5)
        .with("failureThreshold", Json::number(3))
        .with("successThreshold", Json::number(1))
}

/// The default liveness probe of a node type: the peer port of a validator,
/// the health endpoint of any other node.
pub open spec fn default_liveness_probe_doc(t: NodeType) -> Doc {
    match t {
        NodeType::Validator => tcp_liveness_doc(30, 15, 3),
        _ => http_liveness_doc(20, 15, 3),
    }
}

pub fn default_liveness_probe(t: NodeType) -> (r: Json)
    ensures
        r@ == default_liveness_probe_doc(t),
{
    match t {
        NodeType::Validator => tcp_liveness(30, 15, 3),
        _ => http_liveness(20, 15, 3),
    }
}

/// The default readiness probe of a node type: a validator is ready when it
/// is in sync.
pub open spec fn default_readiness_probe_doc(t: NodeType) -> Doc {
    match t {
        NodeType::Validator => sync_probe_doc(),
        _ => http_liveness_doc(10, 10, 3),
    }
}

pub fn default_readiness_probe(t: NodeType) -> (r: Json)
    ensures
        r@ == default_readiness_probe_doc(t),
{
    match t {
        NodeType::Validator => sync_probe(),
        _ => http_liveness(10, 10, 3),
    }
}

/// The default startup probe of a node type, which allows five minutes for
/// the first ledger sync.
pub open spec fn default_startup_probe_doc(t: NodeType) -> Doc {
    match t {
        NodeType::Validator => tcp_liveness_doc(10, 10, 30),
        _ => http_liveness_doc(10, 10, 30),
    }
}

pub fn default_startup_probe(t: NodeType) -> (r: Json)
    ensures
        r@ == default_startup_probe_doc(t),
{
    match t {
        NodeType::Validator => tcp_liveness(10, 10, 30),
        _ => http_liveness(10, 10, 30),
    }
}

/// A probe with the thresholds of an override in place of its own. Without an
/// override the probe is unchanged; without a probe the override makes one.
pub open spec fn overridden_probe(base: Option<Doc>, cfg: Option<ProbeOverride>) -> Option<Doc> {
    match cfg {
        Some(c) => {
            let probe = match base {
                Some(d) => d,
                None => Doc::object(),
            };
            Some(
                probe
                    .with_some("initialDelaySeconds"@, opt_number_doc(c.initial_delay_seconds))
                    .with_some("periodSeconds"@, opt_number_doc(c.period_seconds))
                    .with_some("timeoutSeconds"@, opt_number_doc(c.timeout_seconds))
                    .with_some("successThreshold"@, opt_number_doc(c.success_threshold))
                    .with_some("failureThreshold"@, opt_number_doc(c.failure_threshold)),
            )
        },
        None => base,
    }
}

pub fn apply_probe_override(base: Option<Json>, cfg: Option<ProbeOverride>) -> (r: Option<Json>)
    ensures
        opt_doc(r) == overridden_probe(opt_doc(base), cfg),
{
    match cfg {
        Some(c) => {
            let probe = match base {
                Some(j) => j,
                None => Json::object(),
            };
            Some(
                probe
                    .with_some("initialDelaySeconds", opt_number(c.initial_delay_seconds))
                    .with_some("periodSeconds", opt_number(c.period_seconds))
                    .with_some("timeoutSeconds", opt_number(c.timeout_seconds))
                    .with_some("successThreshold", opt_number(c.success_threshold))
                    .with_some("failureThreshold", opt_number(c.failure_threshold)),
            )
        },
        None => base,
    }
}

/// A value with the node's name, namespace, type and network in place of
/// their placeholders.
pub open spec fn rendered(value: Seq<char>, node: StellarNode, ctx: NodeContext) -> Seq<char> {
    let namespace = opt_text_or(node.namespace, ""@);
    let kind = node.spec.node_type.name();
    let network = ctx.network_name@;
    let r = replaced(replaced(value, "{{name}}"@, node.name@), "${name}"@, node.name@);
    let r = replaced(replaced(r, "{{namespace}}"@, namespace), "${namespace}"@, namespace);
    let r = replaced(replaced(r, "{{nodeType}}"@, kind), "${nodeType}"@, kind);
    replaced(replaced(r, "{{network}}"@, network), "${network}"@, network)
}

pub fn render_annotation_template(value: &str, node: &StellarNode, ctx: &NodeContext) -> (r: String)
    ensures
        r@ == rendered(value@, *node, *ctx),
{
    proof {
        reveal_strlit("{{name}}");
        reveal_strlit("${name}");
        reveal_strlit("{{namespace}}");
        reveal_strlit("${namespace}");
        reveal_strlit("{{nodeType}}");
        reveal_strlit("${nodeType}");
        reveal_strlit("{{network}}");
        reveal_strlit("${network}");
    }
    let namespace = text_or(&node.namespace, "");
    let kind = node.spec.node_type.as_str();
    let r = replace(&replace(value, "{{name}}", &node.name), "${name}", &node.name);
    let r = replace(&replace(&r, "{{namespace}}", namespace), "${namespace}", namespace);
    let r = replace(&replace(&r, "{{nodeType}}", kind), "${nodeType}", kind);
    replace(
        &replace(&r, "{{network}}", &ctx.network_name),
        "${network}",
        &ctx.network_name,
    )
}

/// The object with the member `k`, which is `v` only where it had none.
pub open spec fn with_absent(d: Doc, k: Seq<char>, v: Doc) -> Doc {
    if d.member(k) is None {
        d.with(k, v)
    } else {
        d
    }
}

/// The annotations with the first `n` of the service's, rendered, where they
/// are not set yet.
pub open spec fn with_rendered(
    d: Doc,
    s: Seq<(Seq<char>, String)>,
    n: int,
    node: StellarNode,
    ctx: NodeContext,
) -> Doc
    decreases n,
{
    if n <= 0 {
        d
    } else {
        with_absent(
            with_rendered(d, s, n - 1, node, ctx),
            s[n - 1].0,
            Doc::text(rendered(s[n - 1].1@, node, ctx)),
        )
    }
}

/// The annotations with the service's own, which do not replace any.
pub open spec fn with_service_annotations(d: Doc, node: StellarNode, ctx: NodeContext) -> Doc {
    match node.spec.service_annotations {
        Some(m) => with_rendered(d, m.list(), m.list().len() as int, node, ctx),
        None => d,
    }
}

pub fn merge_service_annotations(
    annotations: Json,
    node: &StellarNode,
    ctx: &NodeContext,
) -> (r: Json)
    ensures
        r@ == with_service_annotations(annotations@, *node, *ctx),
{
    match &node.spec.service_annotations {
        Some(m) => {
            let ghost start = annotations@;
            let mut d = annotations;
            let n = m.len();
            let mut i: usize = 0;
            while i < n
                invariant
                    i <= n,
                    n == m.list().len(),
                    d@ == with_rendered(start, m.list(), i as int, *node, *ctx),
                decreases n - i,
            {
                if d.member(m.key_at(i)).is_none() {
                    let value = render_annotation_template(m.value_at(i), node, ctx);
                    d = d.with(m.key_at(i), Json::text(&value));
                }
                i = i + 1;
            }
            d
        },
        None => annotations,
    }
}

/// The labels with the first `n` of the service's where they are not set yet.
pub open spec fn with_absent_texts(d: Doc, s: Seq<(Seq<char>, String)>, n: int) -> Doc
    decreases n,
{
    if n <= 0 {
        d
    } else {
        with_absent(with_absent_texts(d, s, n - 1), s[n - 1].0, Doc::text(s[n - 1].1@))
    }
}

/// The labels with the service's own, which do not replace any.
pub open spec fn with_service_labels(d: Doc, node: StellarNode) -> Doc {
    match node.spec.service_labels {
        Some(m) => with_absent_texts(d, m.list(), m.list().len() as int),
        None => d,
    }
}

pub fn merge_service_metadata_labels(labels: Json, node: &StellarNode) -> (r: Json)
    ensures
        r@ == with_service_labels(labels@, *node),
{
    match &node.spec.service_labels {
        Some(m) => {
            let ghost start = labels@;
            let mut d = labels;
            let n = m.len();
            let mut i: usize = 0;
            while i < n
                invariant
                    i <= n,
                    n == m.list().len(),
                    d@ == with_absent_texts(start, m.list(), i as int),
                decreases n - i,
            {
                if d.member(m.key_at(i)).is_none() {
                    d = d.with(m.key_at(i), Json::text(m.value_at(i)));
                }
                i = i + 1;
            }
            d
        },
        None => labels,
    }
}

/// The name of a fragment: of a container, a volume or a variable.
pub open spec fn name_of(d: Doc) -> Seq<char> {
    match d.member("name"@) {
        Some(Doc::Text(s)) => s,
        _ => ""@,
    }
}

pub fn name(j: &Json) -> (r: String)
    ensures
        r@ == name_of(j@),
{
    match j.member("name") {
        Some(Json::Text(s)) => s.clone(),
        _ => "".to_string(),
    }
}

/// The metadata of a resource of a node: it has the given name and labels,
/// stands in the namespace of the node, and is owned by the node alone.
pub proof fn law_resource_belongs_to_its_node(node: StellarNode, name: Seq<char>, labels: Doc)
    ensures
        ({
            let m = metadata_doc(node, name, labels);
            let owners = m.member("ownerReferences"@)->0;
            let owner = owners->List_0[0];
            &&& is_object(m)
            &&& m.member("name"@) == Some(Doc::Text(name))
            &&& m.member("labels"@) == Some(labels)
            &&& m.member("annotations"@) is None
            &&& (match node.namespace {
                Some(n) => m.member("namespace"@) == Some(Doc::Text(n@)),
                None => m.member("namespace"@) is None,
            })
            &&& m.member("ownerReferences"@) is Some && owners is List && owners->List_0.len() == 1
            &&& owner.member("kind"@) == Some(Doc::Text("StellarNode"@))
            &&& owner.member("name"@) == Some(Doc::Text(node.name@))
            &&& node.uid is Some ==> owner.member("uid"@) == Some(Doc::Text(node.uid->0@))
            &&& owner.member("controller"@) == Some(Doc::Bool(true))
            &&& owner.member("blockOwnerDeletion"@) == Some(Doc::Bool(true))
        }),
{
    broadcast use group_members;

    reveal_strlit("name");
    reveal_strlit("namespace");
    reveal_strlit("labels");
    reveal_strlit("ownerReferences");
    reveal_strlit("annotations");
    reveal_strlit("apiVersion");
    reveal_strlit("blockOwnerDeletion");
    reveal_strlit("controller");
    reveal_strlit("kind");
    reveal_strlit("uid");
    assert("apiVersion"@[0] == 'a');
    assert("controller"@[0] == 'c');
    assert("name"@[0] == 'n');
    assert("kind"@[0] == 'k');
}

/// The labels of a node's resources tell its name, its component and its
/// network, and who manages them.
pub proof fn law_labels_tell_the_node(node: StellarNode, ctx: NodeContext)
    ensures
        ({
            let l = standard_labels_doc(node, ctx);
            &&& is_object(l)
            &&& l.member("app.kubernetes.io/instance"@) == Some(Doc::Text(node.name@))
            &&& l.member("app.kubernetes.io/name"@) == Some(Doc::Text("stellar-node"@))
            &&& l.member("app.kubernetes.io/managed-by"@) == Some(Doc::Text("stellar-operator"@))
            &&& l.member("app.kubernetes.io/component"@) == Some(
                Doc::Text(node.spec.node_type.component()),
            )
            &&& l.member("stellar.org/node-type"@) == Some(Doc::Text(node.spec.node_type.name()))
            &&& l.member("stellar-network"@) == Some(Doc::Text(ctx.network_label@))
        }),
{
    broadcast use group_members;

    reveal_strlit("app.kubernetes.io/instance");
    reveal_strlit("app.kubernetes.io/name");
    reveal_strlit("app.kubernetes.io/managed-by");
    reveal_strlit("app.kubernetes.io/component");
    reveal_strlit("stellar.org/node-type");
    reveal_strlit("stellar-network");
}

/// The number that is given, or what stood before.
pub open spec fn given_or(given: Option<i32>, before: Option<Doc>) -> Option<Doc> {
    match given {
        Some(n) => Some(Doc::number(n as int)),
        None => before,
    }
}

/// What an override of a probe gives takes the place of what the probe had; what
/// it does not give stays, and so does the rest of the probe.
pub proof fn law_probe_keeps_what_is_not_overridden(probe: Doc, c: ProbeOverride)
    requires
        is_object(probe),
    ensures
        overridden_probe(Some(probe), None) == Some(probe),
        overridden_probe(Some(probe), Some(c)) is Some,
        ({
            let p = overridden_probe(Some(probe), Some(c))->0;
            &&& p.member("initialDelaySeconds"@) == given_or(
                c.initial_delay_seconds,
                probe.member("initialDelaySeconds"@),
            )
            &&& p.member("periodSeconds"@) == given_or(
                c.period_seconds,
                probe.member("periodSeconds"@),
            )
            &&& p.member("timeoutSeconds"@) == given_or(
                c.timeout_seconds,
                probe.member("timeoutSeconds"@),
            )
            &&& p.member("successThreshold"@) == given_or(
                c.success_threshold,
                probe.member("successThreshold"@),
            )
            &&& p.member("failureThreshold"@) == given_or(
                c.failure_threshold,
                probe.member("failureThreshold"@),
            )
            &&& p.member("httpGet"@) == probe.member("httpGet"@)
            &&& p.member("tcpSocket"@) == probe.member("tcpSocket"@)
            &&& p.member("exec"@) == probe.member("exec"@)
        }),
{
    broadcast use group_members;

    reveal_strlit("initialDelaySeconds");
    reveal_strlit("periodSeconds");
    reveal_strlit("timeoutSeconds");
    reveal_strlit("successThreshold");
    reveal_strlit("failureThreshold");
    reveal_strlit("httpGet");
    reveal_strlit("tcpSocket");
    reveal_strlit("exec");
    assert("successThreshold"@[0] == 's');
    assert("failureThreshold"@[0] == 'f');
}

/// A confined container may not gain privileges, has none to begin with, does
/// not run as root, and cannot write to its own file system.
pub proof fn law_confined_container_has_no_privileges()
    ensures
        ({
            let c = confined_read_only_doc();
            &&& c.member("allowPrivilegeEscalation"@) == Some(Doc::Bool(false))
            &&& c.member("privileged"@) == Some(Doc::Bool(false))
            &&& c.member("runAsNonRoot"@) == Some(Doc::Bool(true))
            &&& c.member("readOnlyRootFilesystem"@) == Some(Doc::Bool(true))
            &&& has_item(at2(c, "capabilities"@, "drop"@), Doc::Text("ALL"@))
            &&& at2(c, "seccompProfile"@, "type"@) == Some(Doc::Text("RuntimeDefault"@))
            &&& confined_doc().member("runAsNonRoot"@) == Some(Doc::Bool(true))
            &&& confined_doc().member("allowPrivilegeEscalation"@) == Some(Doc::Bool(false))
            &&& confined_doc().member("privileged"@) == Some(Doc::Bool(false))
        }),
{
    broadcast use group_members;

    reveal_strlit("allowPrivilegeEscalation");
    reveal_strlit("privileged");
    reveal_strlit("runAsNonRoot");
    reveal_strlit("readOnlyRootFilesystem");
    reveal_strlit("capabilities");
    reveal_strlit("drop");
    reveal_strlit("seccompProfile");
    reveal_strlit("type");
    assert("runAsNonRoot"@[0] == 'r');
    assert("capabilities"@[0] == 'c');
    assert("drop"@[0] == 'd');
    assert("type"@[0] == 't');
    let s = Seq::<Doc>::empty().push(Doc::text("ALL"@));
    assert(s[0] == Doc::Text("ALL"@));
}

/// A variable has its name and its value; one from a secret names the secret and
/// the key and has no value of its own.
pub proof fn law_variable_has_its_value(name: Seq<char>, value: Seq<char>, key: Seq<char>, optional: bool)
    ensures
        env_value_doc(name, value).member("name"@) == Some(Doc::Text(name)),
        env_value_doc(name, value).member("value"@) == Some(Doc::Text(value)),
        ({
            let v = env_secret_doc(name, value, key);
            &&& v.member("name"@) == Some(Doc::Text(name))
            &&& v.member("value"@) is None
            &&& at3(v, "valueFrom"@, "secretKeyRef"@, "name"@) == Some(Doc::Text(value))
            &&& at3(v, "valueFrom"@, "secretKeyRef"@, "key"@) == Some(Doc::Text(key))
        }),
        ({
            let v = env_secret_optional_doc(name, value, key, optional);
            &&& v.member("name"@) == Some(Doc::Text(name))
            &&& v.member("value"@) is None
            &&& at3(v, "valueFrom"@, "secretKeyRef"@, "name"@) == Some(Doc::Text(value))
            &&& at3(v, "valueFrom"@, "secretKeyRef"@, "key"@) == Some(Doc::Text(key))
            &&& at3(v, "valueFrom"@, "secretKeyRef"@, "optional"@) == Some(Doc::Bool(optional))
        }),
        at3(env_field_doc(name, value), "valueFrom"@, "fieldRef"@, "fieldPath"@) == Some(
            Doc::Text(value),
        ),
{
    broadcast use group_members;

    reveal_strlit("name");
    reveal_strlit("value");
    reveal_strlit("valueFrom");
    reveal_strlit("secretKeyRef");
    reveal_strlit("key");
    reveal_strlit("optional");
    reveal_strlit("fieldRef");
    reveal_strlit("fieldPath");
    assert("optional"@[0] == 'o');
    assert("fieldRef"@[0] == 'f');
    assert("valueFrom"@[0] == 'v');
    assert("fieldPath"@[0] == 'f');
}

/// A volume is mounted under its name at its path, and may be written to just
/// where the mount says so.
pub proof fn law_mount_names_its_volume(name: Seq<char>, path: Seq<char>, read_only: bool)
    ensures
        mount_doc(name, path).member("name"@) == Some(Doc::Text(name)),
        mount_doc(name, path).member("mountPath"@) == Some(Doc::Text(path)),
        mount_mode_doc(name, path, read_only).member("name"@) == Some(Doc::Text(name)),
        mount_mode_doc(name, path, read_only).member("mountPath"@) == Some(Doc::Text(path)),
        mount_mode_doc(name, path, read_only).member("readOnly"@) == Some(Doc::Bool(read_only)),
        amounts_doc(name, path).member("cpu"@) == Some(Doc::Text(name)),
        amounts_doc(name, path).member("memory"@) == Some(Doc::Text(path)),
{
    broadcast use group_members;

    reveal_strlit("name");
    reveal_strlit("mountPath");
    reveal_strlit("readOnly");
    reveal_strlit("cpu");
    reveal_strlit("memory");
}

proof fn lemma_with_texts(d: Doc, s: Seq<(Seq<char>, String)>, n: int, k: Seq<char>)
    requires
        is_object(d),
        ascending(s),
        0 <= n <= s.len(),
    ensures
        is_object(with_texts(d, s, n)),
        with_texts(d, s, n).member(k) == match entry(s.subrange(0, n), k) {
            Some(t) => Some(Doc::Text(t@)),
            None => d.member(k),
        },
        is_object(with_absent_texts(d, s, n)),
        with_absent_texts(d, s, n).member(k) == match d.member(k) {
            Some(v) => Some(v),
            None => match entry(s.subrange(0, n), k) {
                Some(t) => Some(Doc::Text(t@)),
                None => None,
            },
        },
    decreases n,
{
    broadcast use group_members;

    let u = s.subrange(0, n);
    assert(ascending(u));
    if n > 0 {
        lemma_with_texts(d, s, n - 1, k);
        lemma_with_texts(d, s, n - 1, s[n - 1].0);
        lemma_entry_of_prefix(s, n, k);
        lemma_entry_of_prefix(s, n, s[n - 1].0);
    } else {
        assert(u =~= Seq::<(Seq<char>, String)>::empty());
    }
}

proof fn lemma_entry_of_prefix<V>(s: Seq<(Seq<char>, V)>, n: int, k: Seq<char>)
    requires
        ascending(s),
        0 < n <= s.len(),
    ensures
        entry(s.subrange(0, n), k) == if s[n - 1].0 == k {
            Some(s[n - 1].1)
        } else {
            entry(s.subrange(0, n - 1), k)
        },
        entry(s.subrange(0, n - 1), s[n - 1].0) is None,
{
    let u = s.subrange(0, n);
    let t = s.subrange(0, n - 1);
    assert(ascending(u));
    assert(ascending(t));
    assert(u[n - 1] == s[n - 1]);
    lemma_entry_found(u, n - 1);
    assert forall|i: int| 0 <= i < t.len() implies #[trigger] t[i].0 != s[n - 1].0 by {
        assert(t[i] == s[i]);
        lemma_distinct(s, i, n - 1);
    }
    lemma_entry_missing(t, s[n - 1].0);
    if s[n - 1].0 != k {
        lemma_entry_missing(t, k);
        lemma_entry_missing(u, k);
        if entry(t, k) is Some {
            lemma_slot(t, k);
            let p = slot(t, k);
            assert(u[p] == t[p]);
            lemma_entry_found(u, p);
        } else if entry(u, k) is Some {
            lemma_slot(u, k);
            let p = slot(u, k);
            assert(u[p].0 == k);
            assert(t[p] == u[p]);
            lemma_entry_found(t, p);
        }
    }
}

/// Texts that are entered one and all are read back, in place of what stood
/// there; all else stays.
pub proof fn law_all_texts_are_entered(d: Doc, m: StrMap<String>, k: Seq<char>)
    requires
        is_object(d),
        m.in_order(),
    ensures
        is_object(with_all_doc(d, m)),
        with_all_doc(d, m).member(k) == match m.at(k) {
            Some(t) => Some(Doc::Text(t@)),
            None => d.member(k),
        },
{
    lemma_with_texts(d, m.list(), m.list().len() as int, k);
    assert(m.list().subrange(0, m.list().len() as int) =~= m.list());
}

/// Labels of a user for a service are entered, but displace none of the
/// operator's.
pub proof fn law_users_labels_displace_none(d: Doc, node: StellarNode, k: Seq<char>)
    requires
        is_object(d),
        node.spec.service_labels is Some ==> node.spec.service_labels->0.in_order(),
    ensures
        is_object(with_service_labels(d, node)),
        d.member(k) is Some ==> with_service_labels(d, node).member(k) == d.member(k),
        d.member(k) is None ==> with_service_labels(d, node).member(k) == match node.spec.service_labels {
            Some(m) => match m.at(k) {
                Some(t) => Some(Doc::Text(t@)),
                None => None,
            },
            None => None,
        },
{
    if node.spec.service_labels is Some {
        let m = node.spec.service_labels->0;
        lemma_with_texts(d, m.list(), m.list().len() as int, k);
        assert(m.list().subrange(0, m.list().len() as int) =~= m.list());
    }
}

proof fn lemma_with_rendered(
    d: Doc,
    s: Seq<(Seq<char>, String)>,
    n: int,
    node: StellarNode,
    ctx: NodeContext,
    k: Seq<char>,
)
    requires
        is_object(d),
        ascending(s),
        0 <= n <= s.len(),
    ensures
        is_object(with_rendered(d, s, n, node, ctx)),
        with_rendered(d, s, n, node, ctx).member(k) == match d.member(k) {
            Some(v) => Some(v),
            None => match entry(s.subrange(0, n), k) {
                Some(t) => Some(Doc::Text(rendered(t@, node, ctx))),
                None => None,
            },
        },
    decreases n,
{
    broadcast use group_members;

    if n > 0 {
        lemma_with_rendered(d, s, n - 1, node, ctx, k);
        lemma_with_rendered(d, s, n - 1, node, ctx, s[n - 1].0);
        lemma_entry_of_prefix(s, n, k);
        lemma_entry_of_prefix(s, n, s[n - 1].0);
    } else {
        assert(s.subrange(0, 0) =~= Seq::<(Seq<char>, String)>::empty());
    }
}

/// Annotations of a user for a service are entered with their templates filled
/// in, but displace none of the operator's.
pub proof fn law_users_annotations_displace_none(
    d: Doc,
    node: StellarNode,
    ctx: NodeContext,
    k: Seq<char>,
)
    requires
        is_object(d),
        node.spec.service_annotations is Some ==> node.spec.service_annotations->0.in_order(),
    ensures
        d.member(k) is Some ==> with_service_annotations(d, node, ctx).member(k) == d.member(k),
        d.member(k) is None ==> with_service_annotations(d, node, ctx).member(k)
            == match node.spec.service_annotations {
            Some(m) => match m.at(k) {
                Some(t) => Some(Doc::Text(rendered(t@, node, ctx))),
                None => None,
            },
            None => None,
        },
{
    if node.spec.service_annotations is Some {
        let m = node.spec.service_annotations->0;
        lemma_with_rendered(d, m.list(), m.list().len() as int, node, ctx, k);
        assert(m.list().subrange(0, m.list().len() as int) =~= m.list());
    }
}

/// The namespace of a node, if it has one, and the name of a resource, which
/// begins with that of the node.
pub proof fn law_resource_name_begins_with_the_nodes(node: StellarNode, suffix: Seq<char>)
    ensures
        begins_with(resource_name_of(node, suffix), node.name@),
        ends_in(resource_name_of(node, suffix), suffix),
        resource_name_of(node, suffix).len() == node.name@.len() + 1 + suffix.len(),
        node.namespace is Some ==> namespace_of(node) == node.namespace->0@,
        node.namespace is None ==> namespace_of(node) == "default"@,
{
    reveal_strlit("-");
    let r = resource_name_of(node, suffix);
    assert(r.subrange(0, node.name@.len() as int) =~= node.name@);
    assert(r.subrange(r.len() - suffix.len(), r.len() as int) =~= suffix);
}

/// A template without a placeholder is left as it is; one that is a placeholder
/// becomes what it stands for.
pub proof fn law_template_is_filled_in(value: Seq<char>, node: StellarNode, ctx: NodeContext)
    requires
        !value.contains('{'),
        !node.name@.contains('{'),
    ensures
        rendered(value, node, ctx) == value,
        rendered("{{name}}"@, node, ctx) == node.name@,
        rendered("${name}"@, node, ctx) == node.name@,
{
    reveal_strlit("{{name}}");
    reveal_strlit("${name}");
    reveal_strlit("{{namespace}}");
    reveal_strlit("${namespace}");
    reveal_strlit("{{nodeType}}");
    reveal_strlit("${nodeType}");
    reveal_strlit("{{network}}");
    reveal_strlit("${network}");
    assert("{{name}}"@[0] == '{');
    assert("${name}"@[1] == '{');
    assert("{{namespace}}"@[0] == '{');
    assert("${namespace}"@[1] == '{');
    assert("{{nodeType}}"@[0] == '{');
    assert("${nodeType}"@[1] == '{');
    assert("{{network}}"@[0] == '{');
    assert("${network}"@[1] == '{');
    lemma_rendered_plain(value, node, ctx);
    lemma_rendered_plain(node.name@, node, ctx);
    let n = node.name@;
    let e = Seq::<char>::empty();
    assert("{{name}}"@ + e =~= "{{name}}"@);
    assert("${name}"@ + e =~= "${name}"@);
    assert(n + e =~= n);
    law_only_occurrences_are_replaced(e, "{{name}}"@, n);
    law_only_occurrences_are_replaced(e, "${name}"@, n);
    assert(replaced("{{name}}"@, "{{name}}"@, n) == n);
    assert(replaced("${name}"@, "${name}"@, n) == n);
    let d = "${name}"@;
    assert(d[0] == '$');
    assert(d[2] == 'n');
    assert(!has_text(d, "{{name}}"@)) by {
        if has_text(d, "{{name}}"@) {
            let i = choose|i: int| #[trigger] occurs_at(d, "{{name}}"@, i);
            assert(false);
        }
    }
    law_only_occurrences_are_replaced(d, "{{name}}"@, n);
    lemma_plain(n, "${name}"@, n, 1);
}

proof fn lemma_plain(s: Seq<char>, p: Seq<char>, q: Seq<char>, k: int)
    requires
        !s.contains('{'),
        0 <= k < p.len(),
        p[k] == '{',
    ensures
        replaced(s, p, q) == s,
{
    if has_text(s, p) {
        let i = choose|i: int| #[trigger] occurs_at(s, p, i);
        assert(s.subrange(i, i + p.len())[k] == s[i + k]);
        assert(s.contains(s[i + k]));
    }
    law_only_occurrences_are_replaced(s, p, q);
}

proof fn lemma_rendered_plain(s: Seq<char>, node: StellarNode, ctx: NodeContext)
    requires
        !s.contains('{'),
        "{{name}}"@.len() == 8 && "{{name}}"@[0] == '{',
        "${name}"@.len() == 7 && "${name}"@[1] == '{',
        "{{namespace}}"@.len() == 13 && "{{namespace}}"@[0] == '{',
        "${namespace}"@.len() == 12 && "${namespace}"@[1] == '{',
        "{{nodeType}}"@.len() == 12 && "{{nodeType}}"@[0] == '{',
        "${nodeType}"@.len() == 11 && "${nodeType}"@[1] == '{',
        "{{network}}"@.len() == 11 && "{{network}}"@[0] == '{',
        "${network}"@.len() == 10 && "${network}"@[1] == '{',
    ensures
        rendered(s, node, ctx) == s,
        ({
            let namespace = opt_text_or(node.namespace, ""@);
            let kind = node.spec.node_type.name();
            let network = ctx.network_name@;
            let r = replaced(replaced(s, "{{namespace}}"@, namespace), "${namespace}"@, namespace);
            let r = replaced(replaced(r, "{{nodeType}}"@, kind), "${nodeType}"@, kind);
            replaced(replaced(r, "{{network}}"@, network), "${network}"@, network) == s
        }),
{
    let namespace = opt_text_or(node.namespace, ""@);
    let kind = node.spec.node_type.name();
    let network = ctx.network_name@;
    lemma_plain(s, "{{name}}"@, node.name@, 0);
    lemma_plain(s, "${name}"@, node.name@, 1);
    lemma_plain(s, "{{namespace}}"@, namespace, 0);
    lemma_plain(s, "${namespace}"@, namespace, 1);
    lemma_plain(s, "{{nodeType}}"@, kind, 0);
    lemma_plain(s, "${nodeType}"@, kind, 1);
    lemma_plain(s, "{{network}}"@, network, 0);
    lemma_plain(s, "${network}"@, network, 1);
}

/// The delay, the period and the patience of a probe.
pub open spec fn probe_runs(d: Doc, delay: int, period: int, failures: int) -> bool {
    &&& d.member("initialDelaySeconds"@) == Some(Doc::number(delay))
    &&& d.member("periodSeconds"@) == Some(Doc::number(period))
    &&& d.member("timeoutSeconds"@) == Some(Doc::number(5))
    &&& d.member("failureThreshold"@) == Some(Doc::number(failures))
    &&& d.member("successThreshold"@) == Some(Doc::number(1))
}

/// A validator lives while its peers can reach it, any other node while its
/// health can be asked for; a validator is ready when it says that it is in
/// step. Each has five minutes to start.
pub proof fn law_default_probes_ask_the_node(t: NodeType)
    ensures
        ({
            let alive = default_liveness_probe_doc(t);
            let ready = default_readiness_probe_doc(t);
            let start = default_startup_probe_doc(t);
            let validator = t == NodeType::Validator;
            &&& validator ==> at2(alive, "tcpSocket"@, "port"@) == Some(Doc::number(11625))
                && probe_runs(alive, 30, 15, 3)
            &&& !validator ==> at2(alive, "httpGet"@, "port"@) == Some(Doc::number(8000)) && at2(
                alive,
                "httpGet"@,
                "path"@,
            ) == Some(Doc::Text("/health"@)) && probe_runs(alive, 20, 15, 3)
            &&& validator ==> ready.member("exec"@) is Some && probe_runs(ready, 15, 10, 3)
            &&& !validator ==> at2(ready, "httpGet"@, "path"@) == Some(Doc::Text("/health"@))
                && probe_runs(ready, 10, 10, 3)
            &&& probe_runs(start, 10, 10, 30)
            &&& validator ==> at2(start, "tcpSocket"@, "port"@) == Some(Doc::number(11625))
            &&& !validator ==> at2(start, "httpGet"@, "port"@) == Some(Doc::number(8000))
        }),
{
    broadcast use group_members;

    reveal_strlit("initialDelaySeconds");
    reveal_strlit("periodSeconds");
    reveal_strlit("timeoutSeconds");
    reveal_strlit("failureThreshold");
    reveal_strlit("successThreshold");
    reveal_strlit("httpGet");
    reveal_strlit("tcpSocket");
    reveal_strlit("exec");
    reveal_strlit("path");
    reveal_strlit("port");
    reveal_strlit("command");
    assert("failureThreshold"@[0] == 'f');
    assert("successThreshold"@[0] == 's');
    assert("exec"@[0] == 'e');
    assert("path"@[0] == 'p');
    assert("port"@[0] == 'p');
    assert("path"@[1] == 'a');
    assert("port"@[1] == 'o');
    assert("httpGet"@[0] == 'h');
    assert("command"@[0] == 'c');
}

/// A volume is of its kind, under its name.
pub proof fn law_volume_has_its_name(name: Seq<char>, path: Seq<char>, kind: Seq<char>)
    ensures
        memory_volume_doc(name).member("name"@) == Some(Doc::Text(name)),
        at2(memory_volume_doc(name), "emptyDir"@, "medium"@) == Some(Doc::Text("Memory"@)),
        scratch_volume_doc(name).member("name"@) == Some(Doc::Text(name)),
        scratch_volume_doc(name).member("emptyDir"@) is Some,
        host_volume_doc(name, path, kind).member("name"@) == Some(Doc::Text(name)),
        at2(host_volume_doc(name, path, kind), "hostPath"@, "path"@) == Some(Doc::Text(path)),
        at2(host_volume_doc(name, path, kind), "hostPath"@, "type"@) == Some(Doc::Text(kind)),
{
    broadcast use group_members;

    reveal_strlit("name");
    reveal_strlit("emptyDir");
    reveal_strlit("medium");
    reveal_strlit("hostPath");
    reveal_strlit("path");
    reveal_strlit("type");
    assert("emptyDir"@[0] == 'e');
    assert("hostPath"@[0] == 'h');
    assert("name"@[0] == 'n');
    assert("path"@[0] == 'p');
    assert("type"@[0] == 't');
}

} // verus!
