//! Volume claims and disruption budgets.

use vstd::prelude::*;
use vstd::string::*;
use crate::controller::context::NodeContext;
use crate::controller::resources::helpers::{
    map_or_empty, map_or_empty_doc, match_labels, match_labels_doc, metadata, metadata_doc,
    namespace_of, namespace_or_default, opt_copy, opt_doc, resource_name, resource_name_of,
    standard_labels, standard_labels_doc, unless_empty, unless_empty_doc,
};
use crate::controller::resources::plan::{
    Act, Kind, Step, Tolerance, acts, apply, apply_act, delete, delete_act, no_acts, no_steps,
    one_act, one_step,
};
use crate::controller::resources::workload::{relabelled, with_labels};
use crate::crd::stellar_node::{HistoryMode, StellarNode};
use crate::crd::types::{NodeType, StorageMode};
use crate::json::{Doc, Json, at2, at3, group_members, has_item};

verus! {

/// The volume snapshot that a claim is filled from.
pub open spec fn snapshot_source_doc(snapshot: Seq<char>) -> Doc {
    Doc::object()
        .with("apiGroup"@, Doc::text("snapshot.storage.k8s.io"@))
        .with("kind"@, Doc::text("VolumeSnapshot"@))
        .with("name"@, Doc::text(snapshot))
}

pub fn snapshot_source(snapshot: &str) -> (r: Json)
    ensures
        r@ == snapshot_source_doc(snapshot@),
{
    Json::object()
        .with("apiGroup", Json::text("snapshot.storage.k8s.io"))
        .with("kind", Json::text("VolumeSnapshot"))
        .with("name", Json::text(snapshot))
}

/// The storage class of a node's volume: the configured one, or what the
/// cluster offers for local storage where none is configured.
pub open spec fn storage_class_of(
    node: StellarNode,
    has_local_path: bool,
    has_local_storage: bool,
) -> Seq<char> {
    let configured = node.spec.storage.storage_class@;
    if node.spec.storage.mode != StorageMode::Local || configured.len() > 0 {
        configured
    } else if has_local_path {
        "local-path"@
    } else if has_local_storage {
        "local-storage"@
    } else {
        ""@
    }
}

/// Resolves the storage class of a node's volume.
pub fn resolve_pvc_storage_class(
    node: &StellarNode,
    has_local_path: bool,
    has_local_storage: bool,
) -> (r: String)
    ensures
        r@ == storage_class_of(*node, has_local_path, has_local_storage),
{
    let configured = &node.spec.storage.storage_class;
    if node.spec.storage.mode != StorageMode::Local || !configured.as_str().is_empty() {
        configured.clone()
    } else if has_local_path {
        "local-path".to_string()
    } else if has_local_storage {
        "local-storage".to_string()
    } else {
        "".to_string()
    }
}

/// The size of a node's volume.
pub open spec fn storage_size(node: StellarNode) -> Seq<char> {
    if node.spec.storage.size@.len() > 0 {
        node.spec.storage.size@
    } else {
        match node.spec.history_mode {
            HistoryMode::Full => "1500Gi"@,
            HistoryMode::Recent => "100Gi"@,
        }
    }
}

/// The snapshot that a node's volume is filled from.
pub open spec fn snapshot_of(node: StellarNode) -> Option<Seq<char>> {
    let first = match node.spec.storage.snapshot_ref {
        Some(s) => match s.volume_snapshot_name {
            Some(n) => Some(n@),
            None => None,
        },
        None => None,
    };
    match first {
        Some(n) => Some(n),
        None => match node.spec.restore_from_snapshot {
            Some(s) => Some(s.volume_snapshot_name@),
            None => None,
        },
    }
}

fn snapshot(node: &StellarNode) -> (r: Option<&String>)
    ensures
        (match r {
            Some(n) => snapshot_of(*node) == Some(n@),
            None => snapshot_of(*node) is None,
        }),
{
    if let Some(s) = &node.spec.storage.snapshot_ref {
        if let Some(n) = &s.volume_snapshot_name {
            return Some(n);
        }
    }
    match &node.spec.restore_from_snapshot {
        Some(s) => Some(&s.volume_snapshot_name),
        None => None,
    }
}

/// The spec of a node's volume claim.
pub open spec fn pvc_spec(node: StellarNode, storage_class_name: Seq<char>) -> Doc {
    Doc::object()
        .with("accessModes"@, Doc::list().and(Doc::text("ReadWriteOnce"@)))
        .with_some(
            "storageClassName"@,
            if storage_class_name.len() == 0 {
                None
            } else {
                Some(Doc::text(storage_class_name))
            },
        )
        .with_some(
            "dataSource"@,
            match snapshot_of(node) {
                Some(n) => Some(snapshot_source_doc(n)),
                None => None,
            },
        )
        .with(
            "resources"@,
            Doc::object().with(
                "requests"@,
                Doc::object().with("storage"@, Doc::text(storage_size(node))),
            ),
        )
}

/// The volume claim of a node.
pub open spec fn pvc_doc(node: StellarNode, storage_class_name: Seq<char>, ctx: NodeContext) -> Doc {
    let annotations = map_or_empty_doc(node.spec.storage.annotations);
    Doc::object()
        .with("apiVersion"@, Doc::text("v1"@))
        .with("kind"@, Doc::text("PersistentVolumeClaim"@))
        .with(
            "metadata"@,
            metadata_doc(
                node,
                resource_name_of(node, "data"@),
                standard_labels_doc(node, ctx),
            ).with_some("annotations"@, unless_empty_doc(annotations)),
        )
        .with("spec"@, pvc_spec(node, storage_class_name))
}

/// Builds the volume claim of a node.
pub fn build_pvc(node: &StellarNode, storage_class_name: &str, ctx: &NodeContext) -> (r: Json)
    ensures
        r@ == pvc_doc(*node, storage_class_name@, *ctx),
{
    let size = if !node.spec.storage.size.as_str().is_empty() {
        node.spec.storage.size.as_str()
    } else {
        match node.spec.history_mode {
            HistoryMode::Full => "1500Gi",
            HistoryMode::Recent => "100Gi",
        }
    };
    let annotations = map_or_empty(&node.spec.storage.annotations);
    let spec = Json::object()
        .with("accessModes", Json::list().and(Json::text("ReadWriteOnce")))
        .with_some(
            "storageClassName",
            if storage_class_name.is_empty() {
                None
            } else {
                Some(Json::text(storage_class_name))
            },
        )
        .with_some(
            "dataSource",
            match snapshot(node) {
                Some(n) => Some(snapshot_source(n)),
                None => None,
            },
        )
        .with(
            "resources",
            Json::object().with("requests", Json::object().with("storage", Json::text(size))),
        );
    Json::object()
        .with("apiVersion", Json::text("v1"))
        .with("kind", Json::text("PersistentVolumeClaim"))
        .with(
            "metadata",
            metadata(node, &resource_name(node, "data"), standard_labels(node, ctx)).with_some(
                "annotations",
                unless_empty(annotations),
            ),
        )
        .with("spec", spec)
}

/// A member of a resource's metadata.
pub open spec fn meta_member(manifest: Doc, k: Seq<char>) -> Option<Doc> {
    match manifest.member("metadata"@) {
        Some(m) => m.member(k),
        None => None,
    }
}

/// Two claims differ in their spec, their labels or their annotations.
pub open spec fn pvc_differs(existing: Doc, desired: Doc) -> bool {
    ||| existing.member("spec"@) != desired.member("spec"@)
    ||| meta_member(existing, "labels"@) != meta_member(desired, "labels"@)
    ||| meta_member(existing, "annotations"@) != meta_member(desired, "annotations"@)
}

fn same_value(a: Option<&Json>, b: Option<&Json>) -> (r: bool)
    ensures
        r == (match a {
            Some(x) => match b {
                Some(y) => x@ == y@,
                None => false,
            },
            None => b is None,
        }),
{
    match (a, b) {
        (Some(x), Some(y)) => x.equals(y),
        (None, None) => true,
        _ => false,
    }
}

fn metadata_member<'a>(manifest: &'a Json, k: &str) -> (r: Option<&'a Json>)
    ensures
        (match r {
            Some(j) => meta_member(manifest@, k@) == Some(j@),
            None => meta_member(manifest@, k@) is None,
        }),
{
    match manifest.member("metadata") {
        Some(m) => m.member(k),
        None => None,
    }
}

/// Whether a claim in the cluster has to be updated.
pub fn pvc_needs_update(existing: &Json, desired: &Json) -> (r: bool)
    ensures
        r == pvc_differs(existing@, desired@),
{
    !same_value(existing.member("spec"), desired.member("spec")) || !same_value(
        metadata_member(existing, "labels"),
        metadata_member(desired, "labels"),
    ) || !same_value(
        metadata_member(existing, "annotations"),
        metadata_member(desired, "annotations"),
    )
}

/// Ensures the volume claim of a node, with the labels that propagation left:
/// creates it where there is none, updates it where it differs.
pub fn ensure_pvc(
    node: &StellarNode,
    storage_class_name: &str,
    labels: Json,
    existing: Option<&Json>,
    dry_run: bool,
    ctx: &NodeContext,
) -> (r: Vec<Step>)
    ensures
        ({
            let desired = relabelled(pvc_doc(*node, storage_class_name@, *ctx), labels@);
            let name = resource_name_of(*node, "data"@);
            acts(r@) == match existing {
                Some(e) => if pvc_differs(e@, desired) {
                    one_act(
                        apply_act(
                            Kind::PersistentVolumeClaim,
                            namespace_of(*node),
                            name,
                            desired,
                            dry_run,
                        ),
                    )
                } else {
                    no_acts()
                },
                None => one_act(
                    (Act::Create {
                        kind: Kind::PersistentVolumeClaim,
                        namespace: namespace_of(*node),
                        name,
                        manifest: desired,
                        dry_run,
                    }),
                ),
            }
        }),
{
    let desired = with_labels(build_pvc(node, storage_class_name, ctx), labels);
    let name = resource_name(node, "data");
    match existing {
        Some(e) => {
            if pvc_needs_update(e, &desired) {
                one_step(
                    apply(
                        Kind::PersistentVolumeClaim,
                        namespace_or_default(node),
                        &name,
                        desired,
                        dry_run,
                    ),
                )
            } else {
                no_steps()
            }
        },
        None => one_step(
            Step::Create {
                kind: Kind::PersistentVolumeClaim,
                namespace: namespace_or_default(node).to_string(),
                name,
                manifest: desired,
                dry_run,
            },
        ),
    }
}

/// Deletes the volume claim of a node.
pub fn delete_pvc(node: &StellarNode, dry_run: bool) -> (r: Vec<Step>)
    ensures
        acts(r@) == one_act(
            delete_act(
                Kind::PersistentVolumeClaim,
                namespace_of(*node),
                resource_name_of(*node, "data"@),
                Tolerance::Missing,
                dry_run,
            ),
        ),
{
    one_step(
        delete(
            Kind::PersistentVolumeClaim,
            namespace_or_default(node),
            &resource_name(node, "data"),
            Tolerance::Missing,
            dry_run,
        ),
    )
}

/// The least number of validators that have to stay up: a strict majority.
pub open spec fn quorum_min_available(replicas: int) -> int {
    let n = if replicas < 1 {
        1
    } else {
        replicas
    };
    n / 2 + 1
}

/// The disruption budget of a node. A validator always has one; any other
/// node has one where it has several replicas.
pub open spec fn pdb_doc(node: StellarNode, ctx: NodeContext) -> Option<Doc> {
    let labels = standard_labels_doc(node, ctx);
    let validator = node.spec.node_type == NodeType::Validator;
    let unset = node.spec.min_available is None && node.spec.max_unavailable is None;
    let min_available = if validator {
        Some(Doc::number(quorum_min_available(node.spec.replicas as int)))
    } else {
        opt_doc(node.spec.min_available)
    };
    let max_unavailable = if validator {
        None
    } else if unset {
        Some(Doc::number(1))
    } else {
        opt_doc(node.spec.max_unavailable)
    };
    if !validator && node.spec.replicas <= 1 {
        None
    } else {
        Some(
            Doc::object()
                .with("apiVersion"@, Doc::text("policy/v1"@))
                .with("kind"@, Doc::text("PodDisruptionBudget"@))
                .with("metadata"@, metadata_doc(node, node.name@, labels))
                .with(
                    "spec"@,
                    Doc::object()
                        .with("selector"@, match_labels_doc(labels))
                        .with_some("minAvailable"@, min_available)
                        .with_some("maxUnavailable"@, max_unavailable),
                ),
        )
    }
}

/// Builds the disruption budget of a node.
pub fn build_pdb(node: &StellarNode, ctx: &NodeContext) -> (r: Option<Json>)
    ensures
        opt_doc(r) == pdb_doc(*node, *ctx),
{
    let labels = standard_labels(node, ctx);
    let min_available: Option<Json>;
    let max_unavailable: Option<Json>;
    if node.spec.node_type == NodeType::Validator {
        let n: i32 = if node.spec.replicas < 1 {
            1
        } else {
            node.spec.replicas
        };
        min_available = Some(Json::number((n / 2 + 1) as i64));
        max_unavailable = None;
    } else {
        if node.spec.replicas <= 1 {
            return None;
        }
        if node.spec.min_available.is_none() && node.spec.max_unavailable.is_none() {
            min_available = None;
            max_unavailable = Some(Json::number(1));
        } else {
            min_available = opt_copy(&node.spec.min_available);
            max_unavailable = opt_copy(&node.spec.max_unavailable);
        }
    }
    Some(
        Json::object()
            .with("apiVersion", Json::text("policy/v1"))
            .with("kind", Json::text("PodDisruptionBudget"))
            .with("metadata", metadata(node, &node.name, labels.clone()))
            .with(
                "spec",
                Json::object()
                    .with("selector", match_labels(labels))
                    .with_some("minAvailable", min_available)
                    .with_some("maxUnavailable", max_unavailable),
            ),
    )
}

/// Ensures the disruption budget of a node, or that there is none.
pub fn ensure_pdb(node: &StellarNode, dry_run: bool, ctx: &NodeContext) -> (r: Vec<Step>)
    ensures
        acts(r@) == match pdb_doc(*node, *ctx) {
            Some(d) => one_act(
                apply_act(
                    Kind::PodDisruptionBudget,
                    namespace_of(*node),
                    node.name@,
                    d,
                    dry_run,
                ),
            ),
            None => one_act(
                delete_act(
                    Kind::PodDisruptionBudget,
                    namespace_of(*node),
                    node.name@,
                    Tolerance::Missing,
                    dry_run,
                ),
            ),
        },
{
    match build_pdb(node, ctx) {
        Some(manifest) => one_step(
            apply(
                Kind::PodDisruptionBudget,
                namespace_or_default(node),
                &node.name,
                manifest,
                dry_run,
            ),
        ),
        None => delete_pdb(node, dry_run),
    }
}

/// Deletes the disruption budget of a node.
pub fn delete_pdb(node: &StellarNode, dry_run: bool) -> (r: Vec<Step>)
    ensures
        acts(r@) == one_act(
            delete_act(
                Kind::PodDisruptionBudget,
                namespace_of(*node),
                node.name@,
                Tolerance::Missing,
                dry_run,
            ),
        ),
{
    one_step(
        delete(
            Kind::PodDisruptionBudget,
            namespace_or_default(node),
            &node.name,
            Tolerance::Missing,
            dry_run,
        ),
    )
}

/// A strict majority of the validators stays up, and the budget can be kept.
pub proof fn law_majority_stays_up(replicas: int)
    requires
        replicas >= 1,
    ensures
        2 * quorum_min_available(replicas) > replicas,
        quorum_min_available(replicas) <= replicas,
{
}

/// A claim that is as it should be is left alone, and whether two claims differ
/// does not depend on which of them is in the cluster.
pub proof fn law_same_claim_is_left_alone(a: Doc, b: Doc)
    ensures
        !pvc_differs(a, a),
        pvc_differs(a, b) == pvc_differs(b, a),
{
}

/// A claim asks for the storage that the node asks for, in the class that was
/// found for it, and is filled from a snapshot where the node names one. It has
/// the name under which the pods of the node look for their data.
pub proof fn law_claim_asks_for_the_nodes_storage(
    node: StellarNode,
    class: Seq<char>,
    ctx: NodeContext,
)
    ensures
        ({
            let d = pvc_doc(node, class, ctx);
            let s = d.member("spec"@)->0;
            let size = at3(s, "resources"@, "requests"@, "storage"@);
            &&& d.member("kind"@) == Some(Doc::Text("PersistentVolumeClaim"@))
            &&& d.member("spec"@) is Some
            &&& at2(d, "metadata"@, "name"@) == Some(Doc::Text(resource_name_of(node, "data"@)))
            &&& class.len() > 0 ==> s.member("storageClassName"@) == Some(Doc::Text(class))
            &&& class.len() == 0 ==> s.member("storageClassName"@) is None
            &&& node.spec.storage.size@.len() > 0 ==> size == Some(
                Doc::Text(node.spec.storage.size@),
            )
            &&& node.spec.storage.size@.len() == 0 && node.spec.history_mode == HistoryMode::Full
                ==> size == Some(Doc::Text("1500Gi"@))
            &&& node.spec.storage.size@.len() == 0 && node.spec.history_mode == HistoryMode::Recent
                ==> size == Some(Doc::Text("100Gi"@))
            &&& has_item(s.member("accessModes"@), Doc::Text("ReadWriteOnce"@))
        }),
{
    broadcast use group_members;

    reveal_strlit("apiVersion");
    reveal_strlit("kind");
    reveal_strlit("metadata");
    reveal_strlit("spec");
    reveal_strlit("name");
    reveal_strlit("namespace");
    reveal_strlit("labels");
    reveal_strlit("ownerReferences");
    reveal_strlit("annotations");
    reveal_strlit("accessModes");
    reveal_strlit("storageClassName");
    reveal_strlit("dataSource");
    reveal_strlit("resources");
    reveal_strlit("requests");
    reveal_strlit("storage");
    assert("kind"@[0] == 'k');
    assert("spec"@[0] == 's');
    assert("name"@[0] == 'n');
    assert("annotations"@[1] == 'n');
    assert("accessModes"@[1] == 'c');
    assert("apiVersion"@[0] == 'a');
    assert("dataSource"@[0] == 'd');
    assert("namespace"@[0] == 'n');
    assert("resources"@[0] == 'r');
    assert("metadata"@[0] == 'm');
    assert("requests"@[0] == 'r');
    let modes = Seq::<Doc>::empty().push(Doc::text("ReadWriteOnce"@));
    assert(modes[0] == Doc::Text("ReadWriteOnce"@));
}

/// A claim is filled from the snapshot that its storage refers to, else from the
/// one that the node is restored from, else from none.
pub proof fn law_claim_is_filled_from_its_snapshot(
    node: StellarNode,
    class: Seq<char>,
    ctx: NodeContext,
)
    ensures
        ({
            let first = match node.spec.storage.snapshot_ref {
                Some(r) => r.volume_snapshot_name,
                None => None,
            };
            let source = at2(pvc_doc(node, class, ctx), "spec"@, "dataSource"@);
            &&& first is Some ==> source is Some && source->0.member("name"@) == Some(
                Doc::Text(first->0@),
            ) && source->0.member("kind"@) == Some(Doc::Text("VolumeSnapshot"@))
            &&& first is None && node.spec.restore_from_snapshot is Some ==> source is Some
                && source->0.member("name"@) == Some(
                Doc::Text(node.spec.restore_from_snapshot->0.volume_snapshot_name@),
            )
            &&& first is None && node.spec.restore_from_snapshot is None ==> source is None
        }),
{
    broadcast use group_members;

    reveal_strlit("apiVersion");
    reveal_strlit("kind");
    reveal_strlit("metadata");
    reveal_strlit("spec");
    reveal_strlit("accessModes");
    reveal_strlit("storageClassName");
    reveal_strlit("dataSource");
    reveal_strlit("resources");
    reveal_strlit("apiGroup");
    reveal_strlit("name");
    assert("kind"@[0] == 'k');
    assert("spec"@[0] == 's');
    assert("apiVersion"@[0] == 'a');
    assert("dataSource"@[0] == 'd');
    assert("metadata"@[0] == 'm');
    assert("apiGroup"@[0] == 'a');
    assert("name"@[0] == 'n');
}

/// The class of a claim is the one that is configured; for local storage without
/// one it is a class of local volumes that the cluster has, if any.
pub proof fn law_storage_class_is_found(
    node: StellarNode,
    has_local_path: bool,
    has_local_storage: bool,
)
    ensures
        ({
            let c = storage_class_of(node, has_local_path, has_local_storage);
            let own = node.spec.storage.storage_class@;
            let searched = node.spec.storage.mode == StorageMode::Local && own.len() == 0;
            &&& !searched ==> c == own
            &&& searched && has_local_path ==> c == "local-path"@
            &&& searched && !has_local_path && has_local_storage ==> c == "local-storage"@
            &&& searched && !has_local_path && !has_local_storage ==> c.len() == 0
        }),
{
    reveal_strlit("");
}

/// A claim is written anew where what it asks for, its labels or its annotations
/// differ, and only there.
pub proof fn law_when_a_claim_is_written(a: Doc, b: Doc)
    ensures
        pvc_differs(a, b) <==> !(a.member("spec"@) == b.member("spec"@) && at2(
            a,
            "metadata"@,
            "labels"@,
        ) == at2(b, "metadata"@, "labels"@) && at2(a, "metadata"@, "annotations"@) == at2(
            b,
            "metadata"@,
            "annotations"@,
        )),
{
}

/// A budget for disruptions: validators keep a majority, another node keeps what
/// it says, or loses one at most where it says nothing; one without a second
/// replica has no budget.
pub proof fn law_disruptions_are_bounded(node: StellarNode, ctx: NodeContext, m: int)
    ensures
        ({
            let validator = node.spec.node_type == NodeType::Validator;
            let n = if node.spec.replicas < 1 {
                1
            } else {
                node.spec.replicas as int
            };
            let d = pdb_doc(node, ctx);
            let low = at2(d->0, "spec"@, "minAvailable"@);
            let high = at2(d->0, "spec"@, "maxUnavailable"@);
            &&& d is None <==> !validator && node.spec.replicas <= 1
            &&& d is Some ==> d->0.member("kind"@) == Some(Doc::Text("PodDisruptionBudget"@))
                && at3(d->0, "spec"@, "selector"@, "matchLabels"@) == at2(
                d->0,
                "metadata"@,
                "labels"@,
            ) && at2(d->0, "metadata"@, "name"@) == Some(Doc::Text(node.name@))
            &&& validator && n < 2 * m <= n + 2 ==> low == Some(Doc::number(m)) && high is None
            &&& d is Some && !validator ==> low == opt_doc(node.spec.min_available)
            &&& d is Some && !validator && node.spec.min_available is None
                && node.spec.max_unavailable is None ==> high == Some(Doc::number(1))
            &&& d is Some && !validator && (node.spec.min_available is Some
                || node.spec.max_unavailable is Some) ==> high == opt_doc(
                node.spec.max_unavailable,
            )
        }),
{
    broadcast use group_members;

    reveal_strlit("apiVersion");
    reveal_strlit("kind");
    reveal_strlit("metadata");
    reveal_strlit("spec");
    reveal_strlit("name");
    reveal_strlit("namespace");
    reveal_strlit("labels");
    reveal_strlit("ownerReferences");
    reveal_strlit("annotations");
    reveal_strlit("selector");
    reveal_strlit("matchLabels");
    reveal_strlit("minAvailable");
    reveal_strlit("maxUnavailable");
    assert("kind"@[0] == 'k');
    assert("spec"@[0] == 's');
    assert("name"@[0] == 'n');
    assert("metadata"@[0] == 'm');
    assert("selector"@[0] == 's');
    assert("annotations"@[0] == 'a');
    assert("matchLabels"@[0] == 'm');
}

} // verus!
