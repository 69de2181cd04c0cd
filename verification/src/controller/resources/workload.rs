//! Deployments of API nodes and StatefulSets of validators.

use vstd::prelude::*;
use vstd::string::*;
use crate::controller::context::NodeContext;
use crate::controller::resources::helpers::{
    map_or_empty, map_or_empty_doc, match_labels, match_labels_doc, metadata, metadata_doc,
    namespace_of, namespace_or_default, standard_labels, standard_labels_doc, unless_empty,
    unless_empty_doc,
};
use crate::controller::resources::plan::{
    Kind, Step, Tolerance, acts, apply, apply_act, delete, delete_act, no_acts, no_steps, one_act,
    one_step,
};
use crate::controller::resources::pod_template::{
    SeedInjectionSpec, build_pod_template, pod_template_doc,
};
use crate::crd::stellar_node::StellarNode;
use crate::crd::types::{NodeType, ReplicationRole, RolloutStrategyType};
use crate::json::{Doc, Json, at2, at3, group_members, is_object};
use crate::text::cat2;

verus! {

/// A Deployment.
pub open spec fn deployment_manifest_doc(metadata: Doc, replicas: int, labels: Doc, template: Doc) -> Doc {
    Doc::object()
        .with("apiVersion"@, Doc::text("apps/v1"@))
        .with("kind"@, Doc::text("Deployment"@))
        .with("metadata"@, metadata)
        .with(
            "spec"@,
            Doc::object()
                .with("replicas"@, Doc::number(replicas))
                .with("selector"@, match_labels_doc(labels))
                .with("template"@, template),
        )
}

pub fn deployment_manifest(metadata: Json, replicas: i64, labels: Json, template: Json) -> (r: Json)
    ensures
        r@ == deployment_manifest_doc(metadata@, replicas as int, labels@, template@),
{
    Json::object()
        .with("apiVersion", Json::text("apps/v1"))
        .with("kind", Json::text("Deployment"))
        .with("metadata", metadata)
        .with(
            "spec",
            Json::object()
                .with("replicas", Json::number(replicas))
                .with("selector", match_labels(labels))
                .with("template", template),
        )
}

/// A StatefulSet.
pub open spec fn statefulset_manifest_doc(metadata: Doc, replicas: int, labels: Doc, service: Seq<char>, template: Doc) -> Doc {
    Doc::object()
        .with("apiVersion"@, Doc::text("apps/v1"@))
        .with("kind"@, Doc::text("StatefulSet"@))
        .with("metadata"@, metadata)
        .with(
            "spec"@,
            Doc::object()
                .with("replicas"@, Doc::number(replicas))
                .with("selector"@, match_labels_doc(labels))
                .with("serviceName"@, Doc::text(service))
                .with("template"@, template),
        )
}

pub fn statefulset_manifest(metadata: Json, replicas: i64, labels: Json, service: &str, template: Json) -> (r: Json)
    ensures
        r@ == statefulset_manifest_doc(metadata@, replicas as int, labels@, service@, template@),
{
    Json::object()
        .with("apiVersion", Json::text("apps/v1"))
        .with("kind", Json::text("StatefulSet"))
        .with("metadata", metadata)
        .with(
            "spec",
            Json::object()
                .with("replicas", Json::number(replicas))
                .with("selector", match_labels(labels))
                .with("serviceName", Json::text(service))
                .with("template", template),
        )
}

/// Whether the node is the passive side of a replication.
pub open spec fn is_passive(node: StellarNode) -> bool {
    node.spec.replication_config is Some && node.spec.replication_config->0.enabled
        && node.spec.replication_config->0.role == ReplicationRole::Passive
}

fn passive(node: &StellarNode) -> (r: bool)
    ensures
        r == is_passive(*node),
{
    match &node.spec.replication_config {
        Some(c) => c.enabled && c.role == ReplicationRole::Passive,
        None => false,
    }
}

/// The replicas of a node's Deployment. A suspended node has none, nor has one
/// that is the passive side of a replication.
pub open spec fn deployment_replicas(node: StellarNode) -> int {
    if node.spec.suspended || is_passive(node) {
        0
    } else {
        node.spec.replicas as int
    }
}

/// The replicas of a node's StatefulSet.
pub open spec fn statefulset_replicas(node: StellarNode) -> int {
    if node.spec.suspended || is_passive(node) {
        0
    } else {
        1
    }
}

/// The labels of a node's Deployment.
pub open spec fn deployment_labels(node: StellarNode, ctx: NodeContext) -> Doc {
    let base = standard_labels_doc(node, ctx);
    if node.spec.node_type == NodeType::Horizon && node.spec.strategy.strategy_type
        == RolloutStrategyType::BlueGreen {
        base.with("deployment-color"@, Doc::text("blue"@))
    } else {
        base
    }
}

/// The Deployment of a node.
pub open spec fn deployment_doc(node: StellarNode, enable_mtls: bool, ctx: NodeContext) -> Doc {
    let labels = deployment_labels(node, ctx);
    deployment_manifest_doc(
        metadata_doc(node, node.name@, labels),
        deployment_replicas(node),
        labels,
        pod_template_doc(node, node.spec.version@, labels, enable_mtls, None, ctx),
    )
}

fn build_deployment_labels(node: &StellarNode, ctx: &NodeContext) -> (r: Json)
    ensures
        r@ == deployment_labels(*node, *ctx),
{
    let base = standard_labels(node, ctx);
    if node.spec.node_type == NodeType::Horizon && node.spec.strategy.strategy_type
        == RolloutStrategyType::BlueGreen {
        base.with("deployment-color", Json::text("blue"))
    } else {
        base
    }
}

fn replicas_for_deployment(node: &StellarNode) -> (r: i64)
    ensures
        r == deployment_replicas(*node),
{
    if node.spec.suspended || passive(node) {
        0
    } else {
        node.spec.replicas as i64
    }
}

/// Builds the Deployment of an API node.
pub fn build_deployment(node: &StellarNode, enable_mtls: bool, ctx: &NodeContext) -> (r: Json)
    ensures
        r@ == deployment_doc(*node, enable_mtls, *ctx),
{
    let labels = build_deployment_labels(node, ctx);
    let template = build_pod_template(
        node,
        &node.spec.version,
        labels.clone(),
        enable_mtls,
        None,
        ctx,
    );
    deployment_manifest(
        metadata(node, &node.name, labels.clone()),
        replicas_for_deployment(node),
        labels,
        template,
    )
}

/// A manifest with given labels in its metadata.
pub open spec fn relabelled(manifest: Doc, labels: Doc) -> Doc {
    match manifest.member("metadata"@) {
        Some(m) => manifest.with("metadata"@, m.with("labels"@, labels)),
        None => manifest,
    }
}

/// A manifest with given labels in its metadata.
pub fn with_labels(manifest: Json, labels: Json) -> (r: Json)
    ensures
        r@ == relabelled(manifest@, labels@),
{
    let found = match manifest.member("metadata") {
        Some(m) => Some(m.clone()),
        None => None,
    };
    match found {
        Some(m) => manifest.with("metadata", m.with("labels", labels)),
        None => manifest,
    }
}

/// Ensures the Deployment of a node, with the labels that propagation left.
pub fn ensure_deployment(
    node: &StellarNode,
    enable_mtls: bool,
    labels: Json,
    dry_run: bool,
    ctx: &NodeContext,
) -> (r: Vec<Step>)
    ensures
        acts(r@) == one_act(
            apply_act(
                Kind::Deployment,
                namespace_of(*node),
                node.name@,
                relabelled(deployment_doc(*node, enable_mtls, *ctx), labels@),
                dry_run,
            ),
        ),
{
    one_step(
        apply(
            Kind::Deployment,
            namespace_or_default(node),
            &node.name,
            with_labels(build_deployment(node, enable_mtls, ctx), labels),
            dry_run,
        ),
    )
}

/// The version that is rolled out as a canary.
pub open spec fn canary_version_of(node: StellarNode) -> Option<Seq<char>> {
    match node.status {
        Some(s) => match s.canary_version {
            Some(v) => Some(v@),
            None => None,
        },
        None => None,
    }
}

/// The version that is rolled out as a canary.
pub fn canary_version(node: &StellarNode) -> (r: Option<&String>)
    ensures
        (match r {
            Some(v) => canary_version_of(*node) == Some(v@),
            None => canary_version_of(*node) is None,
        }),
{
    match &node.status {
        Some(s) => s.canary_version.as_ref(),
        None => None,
    }
}

/// The labels of a canary's resources.
pub open spec fn canary_labels_doc(node: StellarNode, ctx: NodeContext) -> Doc {
    standard_labels_doc(node, ctx).with("stellar.org/rollout-type"@, Doc::text("canary"@))
}

pub fn canary_labels(node: &StellarNode, ctx: &NodeContext) -> (r: Json)
    ensures
        r@ == canary_labels_doc(*node, *ctx),
{
    standard_labels(node, ctx).with("stellar.org/rollout-type", Json::text("canary"))
}

/// The canary Deployment of a node: its Deployment in another version, under
/// another name and other labels.
pub open spec fn canary_deployment_doc(
    node: StellarNode,
    version: Seq<char>,
    enable_mtls: bool,
    ctx: NodeContext,
) -> Doc {
    let labels = canary_labels_doc(node, ctx);
    deployment_manifest_doc(
        metadata_doc(node, node.name@ + "-canary"@, labels),
        deployment_replicas(node),
        labels,
        pod_template_doc(node, version, labels, enable_mtls, None, ctx),
    )
}

/// Builds the canary Deployment of a node.
pub fn build_canary_deployment(
    node: &StellarNode,
    version: &str,
    enable_mtls: bool,
    ctx: &NodeContext,
) -> (r: Json)
    ensures
        r@ == canary_deployment_doc(*node, version@, enable_mtls, *ctx),
{
    let labels = canary_labels(node, ctx);
    let template = build_pod_template(node, version, labels.clone(), enable_mtls, None, ctx);
    deployment_manifest(
        metadata(node, &cat2(&node.name, "-canary"), labels.clone()),
        replicas_for_deployment(node),
        labels,
        template,
    )
}

/// Ensures the canary Deployment of a node, while there is a canary.
pub fn ensure_canary_deployment(
    node: &StellarNode,
    enable_mtls: bool,
    dry_run: bool,
    ctx: &NodeContext,
) -> (r: Vec<Step>)
    ensures
        acts(r@) == match canary_version_of(*node) {
            Some(v) => one_act(
                apply_act(
                    Kind::Deployment,
                    namespace_of(*node),
                    node.name@ + "-canary"@,
                    canary_deployment_doc(*node, v, enable_mtls, *ctx),
                    dry_run,
                ),
            ),
            None => no_acts(),
        },
{
    match canary_version(node) {
        Some(v) => one_step(
            apply(
                Kind::Deployment,
                namespace_or_default(node),
                &cat2(&node.name, "-canary"),
                build_canary_deployment(node, v, enable_mtls, ctx),
                dry_run,
            ),
        ),
        None => no_steps(),
    }
}

/// The StatefulSet of a validator.
pub open spec fn statefulset_doc(
    node: StellarNode,
    enable_mtls: bool,
    seed: Option<SeedInjectionSpec>,
    ctx: NodeContext,
) -> Doc {
    let labels = standard_labels_doc(node, ctx);
    let annotations = map_or_empty_doc(node.spec.storage.annotations);
    statefulset_manifest_doc(
        metadata_doc(node, node.name@, labels).with_some(
            "annotations"@,
            unless_empty_doc(annotations),
        ),
        statefulset_replicas(node),
        labels,
        node.name@ + "-headless"@,
        pod_template_doc(node, node.spec.version@, labels, enable_mtls, seed, ctx),
    )
}

/// Builds the StatefulSet of a validator.
pub fn build_statefulset(
    node: &StellarNode,
    enable_mtls: bool,
    seed_injection: Option<&SeedInjectionSpec>,
    ctx: &NodeContext,
) -> (r: Json)
    ensures
        r@ == statefulset_doc(
            *node,
            enable_mtls,
            match seed_injection {
                Some(s) => Some(*s),
                None => None,
            },
            *ctx,
        ),
{
    let labels = standard_labels(node, ctx);
    let replicas: i64 = if node.spec.suspended || passive(node) {
        0
    } else {
        1
    };
    let annotations = map_or_empty(&node.spec.storage.annotations);
    let template = build_pod_template(
        node,
        &node.spec.version,
        labels.clone(),
        enable_mtls,
        seed_injection,
        ctx,
    );
    statefulset_manifest(
        metadata(node, &node.name, labels.clone()).with_some(
            "annotations",
            unless_empty(annotations),
        ),
        replicas,
        labels,
        &cat2(&node.name, "-headless"),
        template,
    )
}

/// Ensures the StatefulSet of a validator, with the labels that propagation
/// left.
pub fn ensure_statefulset(
    node: &StellarNode,
    enable_mtls: bool,
    seed_injection: Option<&SeedInjectionSpec>,
    labels: Json,
    dry_run: bool,
    ctx: &NodeContext,
) -> (r: Vec<Step>)
    ensures
        acts(r@) == one_act(
            apply_act(
                Kind::StatefulSet,
                namespace_of(*node),
                node.name@,
                relabelled(
                    statefulset_doc(
                        *node,
                        enable_mtls,
                        match seed_injection {
                            Some(s) => Some(*s),
                            None => None,
                        },
                        *ctx,
                    ),
                    labels@,
                ),
                dry_run,
            ),
        ),
{
    one_step(
        apply(
            Kind::StatefulSet,
            namespace_or_default(node),
            &node.name,
            with_labels(build_statefulset(node, enable_mtls, seed_injection, ctx), labels),
            dry_run,
        ),
    )
}

/// Deletes the workload of a node: the StatefulSet of a validator, the
/// Deployment of any other node.
pub fn delete_workload(node: &StellarNode, dry_run: bool) -> (r: Vec<Step>)
    ensures
        acts(r@) == one_act(
            delete_act(
                if node.spec.node_type == NodeType::Validator {
                    Kind::StatefulSet
                } else {
                    Kind::Deployment
                },
                namespace_of(*node),
                node.name@,
                Tolerance::Missing,
                dry_run,
            ),
        ),
{
    let kind = match node.spec.node_type {
        NodeType::Validator => Kind::StatefulSet,
        _ => Kind::Deployment,
    };
    one_step(delete(kind, namespace_or_default(node), &node.name, Tolerance::Missing, dry_run))
}

/// A node that is suspended, or is the passive side of a replication, runs no
/// pod, whatever its type.
pub proof fn law_passive_node_runs_nothing(node: StellarNode)
    requires
        node.spec.suspended || is_passive(node),
    ensures
        deployment_replicas(node) == 0,
        statefulset_replicas(node) == 0,
{
}

/// A Deployment runs as many replicas as the node asks for, unless the node is
/// suspended or the passive side of a replication: it then runs none. Its
/// canary runs as many.
pub proof fn law_deployment_runs_the_replicas_asked_for(
    node: StellarNode,
    enable_mtls: bool,
    version: Seq<char>,
    ctx: NodeContext,
)
    ensures
        ({
            let passive = match node.spec.replication_config {
                Some(c) => c.enabled && c.role == ReplicationRole::Passive,
                None => false,
            };
            let asked = Some(Doc::number(node.spec.replicas as int));
            let none = Some(Doc::number(0));
            let got = at2(deployment_doc(node, enable_mtls, ctx), "spec"@, "replicas"@);
            let canary = at2(
                canary_deployment_doc(node, version, enable_mtls, ctx),
                "spec"@,
                "replicas"@,
            );
            &&& !node.spec.suspended && !passive ==> got == asked && canary == asked
            &&& node.spec.suspended || passive ==> got == none && canary == none
        }),
{
    broadcast use group_members;

    reveal_strlit("apiVersion");
    reveal_strlit("kind");
    reveal_strlit("metadata");
    reveal_strlit("spec");
    reveal_strlit("replicas");
    reveal_strlit("selector");
    reveal_strlit("template");
    assert("kind"@[0] == 'k');
    assert("spec"@[0] == 's');
    assert("metadata"@[0] == 'm');
    assert("replicas"@[0] == 'r');
    assert("selector"@[0] == 's');
    assert("template"@[0] == 't');
}

/// A StatefulSet runs one replica, or none where the node is suspended or the
/// passive side of a replication.
pub proof fn law_statefulset_runs_one(
    node: StellarNode,
    enable_mtls: bool,
    seed: Option<SeedInjectionSpec>,
    ctx: NodeContext,
)
    ensures
        ({
            let passive = match node.spec.replication_config {
                Some(c) => c.enabled && c.role == ReplicationRole::Passive,
                None => false,
            };
            let got = at2(statefulset_doc(node, enable_mtls, seed, ctx), "spec"@, "replicas"@);
            &&& !node.spec.suspended && !passive ==> got == Some(Doc::number(1))
            &&& node.spec.suspended || passive ==> got == Some(Doc::number(0))
        }),
{
    broadcast use group_members;

    reveal_strlit("apiVersion");
    reveal_strlit("kind");
    reveal_strlit("metadata");
    reveal_strlit("spec");
    reveal_strlit("replicas");
    reveal_strlit("selector");
    reveal_strlit("template");
    reveal_strlit("serviceName");
    assert("kind"@[0] == 'k');
    assert("spec"@[0] == 's');
    assert("metadata"@[0] == 'm');
    assert("replicas"@[0] == 'r');
    assert("selector"@[0] == 's');
    assert("template"@[0] == 't');
}

/// A workload is of its kind, has the name and the labels given to it, selects
/// the pods that have those labels, and makes its pods from the template.
pub proof fn law_workload_selects_its_pods(
    metadata: Doc,
    replicas: int,
    labels: Doc,
    service: Seq<char>,
    template: Doc,
)
    ensures
        ({
            let d = deployment_manifest_doc(metadata, replicas, labels, template);
            &&& d.member("apiVersion"@) == Some(Doc::Text("apps/v1"@))
            &&& d.member("kind"@) == Some(Doc::Text("Deployment"@))
            &&& d.member("metadata"@) == Some(metadata)
            &&& at3(d, "spec"@, "selector"@, "matchLabels"@) == Some(labels)
            &&& at2(d, "spec"@, "template"@) == Some(template)
            &&& at2(d, "spec"@, "replicas"@) == Some(Doc::number(replicas))
        }),
        ({
            let d = statefulset_manifest_doc(metadata, replicas, labels, service, template);
            &&& d.member("apiVersion"@) == Some(Doc::Text("apps/v1"@))
            &&& d.member("kind"@) == Some(Doc::Text("StatefulSet"@))
            &&& d.member("metadata"@) == Some(metadata)
            &&& at3(d, "spec"@, "selector"@, "matchLabels"@) == Some(labels)
            &&& at2(d, "spec"@, "template"@) == Some(template)
            &&& at2(d, "spec"@, "replicas"@) == Some(Doc::number(replicas))
            &&& at2(d, "spec"@, "serviceName"@) == Some(Doc::Text(service))
        }),
{
    broadcast use group_members;

    reveal_strlit("apiVersion");
    reveal_strlit("kind");
    reveal_strlit("metadata");
    reveal_strlit("spec");
    reveal_strlit("replicas");
    reveal_strlit("selector");
    reveal_strlit("template");
    reveal_strlit("serviceName");
    reveal_strlit("matchLabels");
    assert("kind"@[0] == 'k');
    assert("spec"@[0] == 's');
    assert("metadata"@[0] == 'm');
    assert("replicas"@[0] == 'r');
    assert("selector"@[0] == 's');
    assert("template"@[0] == 't');
    assert("serviceName"@[0] == 's');
    assert("matchLabels"@[0] == 'm');
}

/// The pods of a Deployment have the labels that it selects by, and so have
/// those of a canary and of a StatefulSet; the canary is another workload than
/// the Deployment and selects other pods.
pub proof fn law_workloads_of_a_node(
    node: StellarNode,
    enable_mtls: bool,
    version: Seq<char>,
    seed: Option<SeedInjectionSpec>,
    ctx: NodeContext,
)
    ensures
        ({
            let d = deployment_doc(node, enable_mtls, ctx);
            let c = canary_deployment_doc(node, version, enable_mtls, ctx);
            let s = statefulset_doc(node, enable_mtls, seed, ctx);
            let wanted = |m: Doc| at3(m, "spec"@, "selector"@, "matchLabels"@);
            &&& at2(d, "metadata"@, "name"@) == Some(Doc::Text(node.name@))
            &&& at2(c, "metadata"@, "name"@) == Some(Doc::Text(node.name@ + "-canary"@))
            &&& at2(s, "metadata"@, "name"@) == Some(Doc::Text(node.name@))
            &&& wanted(d) is Some && wanted(d) == at2(d, "metadata"@, "labels"@)
            &&& wanted(c) is Some && wanted(c) == at2(c, "metadata"@, "labels"@)
            &&& wanted(s) is Some && wanted(s) == at2(s, "metadata"@, "labels"@)
            &&& wanted(d)->0.member("app.kubernetes.io/instance"@) == Some(Doc::Text(node.name@))
            &&& wanted(c)->0.member("app.kubernetes.io/instance"@) == Some(Doc::Text(node.name@))
            &&& wanted(s)->0.member("app.kubernetes.io/instance"@) == Some(Doc::Text(node.name@))
            &&& wanted(d)->0.member("stellar.org/rollout-type"@) is None
            &&& wanted(c)->0.member("stellar.org/rollout-type"@) == Some(Doc::Text("canary"@))
            &&& wanted(d)->0.member("deployment-color"@) is Some <==> node.spec.node_type
                == NodeType::Horizon && node.spec.strategy.strategy_type
                == RolloutStrategyType::BlueGreen
            &&& at2(s, "spec"@, "serviceName"@) == Some(Doc::Text(node.name@ + "-headless"@))
        }),
{
    broadcast use group_members;

    reveal_strlit("apiVersion");
    reveal_strlit("kind");
    reveal_strlit("metadata");
    reveal_strlit("spec");
    reveal_strlit("replicas");
    reveal_strlit("selector");
    reveal_strlit("template");
    reveal_strlit("serviceName");
    reveal_strlit("matchLabels");
    reveal_strlit("name");
    reveal_strlit("namespace");
    reveal_strlit("labels");
    reveal_strlit("ownerReferences");
    reveal_strlit("annotations");
    reveal_strlit("app.kubernetes.io/instance");
    reveal_strlit("app.kubernetes.io/name");
    reveal_strlit("app.kubernetes.io/managed-by");
    reveal_strlit("app.kubernetes.io/component");
    reveal_strlit("stellar.org/node-type");
    reveal_strlit("stellar-network");
    reveal_strlit("stellar.org/rollout-type");
    reveal_strlit("deployment-color");
    assert("kind"@[0] == 'k');
    assert("spec"@[0] == 's');
    assert("metadata"@[0] == 'm');
    assert("replicas"@[0] == 'r');
    assert("selector"@[0] == 's');
    assert("template"@[0] == 't');
    assert("serviceName"@[0] == 's');
    assert("matchLabels"@[0] == 'm');
    assert("name"@[0] == 'n');
    assert("annotations"@[0] == 'a');
    assert("ownerReferences"@[0] == 'o');
    assert("stellar-network"@[0] == 's');
}

/// A manifest with other labels has them, and is otherwise as it was.
pub proof fn law_relabelling_changes_only_the_labels(manifest: Doc, labels: Doc, k: Seq<char>)
    requires
        is_object(manifest),
        manifest.member("metadata"@) is Some ==> is_object(manifest.member("metadata"@)->0),
    ensures
        manifest.member("metadata"@) is None ==> relabelled(manifest, labels) == manifest,
        manifest.member("metadata"@) is Some ==> at2(
            relabelled(manifest, labels),
            "metadata"@,
            "labels"@,
        ) == Some(labels),
        k != "labels"@ ==> at2(relabelled(manifest, labels), "metadata"@, k) == at2(
            manifest,
            "metadata"@,
            k,
        ),
        k != "metadata"@ ==> relabelled(manifest, labels).member(k) == manifest.member(k),
{
    broadcast use group_members;

}

} // verus!
