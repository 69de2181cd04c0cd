//! Horizontal pod autoscalers.

use vstd::prelude::*;
use vstd::string::*;
use crate::controller::context::NodeContext;
use crate::controller::resources::helpers::{
    extend, metadata, metadata_doc, namespace_of, namespace_or_default, none, one, opt_doc,
    opt_number, opt_number_doc, push, resource_name, resource_name_of, standard_labels,
    standard_labels_doc,
};
use crate::controller::resources::plan::{
    Kind, Step, Tolerance, acts, apply, apply_act, delete, delete_act, no_acts, no_steps, one_act,
    one_step,
};
use crate::controller::resources::pod_template::{list_unless_none, unless_none};
use crate::crd::stellar_node::StellarNode;
use crate::crd::types::{
    AutoscalingConfig, NodeType, ScalingBehavior, ScalingPolicy, ScalingRules,
};
use crate::error::Error;
use crate::json::{Doc, Json, at2, at3, docs, group_members};
use crate::text::same;

verus! {

/// Scales by the use of a resource of the pods.
pub open spec fn resource_metric_doc(name: Seq<char>, percent: int) -> Doc {
    Doc::object()
        .with("type"@, Doc::text("Resource"@))
        .with(
            "resource"@,
            Doc::object()
                .with("name"@, Doc::text(name))
                .with(
                    "target"@,
                    Doc::object()
                        .with("type"@, Doc::text("Utilization"@))
                        .with("averageUtilization"@, Doc::number(percent)),
                ),
        )
}

pub fn resource_metric(name: &str, percent: i64) -> (r: Json)
    ensures
        r@ == resource_metric_doc(name@, percent as int),
{
    Json::object()
        .with("type", Json::text("Resource"))
        .with(
            "resource",
            Json::object()
                .with("name", Json::text(name))
                .with(
                    "target",
                    Json::object()
                        .with("type", Json::text("Utilization"))
                        .with("averageUtilization", Json::number(percent)),
                ),
        )
}

/// Scales by a metric of the node itself.
pub open spec fn object_metric_doc(node: Seq<char>, metric: Seq<char>, target: Seq<char>) -> Doc {
    Doc::object()
        .with("type"@, Doc::text("Object"@))
        .with(
            "object"@,
            Doc::object()
                .with(
                    "describedObject"@,
                    Doc::object()
                        .with("apiVersion"@, Doc::text("stellar.org/v1alpha1"@))
                        .with("kind"@, Doc::text("StellarNode"@))
                        .with("name"@, Doc::text(node)),
                )
                .with(
                    "metric"@,
                    Doc::object()
                        .with("name"@, Doc::text(metric)),
                )
                .with(
                    "target"@,
                    Doc::object()
                        .with("type"@, Doc::text("Value"@))
                        .with("value"@, Doc::text(target)),
                ),
        )
}

pub fn object_metric(node: &str, metric: &str, target: &str) -> (r: Json)
    ensures
        r@ == object_metric_doc(node@, metric@, target@),
{
    Json::object()
        .with("type", Json::text("Object"))
        .with(
            "object",
            Json::object()
                .with(
                    "describedObject",
                    Json::object()
                        .with("apiVersion", Json::text("stellar.org/v1alpha1"))
                        .with("kind", Json::text("StellarNode"))
                        .with("name", Json::text(node)),
                )
                .with(
                    "metric",
                    Json::object()
                        .with("name", Json::text(metric)),
                )
                .with(
                    "target",
                    Json::object()
                        .with("type", Json::text("Value"))
                        .with("value", Json::text(target)),
                ),
        )
}

/// How far to scale in a period.
pub open spec fn scaling_policy_doc(kind: Seq<char>, value: int, period: int) -> Doc {
    Doc::object()
        .with("type"@, Doc::text(kind))
        .with("value"@, Doc::number(value))
        .with("periodSeconds"@, Doc::number(period))
}

pub fn scaling_policy(kind: &str, value: i64, period: i64) -> (r: Json)
    ensures
        r@ == scaling_policy_doc(kind@, value as int, period as int),
{
    Json::object()
        .with("type", Json::text(kind))
        .with("value", Json::number(value))
        .with("periodSeconds", Json::number(period))
}

/// The workload that is scaled.
pub open spec fn deployment_ref_doc(name: Seq<char>) -> Doc {
    Doc::object()
        .with("apiVersion"@, Doc::text("apps/v1"@))
        .with("kind"@, Doc::text("Deployment"@))
        .with("name"@, Doc::text(name))
}

pub fn deployment_ref(name: &str) -> (r: Json)
    ensures
        r@ == deployment_ref_doc(name@),
{
    Json::object()
        .with("apiVersion", Json::text("apps/v1"))
        .with("kind", Json::text("Deployment"))
        .with("name", Json::text(name))
}

/// The metric and the target that stand behind a custom metric's name.
pub open spec fn custom_metric(name: Seq<char>) -> Option<(Seq<char>, Seq<char>)> {
    if name == "ledger_ingestion_lag"@ {
        Some(("stellar_node_ingestion_lag"@, "5"@))
    } else if name == "stellar_horizon_tps"@ || name == "requests_per_second"@ {
        Some(("stellar_horizon_tps"@, "1000"@))
    } else if name == "stellar_queue_length"@ || name == "queue_length"@ || name
        == "horizon_queue_length"@ {
        Some(("stellar_horizon_queue_length"@, "50"@))
    } else {
        None
    }
}

fn custom_metric_of(name: &str) -> (r: Option<(&'static str, &'static str)>)
    ensures
        (match r {
            Some((m, t)) => custom_metric(name@) == Some((m@, t@)),
            None => custom_metric(name@) is None,
        }),
{
    if same(name, "ledger_ingestion_lag") {
        Some(("stellar_node_ingestion_lag", "5"))
    } else if same(name, "stellar_horizon_tps") || same(name, "requests_per_second") {
        Some(("stellar_horizon_tps", "1000"))
    } else if same(name, "stellar_queue_length") || same(name, "queue_length") || same(
        name,
        "horizon_queue_length",
    ) {
        Some(("stellar_horizon_queue_length", "50"))
    } else {
        None
    }
}

/// The metrics behind the first `n` custom metrics. Unknown ones are left out.
pub open spec fn custom_metrics(node: Seq<char>, v: Seq<String>, n: int) -> Seq<Doc>
    decreases n,
{
    if n <= 0 {
        Seq::empty()
    } else {
        match custom_metric(v[n - 1]@) {
            Some((metric, target)) => custom_metrics(node, v, n - 1).push(
                object_metric_doc(node, metric, target),
            ),
            None => custom_metrics(node, v, n - 1),
        }
    }
}

/// The metrics by which a node is scaled.
pub open spec fn metrics_of(node: StellarNode, c: AutoscalingConfig) -> Seq<Doc> {
    (match c.target_cpu_utilization_percentage {
        Some(p) => Seq::empty().push(resource_metric_doc("cpu"@, p as int)),
        None => Seq::empty(),
    }) + (match c.target_memory_utilization_percentage {
        Some(p) => Seq::empty().push(resource_metric_doc("memory"@, p as int)),
        None => Seq::empty(),
    }) + custom_metrics(node.name@, c.custom_metrics@, c.custom_metrics@.len() as int)
}

fn build_metrics(node: &StellarNode, c: &AutoscalingConfig) -> (r: Vec<Json>)
    ensures
        docs(r@) == metrics_of(*node, *c),
{
    let mut r = match c.target_cpu_utilization_percentage {
        Some(p) => one(resource_metric("cpu", p as i64)),
        None => none(),
    };
    let memory = match c.target_memory_utilization_percentage {
        Some(p) => one(resource_metric("memory", p as i64)),
        None => none(),
    };
    extend(&mut r, memory);
    let mut custom = none();
    let mut i: usize = 0;
    while i < c.custom_metrics.len()
        invariant
            i <= c.custom_metrics.len(),
            docs(custom@) == custom_metrics(node.name@, c.custom_metrics@, i as int),
        decreases c.custom_metrics@.len() - i,
    {
        if let Some((metric, target)) = custom_metric_of(&c.custom_metrics[i]) {
            push(&mut custom, object_metric(&node.name, metric, target));
        }
        i = i + 1;
    }
    extend(&mut r, custom);
    r
}

/// The policies of a direction of scaling.
pub open spec fn policy_docs(v: Seq<ScalingPolicy>) -> Seq<Doc> {
    Seq::new(
        v.len(),
        |i: int|
            scaling_policy_doc(v[i].policy_type@, v[i].value as int, v[i].period_seconds as int),
    )
}

fn build_policies(v: &Vec<ScalingPolicy>) -> (r: Vec<Json>)
    ensures
        docs(r@) == policy_docs(v@),
{
    let mut r = none();
    let mut i: usize = 0;
    while i < v.len()
        invariant
            i <= v.len(),
            docs(r@) == policy_docs(v@).subrange(0, i as int),
        decreases v@.len() - i,
    {
        push(
            &mut r,
            scaling_policy(&v[i].policy_type, v[i].value as i64, v[i].period_seconds as i64),
        );
        i = i + 1;
        assert(docs(r@) =~= policy_docs(v@).subrange(0, i as int));
    }
    assert(policy_docs(v@).subrange(0, v@.len() as int) =~= policy_docs(v@));
    r
}

/// The rules of a direction of scaling, where they are given.
pub open spec fn rules_doc(s: Option<ScalingRules>, select: Seq<char>) -> Option<Doc> {
    match s {
        Some(s) => Some(
            Doc::object().with("policies"@, Doc::List(policy_docs(s.policies@))).with(
                "selectPolicy"@,
                Doc::text(select),
            ).with_some(
                "stabilizationWindowSeconds"@,
                opt_number_doc(s.stabilization_window_seconds),
            ),
        ),
        None => None,
    }
}

fn rules(s: &Option<ScalingRules>, select: &str) -> (r: Option<Json>)
    ensures
        opt_doc(r) == rules_doc(*s, select@),
{
    match s {
        Some(s) => Some(
            Json::object().with("policies", Json::List(build_policies(&s.policies))).with(
                "selectPolicy",
                Json::text(select),
            ).with_some(
                "stabilizationWindowSeconds",
                opt_number(s.stabilization_window_seconds),
            ),
        ),
        None => None,
    }
}

/// How fast to scale: up by the largest step that a policy allows, down by
/// the smallest.
pub open spec fn behavior_doc(b: Option<ScalingBehavior>) -> Option<Doc> {
    match b {
        Some(b) => Some(
            Doc::object().with_some("scaleUp"@, rules_doc(b.scale_up, "Max"@)).with_some(
                "scaleDown"@,
                rules_doc(b.scale_down, "Min"@),
            ),
        ),
        None => None,
    }
}

fn behavior(b: &Option<ScalingBehavior>) -> (r: Option<Json>)
    ensures
        opt_doc(r) == behavior_doc(*b),
{
    match b {
        Some(b) => Some(
            Json::object().with_some("scaleUp", rules(&b.scale_up, "Max")).with_some(
                "scaleDown",
                rules(&b.scale_down, "Min"),
            ),
        ),
        None => None,
    }
}

/// The HorizontalPodAutoscaler of a node.
pub open spec fn hpa_doc(node: StellarNode, c: AutoscalingConfig, ctx: NodeContext) -> Doc {
    Doc::object().with("apiVersion"@, Doc::text("autoscaling/v2"@)).with(
        "kind"@,
        Doc::text("HorizontalPodAutoscaler"@),
    ).with(
        "metadata"@,
        metadata_doc(node, resource_name_of(node, "hpa"@), standard_labels_doc(node, ctx)).with(
            "namespace"@,
            Doc::text(namespace_of(node)),
        ),
    ).with(
        "spec"@,
        Doc::object().with("scaleTargetRef"@, deployment_ref_doc(node.name@)).with(
            "minReplicas"@,
            Doc::number(c.min_replicas as int),
        ).with("maxReplicas"@, Doc::number(c.max_replicas as int)).with_some(
            "metrics"@,
            unless_none(metrics_of(node, c)),
        ).with_some("behavior"@, behavior_doc(c.behavior)),
    )
}

/// Builds the HorizontalPodAutoscaler of a node, which has to ask for one.
pub fn build_hpa(node: &StellarNode, ctx: &NodeContext) -> (r: Result<Json, Error>)
    ensures
        (match node.spec.autoscaling {
            Some(c) => r is Ok && r->Ok_0@ == hpa_doc(*node, c, *ctx),
            None => r is Err && r->Err_0 is ValidationError && r->Err_0->ValidationError_0@
                == "Autoscaling config not found"@,
        }),
{
    let c = match &node.spec.autoscaling {
        Some(c) => c,
        None => {
            return Err(Error::ValidationError("Autoscaling config not found".to_string()));
        },
    };
    Ok(
        Json::object().with("apiVersion", Json::text("autoscaling/v2")).with(
            "kind",
            Json::text("HorizontalPodAutoscaler"),
        ).with(
            "metadata",
            metadata(node, &resource_name(node, "hpa"), standard_labels(node, ctx)).with(
                "namespace",
                Json::text(namespace_or_default(node)),
            ),
        ).with(
            "spec",
            Json::object().with("scaleTargetRef", deployment_ref(&node.name)).with(
                "minReplicas",
                Json::number(c.min_replicas as i64),
            ).with("maxReplicas", Json::number(c.max_replicas as i64)).with_some(
                "metrics",
                list_unless_none(build_metrics(node, c)),
            ).with_some("behavior", behavior(&c.behavior)),
        ),
    )
}

/// Ensures the HorizontalPodAutoscaler of an API node that asks for one.
pub fn ensure_hpa(node: &StellarNode, dry_run: bool, ctx: &NodeContext) -> (r: Result<
    Vec<Step>,
    Error,
>)
    ensures
        r is Ok,
        acts(r->Ok_0@) == match node.spec.autoscaling {
            Some(c) => if node.spec.node_type == NodeType::Validator {
                no_acts()
            } else {
                one_act(
                    apply_act(
                        Kind::HorizontalPodAutoscaler,
                        namespace_of(*node),
                        resource_name_of(*node, "hpa"@),
                        hpa_doc(*node, c, *ctx),
                        dry_run,
                    ),
                )
            },
            None => no_acts(),
        },
{
    match node.spec.node_type {
        NodeType::Validator => return Ok(no_steps()),
        _ => {},
    }
    if node.spec.autoscaling.is_none() {
        return Ok(no_steps());
    }
    match build_hpa(node, ctx) {
        Ok(hpa) => Ok(
            one_step(
                apply(
                    Kind::HorizontalPodAutoscaler,
                    namespace_or_default(node),
                    &resource_name(node, "hpa"),
                    hpa,
                    dry_run,
                ),
            ),
        ),
        Err(e) => Err(e),
    }
}

/// Deletes the HorizontalPodAutoscaler of a node that asks for one. That it
/// cannot be deleted is passed over.
pub fn delete_hpa(node: &StellarNode, dry_run: bool) -> (r: Vec<Step>)
    ensures
        acts(r@) == if node.spec.autoscaling is Some {
            one_act(
                delete_act(
                    Kind::HorizontalPodAutoscaler,
                    namespace_of(*node),
                    resource_name_of(*node, "hpa"@),
                    Tolerance::Everything,
                    dry_run,
                ),
            )
        } else {
            no_acts()
        },
{
    if node.spec.autoscaling.is_none() {
        return no_steps();
    }
    one_step(
        delete(
            Kind::HorizontalPodAutoscaler,
            namespace_or_default(node),
            &resource_name(node, "hpa"),
            Tolerance::Everything,
            dry_run,
        ),
    )
}

/// A metric is measured against its target.
pub proof fn law_metric_has_its_target(
    name: Seq<char>,
    percent: int,
    node: Seq<char>,
    target: Seq<char>,
)
    ensures
        ({
            let d = resource_metric_doc(name, percent);
            &&& at2(d, "resource"@, "name"@) == Some(Doc::Text(name))
            &&& at3(d, "resource"@, "target"@, "averageUtilization"@) == Some(Doc::number(percent))
        }),
        ({
            let d = object_metric_doc(node, name, target);
            &&& at3(d, "object"@, "metric"@, "name"@) == Some(Doc::Text(name))
            &&& at3(d, "object"@, "describedObject"@, "name"@) == Some(Doc::Text(node))
            &&& at3(d, "object"@, "target"@, "value"@) == Some(Doc::Text(target))
        }),
        ({
            let d = scaling_policy_doc(name, percent, percent + 1);
            &&& d.member("type"@) == Some(Doc::Text(name))
            &&& d.member("value"@) == Some(Doc::number(percent))
            &&& d.member("periodSeconds"@) == Some(Doc::number(percent + 1))
        }),
{
    broadcast use group_members;

    reveal_strlit("type");
    reveal_strlit("resource");
    reveal_strlit("object");
    reveal_strlit("name");
    reveal_strlit("target");
    reveal_strlit("averageUtilization");
    reveal_strlit("describedObject");
    reveal_strlit("apiVersion");
    reveal_strlit("kind");
    reveal_strlit("metric");
    reveal_strlit("value");
    reveal_strlit("periodSeconds");
    assert("type"@[0] == 't');
    assert("name"@[0] == 'n');
    assert("object"@[0] == 'o');
    assert("target"@[0] == 't');
    assert("kind"@[0] == 'k');
    assert("metric"@[0] == 'm');
}

/// An autoscaler scales the Deployment of the node between the bounds that are
/// asked for.
pub proof fn law_autoscaler_keeps_the_bounds(
    node: StellarNode,
    c: AutoscalingConfig,
    ctx: NodeContext,
)
    ensures
        ({
            let d = hpa_doc(node, c, ctx);
            &&& d.member("kind"@) == Some(Doc::Text("HorizontalPodAutoscaler"@))
            &&& at2(d, "spec"@, "minReplicas"@) == Some(Doc::number(c.min_replicas as int))
            &&& at2(d, "spec"@, "maxReplicas"@) == Some(Doc::number(c.max_replicas as int))
            &&& at3(d, "spec"@, "scaleTargetRef"@, "kind"@) == Some(Doc::Text("Deployment"@))
            &&& at3(d, "spec"@, "scaleTargetRef"@, "name"@) == Some(Doc::Text(node.name@))
            &&& at2(d, "metadata"@, "name"@) == Some(Doc::Text(resource_name_of(node, "hpa"@)))
            &&& at2(d, "metadata"@, "namespace"@) == Some(Doc::Text(namespace_of(node)))
        }),
{
    broadcast use group_members;

    reveal_strlit("apiVersion");
    reveal_strlit("kind");
    reveal_strlit("metadata");
    reveal_strlit("spec");
    reveal_strlit("name");
    reveal_strlit("namespace");
    reveal_strlit("labels");
    reveal_strlit("ownerReferences");
    reveal_strlit("annotations");
    reveal_strlit("scaleTargetRef");
    reveal_strlit("minReplicas");
    reveal_strlit("maxReplicas");
    reveal_strlit("metrics");
    reveal_strlit("behavior");
    assert("kind"@[0] == 'k');
    assert("spec"@[0] == 's');
    assert("name"@[0] == 'n');
    assert("annotations"@[0] == 'a');
    assert("minReplicas"@[0] == 'm');
    assert("maxReplicas"@[0] == 'm');
    assert("minReplicas"@[1] == 'i');
    assert("maxReplicas"@[1] == 'a');
    assert("metadata"@[0] == 'm');
    assert("behavior"@[0] == 'b');
}

/// The use of processors and of memory counts just where a target is set for
/// it, with that target.
pub proof fn law_targets_are_measured(node: StellarNode, c: AutoscalingConfig)
    ensures
        c.target_cpu_utilization_percentage is Some ==> metrics_of(node, c).contains(
            resource_metric_doc("cpu"@, c.target_cpu_utilization_percentage->0 as int),
        ),
        c.target_memory_utilization_percentage is Some ==> metrics_of(node, c).contains(
            resource_metric_doc("memory"@, c.target_memory_utilization_percentage->0 as int),
        ),
        c.target_cpu_utilization_percentage is None && c.target_memory_utilization_percentage
            is None ==> metrics_of(node, c) =~= custom_metrics(
            node.name@,
            c.custom_metrics@,
            c.custom_metrics@.len() as int,
        ),
{
    let all = metrics_of(node, c);
    if let Some(p) = c.target_cpu_utilization_percentage {
        assert(all[0] == resource_metric_doc("cpu"@, p as int));
    }
    if let Some(p) = c.target_memory_utilization_percentage {
        if c.target_cpu_utilization_percentage is Some {
            assert(all[1] == resource_metric_doc("memory"@, p as int));
        } else {
            assert(all[0] == resource_metric_doc("memory"@, p as int));
        }
    }
}

/// What measures a metric that is known by name.
pub open spec fn known_metric_doc(node: Seq<char>, name: Seq<char>) -> Doc {
    match custom_metric(name) {
        Some((metric, target)) => object_metric_doc(node, metric, target),
        None => Doc::Null,
    }
}

/// Every metric of its own that an autoscaler knows by name is measured, and no
/// other.
pub proof fn law_known_metrics_are_measured(node: Seq<char>, v: Seq<String>, n: int)
    requires
        0 <= n <= v.len(),
    ensures
        forall|i: int|
            #![trigger v[i]]
            0 <= i < n && custom_metric(v[i]@) is Some ==> custom_metrics(node, v, n).contains(known_metric_doc(node, v[i]@)),
        forall|x: Doc| #[trigger]
            custom_metrics(node, v, n).contains(x) ==> exists|i: int|
                #![trigger v[i]]
                0 <= i < n && custom_metric(v[i]@) is Some && x == known_metric_doc(node, v[i]@),
    decreases n,
{
    if n > 0 {
        law_known_metrics_are_measured(node, v, n - 1);
        let p = custom_metrics(node, v, n - 1);
        let r = custom_metrics(node, v, n);
        assert forall|i: int|
            #![trigger v[i]]
            0 <= i < n && custom_metric(v[i]@) is Some implies r.contains(known_metric_doc(node, v[i]@)) by {
            if i == n - 1 {
                assert(r[p.len() as int] == known_metric_doc(node, v[i]@));
            } else {
                assert(p.contains(known_metric_doc(node, v[i]@)));
                let k = choose|k: int| 0 <= k < p.len() && p[k] == known_metric_doc(node, v[i]@);
                assert(r[k] == known_metric_doc(node, v[i]@));
            }
        }
        assert forall|x: Doc| #[trigger] r.contains(x) implies exists|i: int|
            #![trigger v[i]]
            0 <= i < n && custom_metric(v[i]@) is Some && x == known_metric_doc(node, v[i]@) by {
            let j = choose|j: int| 0 <= j < r.len() && r[j] == x;
            if j < p.len() {
                assert(r[j] == p[j]);
                assert(p.contains(x));
                let i = choose|i: int|
                    #![trigger v[i]]
                    0 <= i < n - 1 && custom_metric(v[i]@) is Some && x == known_metric_doc(node, v[i]@);
                assert(custom_metric(v[i]@) is Some && x == known_metric_doc(node, v[i]@));
            } else {
                let i = n - 1;
                assert(custom_metric(v[i]@) is Some && x == known_metric_doc(node, v[i]@));
            }
        }
    }
}

/// The metrics that are known by name, and the targets that they are measured
/// against.
pub proof fn law_known_metrics(name: Seq<char>)
    ensures
        custom_metric("ledger_ingestion_lag"@) == Some(("stellar_node_ingestion_lag"@, "5"@)),
        custom_metric("stellar_horizon_tps"@) == Some(("stellar_horizon_tps"@, "1000"@)),
        custom_metric("requests_per_second"@) == custom_metric("stellar_horizon_tps"@),
        custom_metric("queue_length"@) == Some(("stellar_horizon_queue_length"@, "50"@)),
        custom_metric("stellar_queue_length"@) == custom_metric("queue_length"@),
        custom_metric("horizon_queue_length"@) == custom_metric("queue_length"@),
        custom_metric(name) is Some ==> name == "ledger_ingestion_lag"@ || name
            == "stellar_horizon_tps"@ || name == "requests_per_second"@ || name == "queue_length"@
            || name == "stellar_queue_length"@ || name == "horizon_queue_length"@,
{
    reveal_strlit("ledger_ingestion_lag");
    reveal_strlit("stellar_horizon_tps");
    reveal_strlit("requests_per_second");
    reveal_strlit("queue_length");
    reveal_strlit("stellar_queue_length");
    reveal_strlit("horizon_queue_length");
    assert("stellar_horizon_tps"@[0] == 's');
    assert("requests_per_second"@[0] == 'r');
    assert("ledger_ingestion_lag"@[0] == 'l');
    assert("stellar_queue_length"@[0] == 's');
    assert("horizon_queue_length"@[0] == 'h');
}

/// Rules for growing take the largest step that a policy allows, those for
/// shrinking the smallest, and all of them keep their policies in order.
pub proof fn law_behaviour_keeps_its_rules(b: ScalingBehavior, i: int)
    ensures
        behavior_doc(Some(b)) is Some,
        behavior_doc(None) is None,
        ({
            let d = behavior_doc(Some(b))->0;
            &&& b.scale_up is Some ==> at2(d, "scaleUp"@, "selectPolicy"@) == Some(
                Doc::Text("Max"@),
            )
            &&& b.scale_down is Some ==> at2(d, "scaleDown"@, "selectPolicy"@) == Some(
                Doc::Text("Min"@),
            )
            &&& b.scale_up is None ==> d.member("scaleUp"@) is None
            &&& b.scale_down is None ==> d.member("scaleDown"@) is None
            &&& b.scale_up is Some && 0 <= i < b.scale_up->0.policies@.len() ==> {
                let l = at2(d, "scaleUp"@, "policies"@);
                let p = b.scale_up->0.policies@[i];
                l is Some && l->0 is List && l->0->List_0[i] == scaling_policy_doc(
                    p.policy_type@,
                    p.value as int,
                    p.period_seconds as int,
                )
            }
        }),
{
    broadcast use group_members;

    reveal_strlit("scaleUp");
    reveal_strlit("scaleDown");
    reveal_strlit("policies");
    reveal_strlit("selectPolicy");
    reveal_strlit("stabilizationWindowSeconds");
}

} // verus!
