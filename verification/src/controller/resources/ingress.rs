//! Ingress resources, and the split of traffic between a node and its canary.

use vstd::prelude::*;
use vstd::string::*;
use crate::controller::context::NodeContext;
use crate::controller::resources::helpers::{
    map_or_empty, map_or_empty_doc, metadata, metadata_doc, namespace_of, namespace_or_default,
    none, opt_doc, opt_text, opt_text_doc, opt_text_or, push, resource_name, resource_name_of,
    standard_labels, standard_labels_doc, text_or, unless_empty, unless_empty_doc,
};
use crate::controller::resources::plan::{
    Act, Kind, Overlay, Step, Tolerance, acts, apply, apply_act, delete, delete_act, no_acts,
    no_steps, one_act, one_step, push_step,
};
use crate::controller::resources::service::{with_dns, with_dns_doc};
use crate::controller::resources::workload::{canary_version, canary_version_of};
use crate::crd::stellar_node::StellarNode;
use crate::crd::types::{CanaryConfig, IngressConfig, IngressHost, IngressPath, NodeType};
use crate::json::{Doc, Json, at2, at3, docs, group_members};
use crate::text::{
    cat2, cat3, decimal, decimal_text, same, signed_decimal, signed_decimal_text,
};

verus! {

/// An Ingress.
pub open spec fn ingress_manifest_doc(metadata: Doc, spec: Doc) -> Doc {
    Doc::object()
        .with("apiVersion"@, Doc::text("networking.k8s.io/v1"@))
        .with("kind"@, Doc::text("Ingress"@))
        .with("metadata"@, metadata)
        .with("spec"@, spec)
}

pub fn ingress_manifest(metadata: Json, spec: Json) -> (r: Json)
    ensures
        r@ == ingress_manifest_doc(metadata@, spec@),
{
    Json::object()
        .with("apiVersion", Json::text("networking.k8s.io/v1"))
        .with("kind", Json::text("Ingress"))
        .with("metadata", metadata)
        .with("spec", spec)
}

/// A path that leads to a service.
pub open spec fn backend_path_doc(path: Seq<char>, path_type: Seq<char>, service: Seq<char>, number: int) -> Doc {
    Doc::object()
        .with("path"@, Doc::text(path))
        .with("pathType"@, Doc::text(path_type))
        .with(
            "backend"@,
            Doc::object()
                .with(
                    "service"@,
                    Doc::object()
                        .with("name"@, Doc::text(service))
                        .with(
                            "port"@,
                            Doc::object()
                                .with("number"@, Doc::number(number)),
                        ),
                ),
        )
}

pub fn backend_path(path: &str, path_type: &str, service: &str, number: i64) -> (r: Json)
    ensures
        r@ == backend_path_doc(path@, path_type@, service@, number as int),
{
    Json::object()
        .with("path", Json::text(path))
        .with("pathType", Json::text(path_type))
        .with(
            "backend",
            Json::object()
                .with(
                    "service",
                    Json::object()
                        .with("name", Json::text(service))
                        .with(
                            "port",
                            Json::object()
                                .with("number", Json::number(number)),
                        ),
                ),
        )
}

/// A service that gets a share of the traffic.
pub open spec fn destination_doc(host: Seq<char>, weight: int) -> Doc {
    Doc::object()
        .with(
            "destination"@,
            Doc::object()
                .with("host"@, Doc::text(host))
                .with(
                    "port"@,
                    Doc::object()
                        .with("number"@, Doc::number(8000)),
                ),
        )
        .with("weight"@, Doc::number(weight))
}

pub fn destination(host: &str, weight: i64) -> (r: Json)
    ensures
        r@ == destination_doc(host@, weight as int),
{
    Json::object()
        .with(
            "destination",
            Json::object()
                .with("host", Json::text(host))
                .with(
                    "port",
                    Json::object()
                        .with("number", Json::number(8000)),
                ),
        )
        .with("weight", Json::number(weight))
}

/// The service port behind an ingress.
pub open spec fn backend_port(t: NodeType) -> int {
    match t {
        NodeType::Validator => 11626,
        _ => 8000,
    }
}

fn port_behind(t: NodeType) -> (r: i64)
    ensures
        r == backend_port(t),
{
    match t {
        NodeType::Validator => 11626,
        _ => 8000,
    }
}

/// Annotations with a limit set in them, where there is one.
pub open spec fn with_limit_doc(d: Doc, key: Seq<char>, limit: Option<u32>) -> Doc {
    match limit {
        Some(n) => d.with(key, Doc::text(decimal(n as int))),
        None => d,
    }
}

fn with_limit(d: Json, key: &str, limit: Option<u32>) -> (r: Json)
    ensures
        r@ == with_limit_doc(d@, key@, limit),
{
    match limit {
        Some(n) => d.with(key, Json::text(&decimal_text(n as u64))),
        None => d,
    }
}

/// The annotations of an ingress: the configured ones, then those of
/// cert-manager, external DNS and the rate limits.
pub open spec fn ingress_annotations_doc(c: IngressConfig) -> Doc {
    let d = map_or_empty_doc(c.annotations);
    let d = d.with_some("cert-manager.io/issuer"@, opt_text_doc(c.cert_manager_issuer)).with_some(
        "cert-manager.io/cluster-issuer"@,
        opt_text_doc(c.cert_manager_cluster_issuer),
    );
    let d = match c.external_dns {
        Some(dns) => with_dns_doc(d, dns.hostname@, dns),
        None => d,
    };
    match c.rate_limit {
        Some(l) => {
            let d = with_limit_doc(
                d,
                "nginx.ingress.kubernetes.io/limit-rps"@,
                l.requests_per_second,
            );
            let d = with_limit_doc(
                d,
                "nginx.ingress.kubernetes.io/limit-rpm"@,
                l.requests_per_minute,
            );
            let d = with_limit_doc(
                d,
                "nginx.ingress.kubernetes.io/limit-connections"@,
                l.connections,
            );
            let d = with_limit_doc(
                d,
                "nginx.ingress.kubernetes.io/limit-burst-multiplier"@,
                l.burst_multiplier,
            );
            d.with_some(
                "nginx.ingress.kubernetes.io/limit-whitelist"@,
                opt_text_doc(l.whitelist_cidrs),
            )
        },
        None => d,
    }
}

fn ingress_annotations(c: &IngressConfig) -> (r: Json)
    ensures
        r@ == ingress_annotations_doc(*c),
{
    let d = map_or_empty(&c.annotations);
    let d = d.with_some("cert-manager.io/issuer", opt_text(&c.cert_manager_issuer)).with_some(
        "cert-manager.io/cluster-issuer",
        opt_text(&c.cert_manager_cluster_issuer),
    );
    let d = match &c.external_dns {
        Some(dns) => with_dns(d, &dns.hostname, dns),
        None => d,
    };
    match &c.rate_limit {
        Some(l) => {
            let d = with_limit(d, "nginx.ingress.kubernetes.io/limit-rps", l.requests_per_second);
            let d = with_limit(d, "nginx.ingress.kubernetes.io/limit-rpm", l.requests_per_minute);
            let d = with_limit(
                d,
                "nginx.ingress.kubernetes.io/limit-connections",
                l.connections,
            );
            let d = with_limit(
                d,
                "nginx.ingress.kubernetes.io/limit-burst-multiplier",
                l.burst_multiplier,
            );
            d.with_some(
                "nginx.ingress.kubernetes.io/limit-whitelist",
                opt_text(&l.whitelist_cidrs),
            )
        },
        None => d,
    }
}

/// The paths of a host, all of which lead to one service.
pub open spec fn path_docs(v: Seq<IngressPath>, service: Seq<char>, t: NodeType) -> Seq<Doc> {
    Seq::new(
        v.len(),
        |i: int|
            backend_path_doc(
                v[i].path@,
                opt_text_or(v[i].path_type, "Prefix"@),
                service,
                backend_port(t),
            ),
    )
}

fn build_paths(v: &Vec<IngressPath>, service: &str, t: NodeType) -> (r: Vec<Json>)
    ensures
        docs(r@) == path_docs(v@, service@, t),
{
    let mut r = none();
    let mut i: usize = 0;
    while i < v.len()
        invariant
            i <= v.len(),
            docs(r@) == path_docs(v@, service@, t).subrange(0, i as int),
        decreases v@.len() - i,
    {
        push(
            &mut r,
            backend_path(&v[i].path, text_or(&v[i].path_type, "Prefix"), service, port_behind(t)),
        );
        i = i + 1;
        assert(docs(r@) =~= path_docs(v@, service@, t).subrange(0, i as int));
    }
    assert(path_docs(v@, service@, t).subrange(0, v@.len() as int) =~= path_docs(v@, service@, t));
    r
}

/// The rule of a host.
pub open spec fn host_rule_doc(h: IngressHost, service: Seq<char>, t: NodeType) -> Doc {
    Doc::object().with("host"@, Doc::text(h.host@)).with(
        "http"@,
        Doc::object().with("paths"@, Doc::List(path_docs(h.paths@, service, t))),
    )
}

/// The rules of the hosts.
pub open spec fn host_rules(v: Seq<IngressHost>, service: Seq<char>, t: NodeType) -> Seq<Doc> {
    Seq::new(v.len(), |i: int| host_rule_doc(v[i], service, t))
}

fn build_host_rules(v: &Vec<IngressHost>, service: &str, t: NodeType) -> (r: Vec<Json>)
    ensures
        docs(r@) == host_rules(v@, service@, t),
{
    let mut r = none();
    let mut i: usize = 0;
    while i < v.len()
        invariant
            i <= v.len(),
            docs(r@) == host_rules(v@, service@, t).subrange(0, i as int),
        decreases v@.len() - i,
    {
        push(
            &mut r,
            Json::object().with("host", Json::text(&v[i].host)).with(
                "http",
                Json::object().with("paths", Json::List(build_paths(&v[i].paths, service, t))),
            ),
        );
        i = i + 1;
        assert(docs(r@) =~= host_rules(v@, service@, t).subrange(0, i as int));
    }
    assert(host_rules(v@, service@, t).subrange(0, v@.len() as int) =~= host_rules(
        v@,
        service@,
        t,
    ));
    r
}

/// The names of the hosts.
pub open spec fn host_names(v: Seq<IngressHost>) -> Seq<Doc> {
    Seq::new(v.len(), |i: int| Doc::text(v[i].host@))
}

fn build_host_names(v: &Vec<IngressHost>) -> (r: Vec<Json>)
    ensures
        docs(r@) == host_names(v@),
{
    let mut r = none();
    let mut i: usize = 0;
    while i < v.len()
        invariant
            i <= v.len(),
            docs(r@) == host_names(v@).subrange(0, i as int),
        decreases v@.len() - i,
    {
        push(&mut r, Json::text(&v[i].host));
        i = i + 1;
        assert(docs(r@) =~= host_names(v@).subrange(0, i as int));
    }
    assert(host_names(v@).subrange(0, v@.len() as int) =~= host_names(v@));
    r
}

/// The certificate of the hosts, where they have one.
pub open spec fn tls_doc(c: IngressConfig) -> Option<Doc> {
    match c.tls_secret_name {
        Some(s) => Some(
            Doc::list().and(
                Doc::object().with("hosts"@, Doc::List(host_names(c.hosts@))).with(
                    "secretName"@,
                    Doc::text(s@),
                ),
            ),
        ),
        None => None,
    }
}

fn tls(c: &IngressConfig) -> (r: Option<Json>)
    ensures
        opt_doc(r) == tls_doc(*c),
{
    match &c.tls_secret_name {
        Some(s) => Some(
            Json::list().and(
                Json::object().with("hosts", Json::List(build_host_names(&c.hosts))).with(
                    "secretName",
                    Json::text(s),
                ),
            ),
        ),
        None => None,
    }
}

/// An Ingress under a given name, to a given service, with given annotations.
pub open spec fn ingress_to_doc(
    node: StellarNode,
    c: IngressConfig,
    name: Seq<char>,
    service: Seq<char>,
    annotations: Option<Doc>,
    ctx: NodeContext,
) -> Doc {
    ingress_manifest_doc(
        metadata_doc(node, name, standard_labels_doc(node, ctx)).with_some(
            "annotations"@,
            annotations,
        ),
        Doc::object().with_some("ingressClassName"@, opt_text_doc(c.class_name)).with(
            "rules"@,
            Doc::List(host_rules(c.hosts@, service, node.spec.node_type)),
        ).with_some("tls"@, tls_doc(c)),
    )
}

fn ingress_to(
    node: &StellarNode,
    c: &IngressConfig,
    name: &str,
    service: &str,
    annotations: Option<Json>,
    ctx: &NodeContext,
) -> (r: Json)
    ensures
        r@ == ingress_to_doc(*node, *c, name@, service@, opt_doc(annotations), *ctx),
{
    ingress_manifest(
        metadata(node, name, standard_labels(node, ctx)).with_some("annotations", annotations),
        Json::object().with_some("ingressClassName", opt_text(&c.class_name)).with(
            "rules",
            Json::List(build_host_rules(&c.hosts, service, node.spec.node_type)),
        ).with_some("tls", tls(c)),
    )
}

/// The Ingress of a node.
pub open spec fn ingress_doc(node: StellarNode, c: IngressConfig, ctx: NodeContext) -> Doc {
    ingress_to_doc(
        node,
        c,
        resource_name_of(node, "ingress"@),
        node.name@,
        unless_empty_doc(ingress_annotations_doc(c)),
        ctx,
    )
}

/// Builds the Ingress of a node.
pub fn build_ingress(node: &StellarNode, config: &IngressConfig, ctx: &NodeContext) -> (r: Json)
    ensures
        r@ == ingress_doc(*node, *config, *ctx),
{
    ingress_to(
        node,
        config,
        &resource_name(node, "ingress"),
        &node.name,
        unless_empty(ingress_annotations(config)),
        ctx,
    )
}

/// The canary's share of the traffic: the one that the rollout has reached,
/// else the configured one.
pub open spec fn canary_weight_of(node: StellarNode, c: CanaryConfig) -> i32 {
    match node.status {
        Some(s) => match s.canary_weight {
            Some(w) => w,
            None => c.weight,
        },
        None => c.weight,
    }
}

fn canary_weight(node: &StellarNode, c: &CanaryConfig) -> (r: i32)
    ensures
        r == canary_weight_of(*node, *c),
{
    match &node.status {
        Some(s) => match s.canary_weight {
            Some(w) => w,
            None => c.weight,
        },
        None => c.weight,
    }
}

/// The canary Ingress of a node. It leads to the canary's service.
pub open spec fn canary_ingress_doc(
    node: StellarNode,
    c: IngressConfig,
    weight: i32,
    ctx: NodeContext,
) -> Doc {
    let annotations = ingress_annotations_doc(c).with(
        "nginx.ingress.kubernetes.io/canary"@,
        Doc::text("true"@),
    ).with(
        "nginx.ingress.kubernetes.io/canary-weight"@,
        Doc::text(signed_decimal(weight as int)),
    ).with(
        "traefik.ingress.kubernetes.io/service.weights"@,
        Doc::text(node.name@ + ":"@ + signed_decimal(weight as int)),
    );
    ingress_to_doc(
        node,
        c,
        resource_name_of(node, "ingress"@) + "-canary"@,
        node.name@ + "-canary"@,
        Some(annotations),
        ctx,
    )
}

/// Builds the canary Ingress of a node.
pub fn build_canary_ingress(
    node: &StellarNode,
    config: &IngressConfig,
    weight: i32,
    ctx: &NodeContext,
) -> (r: Json)
    ensures
        r@ == canary_ingress_doc(*node, *config, weight, *ctx),
{
    let text = signed_decimal_text(weight as i64);
    let annotations = ingress_annotations(config).with(
        "nginx.ingress.kubernetes.io/canary",
        Json::text("true"),
    ).with("nginx.ingress.kubernetes.io/canary-weight", Json::text(&text)).with(
        "traefik.ingress.kubernetes.io/service.weights",
        Json::text(&cat3(&node.name, ":", &text)),
    );
    ingress_to(
        node,
        config,
        &cat2(&resource_name(node, "ingress"), "-canary"),
        &cat2(&node.name, "-canary"),
        Some(annotations),
        ctx,
    )
}

/// The canary's share of the traffic, in percent: its weight, kept between
/// nothing and all.
pub open spec fn canary_share_of(weight: i32) -> int {
    if weight < 0 {
        0
    } else if weight > 100 {
        100
    } else {
        weight as int
    }
}

/// The canary's share of the traffic, in percent.
pub fn canary_share(weight: i32) -> (r: i32)
    ensures
        r == canary_share_of(weight),
{
    if weight < 0 {
        0
    } else if weight > 100 {
        100
    } else {
        weight
    }
}

/// What is left of the traffic for the node itself.
pub open spec fn stable_weight_of(weight: i32) -> int {
    100 - canary_share_of(weight)
}

/// What is left of the traffic for the node itself.
pub fn stable_weight(weight: i32) -> (r: i32)
    ensures
        r == stable_weight_of(weight),
{
    100 - canary_share(weight)
}

/// Whatever the weight, the node's share and the canary's make up the whole
/// traffic, and neither is less than nothing. A weight that is a percentage is
/// the canary's share.
pub proof fn law_weights(weight: i32)
    ensures
        stable_weight_of(weight) + canary_share_of(weight) == 100,
        0 <= canary_share_of(weight) <= 100,
        0 <= weight <= 100 ==> canary_share_of(weight) == weight,
{
}

/// The VirtualService that splits the traffic between a node and its canary.
pub open spec fn virtual_service_doc(node: StellarNode, c: IngressConfig, weight: i32) -> Doc {
    Doc::object().with("apiVersion"@, Doc::text("networking.istio.io/v1beta1"@)).with(
        "kind"@,
        Doc::text("VirtualService"@),
    ).with(
        "metadata"@,
        Doc::object().with("name"@, Doc::text(node.name@ + "-canary-vs"@)).with(
            "namespace"@,
            Doc::text(namespace_of(node)),
        ),
    ).with(
        "spec"@,
        Doc::object().with("hosts"@, Doc::List(host_names(c.hosts@))).with(
            "http"@,
            Doc::list().and(
                Doc::object().with(
                    "route"@,
                    Doc::list().and(destination_doc(node.name@, stable_weight_of(weight))).and(
                        destination_doc(node.name@ + "-canary"@, canary_share_of(weight)),
                    ),
                ),
            ),
        ),
    )
}

/// Builds the VirtualService that splits the traffic between a node and its
/// canary.
pub fn build_canary_virtual_service(
    node: &StellarNode,
    config: &IngressConfig,
    weight: i32,
) -> (r: Json)
    ensures
        r@ == virtual_service_doc(*node, *config, weight),
{
    Json::object().with("apiVersion", Json::text("networking.istio.io/v1beta1")).with(
        "kind",
        Json::text("VirtualService"),
    ).with(
        "metadata",
        Json::object().with("name", Json::text(&cat2(&node.name, "-canary-vs"))).with(
            "namespace",
            Json::text(namespace_or_default(node)),
        ),
    ).with(
        "spec",
        Json::object().with("hosts", Json::List(build_host_names(&config.hosts))).with(
            "http",
            Json::list().and(
                Json::object().with(
                    "route",
                    Json::list().and(destination(&node.name, stable_weight(weight) as i64)).and(
                        destination(&cat2(&node.name, "-canary"), canary_share(weight) as i64),
                    ),
                ),
            ),
        ),
    )
}

/// Whether the traffic goes through Istio.
pub open spec fn is_istio(c: IngressConfig) -> bool {
    c.class_name is Some && c.class_name->0@ == "istio"@
}

fn through_istio(c: &IngressConfig) -> (r: bool)
    ensures
        r == is_istio(*c),
{
    match &c.class_name {
        Some(s) => same(s, "istio"),
        None => false,
    }
}

/// What is done for the canary's share of the traffic, where the rollout is a
/// canary rollout. Istio takes part where the ingress goes through it; that it
/// may be missing is passed over.
pub open spec fn canary_ingress_acts(
    node: StellarNode,
    c: IngressConfig,
    canary: CanaryConfig,
    dry_run: bool,
    ctx: NodeContext,
) -> Seq<Act> {
    let name = resource_name_of(node, "ingress"@) + "-canary"@;
    let weight = canary_weight_of(node, canary);
    if canary_version_of(node) is Some {
        let first = one_act(
            apply_act(
                Kind::Ingress,
                namespace_of(node),
                name,
                canary_ingress_doc(node, c, weight, ctx),
                dry_run,
            ),
        );
        if is_istio(c) {
            first.push(
                Act::Apply {
                    kind: Kind::VirtualService,
                    namespace: namespace_of(node),
                    name: node.name@ + "-canary-vs"@,
                    manifest: virtual_service_doc(node, c, weight),
                    overlay: Overlay::Nothing,
                    tolerance: Tolerance::Everything,
                    dry_run: false,
                },
            )
        } else {
            first
        }
    } else {
        let first = one_act(
            delete_act(Kind::Ingress, namespace_of(node), name, Tolerance::Everything, dry_run),
        );
        if is_istio(c) {
            first.push(
                delete_act(
                    Kind::VirtualService,
                    namespace_of(node),
                    node.name@ + "-canary-vs"@,
                    Tolerance::Everything,
                    false,
                ),
            )
        } else {
            first
        }
    }
}

fn canary_ingress_steps(
    node: &StellarNode,
    c: &IngressConfig,
    canary: &CanaryConfig,
    dry_run: bool,
    ctx: &NodeContext,
) -> (r: Vec<Step>)
    ensures
        acts(r@) == canary_ingress_acts(*node, *c, *canary, dry_run, *ctx),
{
    let name = cat2(&resource_name(node, "ingress"), "-canary");
    let namespace = namespace_or_default(node);
    let weight: i32 = canary_weight(node, canary);
    if canary_version(node).is_some() {
        let mut steps = one_step(
            apply(
                Kind::Ingress,
                namespace,
                &name,
                build_canary_ingress(node, c, weight, ctx),
                dry_run,
            ),
        );
        if through_istio(c) {
            push_step(
                &mut steps,
                Step::Apply {
                    kind: Kind::VirtualService,
                    namespace: namespace.to_string(),
                    name: cat2(&node.name, "-canary-vs"),
                    manifest: build_canary_virtual_service(node, c, weight),
                    overlay: Overlay::Nothing,
                    tolerance: Tolerance::Everything,
                    dry_run: false,
                },
            );
        }
        steps
    } else {
        let mut steps = one_step(
            delete(Kind::Ingress, namespace, &name, Tolerance::Everything, dry_run),
        );
        if through_istio(c) {
            push_step(
                &mut steps,
                delete(
                    Kind::VirtualService,
                    namespace,
                    &cat2(&node.name, "-canary-vs"),
                    Tolerance::Everything,
                    false,
                ),
            );
        }
        steps
    }
}

/// What is done for the Ingress of a node.
pub open spec fn ingress_acts(node: StellarNode, dry_run: bool, ctx: NodeContext) -> Seq<Act> {
    match node.spec.ingress {
        Some(c) => if node.spec.node_type == NodeType::Validator {
            no_acts()
        } else {
            let first = one_act(
                apply_act(
                    Kind::Ingress,
                    namespace_of(node),
                    resource_name_of(node, "ingress"@),
                    ingress_doc(node, c, ctx),
                    dry_run,
                ),
            );
            match node.spec.strategy.canary {
                Some(canary) => first + canary_ingress_acts(node, c, canary, dry_run, ctx),
                None => first,
            }
        },
        None => no_acts(),
    }
}

/// Ensures the Ingress of an API node that asks for one, and that of its
/// canary.
pub fn ensure_ingress(node: &StellarNode, dry_run: bool, ctx: &NodeContext) -> (r: Vec<Step>)
    ensures
        acts(r@) == ingress_acts(*node, dry_run, *ctx),
{
    let c = match &node.spec.ingress {
        Some(c) => c,
        None => return no_steps(),
    };
    match node.spec.node_type {
        NodeType::Validator => return no_steps(),
        _ => {},
    }
    let mut steps = one_step(
        apply(
            Kind::Ingress,
            namespace_or_default(node),
            &resource_name(node, "ingress"),
            build_ingress(node, c, ctx),
            dry_run,
        ),
    );
    if let Some(canary) = &node.spec.strategy.canary {
        let mut more = canary_ingress_steps(node, c, canary, dry_run, ctx);
        let ghost first = steps@;
        let ghost second = more@;
        steps.append(&mut more);
        assert(acts(steps@) =~= acts(first) + acts(second));
    }
    steps
}

/// Deletes the Ingress of a node that asks for one.
pub fn delete_ingress(node: &StellarNode, dry_run: bool) -> (r: Vec<Step>)
    ensures
        acts(r@) == if node.spec.ingress is Some {
            one_act(
                delete_act(
                    Kind::Ingress,
                    namespace_of(*node),
                    resource_name_of(*node, "ingress"@),
                    Tolerance::Missing,
                    dry_run,
                ),
            )
        } else {
            no_acts()
        },
{
    if node.spec.ingress.is_none() {
        return no_steps();
    }
    one_step(
        delete(
            Kind::Ingress,
            namespace_or_default(node),
            &resource_name(node, "ingress"),
            Tolerance::Missing,
            dry_run,
        ),
    )
}

/// A path leads to the port of the service that it is given.
pub proof fn law_path_leads_to_its_service(
    path: Seq<char>,
    path_type: Seq<char>,
    service: Seq<char>,
    number: int,
)
    ensures
        ({
            let d = backend_path_doc(path, path_type, service, number);
            &&& d.member("path"@) == Some(Doc::Text(path))
            &&& d.member("pathType"@) == Some(Doc::Text(path_type))
            &&& at3(d, "backend"@, "service"@, "name"@) == Some(Doc::Text(service))
            &&& at3(d, "backend"@, "service"@, "port"@) is Some && at3(
                d,
                "backend"@,
                "service"@,
                "port"@,
            )->0.member("number"@) == Some(Doc::number(number))
        }),
        destination_doc(service, number).member("weight"@) == Some(Doc::number(number)),
        at2(destination_doc(service, number), "destination"@, "host"@) == Some(Doc::Text(service)),
        backend_port(NodeType::Validator) == 11626,
        backend_port(NodeType::Horizon) == 8000,
        backend_port(NodeType::SorobanRpc) == 8000,
{
    broadcast use group_members;

    reveal_strlit("path");
    reveal_strlit("pathType");
    reveal_strlit("backend");
    reveal_strlit("service");
    reveal_strlit("name");
    reveal_strlit("port");
    reveal_strlit("number");
    reveal_strlit("destination");
    reveal_strlit("weight");
    reveal_strlit("host");
    assert("backend"@[0] == 'b');
    assert("service"@[0] == 's');
    assert("path"@[0] == 'p');
    assert("name"@[0] == 'n');
    assert("path"@[1] == 'a');
    assert("port"@[1] == 'o');
    assert("port"@[0] == 'p');
    assert("number"@[0] == 'n');
    assert("weight"@[0] == 'w');
    assert("host"@[0] == 'h');
}

/// An ingress has a rule for every host, and in it every path of that host leads
/// to the service of the node; the encrypted hosts are all of them.
pub proof fn law_every_host_is_served(
    node: StellarNode,
    c: IngressConfig,
    ctx: NodeContext,
    i: int,
    j: int,
)
    requires
        0 <= i < c.hosts@.len(),
        0 <= j < c.hosts@[i].paths@.len(),
    ensures
        ({
            let d = ingress_doc(node, c, ctx);
            let rules = at2(d, "spec"@, "rules"@);
            let rule = rules->0->List_0[i];
            let paths = at2(rule, "http"@, "paths"@);
            let path = c.hosts@[i].paths@[j];
            &&& d.member("kind"@) == Some(Doc::Text("Ingress"@))
            &&& at2(d, "metadata"@, "name"@) == Some(
                Doc::Text(resource_name_of(node, "ingress"@)),
            )
            &&& rules is Some && rules->0 is List && rules->0->List_0.len() == c.hosts@.len()
            &&& rule.member("host"@) == Some(Doc::Text(c.hosts@[i].host@))
            &&& paths is Some && paths->0 is List && paths->0->List_0.len()
                == c.hosts@[i].paths@.len()
            &&& paths->0->List_0[j] == backend_path_doc(
                path.path@,
                opt_text_or(path.path_type, "Prefix"@),
                node.name@,
                backend_port(node.spec.node_type),
            )
        }),
{
    broadcast use group_members;

    reveal_strlit("apiVersion");
    reveal_strlit("kind");
    reveal_strlit("metadata");
    reveal_strlit("spec");
    reveal_strlit("name");
    reveal_strlit("namespace");
    reveal_strlit("labels");
    reveal_strlit("ownerReferences");
    reveal_strlit("annotations");
    reveal_strlit("ingressClassName");
    reveal_strlit("rules");
    reveal_strlit("tls");
    reveal_strlit("host");
    reveal_strlit("http");
    reveal_strlit("paths");
    assert("kind"@[0] == 'k');
    assert("spec"@[0] == 's');
    assert("name"@[0] == 'n');
    assert("host"@[0] == 'h');
    assert("http"@[0] == 'h');
    assert("host"@[1] == 'o');
    assert("http"@[1] == 't');
    assert("rules"@[0] == 'r');
    assert("paths"@[0] == 'p');
}

/// Hosts are encrypted where a secret is named for them, with that secret, and
/// all of them are.
pub proof fn law_hosts_are_encrypted(c: IngressConfig, i: int)
    requires
        0 <= i < c.hosts@.len(),
    ensures
        tls_doc(c) is Some <==> c.tls_secret_name is Some,
        c.tls_secret_name is Some ==> {
            let d = tls_doc(c)->0->List_0[0];
            let hosts = d.member("hosts"@);
            &&& tls_doc(c)->0 is List && tls_doc(c)->0->List_0.len() == 1
            &&& d.member("secretName"@) == Some(Doc::Text(c.tls_secret_name->0@))
            &&& hosts is Some && hosts->0 is List && hosts->0->List_0[i] == Doc::Text(
                c.hosts@[i].host@,
            )
        },
{
    broadcast use group_members;

    reveal_strlit("hosts");
    reveal_strlit("secretName");
}

/// What is annotated of an ingress: the issuers of its certificates and the
/// limits of its rate, each just where it is set.
pub proof fn law_ingress_is_annotated(c: IngressConfig)
    requires
        c.annotations is None,
        c.external_dns is None,
    ensures
        ({
            let d = ingress_annotations_doc(c);
            &&& d.member("cert-manager.io/issuer"@) == opt_text_doc(c.cert_manager_issuer)
            &&& d.member("cert-manager.io/cluster-issuer"@) == opt_text_doc(
                c.cert_manager_cluster_issuer,
            )
            &&& c.rate_limit is Some ==> {
                let l = c.rate_limit->0;
                &&& l.requests_per_second is Some ==> d.member(
                    "nginx.ingress.kubernetes.io/limit-rps"@,
                ) == Some(Doc::Text(decimal(l.requests_per_second->0 as int)))
                &&& l.requests_per_second is None ==> d.member(
                    "nginx.ingress.kubernetes.io/limit-rps"@,
                ) is None
                &&& l.requests_per_minute is Some ==> d.member(
                    "nginx.ingress.kubernetes.io/limit-rpm"@,
                ) == Some(Doc::Text(decimal(l.requests_per_minute->0 as int)))
                &&& l.connections is Some ==> d.member(
                    "nginx.ingress.kubernetes.io/limit-connections"@,
                ) == Some(Doc::Text(decimal(l.connections->0 as int)))
                &&& l.burst_multiplier is Some ==> d.member(
                    "nginx.ingress.kubernetes.io/limit-burst-multiplier"@,
                ) == Some(Doc::Text(decimal(l.burst_multiplier->0 as int)))
                &&& d.member("nginx.ingress.kubernetes.io/limit-whitelist"@) == opt_text_doc(
                    l.whitelist_cidrs,
                )
            }
        }),
{
    broadcast use group_members;

    reveal_strlit("cert-manager.io/issuer");
    reveal_strlit("cert-manager.io/cluster-issuer");
    reveal_strlit("nginx.ingress.kubernetes.io/limit-rps");
    reveal_strlit("nginx.ingress.kubernetes.io/limit-rpm");
    reveal_strlit("nginx.ingress.kubernetes.io/limit-connections");
    reveal_strlit("nginx.ingress.kubernetes.io/limit-burst-multiplier");
    reveal_strlit("nginx.ingress.kubernetes.io/limit-whitelist");
    assert("nginx.ingress.kubernetes.io/limit-rps"@[36] == 's');
    assert("nginx.ingress.kubernetes.io/limit-rpm"@[36] == 'm');
}

/// The weight of a canary is the one that was reached, else the one that is
/// configured; its ingress carries it, and leads to the service of the canary.
pub proof fn law_canary_carries_its_weight(
    node: StellarNode,
    c: IngressConfig,
    canary: CanaryConfig,
    weight: i32,
    ctx: NodeContext,
)
    requires
        c.annotations is None,
        c.external_dns is None,
    ensures
        ({
            let reached = match node.status {
                Some(s) => s.canary_weight,
                None => None,
            };
            &&& reached is Some ==> canary_weight_of(node, canary) == reached->0
            &&& reached is None ==> canary_weight_of(node, canary) == canary.weight
        }),
        ({
            let d = canary_ingress_doc(node, c, weight, ctx);
            &&& at3(d, "metadata"@, "annotations"@, "nginx.ingress.kubernetes.io/canary"@) == Some(
                Doc::Text("true"@),
            )
            &&& at3(d, "metadata"@, "annotations"@, "nginx.ingress.kubernetes.io/canary-weight"@)
                == Some(Doc::Text(signed_decimal(weight as int)))
            &&& at2(d, "metadata"@, "name"@) == Some(
                Doc::Text(resource_name_of(node, "ingress"@) + "-canary"@),
            )
            &&& at2(d, "spec"@, "rules"@) == Some(
                Doc::List(host_rules(c.hosts@, node.name@ + "-canary"@, node.spec.node_type)),
            )
        }),
{
    broadcast use group_members;

    reveal_strlit("apiVersion");
    reveal_strlit("kind");
    reveal_strlit("metadata");
    reveal_strlit("spec");
    reveal_strlit("name");
    reveal_strlit("namespace");
    reveal_strlit("labels");
    reveal_strlit("ownerReferences");
    reveal_strlit("annotations");
    reveal_strlit("ingressClassName");
    reveal_strlit("rules");
    reveal_strlit("tls");
    reveal_strlit("nginx.ingress.kubernetes.io/canary");
    reveal_strlit("nginx.ingress.kubernetes.io/canary-weight");
    reveal_strlit("traefik.ingress.kubernetes.io/service.weights");
    reveal_strlit("cert-manager.io/issuer");
    reveal_strlit("cert-manager.io/cluster-issuer");
    reveal_strlit("nginx.ingress.kubernetes.io/limit-rps");
    reveal_strlit("nginx.ingress.kubernetes.io/limit-rpm");
    reveal_strlit("nginx.ingress.kubernetes.io/limit-connections");
    reveal_strlit("nginx.ingress.kubernetes.io/limit-burst-multiplier");
    reveal_strlit("nginx.ingress.kubernetes.io/limit-whitelist");
    assert("kind"@[0] == 'k');
    assert("spec"@[0] == 's');
    assert("name"@[0] == 'n');
    assert("nginx.ingress.kubernetes.io/limit-rps"@[36] == 's');
    assert("nginx.ingress.kubernetes.io/limit-rpm"@[36] == 'm');
    assert("traefik.ingress.kubernetes.io/service.weights"@[0] == 't');
    assert("nginx.ingress.kubernetes.io/limit-connections"@[0] == 'n');
}

/// Requests are split between the node and its canary by the weight.
pub proof fn law_requests_are_split(node: StellarNode, c: IngressConfig, weight: i32)
    ensures
        ({
            let d = virtual_service_doc(node, c, weight);
            let http = at2(d, "spec"@, "http"@);
            let route = http->0->List_0[0].member("route"@);
            &&& http is Some && http->0 is List && http->0->List_0.len() == 1
            &&& route is Some && route->0 is List && route->0->List_0.len() == 2
            &&& route->0->List_0[0] == destination_doc(node.name@, 100 - canary_share_of(weight))
            &&& route->0->List_0[1] == destination_doc(
                node.name@ + "-canary"@,
                canary_share_of(weight),
            )
        }),
{
    broadcast use group_members;

    reveal_strlit("apiVersion");
    reveal_strlit("kind");
    reveal_strlit("metadata");
    reveal_strlit("spec");
    reveal_strlit("hosts");
    reveal_strlit("http");
    reveal_strlit("route");
    assert("kind"@[0] == 'k');
    assert("spec"@[0] == 's');
    assert("http"@[0] == 'h');
    assert("hosts"@[0] == 'h');
    assert("route"@[0] == 'r');
}

/// What is done for an ingress: nothing for a validator or without one; else it
/// is applied, and beside it that of a canary, which is deleted again where no
/// canary runs.
pub proof fn law_ingress_is_applied(node: StellarNode, dry_run: bool, ctx: NodeContext)
    ensures
        ({
            let all = ingress_acts(node, dry_run, ctx);
            let wanted = node.spec.ingress is Some && node.spec.node_type != NodeType::Validator;
            let canary = wanted && node.spec.strategy.canary is Some;
            let running = node.status is Some && node.status->0.canary_version is Some;
            &&& !wanted ==> all.len() == 0
            &&& wanted ==> all.len() >= 1 && all[0] is Apply && all[0]->Apply_kind == Kind::Ingress
                && all[0]->Apply_manifest == ingress_doc(node, node.spec.ingress->0, ctx)
            &&& wanted && !canary ==> all.len() == 1
            &&& canary && running ==> all.len() >= 2 && all[1] is Apply && all[1]->Apply_kind
                == Kind::Ingress
            &&& canary && !running ==> all.len() >= 2 && all[1] is Delete && all[1]->Delete_kind
                == Kind::Ingress
        }),
{
}

/// A mesh is told of a canary just where the ingress goes through one: its
/// routes are applied while a canary runs and deleted when none does.
pub proof fn law_mesh_is_told(
    node: StellarNode,
    c: IngressConfig,
    canary: CanaryConfig,
    dry_run: bool,
    ctx: NodeContext,
)
    ensures
        ({
            let all = canary_ingress_acts(node, c, canary, dry_run, ctx);
            let mesh = c.class_name is Some && c.class_name->0@ == "istio"@;
            let running = node.status is Some && node.status->0.canary_version is Some;
            &&& all.len() == if mesh {
                2int
            } else {
                1
            }
            &&& running ==> all[0] is Apply && all[0]->Apply_manifest == canary_ingress_doc(
                node,
                c,
                canary_weight_of(node, canary),
                ctx,
            )
            &&& !running ==> all[0] is Delete
            &&& mesh && running ==> all[1] is Apply && all[1]->Apply_kind == Kind::VirtualService
                && all[1]->Apply_manifest == virtual_service_doc(
                node,
                c,
                canary_weight_of(node, canary),
            )
            &&& mesh && !running ==> all[1] is Delete && all[1]->Delete_kind
                == Kind::VirtualService
        }),
{
}

} // verus!
