//! Services and what scrapes them.

use vstd::prelude::*;
use vstd::string::*;
use crate::controller::context::NodeContext;
use crate::controller::resources::helpers::{
    label, label_doc, law_users_labels_displace_none, match_labels, match_labels_doc,
    merge_service_annotations, merge_service_metadata_labels, metadata, metadata_doc, namespace_of,
    namespace_or_default, owner_reference, owner_reference_doc, resource_name, resource_name_of,
    standard_labels, standard_labels_doc, unless_empty, unless_empty_doc, with_all, with_all_doc,
    with_service_annotations, with_service_labels,
};
use crate::controller::resources::plan::{
    Kind, Step, Tolerance, acts, apply, apply_act, delete, delete_act, no_acts, no_steps, one_act,
    one_step, push_step,
};
use crate::controller::resources::workload::{
    canary_labels, canary_labels_doc, canary_version, canary_version_of, relabelled, with_labels,
};
use crate::crd::stellar_node::StellarNode;
use crate::crd::types::{ExternalDnsConfig, NodeType};
use crate::json::{Doc, Json, at2, at3, group_members, has_item};
use crate::text::{begins_with, cat2, cat3, decimal, decimal_text};

verus! {

/// A port of a service.
pub open spec fn service_port_doc(name: Seq<char>, port: int) -> Doc {
    Doc::object()
        .with("name"@, Doc::text(name))
        .with("port"@, Doc::number(port))
}

pub fn service_port(name: &str, port: i64) -> (r: Json)
    ensures
        r@ == service_port_doc(name@, port as int),
{
    Json::object()
        .with("name", Json::text(name))
        .with("port", Json::number(port))
}

/// A Service.
pub open spec fn service_manifest_doc(metadata: Doc, selector: Doc, ports: Doc) -> Doc {
    Doc::object()
        .with("apiVersion"@, Doc::text("v1"@))
        .with("kind"@, Doc::text("Service"@))
        .with("metadata"@, metadata)
        .with(
            "spec"@,
            Doc::object()
                .with("selector"@, selector)
                .with("ports"@, ports),
        )
}

pub fn service_manifest(metadata: Json, selector: Json, ports: Json) -> (r: Json)
    ensures
        r@ == service_manifest_doc(metadata@, selector@, ports@),
{
    Json::object()
        .with("apiVersion", Json::text("v1"))
        .with("kind", Json::text("Service"))
        .with("metadata", metadata)
        .with(
            "spec",
            Json::object()
                .with("selector", selector)
                .with("ports", ports),
        )
}

/// The ServiceMonitor of an API node.
pub open spec fn service_monitor_doc(node: StellarNode, ctx: NodeContext) -> Doc {
    Doc::object()
        .with("apiVersion"@, Doc::text("monitoring.coreos.com/v1"@))
        .with("kind"@, Doc::text("ServiceMonitor"@))
        .with(
            "metadata"@,
            Doc::object()
                .with("name"@, Doc::text(resource_name_of(node, "service-monitor"@)))
                .with("namespace"@, Doc::text(namespace_of(node)))
                .with("labels"@, standard_labels_doc(node, ctx))
                .with("ownerReferences"@, Doc::list().and(owner_reference_doc(node))),
        )
        .with(
            "spec"@,
            Doc::object()
                .with("jobLabel"@, Doc::text("app.kubernetes.io/instance"@))
                .with(
                    "namespaceSelector"@,
                    Doc::object()
                        .with("matchNames"@, Doc::list().and(Doc::text(namespace_of(node)))),
                )
                .with(
                    "selector"@,
                    match_labels_doc(label_doc("app.kubernetes.io/name"@, "stellar-node"@).with(
                        "app.kubernetes.io/instance"@,
                        Doc::text(node.name@),
                    )),
                )
                .with(
                    "endpoints"@,
                    Doc::list().and(
                        Doc::object()
                            .with("targetPort"@, Doc::number(8000))
                            .with("path"@, Doc::text("/metrics"@))
                            .with("interval"@, Doc::text("30s"@))
                            .with("scheme"@, Doc::text("http"@)),
                    ),
                ),
        )
}

pub fn service_monitor(node: &StellarNode, ctx: &NodeContext) -> (r: Json)
    ensures
        r@ == service_monitor_doc(*node, *ctx),
{
    Json::object()
        .with("apiVersion", Json::text("monitoring.coreos.com/v1"))
        .with("kind", Json::text("ServiceMonitor"))
        .with(
            "metadata",
            Json::object()
                .with("name", Json::text(&resource_name(node, "service-monitor")))
                .with("namespace", Json::text(namespace_or_default(node)))
                .with("labels", standard_labels(node, ctx))
                .with("ownerReferences", Json::list().and(owner_reference(node))),
        )
        .with(
            "spec",
            Json::object()
                .with("jobLabel", Json::text("app.kubernetes.io/instance"))
                .with(
                    "namespaceSelector",
                    Json::object()
                        .with("matchNames", Json::list().and(Json::text(namespace_or_default(node)))),
                )
                .with(
                    "selector",
                    match_labels(label("app.kubernetes.io/name", "stellar-node").with(
                        "app.kubernetes.io/instance",
                        Json::text(&node.name),
                    )),
                )
                .with(
                    "endpoints",
                    Json::list().and(
                        Json::object()
                            .with("targetPort", Json::number(8000))
                            .with("path", Json::text("/metrics"))
                            .with("interval", Json::text("30s"))
                            .with("scheme", Json::text("http")),
                    ),
                ),
        )
}

/// The external DNS settings of a node's service: those of the validator, else
/// those of the load balancer.
pub open spec fn service_dns(node: StellarNode) -> Option<ExternalDnsConfig> {
    let first = match node.spec.validator_config {
        Some(c) => c.external_dns,
        None => None,
    };
    match first {
        Some(d) => Some(d),
        None => match node.spec.load_balancer {
            Some(c) => c.external_dns,
            None => None,
        },
    }
}

fn dns_of_service(node: &StellarNode) -> (r: Option<&ExternalDnsConfig>)
    ensures
        (match r {
            Some(d) => service_dns(*node) == Some(*d),
            None => service_dns(*node) is None,
        }),
{
    if let Some(c) = &node.spec.validator_config {
        if let Some(d) = &c.external_dns {
            return Some(d);
        }
    }
    match &node.spec.load_balancer {
        Some(c) => c.external_dns.as_ref(),
        None => None,
    }
}

/// Annotations with the settings of external DNS for given host names.
pub open spec fn with_dns_doc(d: Doc, hostnames: Seq<char>, dns: ExternalDnsConfig) -> Doc {
    let d = d.with("external-dns.alpha.kubernetes.io/hostname"@, Doc::text(hostnames)).with(
        "external-dns.alpha.kubernetes.io/ttl"@,
        Doc::text(decimal(dns.ttl as int)),
    );
    let d = match dns.provider {
        Some(p) => d.with("external-dns.alpha.kubernetes.io/provider"@, Doc::text(p@)),
        None => d,
    };
    match dns.annotations {
        Some(m) => with_all_doc(d, m),
        None => d,
    }
}

pub fn with_dns(d: Json, hostnames: &str, dns: &ExternalDnsConfig) -> (r: Json)
    ensures
        r@ == with_dns_doc(d@, hostnames@, *dns),
{
    let d = d.with("external-dns.alpha.kubernetes.io/hostname", Json::text(hostnames)).with(
        "external-dns.alpha.kubernetes.io/ttl",
        Json::text(&decimal_text(dns.ttl as u64)),
    );
    let d = match &dns.provider {
        Some(p) => d.with("external-dns.alpha.kubernetes.io/provider", Json::text(p)),
        None => d,
    };
    match &dns.annotations {
        Some(m) => with_all(d, m),
        None => d,
    }
}

/// The host names of a service; a validator has one for its peering record.
pub open spec fn service_hostnames(node: StellarNode, dns: ExternalDnsConfig) -> Seq<char> {
    if node.spec.node_type == NodeType::Validator {
        dns.hostname@ + ", _stellar-peering._tcp."@ + dns.hostname@
    } else {
        dns.hostname@
    }
}

/// The annotations of a node's service.
pub open spec fn service_annotations_doc(node: StellarNode, ctx: NodeContext) -> Doc {
    let base = match service_dns(node) {
        Some(dns) => with_dns_doc(Doc::object(), service_hostnames(node, dns), dns),
        None => Doc::object(),
    };
    with_service_annotations(base, node, ctx)
}

fn service_annotations(node: &StellarNode, ctx: &NodeContext) -> (r: Json)
    ensures
        r@ == service_annotations_doc(*node, *ctx),
{
    let base = match dns_of_service(node) {
        Some(dns) => {
            let hostnames = if node.spec.node_type == NodeType::Validator {
                cat3(&dns.hostname, ", _stellar-peering._tcp.", &dns.hostname)
            } else {
                dns.hostname.clone()
            };
            with_dns(Json::object(), &hostnames, dns)
        },
        None => Json::object(),
    };
    merge_service_annotations(base, node, ctx)
}

/// The ports of a node's service.
pub open spec fn service_ports_doc(t: NodeType, enable_mtls: bool) -> Doc {
    let http = if enable_mtls {
        "https"@
    } else {
        "http"@
    };
    match t {
        NodeType::Validator => Doc::list().and(service_port_doc("peer"@, 11625)).and(
            service_port_doc(http, 11626),
        ),
        _ => Doc::list().and(service_port_doc(http, 8000)),
    }
}

fn service_ports(t: NodeType, enable_mtls: bool) -> (r: Json)
    ensures
        r@ == service_ports_doc(t, enable_mtls),
{
    let http = if enable_mtls {
        "https"
    } else {
        "http"
    };
    match t {
        NodeType::Validator => Json::list().and(service_port("peer", 11625)).and(
            service_port(http, 11626),
        ),
        _ => Json::list().and(service_port(http, 8000)),
    }
}

/// The metadata of a service under a given name and with given labels.
pub open spec fn service_metadata(
    node: StellarNode,
    name: Seq<char>,
    labels: Doc,
    ctx: NodeContext,
) -> Doc {
    metadata_doc(node, name, labels).with_some(
        "annotations"@,
        unless_empty_doc(service_annotations_doc(node, ctx)),
    )
}

/// The Service of a node.
pub open spec fn service_doc(node: StellarNode, enable_mtls: bool, ctx: NodeContext) -> Doc {
    let labels = with_service_labels(standard_labels_doc(node, ctx), node);
    service_manifest_doc(
        service_metadata(node, node.name@, labels, ctx),
        labels,
        service_ports_doc(node.spec.node_type, enable_mtls),
    )
}

/// Builds the Service of a node.
pub fn build_service(node: &StellarNode, enable_mtls: bool, ctx: &NodeContext) -> (r: Json)
    ensures
        r@ == service_doc(*node, enable_mtls, *ctx),
{
    let labels = merge_service_metadata_labels(standard_labels(node, ctx), node);
    service_manifest(
        metadata(node, &node.name, labels.clone()).with_some(
            "annotations",
            unless_empty(service_annotations(node, ctx)),
        ),
        labels,
        service_ports(node.spec.node_type, enable_mtls),
    )
}

/// Ensures the Service of a node, with the labels that propagation left.
pub fn ensure_service(
    node: &StellarNode,
    enable_mtls: bool,
    labels: Json,
    dry_run: bool,
    ctx: &NodeContext,
) -> (r: Vec<Step>)
    ensures
        acts(r@) == one_act(
            apply_act(
                Kind::Service,
                namespace_of(*node),
                node.name@,
                relabelled(service_doc(*node, enable_mtls, *ctx), labels@),
                dry_run,
            ),
        ),
{
    one_step(
        apply(
            Kind::Service,
            namespace_or_default(node),
            &node.name,
            with_labels(build_service(node, enable_mtls, ctx), labels),
            dry_run,
        ),
    )
}

/// The canary Service of a node.
pub open spec fn canary_service_doc(node: StellarNode, enable_mtls: bool, ctx: NodeContext) -> Doc {
    let labels = canary_labels_doc(node, ctx);
    service_manifest_doc(
        service_metadata(node, node.name@ + "-canary"@, labels, ctx),
        labels,
        service_ports_doc(node.spec.node_type, enable_mtls),
    )
}

/// Builds the canary Service of a node.
pub fn build_canary_service(node: &StellarNode, enable_mtls: bool, ctx: &NodeContext) -> (r: Json)
    ensures
        r@ == canary_service_doc(*node, enable_mtls, *ctx),
{
    let labels = canary_labels(node, ctx);
    service_manifest(
        metadata(node, &cat2(&node.name, "-canary"), labels.clone()).with_some(
            "annotations",
            unless_empty(service_annotations(node, ctx)),
        ),
        labels,
        service_ports(node.spec.node_type, enable_mtls),
    )
}

/// Ensures the canary Service of a node, while there is a canary.
pub fn ensure_canary_service(
    node: &StellarNode,
    enable_mtls: bool,
    dry_run: bool,
    ctx: &NodeContext,
) -> (r: Vec<Step>)
    ensures
        acts(r@) == match canary_version_of(*node) {
            Some(_) => one_act(
                apply_act(
                    Kind::Service,
                    namespace_of(*node),
                    node.name@ + "-canary"@,
                    canary_service_doc(*node, enable_mtls, *ctx),
                    dry_run,
                ),
            ),
            None => no_acts(),
        },
{
    match canary_version(node) {
        Some(_) => one_step(
            apply(
                Kind::Service,
                namespace_or_default(node),
                &cat2(&node.name, "-canary"),
                build_canary_service(node, enable_mtls, ctx),
                dry_run,
            ),
        ),
        None => no_steps(),
    }
}

/// Deletes the Service of a node.
pub fn delete_service(node: &StellarNode, dry_run: bool) -> (r: Vec<Step>)
    ensures
        acts(r@) == one_act(
            delete_act(
                Kind::Service,
                namespace_of(*node),
                node.name@,
                Tolerance::Missing,
                dry_run,
            ),
        ),
{
    one_step(
        delete(
            Kind::Service,
            namespace_or_default(node),
            &node.name,
            Tolerance::Missing,
            dry_run,
        ),
    )
}

/// Deletes what the load balancer has of a node: nothing yet.
pub fn delete_load_balancer_service(_node: &StellarNode) -> (r: Vec<Step>)
    ensures
        acts(r@) == no_acts(),
{
    no_steps()
}

/// Deletes what MetalLB has of a node: nothing yet.
pub fn delete_metallb_config(_node: &StellarNode) -> (r: Vec<Step>)
    ensures
        acts(r@) == no_acts(),
{
    no_steps()
}

/// Deletes the canary's resources: its ingress, where the node has one, its
/// service and its workload. Failures are passed over.
pub fn delete_canary_resources(node: &StellarNode, dry_run: bool) -> (r: Vec<Step>)
    ensures
        ({
            let name = node.name@ + "-canary"@;
            let all = Tolerance::Everything;
            let first = if node.spec.ingress is Some {
                one_act(delete_act(Kind::Ingress, namespace_of(*node), name, all, dry_run))
            } else {
                no_acts()
            };
            acts(r@) == first.push(
                delete_act(Kind::Service, namespace_of(*node), name, all, dry_run),
            ).push(delete_act(Kind::Deployment, namespace_of(*node), name, all, dry_run))
        }),
{
    let name = cat2(&node.name, "-canary");
    let namespace = namespace_or_default(node);
    let all = Tolerance::Everything;
    let mut steps = if node.spec.ingress.is_some() {
        one_step(delete(Kind::Ingress, namespace, &name, all, dry_run))
    } else {
        no_steps()
    };
    push_step(&mut steps, delete(Kind::Service, namespace, &name, all, dry_run));
    push_step(&mut steps, delete(Kind::Deployment, namespace, &name, all, dry_run));
    steps
}

/// Ensures the ServiceMonitor of an API node.
pub fn ensure_service_monitor(node: &StellarNode, ctx: &NodeContext) -> (r: Vec<Step>)
    ensures
        acts(r@) == if node.spec.node_type == NodeType::Validator {
            no_acts()
        } else {
            one_act(
                apply_act(
                    Kind::ServiceMonitor,
                    namespace_of(*node),
                    resource_name_of(*node, "service-monitor"@),
                    service_monitor_doc(*node, *ctx),
                    false,
                ),
            )
        },
{
    match node.spec.node_type {
        NodeType::Validator => no_steps(),
        _ => one_step(
            apply(
                Kind::ServiceMonitor,
                namespace_or_default(node),
                &resource_name(node, "service-monitor"),
                service_monitor(node, ctx),
                false,
            ),
        ),
    }
}

/// Deletes the ServiceMonitor of an API node.
pub fn delete_service_monitor(node: &StellarNode) -> (r: Vec<Step>)
    ensures
        acts(r@) == if node.spec.node_type == NodeType::Validator {
            no_acts()
        } else {
            one_act(
                delete_act(
                    Kind::ServiceMonitor,
                    namespace_of(*node),
                    resource_name_of(*node, "service-monitor"@),
                    Tolerance::Missing,
                    false,
                ),
            )
        },
{
    match node.spec.node_type {
        NodeType::Validator => no_steps(),
        _ => one_step(
            delete(
                Kind::ServiceMonitor,
                namespace_or_default(node),
                &resource_name(node, "service-monitor"),
                Tolerance::Missing,
                false,
            ),
        ),
    }
}

/// A port has its name and its number.
pub proof fn law_port_has_its_number(name: Seq<char>, port: int)
    ensures
        service_port_doc(name, port).member("name"@) == Some(Doc::Text(name)),
        service_port_doc(name, port).member("port"@) == Some(Doc::number(port)),
{
    broadcast use group_members;

    reveal_strlit("name");
    reveal_strlit("port");
    assert("name"@[0] == 'n');
    assert("port"@[0] == 'p');
}

/// A service of a validator offers its peers and its commands, that of another
/// node its requests; requests are encrypted just where they have to be.
pub proof fn law_service_has_the_nodes_ports(t: NodeType, enable_mtls: bool)
    ensures
        ({
            let ports = service_ports_doc(t, enable_mtls)->List_0;
            let web = ports.last();
            &&& service_ports_doc(t, enable_mtls) is List
            &&& t == NodeType::Validator ==> ports.len() == 2 && ports[0].member("name"@) == Some(
                Doc::Text("peer"@),
            ) && ports[0].member("port"@) == Some(Doc::number(11625)) && web.member("port"@)
                == Some(Doc::number(11626))
            &&& t != NodeType::Validator ==> ports.len() == 1 && web.member("port"@) == Some(
                Doc::number(8000),
            )
            &&& enable_mtls ==> web.member("name"@) == Some(Doc::Text("https"@))
            &&& !enable_mtls ==> web.member("name"@) == Some(Doc::Text("http"@))
        }),
{
    broadcast use group_members;

    reveal_strlit("name");
    reveal_strlit("port");
    assert("name"@[0] == 'n');
    assert("port"@[0] == 'p');
}

/// A service selects what it is given, and offers the ports that it is given.
pub proof fn law_service_selects_and_offers(metadata: Doc, selector: Doc, ports: Doc)
    ensures
        ({
            let d = service_manifest_doc(metadata, selector, ports);
            &&& d.member("kind"@) == Some(Doc::Text("Service"@))
            &&& d.member("metadata"@) == Some(metadata)
            &&& at2(d, "spec"@, "selector"@) == Some(selector)
            &&& at2(d, "spec"@, "ports"@) == Some(ports)
        }),
{
    broadcast use group_members;

    reveal_strlit("apiVersion");
    reveal_strlit("kind");
    reveal_strlit("metadata");
    reveal_strlit("spec");
    reveal_strlit("selector");
    reveal_strlit("ports");
    assert("kind"@[0] == 'k');
    assert("spec"@[0] == 's');
    assert("metadata"@[0] == 'm');
    assert("selector"@[0] == 's');
}

/// The service of a node has its name and selects its pods; that of a canary has
/// a name of its own and selects the pods of the canary.
pub proof fn law_service_is_the_nodes(
    node: StellarNode,
    enable_mtls: bool,
    ctx: NodeContext,
)
    requires
        node.spec.service_labels is Some ==> node.spec.service_labels->0.in_order(),
    ensures
        ({
            let s = service_doc(node, enable_mtls, ctx);
            let c = canary_service_doc(node, enable_mtls, ctx);
            &&& at2(s, "metadata"@, "name"@) == Some(Doc::Text(node.name@))
            &&& at2(c, "metadata"@, "name"@) == Some(Doc::Text(node.name@ + "-canary"@))
            &&& at2(s, "spec"@, "selector"@) == at2(s, "metadata"@, "labels"@)
            &&& at2(c, "spec"@, "selector"@) == at2(c, "metadata"@, "labels"@)
            &&& at3(s, "spec"@, "selector"@, "app.kubernetes.io/instance"@) == Some(
                Doc::Text(node.name@),
            )
            &&& at3(c, "spec"@, "selector"@, "app.kubernetes.io/instance"@) == Some(
                Doc::Text(node.name@),
            )
            &&& at3(c, "spec"@, "selector"@, "stellar.org/rollout-type"@) == Some(
                Doc::Text("canary"@),
            )
            &&& at2(s, "spec"@, "ports"@) == at2(c, "spec"@, "ports"@)
        }),
{
    broadcast use group_members;

    reveal_strlit("apiVersion");
    reveal_strlit("kind");
    reveal_strlit("metadata");
    reveal_strlit("spec");
    reveal_strlit("name");
    reveal_strlit("namespace");
    reveal_strlit("labels");
    reveal_strlit("ownerReferences");
    reveal_strlit("annotations");
    reveal_strlit("selector");
    reveal_strlit("ports");
    reveal_strlit("app.kubernetes.io/instance");
    reveal_strlit("app.kubernetes.io/name");
    reveal_strlit("app.kubernetes.io/managed-by");
    reveal_strlit("app.kubernetes.io/component");
    reveal_strlit("stellar.org/node-type");
    reveal_strlit("stellar-network");
    reveal_strlit("stellar.org/rollout-type");
    assert("kind"@[0] == 'k');
    assert("spec"@[0] == 's');
    assert("name"@[0] == 'n');
    assert("metadata"@[0] == 'm');
    assert("selector"@[0] == 's');
    assert("ownerReferences"@[0] == 'o');
    assert("stellar-network"@[0] == 's');
    law_users_labels_displace_none(
        standard_labels_doc(node, ctx),
        node,
        "app.kubernetes.io/instance"@,
    );
}

/// A name that is to be published stands in the annotations with its time to
/// live; a validator is published under the name of its peering too. The name
/// of a validator comes before that of a load balancer.
pub proof fn law_name_is_published(node: StellarNode, dns: ExternalDnsConfig)
    requires
        dns.annotations is None,
    ensures
        ({
            let d = with_dns_doc(Doc::object(), service_hostnames(node, dns), dns);
            let host = d.member("external-dns.alpha.kubernetes.io/hostname"@);
            &&& host == Some(Doc::Text(service_hostnames(node, dns)))
            &&& d.member("external-dns.alpha.kubernetes.io/ttl"@) == Some(
                Doc::Text(decimal(dns.ttl as int)),
            )
            &&& dns.provider is Some ==> d.member("external-dns.alpha.kubernetes.io/provider"@)
                == Some(Doc::Text(dns.provider->0@))
            &&& begins_with(service_hostnames(node, dns), dns.hostname@)
            &&& node.spec.node_type != NodeType::Validator ==> service_hostnames(node, dns)
                == dns.hostname@
            &&& node.spec.node_type == NodeType::Validator ==> service_hostnames(node, dns).len()
                > dns.hostname@.len()
        }),
        node.spec.validator_config is Some && node.spec.validator_config->0.external_dns is Some
            ==> service_dns(node) == node.spec.validator_config->0.external_dns,
        (node.spec.validator_config is None || node.spec.validator_config->0.external_dns is None)
            && node.spec.load_balancer is Some ==> service_dns(node)
            == node.spec.load_balancer->0.external_dns,
{
    broadcast use group_members;

    reveal_strlit("external-dns.alpha.kubernetes.io/hostname");
    reveal_strlit("external-dns.alpha.kubernetes.io/ttl");
    reveal_strlit("external-dns.alpha.kubernetes.io/provider");
    reveal_strlit(", _stellar-peering._tcp.");
    assert("external-dns.alpha.kubernetes.io/hostname"@[33] == 'h');
    assert("external-dns.alpha.kubernetes.io/provider"@[33] == 'p');
    let h = service_hostnames(node, dns);
    assert(h.subrange(0, dns.hostname@.len() as int) =~= dns.hostname@);
}

/// A monitor looks at the pods of its node alone, in the namespace of the node.
pub proof fn law_monitor_looks_at_its_node(node: StellarNode, ctx: NodeContext)
    ensures
        ({
            let d = service_monitor_doc(node, ctx);
            &&& d.member("kind"@) == Some(Doc::Text("ServiceMonitor"@))
            &&& at2(d, "metadata"@, "name"@) == Some(
                Doc::Text(resource_name_of(node, "service-monitor"@)),
            )
            &&& at2(d, "metadata"@, "namespace"@) == Some(Doc::Text(namespace_of(node)))
            &&& has_item(
                at3(d, "spec"@, "namespaceSelector"@, "matchNames"@),
                Doc::Text(namespace_of(node)),
            )
            &&& at3(d, "spec"@, "selector"@, "matchLabels"@) is Some && at3(
                d,
                "spec"@,
                "selector"@,
                "matchLabels"@,
            )->0.member("app.kubernetes.io/instance"@) == Some(Doc::Text(node.name@))
        }),
{
    broadcast use group_members;

    reveal_strlit("apiVersion");
    reveal_strlit("kind");
    reveal_strlit("metadata");
    reveal_strlit("spec");
    reveal_strlit("name");
    reveal_strlit("namespace");
    reveal_strlit("labels");
    reveal_strlit("ownerReferences");
    reveal_strlit("annotations");
    reveal_strlit("jobLabel");
    reveal_strlit("namespaceSelector");
    reveal_strlit("matchNames");
    reveal_strlit("selector");
    reveal_strlit("endpoints");
    reveal_strlit("matchLabels");
    reveal_strlit("app.kubernetes.io/name");
    reveal_strlit("app.kubernetes.io/instance");
    assert("kind"@[0] == 'k');
    assert("spec"@[0] == 's');
    assert("name"@[0] == 'n');
    assert("metadata"@[0] == 'm');
    assert("jobLabel"@[0] == 'j');
    assert("apiVersion"@[0] == 'a');
    assert("matchNames"@[0] == 'm');
    assert("selector"@[0] == 's');
    assert("namespace"@[0] == 'n');
    assert("endpoints"@[0] == 'e');
    assert("annotations"@[0] == 'a');
    assert("matchLabels"@[0] == 'm');
    let names = Seq::<Doc>::empty().push(Doc::text(namespace_of(node)));
    assert(names[0] == Doc::Text(namespace_of(node)));
}

/// The first thing that a monitor reads.
pub open spec fn first_endpoint(d: Doc) -> Doc {
    match at2(d, "spec"@, "endpoints"@) {
        Some(Doc::List(s)) => s[0],
        _ => Doc::Null,
    }
}

/// A monitor reads the metrics of its node over HTTP, on the port of the node's
/// API and twice a minute.
pub proof fn law_monitor_reads_the_metrics(node: StellarNode, ctx: NodeContext)
    ensures
        ({
            let e = first_endpoint(service_monitor_doc(node, ctx));
            &&& e.member("targetPort"@) == Some(Doc::number(8000))
            &&& e.member("path"@) == Some(Doc::Text("/metrics"@))
            &&& e.member("interval"@) == Some(Doc::Text("30s"@))
            &&& e.member("scheme"@) == Some(Doc::Text("http"@))
        }),
{
    broadcast use group_members;

    reveal_strlit("apiVersion");
    reveal_strlit("kind");
    reveal_strlit("metadata");
    reveal_strlit("spec");
    reveal_strlit("jobLabel");
    reveal_strlit("namespaceSelector");
    reveal_strlit("selector");
    reveal_strlit("endpoints");
    reveal_strlit("targetPort");
    reveal_strlit("path");
    reveal_strlit("interval");
    reveal_strlit("scheme");
    assert("kind"@[0] == 'k');
    assert("spec"@[0] == 's');
    assert("metadata"@[0] == 'm');
    assert("jobLabel"@[0] == 'j');
    assert("selector"@[0] == 's');
    assert("apiVersion"@[0] == 'a');
    assert("targetPort"@[0] == 't');
    assert("path"@[0] == 'p');
    assert("interval"@[0] == 'i');
}

} // verus!
