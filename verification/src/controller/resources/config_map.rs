//! Configuration files and alert rules, as ConfigMaps.

use vstd::prelude::*;
use vstd::string::*;
use crate::controller::context::NodeContext;
use crate::controller::resources::helpers::{
    map_or_empty, map_or_empty_doc, metadata, metadata_doc, namespace_of, namespace_or_default,
    resource_name, resource_name_of, standard_labels, standard_labels_doc, unless_empty,
    unless_empty_doc,
};
use crate::controller::resources::plan::{
    Act, Kind, Overlay, Step, Tolerance, acts, apply, apply_act, delete, delete_act, one_act, one_step,
};
use crate::controller::resources::pod_template::{flag_str, flag_text};
use crate::crd::stellar_node::{HistoryMode, StellarNode};
use crate::crd::types::NodeType;
use crate::json::{Doc, Json, at2, group_members};
use crate::text::{begins_with, cat3, ends_in};

verus! {

/// A ConfigMap.
pub open spec fn config_map_manifest_doc(metadata: Doc, data: Doc) -> Doc {
    Doc::object()
        .with("apiVersion"@, Doc::text("v1"@))
        .with("kind"@, Doc::text("ConfigMap"@))
        .with("metadata"@, metadata)
        .with("data"@, data)
}

pub fn config_map_manifest(metadata: Json, data: Json) -> (r: Json)
    ensures
        r@ == config_map_manifest_doc(metadata@, data@),
{
    Json::object()
        .with("apiVersion", Json::text("v1"))
        .with("kind", Json::text("ConfigMap"))
        .with("metadata", metadata)
        .with("data", data)
}

/// The quorum set in force: the override, else the configured one.
pub open spec fn quorum_text(node: StellarNode, ctx: NodeContext) -> Seq<char> {
    match node.spec.validator_config {
        Some(c) => match ctx.quorum_override_toml {
            Some(q) => q@,
            None => match c.quorum_set {
                Some(q) => q@,
                None => ""@,
            },
        },
        None => ""@,
    }
}

/// The settings of mutual TLS in Stellar Core's configuration.
pub open spec fn core_tls_text(enable_mtls: bool) -> Seq<char> {
    if enable_mtls {
        "\n# mTLS Configuration\nHTTP_PORT_SECURE=true\nTLS_CERT_FILE=\"/etc/stellar/tls/tls.crt\"\nTLS_KEY_FILE=\"/etc/stellar/tls/tls.key\"\n"@
    } else {
        ""@
    }
}

/// The settings of the history mode in Stellar Core's configuration.
pub open spec fn history_text(m: HistoryMode) -> Seq<char> {
    match m {
        HistoryMode::Full => "\n# Full History Mode\nCATCHUP_COMPLETE=true\n"@,
        HistoryMode::Recent => "\n# Recent History Mode\nCATCHUP_COMPLETE=false\nCATCHUP_RECENT=60480\n"@,
    }
}

/// Stellar Core's configuration.
pub open spec fn core_config(node: StellarNode, enable_mtls: bool, ctx: NodeContext) -> Seq<char> {
    quorum_text(node, ctx) + core_tls_text(enable_mtls) + history_text(node.spec.history_mode)
}

fn build_core_config(node: &StellarNode, enable_mtls: bool, ctx: &NodeContext) -> (r: String)
    ensures
        r@ == core_config(*node, enable_mtls, *ctx),
{
    let quorum = match &node.spec.validator_config {
        Some(c) => match &ctx.quorum_override_toml {
            Some(q) => q.as_str(),
            None => match &c.quorum_set {
                Some(q) => q.as_str(),
                None => "",
            },
        },
        None => "",
    };
    let tls = if enable_mtls {
        "\n# mTLS Configuration\nHTTP_PORT_SECURE=true\nTLS_CERT_FILE=\"/etc/stellar/tls/tls.crt\"\nTLS_KEY_FILE=\"/etc/stellar/tls/tls.key\"\n"
    } else {
        ""
    };
    let history = match node.spec.history_mode {
        HistoryMode::Full => "\n# Full History Mode\nCATCHUP_COMPLETE=true\n",
        HistoryMode::Recent => "\n# Recent History Mode\nCATCHUP_COMPLETE=false\nCATCHUP_RECENT=60480\n",
    };
    cat3(quorum, tls, history)
}

/// The data that depends on the node's type.
pub open spec fn typed_data(d: Doc, node: StellarNode, enable_mtls: bool, ctx: NodeContext) -> Doc {
    match node.spec.node_type {
        NodeType::Validator => d.with(
            "stellar-core.cfg"@,
            Doc::text(core_config(node, enable_mtls, ctx)),
        ),
        NodeType::Horizon => match node.spec.horizon_config {
            Some(c) => d.with("STELLAR_CORE_URL"@, Doc::text(c.stellar_core_url@)).with(
                "INGEST"@,
                Doc::text(flag_text(c.enable_ingest)),
            ),
            None => d,
        },
        NodeType::SorobanRpc => match node.spec.soroban_config {
            Some(c) => {
                let d = d.with("STELLAR_CORE_URL"@, Doc::text(c.stellar_core_url@));
                let captive = if c.captive_core_structured_config is Some {
                    ctx.captive_core_toml
                } else {
                    c.captive_core_config
                };
                match captive {
                    Some(t) => d.with("captive-core.cfg"@, Doc::text(t@)),
                    None => d,
                }
            },
            None => d,
        },
    }
}

fn with_typed_data(d: Json, node: &StellarNode, enable_mtls: bool, ctx: &NodeContext) -> (r: Json)
    ensures
        r@ == typed_data(d@, *node, enable_mtls, *ctx),
{
    match node.spec.node_type {
        NodeType::Validator => d.with(
            "stellar-core.cfg",
            Json::text(&build_core_config(node, enable_mtls, ctx)),
        ),
        NodeType::Horizon => match &node.spec.horizon_config {
            Some(c) => d.with("STELLAR_CORE_URL", Json::text(&c.stellar_core_url)).with(
                "INGEST",
                Json::text(flag_str(c.enable_ingest)),
            ),
            None => d,
        },
        NodeType::SorobanRpc => match &node.spec.soroban_config {
            Some(c) => {
                let d = d.with("STELLAR_CORE_URL", Json::text(&c.stellar_core_url));
                let captive = if c.captive_core_structured_config.is_some() {
                    &ctx.captive_core_toml
                } else {
                    &c.captive_core_config
                };
                match captive {
                    Some(t) => d.with("captive-core.cfg", Json::text(t)),
                    None => d,
                }
            },
            None => d,
        },
    }
}

/// The program that counts write latency.
pub open spec fn write_latency_program() -> Seq<char> {
    "  - name: write_latency\n    metrics:\n      counters:\n        - name: ebpf_write_latency_seconds_sum\n          help: Total write latency in seconds\n          labels:\n            - name: process\n              size: 16\n              decoding: string\n    tracepoints:\n      sys_enter_write:\n        code: |\n          // BPF code to track write latency\n          // This is a simplified placeholder for the actual BPF C code\n          bpf_trace_printk(\"write enter\\n\");\n"@
}

/// The program that counts TCP retransmits.
pub open spec fn retransmit_program() -> Seq<char> {
    "  - name: tcp_retransmits\n    metrics:\n      counters:\n        - name: ebpf_tcp_retransmits_total\n          help: Total TCP retransmits\n          labels:\n            - name: process\n              size: 16\n              decoding: string\n    tracepoints:\n      tcp_retransmit_skb:\n        code: |\n          // BPF code to track TCP retransmits\n          bpf_trace_printk(\"tcp retransmit\\n\");\n"@
}

/// The configuration of the kernel exporter, where it has a program to run.
pub open spec fn exporter_config(node: StellarNode) -> Option<Seq<char>> {
    match node.spec.ebpf_config {
        Some(c) => if c.enabled && (c.monitor_write_latency || c.monitor_tcp_retransmits) {
            Some(
                "programs:\n"@ + (if c.monitor_write_latency {
                    write_latency_program()
                } else {
                    ""@
                }) + (if c.monitor_tcp_retransmits {
                    retransmit_program()
                } else {
                    ""@
                }),
            )
        } else {
            None
        },
        None => None,
    }
}

fn build_exporter_config(node: &StellarNode) -> (r: Option<String>)
    ensures
        (match r {
            Some(s) => exporter_config(*node) == Some(s@),
            None => exporter_config(*node) is None,
        }),
{
    match &node.spec.ebpf_config {
        Some(c) => {
            if c.enabled && (c.monitor_write_latency || c.monitor_tcp_retransmits) {
                let writes = if c.monitor_write_latency {
                    "  - name: write_latency\n    metrics:\n      counters:\n        - name: ebpf_write_latency_seconds_sum\n          help: Total write latency in seconds\n          labels:\n            - name: process\n              size: 16\n              decoding: string\n    tracepoints:\n      sys_enter_write:\n        code: |\n          // BPF code to track write latency\n          // This is a simplified placeholder for the actual BPF C code\n          bpf_trace_printk(\"write enter\\n\");\n"
                } else {
                    ""
                };
                let retransmits = if c.monitor_tcp_retransmits {
                    "  - name: tcp_retransmits\n    metrics:\n      counters:\n        - name: ebpf_tcp_retransmits_total\n          help: Total TCP retransmits\n          labels:\n            - name: process\n              size: 16\n              decoding: string\n    tracepoints:\n      tcp_retransmit_skb:\n        code: |\n          // BPF code to track TCP retransmits\n          bpf_trace_printk(\"tcp retransmit\\n\");\n"
                } else {
                    ""
                };
                Some(cat3("programs:\n", writes, retransmits))
            } else {
                None
            }
        },
        None => None,
    }
}

/// The files of a node's configuration.
pub open spec fn config_data(node: StellarNode, enable_mtls: bool, ctx: NodeContext) -> Doc {
    let d = Doc::object().with("NETWORK_PASSPHRASE"@, Doc::text(ctx.network_passphrase@));
    let d = if enable_mtls {
        d.with("MTLS_ENABLED"@, Doc::text("true"@))
    } else {
        d
    };
    let d = typed_data(d, node, enable_mtls, ctx);
    match exporter_config(node) {
        Some(s) => d.with("ebpf-exporter.yaml"@, Doc::text(s)),
        None => d,
    }
}

/// The ConfigMap of a node's configuration.
pub open spec fn config_map_doc(node: StellarNode, enable_mtls: bool, ctx: NodeContext) -> Doc {
    let annotations = map_or_empty_doc(node.spec.storage.annotations);
    config_map_manifest_doc(
        metadata_doc(
            node,
            resource_name_of(node, "config"@),
            standard_labels_doc(node, ctx),
        ).with_some("annotations"@, unless_empty_doc(annotations)),
        config_data(node, enable_mtls, ctx),
    )
}

/// Builds the ConfigMap of a node's configuration.
pub fn build_config_map(node: &StellarNode, enable_mtls: bool, ctx: &NodeContext) -> (r: Json)
    ensures
        r@ == config_map_doc(*node, enable_mtls, *ctx),
{
    let d = Json::object().with("NETWORK_PASSPHRASE", Json::text(&ctx.network_passphrase));
    let d = if enable_mtls {
        d.with("MTLS_ENABLED", Json::text("true"))
    } else {
        d
    };
    let d = with_typed_data(d, node, enable_mtls, ctx);
    let d = match build_exporter_config(node) {
        Some(s) => d.with("ebpf-exporter.yaml", Json::text(&s)),
        None => d,
    };
    let annotations = map_or_empty(&node.spec.storage.annotations);
    config_map_manifest(
        metadata(node, &resource_name(node, "config"), standard_labels(node, ctx)).with_some(
            "annotations",
            unless_empty(annotations),
        ),
        d,
    )
}

/// Ensures the ConfigMap of a node's configuration.
pub fn ensure_config_map(
    node: &StellarNode,
    enable_mtls: bool,
    dry_run: bool,
    ctx: &NodeContext,
) -> (r: Vec<Step>)
    ensures
        acts(r@) == one_act(
            apply_act(
                Kind::ConfigMap,
                namespace_of(*node),
                resource_name_of(*node, "config"@),
                config_map_doc(*node, enable_mtls, *ctx),
                dry_run,
            ),
        ),
{
    one_step(
        apply(
            Kind::ConfigMap,
            namespace_or_default(node),
            &resource_name(node, "config"),
            build_config_map(node, enable_mtls, ctx),
            dry_run,
        ),
    )
}

/// Deletes the ConfigMap of a node's configuration.
pub fn delete_config_map(node: &StellarNode, dry_run: bool) -> (r: Vec<Step>)
    ensures
        acts(r@) == one_act(
            delete_act(
                Kind::ConfigMap,
                namespace_of(*node),
                resource_name_of(*node, "config"@),
                Tolerance::Missing,
                dry_run,
            ),
        ),
{
    one_step(
        delete(
            Kind::ConfigMap,
            namespace_or_default(node),
            &resource_name(node, "config"),
            Tolerance::Missing,
            dry_run,
        ),
    )
}

/// The alert that a node is down.
pub open spec fn down_rule_text(instance: Seq<char>) -> Seq<char> {
    "groups:\n- name: "@
        + instance
        + ".rules\n  rules:\n  - alert: StellarNodeDown\n    expr: up{app_kubernetes_io_instance=\""@
        + instance
        + "\"} == 0\n    for: 5m\n    labels:\n      severity: critical\n    annotations:\n      summary: \"Stellar node "@
        + instance
        + " is down\"\n      description: \"The Stellar node "@
        + instance
        + " has been down for more than 5 minutes.\"\n"@
}

fn down_rule(instance: &str) -> (r: String)
    ensures
        r@ == down_rule_text(instance@),
{
    let mut s = "groups:\n- name: ".to_owned();
    s.append(instance);
    s.append(".rules\n  rules:\n  - alert: StellarNodeDown\n    expr: up{app_kubernetes_io_instance=\"");
    s.append(instance);
    s.append("\"} == 0\n    for: 5m\n    labels:\n      severity: critical\n    annotations:\n      summary: \"Stellar node ");
    s.append(instance);
    s.append(" is down\"\n      description: \"The Stellar node ");
    s.append(instance);
    s.append(" has been down for more than 5 minutes.\"\n");
    s
}

/// The alert that a node uses most of its memory.
pub open spec fn memory_rule_text(instance: Seq<char>) -> Seq<char> {
    "  - alert: StellarNodeHighMemory\n    expr: container_memory_usage_bytes{pod=~\""@
        + instance
        + ".*\"} / container_spec_memory_limit_bytes > 0.8\n    for: 10m\n    labels:\n      severity: warning\n    annotations:\n      summary: \"Stellar node "@
        + instance
        + " high memory usage\"\n      description: \"The Stellar node "@
        + instance
        + " is using more than 80% of its memory limit.\"\n"@
}

fn memory_rule(instance: &str) -> (r: String)
    ensures
        r@ == memory_rule_text(instance@),
{
    let mut s = "  - alert: StellarNodeHighMemory\n    expr: container_memory_usage_bytes{pod=~\"".to_owned();
    s.append(instance);
    s.append(".*\"} / container_spec_memory_limit_bytes > 0.8\n    for: 10m\n    labels:\n      severity: warning\n    annotations:\n      summary: \"Stellar node ");
    s.append(instance);
    s.append(" high memory usage\"\n      description: \"The Stellar node ");
    s.append(instance);
    s.append(" is using more than 80% of its memory limit.\"\n");
    s
}

/// The alert that a node is out of sync.
pub open spec fn sync_rule_text(instance: Seq<char>) -> Seq<char> {
    "  - alert: StellarNodeSyncIssue\n    expr: stellar_core_sync_status{app_kubernetes_io_instance=\""@
        + instance
        + "\"} != 1\n    for: 15m\n    labels:\n      severity: warning\n    annotations:\n      summary: \"Stellar node "@
        + instance
        + " sync issue\"\n      description: \"The Stellar node "@
        + instance
        + " has not been in sync for more than 15 minutes.\"\n"@
}

fn sync_rule(instance: &str) -> (r: String)
    ensures
        r@ == sync_rule_text(instance@),
{
    let mut s = "  - alert: StellarNodeSyncIssue\n    expr: stellar_core_sync_status{app_kubernetes_io_instance=\"".to_owned();
    s.append(instance);
    s.append("\"} != 1\n    for: 15m\n    labels:\n      severity: warning\n    annotations:\n      summary: \"Stellar node ");
    s.append(instance);
    s.append(" sync issue\"\n      description: \"The Stellar node ");
    s.append(instance);
    s.append(" has not been in sync for more than 15 minutes.\"\n");
    s
}

/// The alert rules of a node.
pub open spec fn alert_rules_text(instance: Seq<char>) -> Seq<char> {
    down_rule_text(instance) + memory_rule_text(instance) + sync_rule_text(instance)
}

/// The ConfigMap of a node's alert rules.
pub open spec fn alerts_doc(node: StellarNode, ctx: NodeContext) -> Doc {
    config_map_manifest_doc(
        metadata_doc(
            node,
            resource_name_of(node, "alerts"@),
            standard_labels_doc(node, ctx),
        ).with("namespace"@, Doc::text(namespace_of(node))),
        Doc::object().with("alerts.yaml"@, Doc::text(alert_rules_text(node.name@))),
    )
}

/// Builds the ConfigMap of a node's alert rules.
pub fn build_alerts(node: &StellarNode, ctx: &NodeContext) -> (r: Json)
    ensures
        r@ == alerts_doc(*node, *ctx),
{
    let rules = cat3(&down_rule(&node.name), &memory_rule(&node.name), &sync_rule(&node.name));
    config_map_manifest(
        metadata(node, &resource_name(node, "alerts"), standard_labels(node, ctx)).with(
            "namespace",
            Json::text(namespace_or_default(node)),
        ),
        Json::object().with("alerts.yaml", Json::text(&rules)),
    )
}

/// Ensures the alert rules of a node, or that there are none where the node
/// does not ask for alerts.
pub fn ensure_alerting(node: &StellarNode, dry_run: bool, ctx: &NodeContext) -> (r: Vec<Step>)
    ensures
        acts(r@) == one_act(
            if node.spec.alerting {
                (Act::Apply {
                    kind: Kind::ConfigMap,
                    namespace: namespace_of(*node),
                    name: resource_name_of(*node, "alerts"@),
                    manifest: alerts_doc(*node, *ctx),
                    overlay: Overlay::Resource,
                    tolerance: Tolerance::Nothing,
                    dry_run,
                })
            } else {
                delete_act(
                    Kind::ConfigMap,
                    namespace_of(*node),
                    resource_name_of(*node, "alerts"@),
                    Tolerance::Missing,
                    dry_run,
                )
            },
        ),
{
    if !node.spec.alerting {
        return delete_alerting(node, dry_run);
    }
    one_step(
        Step::Apply {
            kind: Kind::ConfigMap,
            namespace: namespace_or_default(node).to_string(),
            name: resource_name(node, "alerts"),
            manifest: build_alerts(node, ctx),
            overlay: Overlay::Resource,
            tolerance: Tolerance::Nothing,
            dry_run,
        },
    )
}

/// Deletes the alert rules of a node.
pub fn delete_alerting(node: &StellarNode, dry_run: bool) -> (r: Vec<Step>)
    ensures
        acts(r@) == one_act(
            delete_act(
                Kind::ConfigMap,
                namespace_of(*node),
                resource_name_of(*node, "alerts"@),
                Tolerance::Missing,
                dry_run,
            ),
        ),
{
    one_step(
        delete(
            Kind::ConfigMap,
            namespace_or_default(node),
            &resource_name(node, "alerts"),
            Tolerance::Missing,
            dry_run,
        ),
    )
}

/// A configuration of a node holds its passphrase, and what its type needs: a
/// validator its core configuration, another node the address of its core.
pub proof fn law_configuration_holds_what_the_type_needs(
    node: StellarNode,
    enable_mtls: bool,
    ctx: NodeContext,
)
    ensures
        ({
            let d = config_data(node, enable_mtls, ctx);
            let captive = match node.spec.soroban_config {
                Some(c) => if c.captive_core_structured_config is Some {
                    ctx.captive_core_toml
                } else {
                    c.captive_core_config
                },
                None => None,
            };
            &&& d.member("NETWORK_PASSPHRASE"@) == Some(Doc::Text(ctx.network_passphrase@))
            &&& enable_mtls ==> d.member("MTLS_ENABLED"@) == Some(Doc::Text("true"@))
            &&& !enable_mtls ==> d.member("MTLS_ENABLED"@) is None
            &&& node.spec.node_type == NodeType::Validator ==> d.member("stellar-core.cfg"@) == Some(
                Doc::Text(core_config(node, enable_mtls, ctx)),
            )
            &&& node.spec.node_type != NodeType::Validator ==> d.member("stellar-core.cfg"@) is None
            &&& node.spec.node_type == NodeType::Horizon && node.spec.horizon_config is Some
                ==> d.member("STELLAR_CORE_URL"@) == Some(
                Doc::Text(node.spec.horizon_config->0.stellar_core_url@),
            ) && d.member("INGEST"@) == Some(
                Doc::Text(
                    if node.spec.horizon_config->0.enable_ingest {
                        "true"@
                    } else {
                        "false"@
                    },
                ),
            )
            &&& node.spec.node_type == NodeType::SorobanRpc && node.spec.soroban_config is Some
                ==> d.member("STELLAR_CORE_URL"@) == Some(
                Doc::Text(node.spec.soroban_config->0.stellar_core_url@),
            )
            &&& node.spec.node_type == NodeType::SorobanRpc && captive is Some ==> d.member(
                "captive-core.cfg"@,
            ) == Some(Doc::Text(captive->0@))
            &&& node.spec.node_type == NodeType::SorobanRpc && captive is None ==> d.member(
                "captive-core.cfg"@,
            ) is None
        }),
{
    broadcast use group_members;

    reveal_strlit("NETWORK_PASSPHRASE");
    reveal_strlit("MTLS_ENABLED");
    reveal_strlit("stellar-core.cfg");
    reveal_strlit("STELLAR_CORE_URL");
    reveal_strlit("INGEST");
    reveal_strlit("captive-core.cfg");
    reveal_strlit("ebpf-exporter.yaml");
    assert("stellar-core.cfg"@[0] == 's');
    assert("STELLAR_CORE_URL"@[0] == 'S');
    assert("captive-core.cfg"@[0] == 'c');
    assert("NETWORK_PASSPHRASE"@[0] == 'N');
    assert("ebpf-exporter.yaml"@[0] == 'e');
}

/// The core configuration begins with the quorum set: that which overrides it,
/// else the validator's own; and ends with how much history is caught up on.
pub proof fn law_core_configuration_has_its_quorum(
    node: StellarNode,
    enable_mtls: bool,
    ctx: NodeContext,
)
    requires
        node.spec.validator_config is Some,
    ensures
        ({
            let own = node.spec.validator_config->0.quorum_set;
            let text = core_config(node, enable_mtls, ctx);
            &&& ctx.quorum_override_toml is Some ==> begins_with(
                text,
                ctx.quorum_override_toml->0@,
            )
            &&& ctx.quorum_override_toml is None && own is Some ==> begins_with(text, own->0@)
            &&& ends_in(text, history_text(node.spec.history_mode))
            &&& text.len() == quorum_text(node, ctx).len() + core_tls_text(enable_mtls).len()
                + history_text(node.spec.history_mode).len()
        }),
        core_tls_text(false).len() == 0,
        core_tls_text(true).len() > 0,
        history_text(HistoryMode::Full) != history_text(HistoryMode::Recent),
{
    let text = core_config(node, enable_mtls, ctx);
    let q = quorum_text(node, ctx);
    let h = history_text(node.spec.history_mode);
    assert(text.subrange(0, q.len() as int) =~= q);
    assert(text.subrange(text.len() - h.len(), text.len() as int) =~= h);
    reveal_strlit("");
    reveal_strlit("\n# mTLS Configuration\nHTTP_PORT_SECURE=true\nTLS_CERT_FILE=\"/etc/stellar/tls/tls.crt\"\nTLS_KEY_FILE=\"/etc/stellar/tls/tls.key\"\n");
    reveal_strlit("\n# Full History Mode\nCATCHUP_COMPLETE=true\n");
    reveal_strlit("\n# Recent History Mode\nCATCHUP_COMPLETE=false\nCATCHUP_RECENT=60480\n");
    assert(history_text(HistoryMode::Full).len() != history_text(HistoryMode::Recent).len());
}

/// The configuration of the exporter is there just where it is enabled and
/// watches something.
pub proof fn law_exporter_is_configured(node: StellarNode)
    ensures
        exporter_config(node) is Some <==> node.spec.ebpf_config is Some
            && node.spec.ebpf_config->0.enabled && (node.spec.ebpf_config->0.monitor_write_latency
            || node.spec.ebpf_config->0.monitor_tcp_retransmits),
{
}

/// The map of a node's configuration is found under the name that its pods
/// mount, and holds the configuration.
pub proof fn law_map_holds_the_configuration(
    node: StellarNode,
    enable_mtls: bool,
    ctx: NodeContext,
)
    ensures
        ({
            let d = config_map_doc(node, enable_mtls, ctx);
            &&& d.member("kind"@) == Some(Doc::Text("ConfigMap"@))
            &&& at2(d, "metadata"@, "name"@) == Some(Doc::Text(resource_name_of(node, "config"@)))
            &&& d.member("data"@) == Some(config_data(node, enable_mtls, ctx))
        }),
        ({
            let d = alerts_doc(node, ctx);
            &&& at2(d, "metadata"@, "name"@) == Some(Doc::Text(resource_name_of(node, "alerts"@)))
            &&& at2(d, "metadata"@, "namespace"@) == Some(Doc::Text(namespace_of(node)))
            &&& at2(d, "data"@, "alerts.yaml"@) == Some(Doc::Text(alert_rules_text(node.name@)))
        }),
{
    broadcast use group_members;

    reveal_strlit("apiVersion");
    reveal_strlit("kind");
    reveal_strlit("metadata");
    reveal_strlit("data");
    reveal_strlit("name");
    reveal_strlit("namespace");
    reveal_strlit("labels");
    reveal_strlit("ownerReferences");
    reveal_strlit("annotations");
    reveal_strlit("alerts.yaml");
    assert("kind"@[0] == 'k');
    assert("data"@[0] == 'd');
    assert("name"@[0] == 'n');
    assert("annotations"@[1] == 'n');
    assert("alerts.yaml"@[1] == 'l');
}

} // verus!
