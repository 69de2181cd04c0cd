//! Network policies: who may reach a node, and whom it may reach.

use vstd::prelude::*;
use vstd::string::*;
use crate::controller::context::NodeContext;
use crate::controller::resources::helpers::{
    extend, label, label_doc, match_labels, match_labels_doc, metadata, metadata_doc, namespace_of,
    namespace_or_default, none, one, push, resource_name, resource_name_of, standard_labels,
    standard_labels_doc, with_all, with_all_doc,
};
use crate::controller::resources::plan::{
    Kind, Step, Tolerance, acts, apply, apply_act, delete, delete_act, no_acts, no_steps, one_act,
    one_step,
};
use crate::controller::resources::pod_template::{list_unless_none, unless_none};
use crate::crd::stellar_node::StellarNode;
use crate::crd::types::{NetworkPolicyConfig, NodeType, ValidatorConfig};
use crate::json::{Doc, Json, at2, at3, docs, group_members, is_object, law_member_read_after_write};
use crate::str_map::{
    StrMap, ascending, has_key, lemma_with_entry_ascending, lemma_with_entry_keys, with_entry,
};
use crate::text::{
    begins_with, cat2, chars_of, contains, has_text, occurs_at, starts_with, text_of, views,
};

verus! {

/// The label that says which network a namespace belongs to.
pub const NAMESPACE_NETWORK_LABEL: &'static str = "stellar.org/network";

/// What `toml::Value` makes of the array under a key of a TOML document: its
/// items, each as the text that it is, if it is one.
pub uninterp spec fn toml_array(text: Seq<char>, key: Seq<char>) -> Option<
    Seq<Option<Seq<char>>>,
>;

/// The keys of the table under a key of a TOML document, as `toml::Value`
/// gives them.
pub uninterp spec fn toml_table_keys(text: Seq<char>, key: Seq<char>) -> Option<Seq<Seq<char>>>;

/// The texts among the items, as values.
pub open spec fn opt_views(v: Seq<Option<String>>) -> Seq<Option<Seq<char>>> {
    Seq::new(
        v.len(),
        |i: int|
            match v[i] {
                Some(s) => Some(s@),
                None => None,
            },
    )
}

/// Parses a TOML document with `toml::Value::from_str` and reads the array
/// under `key` with `get` and `as_array`, each item with `as_str`. The result is
/// `None` where the text is no TOML document, the document lacks the key or its
/// value is no array; which texts those are is left to the name `toml_array`.
#[verifier::external_body]
fn toml_strings(text: &str, key: &str) -> (r: Option<Vec<Option<String>>>)
    ensures
        (match r {
            Some(v) => toml_array(text@, key@) == Some(opt_views(v@)),
            None => toml_array(text@, key@) is None,
        }),
{
    let value = text.parse::<toml::Value>().ok()?;
    let items = value.get(key)?.as_array()?;
    Some(items.iter().map(|item| item.as_str().map(str::to_string)).collect())
}

/// Parses a TOML document with `toml::Value::from_str` and reads the keys of
/// the table under `key` with `get`, `as_table` and `keys`. The result is `None`
/// where the text is no TOML document, the document lacks the key or its value
/// is no table; which texts those are is left to the name `toml_table_keys`.
#[verifier::external_body]
fn toml_keys(text: &str, key: &str) -> (r: Option<Vec<String>>)
    ensures
        (match r {
            Some(v) => toml_table_keys(text@, key@) == Some(views(v@)),
            None => toml_table_keys(text@, key@) is None,
        }),
{
    let value = text.parse::<toml::Value>().ok()?;
    let table = value.get(key)?.as_table()?;
    Some(table.keys().map(|k| k.to_string()).collect())
}

/// Where the first colon stands from `i` on, or the end.
pub open spec fn colon_from(s: Seq<char>, i: int) -> int
    decreases s.len() - i,
{
    if i < 0 || i >= s.len() || s[i] == ':' {
        i
    } else {
        colon_from(s, i + 1)
    }
}

/// The part of an address before its first colon.
pub open spec fn host_part(s: Seq<char>) -> Seq<char> {
    s.subrange(0, colon_from(s, 0))
}

fn host_of(s: &str) -> (r: String)
    ensures
        r@ == host_part(s@),
{
    let v = chars_of(s);
    let mut i: usize = 0;
    while i < v.len() && v[i] != ':'
        invariant
            v@ == s@,
            i <= v.len(),
            colon_from(s@, 0) == colon_from(s@, i as int),
        decreases v@.len() - i,
    {
        i = i + 1;
    }
    text_of(&v, 0, i)
}

/// The set of texts that `s` becomes with `t` in it, in order.
pub open spec fn with_text(s: Seq<(Seq<char>, ())>, t: Seq<char>) -> Seq<(Seq<char>, ())> {
    with_entry(s, t, ())
}

/// `s` with the hosts of the first `n` known peers in it.
pub open spec fn with_known(
    s: Seq<(Seq<char>, ())>,
    items: Seq<Option<Seq<char>>>,
    n: int,
) -> Seq<(Seq<char>, ())>
    decreases n,
{
    if n <= 0 {
        s
    } else {
        match items[n - 1] {
            Some(t) => with_text(with_known(s, items, n - 1), host_part(t)),
            None => with_known(s, items, n - 1),
        }
    }
}

/// Whether a key of the validators is an address, not a public key.
pub open spec fn is_address(k: Seq<char>) -> bool {
    !begins_with(k, "G"@) && has_text(k, "."@)
}

/// `s` with those of the first `n` keys that are addresses in it.
pub open spec fn with_addresses(
    s: Seq<(Seq<char>, ())>,
    keys: Seq<Seq<char>>,
    n: int,
) -> Seq<(Seq<char>, ())>
    decreases n,
{
    if n <= 0 {
        s
    } else if is_address(keys[n - 1]) {
        with_text(with_addresses(s, keys, n - 1), keys[n - 1])
    } else {
        with_addresses(s, keys, n - 1)
    }
}

/// The known peers of a validator, as its configuration lists them.
pub open spec fn known_items(c: ValidatorConfig) -> Seq<Option<Seq<char>>> {
    match c.known_peers {
        Some(t) => match toml_array(t@, "KNOWN_PEERS"@) {
            Some(items) => items,
            None => Seq::empty(),
        },
        None => Seq::empty(),
    }
}

/// The keys of the validators in the quorum set.
pub open spec fn validator_keys(c: ValidatorConfig) -> Seq<Seq<char>> {
    match c.quorum_set {
        Some(t) => match toml_table_keys(t@, "VALIDATORS"@) {
            Some(keys) => keys,
            None => Seq::empty(),
        },
        None => Seq::empty(),
    }
}

/// The peers out of known peers and validators, each once and in order.
pub open spec fn peer_set(items: Seq<Option<Seq<char>>>, keys: Seq<Seq<char>>) -> Seq<
    (Seq<char>, ()),
> {
    with_addresses(with_known(Seq::empty(), items, items.len() as int), keys, keys.len() as int)
}

/// The names in a set of texts.
pub open spec fn names(s: Seq<(Seq<char>, ())>) -> Seq<Seq<char>> {
    Seq::new(s.len(), |i: int| s[i].0)
}

/// The peers of a node, each once and in order.
pub open spec fn peers_of(node: StellarNode) -> Seq<Seq<char>> {
    match node.spec.validator_config {
        Some(c) => names(peer_set(known_items(c), validator_keys(c))),
        None => Seq::empty(),
    }
}

/// The hosts of known peers and the addresses among the validators' keys, each
/// once and in order.
pub fn gather_peers(items: &Vec<Option<String>>, keys: &Vec<String>) -> (r: Vec<String>)
    ensures
        views(r@) == names(peer_set(opt_views(items@), views(keys@))),
{
    let mut set: StrMap<()> = StrMap::new();
    let ghost known = opt_views(items@);
    let ghost all = views(keys@);
    let mut i: usize = 0;
    while i < items.len()
        invariant
            i <= items.len(),
            known == opt_views(items@),
            set.list() == with_known(Seq::empty(), known, i as int),
        decreases items@.len() - i,
    {
        if let Some(t) = &items[i] {
            set.insert(host_of(t), ());
        }
        i = i + 1;
    }
    let ghost start = set.list();
    let mut j: usize = 0;
    while j < keys.len()
        invariant
            j <= keys.len(),
            all == views(keys@),
            set.list() == with_addresses(start, all, j as int),
        decreases keys@.len() - j,
    {
        let key = &keys[j];
        if !starts_with(key, "G") && contains(key, ".") {
            set.insert(key.clone(), ());
        }
        j = j + 1;
    }
    let mut r: Vec<String> = Vec::new();
    let n = set.len();
    let mut k: usize = 0;
    while k < n
        invariant
            k <= n,
            n == set.list().len(),
            views(r@) == names(set.list()).subrange(0, k as int),
        decreases n - k,
    {
        let ghost before = views(r@);
        r.push(set.key_at(k).clone());
        assert(views(r@) =~= before.push(set.list()[k as int].0));
        k = k + 1;
        assert(views(r@) =~= names(set.list()).subrange(0, k as int));
    }
    assert(names(set.list()).subrange(0, n as int) =~= names(set.list()));
    r
}

/// The peers of a node, as its known peers and its quorum set name them.
pub fn extract_peers_from_config(node: &StellarNode) -> (r: Vec<String>)
    ensures
        views(r@) == peers_of(*node),
{
    let config = match &node.spec.validator_config {
        Some(c) => c,
        None => {
            let r: Vec<String> = Vec::new();
            assert(views(r@) =~= Seq::<Seq<char>>::empty());
            return r;
        },
    };
    let mut items: Vec<Option<String>> = Vec::new();
    assert(opt_views(items@) =~= Seq::<Option<Seq<char>>>::empty());
    if let Some(t) = &config.known_peers {
        if let Some(v) = toml_strings(t, "KNOWN_PEERS") {
            items = v;
        }
    }
    let mut keys: Vec<String> = Vec::new();
    assert(views(keys@) =~= Seq::<Seq<char>>::empty());
    if let Some(t) = &config.quorum_set {
        if let Some(v) = toml_keys(t, "VALIDATORS") {
            keys = v;
        }
    }
    gather_peers(&items, &keys)
}

/// A text comes from the known peers or the validators' keys.
pub open spec fn is_peer(items: Seq<Option<Seq<char>>>, keys: Seq<Seq<char>>, t: Seq<char>) -> bool {
    ||| exists|i: int|
        0 <= i < items.len() && (#[trigger] items[i]) is Some && host_part(items[i]->0) == t
    ||| exists|i: int| 0 <= i < keys.len() && is_address(#[trigger] keys[i]) && keys[i] == t
}

proof fn lemma_known(items: Seq<Option<Seq<char>>>, n: int, t: Seq<char>)
    requires
        0 <= n <= items.len(),
    ensures
        ascending(with_known(Seq::empty(), items, n)),
        has_key(with_known(Seq::empty(), items, n), t) <==> exists|i: int|
            0 <= i < n && (#[trigger] items[i]) is Some && host_part(items[i]->0) == t,
    decreases n,
{
    if n > 0 {
        lemma_known(items, n - 1, t);
        let before = with_known(Seq::empty(), items, n - 1);
        if items[n - 1] is Some {
            let h = host_part(items[n - 1]->0);
            lemma_with_entry_ascending(before, h, ());
            lemma_with_entry_keys(before, h, (), t);
        }
    }
}

proof fn lemma_addresses(s: Seq<(Seq<char>, ())>, keys: Seq<Seq<char>>, n: int, t: Seq<char>)
    requires
        ascending(s),
        0 <= n <= keys.len(),
    ensures
        ascending(with_addresses(s, keys, n)),
        has_key(with_addresses(s, keys, n), t) <==> (has_key(s, t) || exists|i: int|
            0 <= i < n && is_address(#[trigger] keys[i]) && keys[i] == t),
    decreases n,
{
    if n > 0 {
        lemma_addresses(s, keys, n - 1, t);
        let before = with_addresses(s, keys, n - 1);
        if is_address(keys[n - 1]) {
            lemma_with_entry_ascending(before, keys[n - 1], ());
            lemma_with_entry_keys(before, keys[n - 1], (), t);
        }
    }
}

/// The peers stand in strictly ascending order, so none occurs twice, and they
/// are just the hosts of the known peers and the addresses among the validators'
/// keys.
pub proof fn law_peers(items: Seq<Option<Seq<char>>>, keys: Seq<Seq<char>>, t: Seq<char>)
    ensures
        ascending(peer_set(items, keys)),
        names(peer_set(items, keys)).contains(t) <==> is_peer(items, keys, t),
{
    let start = with_known(Seq::empty(), items, items.len() as int);
    let s = peer_set(items, keys);
    lemma_known(items, items.len() as int, t);
    lemma_addresses(start, keys, keys.len() as int, t);
    if names(s).contains(t) {
        let i = choose|i: int| 0 <= i < names(s).len() && names(s)[i] == t;
        assert(s[i].0 == t);
    }
    if has_key(s, t) {
        let i = choose|i: int| 0 <= i < s.len() && (#[trigger] s[i]).0 == t;
        assert(names(s)[i] == t);
    }
}

/// A port over which traffic goes.
pub open spec fn port_doc(number: int, protocol: Seq<char>) -> Doc {
    Doc::object()
        .with("port"@, Doc::number(number))
        .with("protocol"@, Doc::text(protocol))
}

pub fn port(number: i64, protocol: &str) -> (r: Json)
    ensures
        r@ == port_doc(number as int, protocol@),
{
    Json::object()
        .with("port", Json::number(number))
        .with("protocol", Json::text(protocol))
}

/// The pods of the namespaces with a label.
pub open spec fn namespace_peer_doc(key: Seq<char>, value: Seq<char>) -> Doc {
    Doc::object()
        .with("namespaceSelector"@, match_labels_doc(label_doc(key, value)))
}

pub fn namespace_peer(key: &str, value: &str) -> (r: Json)
    ensures
        r@ == namespace_peer_doc(key@, value@),
{
    Json::object()
        .with("namespaceSelector", match_labels(label(key, value)))
}

/// The pods of Stellar nodes in the same namespace.
pub open spec fn stellar_pods_doc() -> Doc {
    Doc::object()
        .with(
            "podSelector"@,
            match_labels_doc(label_doc("app.kubernetes.io/name"@, "stellar-node"@)),
        )
}

pub fn stellar_pods() -> (r: Json)
    ensures
        r@ == stellar_pods_doc(),
{
    Json::object()
        .with("podSelector", match_labels(label("app.kubernetes.io/name", "stellar-node")))
}

/// A range of addresses.
pub open spec fn address_block_doc(cidr: Seq<char>) -> Doc {
    Doc::object()
        .with(
            "ipBlock"@,
            Doc::object()
                .with("cidr"@, Doc::text(cidr)),
        )
}

pub fn address_block(cidr: &str) -> (r: Json)
    ensures
        r@ == address_block_doc(cidr@),
{
    Json::object()
        .with(
            "ipBlock",
            Json::object()
                .with("cidr", Json::text(cidr)),
        )
}

/// Lets peers in.
pub open spec fn ingress_rule_doc(from: Doc, ports: Doc) -> Doc {
    Doc::object()
        .with("from"@, from)
        .with("ports"@, ports)
}

pub fn ingress_rule(from: Json, ports: Json) -> (r: Json)
    ensures
        r@ == ingress_rule_doc(from@, ports@),
{
    Json::object()
        .with("from", from)
        .with("ports", ports)
}

/// Lets traffic through on given ports, whoever the peer is.
pub open spec fn open_rule_doc(ports: Doc) -> Doc {
    Doc::object()
        .with("ports"@, ports)
}

pub fn open_rule(ports: Json) -> (r: Json)
    ensures
        r@ == open_rule_doc(ports@),
{
    Json::object()
        .with("ports", ports)
}

/// Lets the node reach peers on given ports.
pub open spec fn egress_rule_doc(to: Doc, ports: Doc) -> Doc {
    Doc::object()
        .with("to"@, to)
        .with("ports"@, ports)
}

pub fn egress_rule(to: Json, ports: Json) -> (r: Json)
    ensures
        r@ == egress_rule_doc(to@, ports@),
{
    Json::object()
        .with("to", to)
        .with("ports", ports)
}

/// Lets the node reach peers on every port.
pub open spec fn reach_rule_doc(to: Doc) -> Doc {
    Doc::object()
        .with("to"@, to)
}

pub fn reach_rule(to: Json) -> (r: Json)
    ensures
        r@ == reach_rule_doc(to@),
{
    Json::object()
        .with("to", to)
}

/// The ports of DNS.
pub open spec fn dns_ports_doc() -> Doc {
    Doc::list().and(port_doc(53, "UDP"@)).and(port_doc(53, "TCP"@))
}

pub fn dns_ports() -> (r: Json)
    ensures
        r@ == dns_ports_doc(),
{
    Json::list().and(port(53, "UDP")).and(port(53, "TCP"))
}

/// Lets the node reach the cluster's DNS.
pub open spec fn cluster_dns_rule_doc() -> Doc {
    egress_rule_doc(Doc::list().and(
        Doc::object()
            .with(
                "namespaceSelector"@,
                match_labels_doc(label_doc("kubernetes.io/metadata.name"@, "kube-system"@)),
            )
            .with("podSelector"@, match_labels_doc(label_doc("k8s-app"@, "kube-dns"@))),
    ), dns_ports_doc())
}

pub fn cluster_dns_rule() -> (r: Json)
    ensures
        r@ == cluster_dns_rule_doc(),
{
    egress_rule(Json::list().and(
        Json::object()
            .with("namespaceSelector", match_labels(label("kubernetes.io/metadata.name", "kube-system")))
            .with("podSelector", match_labels(label("k8s-app", "kube-dns"))),
    ), dns_ports())
}

/// The ports of the Kubernetes API server.
pub open spec fn api_server_ports_doc() -> Doc {
    Doc::list().and(port_doc(443, "TCP"@)).and(port_doc(6443, "TCP"@))
}

pub fn api_server_ports() -> (r: Json)
    ensures
        r@ == api_server_ports_doc(),
{
    Json::list().and(port(443, "TCP")).and(port(6443, "TCP"))
}

/// A NetworkPolicy.
pub open spec fn network_policy_manifest_doc(metadata: Doc, node: StellarNode, ingress: Doc, egress: Doc) -> Doc {
    Doc::object()
        .with("apiVersion"@, Doc::text("networking.k8s.io/v1"@))
        .with("kind"@, Doc::text("NetworkPolicy"@))
        .with("metadata"@, metadata)
        .with(
            "spec"@,
            Doc::object()
                .with(
                    "podSelector"@,
                    match_labels_doc(label_doc("app.kubernetes.io/instance"@, node.name@).with(
                        "app.kubernetes.io/name"@,
                        Doc::text("stellar-node"@),
                    )),
                )
                .with("policyTypes"@, Doc::list().and(Doc::text("Ingress"@)).and(Doc::text("Egress"@)))
                .with("ingress"@, ingress)
                .with("egress"@, egress),
        )
}

pub fn network_policy_manifest(metadata: Json, node: &StellarNode, ingress: Json, egress: Json) -> (r: Json)
    ensures
        r@ == network_policy_manifest_doc(metadata@, *node, ingress@, egress@),
{
    Json::object()
        .with("apiVersion", Json::text("networking.k8s.io/v1"))
        .with("kind", Json::text("NetworkPolicy"))
        .with("metadata", metadata)
        .with(
            "spec",
            Json::object()
                .with(
                    "podSelector",
                    match_labels(label("app.kubernetes.io/instance", &node.name).with(
                        "app.kubernetes.io/name",
                        Json::text("stellar-node"),
                    )),
                )
                .with("policyTypes", Json::list().and(Json::text("Ingress")).and(Json::text("Egress")))
                .with("ingress", ingress)
                .with("egress", egress),
        )
}

/// The ports that a node serves.
pub open spec fn app_ports_doc(t: NodeType) -> Doc {
    match t {
        NodeType::Validator => Doc::list().and(port_doc(11625, "TCP"@)).and(
            port_doc(11626, "TCP"@),
        ),
        _ => Doc::list().and(port_doc(8000, "TCP"@)),
    }
}

fn app_ports(t: NodeType) -> (r: Json)
    ensures
        r@ == app_ports_doc(t),
{
    match t {
        NodeType::Validator => Json::list().and(port(11625, "TCP")).and(port(11626, "TCP")),
        _ => Json::list().and(port(8000, "TCP")),
    }
}

/// The pods of the given namespaces.
pub open spec fn namespace_peers(v: Seq<String>) -> Seq<Doc> {
    Seq::new(v.len(), |i: int| namespace_peer_doc("kubernetes.io/metadata.name"@, v[i]@))
}

fn build_namespace_peers(v: &Vec<String>) -> (r: Vec<Json>)
    ensures
        docs(r@) == namespace_peers(v@),
{
    let mut r = none();
    let mut i: usize = 0;
    while i < v.len()
        invariant
            i <= v.len(),
            docs(r@) == namespace_peers(v@).subrange(0, i as int),
        decreases v@.len() - i,
    {
        push(&mut r, namespace_peer("kubernetes.io/metadata.name", &v[i]));
        i = i + 1;
        assert(docs(r@) =~= namespace_peers(v@).subrange(0, i as int));
    }
    assert(namespace_peers(v@).subrange(0, v@.len() as int) =~= namespace_peers(v@));
    r
}

/// The given ranges of addresses.
pub open spec fn address_blocks(v: Seq<String>) -> Seq<Doc> {
    Seq::new(v.len(), |i: int| address_block_doc(v[i]@))
}

fn build_address_blocks(v: &Vec<String>) -> (r: Vec<Json>)
    ensures
        docs(r@) == address_blocks(v@),
{
    let mut r = none();
    let mut i: usize = 0;
    while i < v.len()
        invariant
            i <= v.len(),
            docs(r@) == address_blocks(v@).subrange(0, i as int),
        decreases v@.len() - i,
    {
        push(&mut r, address_block(&v[i]));
        i = i + 1;
        assert(docs(r@) =~= address_blocks(v@).subrange(0, i as int));
    }
    assert(address_blocks(v@).subrange(0, v@.len() as int) =~= address_blocks(v@));
    r
}

/// The rule that lets peers in, unless there are none.
pub open spec fn rule_for(peers: Seq<Doc>, t: NodeType) -> Seq<Doc> {
    if peers.len() == 0 {
        Seq::empty()
    } else {
        Seq::empty().push(ingress_rule_doc(Doc::List(peers), app_ports_doc(t)))
    }
}

fn build_rule_for(peers: Vec<Json>, t: NodeType) -> (r: Vec<Json>)
    ensures
        docs(r@) == rule_for(docs(peers@), t),
{
    if peers.len() == 0 {
        none()
    } else {
        one(ingress_rule(Json::List(peers), app_ports(t)))
    }
}

/// The rules that let in the pods that a selector picks.
pub open spec fn pod_rules(config: NetworkPolicyConfig, t: NodeType) -> Seq<Doc> {
    match config.allow_pod_selector {
        Some(m) => rule_for(
            Seq::empty().push(
                Doc::object().with("podSelector"@, match_labels_doc(with_all_doc(Doc::object(), m))),
            ),
            t,
        ),
        None => Seq::empty(),
    }
}

fn build_pod_rules(config: &NetworkPolicyConfig, t: NodeType) -> (r: Vec<Json>)
    ensures
        docs(r@) == pod_rules(*config, t),
{
    match &config.allow_pod_selector {
        Some(m) => build_rule_for(
            one(Json::object().with("podSelector", match_labels(with_all(Json::object(), m)))),
            t,
        ),
        None => none(),
    }
}

/// The rules that let in what scrapes the metrics.
pub open spec fn metrics_rules(config: NetworkPolicyConfig) -> Seq<Doc> {
    if config.allow_metrics_scrape {
        Seq::empty().push(
            ingress_rule_doc(
                Doc::list().and(
                    namespace_peer_doc("kubernetes.io/metadata.name"@, config.metrics_namespace@),
                ),
                Doc::list().and(port_doc(9090, "TCP"@)),
            ),
        )
    } else {
        Seq::empty()
    }
}

fn build_metrics_rules(config: &NetworkPolicyConfig) -> (r: Vec<Json>)
    ensures
        docs(r@) == metrics_rules(*config),
{
    if config.allow_metrics_scrape {
        one(
            ingress_rule(
                Json::list().and(
                    namespace_peer("kubernetes.io/metadata.name", &config.metrics_namespace),
                ),
                Json::list().and(port(9090, "TCP")),
            ),
        )
    } else {
        none()
    }
}

/// The rule for the node's own clients: other nodes reach a validator, all
/// the world an API node.
pub open spec fn client_rule_doc(t: NodeType) -> Doc {
    match t {
        NodeType::Validator => ingress_rule_doc(
            Doc::list().and(stellar_pods_doc()),
            app_ports_doc(t),
        ),
        _ => open_rule_doc(app_ports_doc(t)),
    }
}

fn client_rule(t: NodeType) -> (r: Json)
    ensures
        r@ == client_rule_doc(t),
{
    match t {
        NodeType::Validator => ingress_rule(Json::list().and(stellar_pods()), app_ports(t)),
        _ => open_rule(app_ports(t)),
    }
}

/// Who may reach a node.
pub open spec fn ingress_rules(node: StellarNode, config: NetworkPolicyConfig) -> Seq<Doc> {
    let t = node.spec.node_type;
    (rule_for(namespace_peers(config.allow_namespaces@), t) + pod_rules(config, t) + rule_for(
        address_blocks(config.allow_cidrs@),
        t,
    ) + metrics_rules(config)).push(client_rule_doc(t))
}

fn build_ingress_rules(node: &StellarNode, config: &NetworkPolicyConfig) -> (r: Vec<Json>)
    ensures
        docs(r@) == ingress_rules(*node, *config),
{
    let t = node.spec.node_type;
    let mut r = build_rule_for(build_namespace_peers(&config.allow_namespaces), t);
    extend(&mut r, build_pod_rules(config, t));
    extend(&mut r, build_rule_for(build_address_blocks(&config.allow_cidrs), t));
    extend(&mut r, build_metrics_rules(config));
    push(&mut r, client_rule(t));
    r
}

/// Whether a peer is written as a numeric address.
pub open spec fn is_numeric(s: Seq<char>) -> bool {
    forall|i: int| 0 <= i < s.len() ==> numeric_char(#[trigger] s[i])
}

pub open spec fn numeric_char(c: char) -> bool {
    ('0' <= c && c <= '9') || c == '.' || c == ':'
}

fn is_numeric_char(c: char) -> (r: bool)
    ensures
        r == numeric_char(c),
{
    ('0' <= c && c <= '9') || c == '.' || c == ':'
}

fn numeric(s: &str) -> (r: bool)
    ensures
        r == is_numeric(s@),
{
    let v = chars_of(s);
    let mut i: usize = 0;
    while i < v.len()
        invariant
            i <= v.len(),
            v@ == s@,
            forall|j: int| 0 <= j < i ==> numeric_char(#[trigger] s@[j]),
        decreases v@.len() - i,
    {
        if !is_numeric_char(v[i]) {
            return false;
        }
        i = i + 1;
    }
    true
}

/// The single addresses among the first `n` peers.
pub open spec fn peer_blocks(peers: Seq<Seq<char>>, n: int) -> Seq<Doc>
    decreases n,
{
    if n <= 0 {
        Seq::empty()
    } else if is_numeric(peers[n - 1]) {
        peer_blocks(peers, n - 1).push(address_block_doc(peers[n - 1] + "/32"@))
    } else {
        peer_blocks(peers, n - 1)
    }
}

/// The rules that let a validator reach its peers: the numeric addresses
/// among them or, where none is numeric, every address.
pub open spec fn peer_rules(peers: Seq<Seq<char>>) -> Seq<Doc> {
    if peers.len() == 0 {
        Seq::empty()
    } else {
        Seq::empty().push(
            Doc::object().with_some("to"@, unless_none(peer_blocks(peers, peers.len() as int))).with(
                "ports"@,
                Doc::list().and(port_doc(11625, "TCP"@)),
            ),
        )
    }
}

/// Lets a validator reach the given peers.
pub fn build_peer_rules(peers: &Vec<String>) -> (r: Vec<Json>)
    ensures
        docs(r@) == peer_rules(views(peers@)),
{
    if peers.len() == 0 {
        return none();
    }
    let ghost all = views(peers@);
    let mut to = none();
    let mut i: usize = 0;
    while i < peers.len()
        invariant
            i <= peers.len(),
            all == views(peers@),
            docs(to@) == peer_blocks(all, i as int),
        decreases peers@.len() - i,
    {
        if numeric(&peers[i]) {
            push(&mut to, address_block(&cat2(&peers[i], "/32")));
        }
        i = i + 1;
    }
    one(
        Json::object().with_some("to", list_unless_none(to)).with(
            "ports",
            Json::list().and(port(11625, "TCP")),
        ),
    )
}

/// The rules that let a validator reach its history archives.
pub open spec fn archive_rules(node: StellarNode) -> Seq<Doc> {
    match node.spec.validator_config {
        Some(c) => if c.enable_history_archive && c.history_archive_urls@.len() > 0 {
            Seq::empty().push(
                open_rule_doc(Doc::list().and(port_doc(80, "TCP"@)).and(port_doc(443, "TCP"@))),
            )
        } else {
            Seq::empty()
        },
        None => Seq::empty(),
    }
}

fn build_archive_rules(node: &StellarNode) -> (r: Vec<Json>)
    ensures
        docs(r@) == archive_rules(*node),
{
    match &node.spec.validator_config {
        Some(c) => {
            if c.enable_history_archive && c.history_archive_urls.len() > 0 {
                one(open_rule(Json::list().and(port(80, "TCP")).and(port(443, "TCP"))))
            } else {
                none()
            }
        },
        None => none(),
    }
}

/// The rules that let an API node reach its database.
pub open spec fn database_rules(node: StellarNode) -> Seq<Doc> {
    if node.spec.database is Some || node.spec.managed_database is Some {
        Seq::empty().push(open_rule_doc(Doc::list().and(port_doc(5432, "TCP"@))))
    } else {
        Seq::empty()
    }
}

fn build_database_rules(node: &StellarNode) -> (r: Vec<Json>)
    ensures
        docs(r@) == database_rules(*node),
{
    if node.spec.database.is_some() || node.spec.managed_database.is_some() {
        one(open_rule(Json::list().and(port(5432, "TCP"))))
    } else {
        none()
    }
}

/// What a node of its type may reach.
pub open spec fn typed_egress(node: StellarNode) -> Seq<Doc> {
    let dns = Seq::empty().push(open_rule_doc(dns_ports_doc()));
    match node.spec.node_type {
        NodeType::Validator => dns + peer_rules(peers_of(node)) + archive_rules(node),
        _ => dns.push(
            egress_rule_doc(
                Doc::list().and(stellar_pods_doc()),
                Doc::list().and(port_doc(11625, "TCP"@)).and(port_doc(11626, "TCP"@)),
            ),
        ) + database_rules(node),
    }
}

fn build_typed_egress(node: &StellarNode) -> (r: Vec<Json>)
    ensures
        docs(r@) == typed_egress(*node),
{
    let mut r = one(open_rule(dns_ports()));
    match node.spec.node_type {
        NodeType::Validator => {
            let peers = extract_peers_from_config(node);
            extend(&mut r, build_peer_rules(&peers));
            extend(&mut r, build_archive_rules(node));
        },
        _ => {
            push(
                &mut r,
                egress_rule(
                    Json::list().and(stellar_pods()),
                    Json::list().and(port(11625, "TCP")).and(port(11626, "TCP")),
                ),
            );
            extend(&mut r, build_database_rules(node));
        },
    }
    r
}

/// Whom a node may reach: besides what its type needs, only namespaces of the
/// same network, the cluster's DNS, the Kubernetes API server and its own
/// namespace. The API server has no pods that a selector could pick, so its
/// rule names its ports alone.
pub open spec fn egress_rules(node: StellarNode, ctx: NodeContext) -> Seq<Doc> {
    typed_egress(node).push(
        reach_rule_doc(
            Doc::list().and(namespace_peer_doc(NAMESPACE_NETWORK_LABEL@, ctx.isolation_label@)),
        ),
    ).push(cluster_dns_rule_doc()).push(open_rule_doc(api_server_ports_doc())).push(
        reach_rule_doc(
            Doc::list().and(namespace_peer_doc("kubernetes.io/metadata.name"@, namespace_of(node))),
        ),
    )
}

fn build_egress_rules(node: &StellarNode, ctx: &NodeContext) -> (r: Vec<Json>)
    ensures
        docs(r@) == egress_rules(*node, *ctx),
{
    let mut r = build_typed_egress(node);
    push(
        &mut r,
        reach_rule(Json::list().and(namespace_peer(NAMESPACE_NETWORK_LABEL, &ctx.isolation_label))),
    );
    push(&mut r, cluster_dns_rule());
    push(&mut r, open_rule(api_server_ports()));
    push(
        &mut r,
        reach_rule(
            Json::list().and(
                namespace_peer("kubernetes.io/metadata.name", namespace_or_default(node)),
            ),
        ),
    );
    r
}

/// The NetworkPolicy of a node. It names both directions, so that traffic
/// that no rule lets through is refused.
pub open spec fn network_policy_doc(
    node: StellarNode,
    config: NetworkPolicyConfig,
    ctx: NodeContext,
) -> Doc {
    let labels = standard_labels_doc(node, ctx).with(
        NAMESPACE_NETWORK_LABEL@,
        Doc::text(ctx.isolation_label@),
    );
    network_policy_manifest_doc(
        metadata_doc(node, resource_name_of(node, "netpol"@), labels),
        node,
        Doc::List(ingress_rules(node, config)),
        Doc::List(egress_rules(node, ctx)),
    )
}

/// Builds the NetworkPolicy of a node.
pub fn build_network_policy(
    node: &StellarNode,
    config: &NetworkPolicyConfig,
    ctx: &NodeContext,
) -> (r: Json)
    ensures
        r@ == network_policy_doc(*node, *config, *ctx),
{
    let labels = standard_labels(node, ctx).with(
        NAMESPACE_NETWORK_LABEL,
        Json::text(&ctx.isolation_label),
    );
    network_policy_manifest(
        metadata(node, &resource_name(node, "netpol"), labels),
        node,
        Json::List(build_ingress_rules(node, config)),
        Json::List(build_egress_rules(node, ctx)),
    )
}

/// Ensures the NetworkPolicy of a node that asks for one.
pub fn ensure_network_policy(node: &StellarNode, dry_run: bool, ctx: &NodeContext) -> (r: Vec<Step>)
    ensures
        acts(r@) == match node.spec.network_policy {
            Some(c) => if c.enabled {
                one_act(
                    apply_act(
                        Kind::NetworkPolicy,
                        namespace_of(*node),
                        resource_name_of(*node, "netpol"@),
                        network_policy_doc(*node, c, *ctx),
                        dry_run,
                    ),
                )
            } else {
                no_acts()
            },
            None => no_acts(),
        },
{
    match &node.spec.network_policy {
        Some(c) => {
            if c.enabled {
                one_step(
                    apply(
                        Kind::NetworkPolicy,
                        namespace_or_default(node),
                        &resource_name(node, "netpol"),
                        build_network_policy(node, c, ctx),
                        dry_run,
                    ),
                )
            } else {
                no_steps()
            }
        },
        None => no_steps(),
    }
}

/// Deletes the NetworkPolicy of a node.
pub fn delete_network_policy(node: &StellarNode, dry_run: bool) -> (r: Vec<Step>)
    ensures
        acts(r@) == one_act(
            delete_act(
                Kind::NetworkPolicy,
                namespace_of(*node),
                resource_name_of(*node, "netpol"@),
                Tolerance::Missing,
                dry_run,
            ),
        ),
{
    one_step(
        delete(
            Kind::NetworkPolicy,
            namespace_or_default(node),
            &resource_name(node, "netpol"),
            Tolerance::Missing,
            dry_run,
        ),
    )
}

/// A rule is limited to ports.
pub open spec fn has_ports(rule: Doc) -> bool {
    rule.member("ports"@) is Some
}

/// The rule that lets a node reach the namespaces of a network.
pub open spec fn network_rule_doc(network: Seq<char>) -> Doc {
    reach_rule_doc(Doc::list().and(namespace_peer_doc(NAMESPACE_NETWORK_LABEL@, network)))
}

/// The rule that lets a node reach a namespace.
pub open spec fn namespace_rule_doc(namespace: Seq<char>) -> Doc {
    reach_rule_doc(Doc::list().and(namespace_peer_doc("kubernetes.io/metadata.name"@, namespace)))
}

proof fn lemma_last_member_is_ports(d: Doc, ports: Doc)
    requires
        is_object(d),
    ensures
        has_ports(d.with("ports"@, ports)),
{
    law_member_read_after_write(d, "ports"@, ports, "ports"@);
}

proof fn lemma_typed_egress_has_ports(node: StellarNode)
    ensures
        forall|i: int| 0 <= i < typed_egress(node).len() ==> has_ports(#[trigger] typed_egress(node)[i]),
{
    let none = Doc::object();
    let dns = open_rule_doc(dns_ports_doc());
    lemma_last_member_is_ports(none, dns_ports_doc());
    let rules = typed_egress(node);
    match node.spec.node_type {
        NodeType::Validator => {
            let peers = peer_rules(peers_of(node));
            let archives = archive_rules(node);
            let to = unless_none(peer_blocks(peers_of(node), peers_of(node).len() as int));
            if let Some(t) = to {
                law_member_read_after_write(none, "to"@, t, "to"@);
            }
            lemma_last_member_is_ports(
                none.with_some("to"@, to),
                Doc::list().and(port_doc(11625, "TCP"@)),
            );
            lemma_last_member_is_ports(
                none,
                Doc::list().and(port_doc(80, "TCP"@)).and(port_doc(443, "TCP"@)),
            );
            assert forall|i: int| 0 <= i < rules.len() implies has_ports(#[trigger] rules[i]) by {
                assert(rules[i] == dns || peers.contains(rules[i]) || archives.contains(rules[i]));
            }
        },
        _ => {
            let to = Doc::list().and(stellar_pods_doc());
            law_member_read_after_write(none, "to"@, to, "to"@);
            lemma_last_member_is_ports(
                none.with("to"@, to),
                Doc::list().and(port_doc(11625, "TCP"@)).and(port_doc(11626, "TCP"@)),
            );
            lemma_last_member_is_ports(none, Doc::list().and(port_doc(5432, "TCP"@)));
        },
    }
}

/// What a policy does not allow is denied in both directions. On every port a
/// node reaches only the namespaces of its own network and its own namespace;
/// all other rules are limited to ports.
pub proof fn law_networks_are_isolated(
    node: StellarNode,
    config: NetworkPolicyConfig,
    ctx: NodeContext,
)
    ensures
        ({
            let spec = network_policy_doc(node, config, ctx).member("spec"@)->0;
            &&& spec.member("policyTypes"@) == Some(
                Doc::list().and(Doc::text("Ingress"@)).and(Doc::text("Egress"@)),
            )
            &&& spec.member("egress"@) == Some(Doc::List(egress_rules(node, ctx)))
        }),
        forall|i: int|
            0 <= i < egress_rules(node, ctx).len() && !has_ports(#[trigger] egress_rules(node, ctx)[i])
                ==> egress_rules(node, ctx)[i] == network_rule_doc(ctx.isolation_label@)
                || egress_rules(node, ctx)[i] == namespace_rule_doc(namespace_of(node)),
{
    lemma_typed_egress_has_ports(node);
    let none = Doc::object();
    let labels = standard_labels_doc(node, ctx).with(
        NAMESPACE_NETWORK_LABEL@,
        Doc::text(ctx.isolation_label@),
    );
    let metadata = metadata_doc(node, resource_name_of(node, "netpol"@), labels);
    let selector = match_labels_doc(
        label_doc("app.kubernetes.io/instance"@, node.name@).with(
            "app.kubernetes.io/name"@,
            Doc::text("stellar-node"@),
        ),
    );
    let types = Doc::list().and(Doc::text("Ingress"@)).and(Doc::text("Egress"@));
    let ingress = Doc::List(ingress_rules(node, config));
    let egress = Doc::List(egress_rules(node, ctx));
    reveal_strlit("spec");
    reveal_strlit("policyTypes");
    reveal_strlit("ingress");
    reveal_strlit("egress");
    law_member_read_after_write(none, "podSelector"@, selector, "spec"@);
    let s1 = none.with("podSelector"@, selector);
    law_member_read_after_write(s1, "policyTypes"@, types, "policyTypes"@);
    let s2 = s1.with("policyTypes"@, types);
    law_member_read_after_write(s2, "ingress"@, ingress, "policyTypes"@);
    let s3 = s2.with("ingress"@, ingress);
    law_member_read_after_write(s3, "egress"@, egress, "policyTypes"@);
    law_member_read_after_write(s3, "egress"@, egress, "egress"@);
    let spec = s3.with("egress"@, egress);
    let d1 = none.with("apiVersion"@, Doc::text("networking.k8s.io/v1"@));
    law_member_read_after_write(
        none,
        "apiVersion"@,
        Doc::text("networking.k8s.io/v1"@),
        "spec"@,
    );
    law_member_read_after_write(d1, "kind"@, Doc::text("NetworkPolicy"@), "spec"@);
    let d2 = d1.with("kind"@, Doc::text("NetworkPolicy"@));
    law_member_read_after_write(d2, "metadata"@, metadata, "spec"@);
    let d3 = d2.with("metadata"@, metadata);
    law_member_read_after_write(d3, "spec"@, spec, "spec"@);
    assert(network_policy_doc(node, config, ctx) == d3.with("spec"@, spec));
    let to = Doc::list().and(
        Doc::object()
            .with(
                "namespaceSelector"@,
                match_labels_doc(label_doc("kubernetes.io/metadata.name"@, "kube-system"@)),
            )
            .with("podSelector"@, match_labels_doc(label_doc("k8s-app"@, "kube-dns"@))),
    );
    law_member_read_after_write(none, "to"@, to, "to"@);
    lemma_last_member_is_ports(none.with("to"@, to), dns_ports_doc());
    lemma_last_member_is_ports(none, api_server_ports_doc());
    let rules = egress_rules(node, ctx);
    let n = typed_egress(node).len();
    assert forall|i: int| 0 <= i < rules.len() && !has_ports(#[trigger] rules[i]) implies rules[i]
        == network_rule_doc(ctx.isolation_label@) || rules[i] == namespace_rule_doc(
        namespace_of(node),
    ) by {
        if i < n {
            assert(rules[i] == typed_egress(node)[i]);
        } else if i == n + 1 {
            assert(rules[i] == cluster_dns_rule_doc());
        } else if i == n + 2 {
            assert(rules[i] == open_rule_doc(api_server_ports_doc()));
        }
    }
}

/// A host is what stands before the colon of an address.
pub proof fn law_host_stands_before_the_colon(host: Seq<char>, port: Seq<char>)
    requires
        !host.contains(':'),
    ensures
        host_part(host) == host,
        host_part(host + seq![':'] + port) == host,
{
    lemma_colon(host, 0, host.len() as int);
    let s = host + seq![':'] + port;
    assert forall|i: int| 0 <= i < host.len() implies s[i] != ':' by {
        assert(host.contains(host[i]));
    }
    lemma_colon(s, 0, host.len() as int);
    assert(host.subrange(0, host.len() as int) =~= host);
    assert(s.subrange(0, host.len() as int) =~= host);
}

proof fn lemma_colon(s: Seq<char>, i: int, p: int)
    requires
        0 <= i <= p <= s.len(),
        p < s.len() ==> s[p] == ':',
        (forall|j: int| 0 <= j < p ==> s[j] != ':') || !s.contains(':'),
    ensures
        colon_from(s, i) == p,
    decreases p - i,
{
    if i < p {
        assert(s.contains(s[i]));
        lemma_colon(s, i + 1, p);
    }
}

/// The peers that are addresses can be reached, and no other by its address.
pub proof fn law_numeric_peers_are_reached(peers: Seq<Seq<char>>, n: int)
    requires
        0 <= n <= peers.len(),
    ensures
        forall|i: int|
            #![trigger peers[i]]
            0 <= i < n && is_numeric(peers[i]) ==> peer_blocks(peers, n).contains(address_block_doc(peers[i] + "/32"@)),
        forall|x: Doc| #[trigger]
            peer_blocks(peers, n).contains(x) ==> exists|i: int|
                #![trigger peers[i]]
                0 <= i < n && is_numeric(peers[i]) && x == address_block_doc(peers[i] + "/32"@),
    decreases n,
{
    if n > 0 {
        law_numeric_peers_are_reached(peers, n - 1);
        let p = peer_blocks(peers, n - 1);
        let r = peer_blocks(peers, n);
        assert forall|i: int|
            #![trigger peers[i]]
            0 <= i < n && is_numeric(peers[i]) implies r.contains(address_block_doc(peers[i] + "/32"@)) by {
            if i == n - 1 {
                assert(r[p.len() as int] == address_block_doc(peers[i] + "/32"@));
            } else {
                assert(p.contains(address_block_doc(peers[i] + "/32"@)));
                let k = choose|k: int| 0 <= k < p.len() && p[k] == address_block_doc(peers[i] + "/32"@);
                assert(r[k] == address_block_doc(peers[i] + "/32"@));
            }
        }
        assert forall|x: Doc| #[trigger] r.contains(x) implies exists|i: int|
            #![trigger peers[i]]
            0 <= i < n && is_numeric(peers[i]) && x == address_block_doc(peers[i] + "/32"@) by {
            let j = choose|j: int| 0 <= j < r.len() && r[j] == x;
            if j < p.len() {
                assert(r[j] == p[j]);
                assert(p.contains(x));
                let i = choose|i: int|
                    #![trigger peers[i]]
                    0 <= i < n - 1 && is_numeric(peers[i]) && x == address_block_doc(peers[i] + "/32"@);
                assert(is_numeric(peers[i]) && x == address_block_doc(peers[i] + "/32"@));
            } else {
                let i = n - 1;
                assert(is_numeric(peers[i]) && x == address_block_doc(peers[i] + "/32"@));
            }
        }
    }
}

/// A port, a block of addresses and a namespace are what they are named.
pub proof fn law_rules_name_what_they_allow(number: int, protocol: Seq<char>, key: Seq<char>)
    ensures
        port_doc(number, protocol).member("port"@) == Some(Doc::number(number)),
        port_doc(number, protocol).member("protocol"@) == Some(Doc::Text(protocol)),
        at2(address_block_doc(key), "ipBlock"@, "cidr"@) == Some(Doc::Text(key)),
        at3(namespace_peer_doc(key, protocol), "namespaceSelector"@, "matchLabels"@, key) == Some(
            Doc::Text(protocol),
        ),
        ({
            let from = Doc::Text(key);
            let ports = Doc::Text(protocol);
            &&& ingress_rule_doc(from, ports).member("from"@) == Some(from)
            &&& ingress_rule_doc(from, ports).member("ports"@) == Some(ports)
            &&& egress_rule_doc(from, ports).member("to"@) == Some(from)
            &&& egress_rule_doc(from, ports).member("ports"@) == Some(ports)
        }),
{
    broadcast use group_members;

    reveal_strlit("port");
    reveal_strlit("protocol");
    reveal_strlit("ipBlock");
    reveal_strlit("cidr");
    reveal_strlit("namespaceSelector");
    reveal_strlit("matchLabels");
    reveal_strlit("from");
    reveal_strlit("ports");
    reveal_strlit("to");
    assert("port"@[0] == 'p');
    assert("cidr"@[0] == 'c');
    assert("from"@[0] == 'f');
}

/// A policy binds the pods of its node alone, in both directions, under the
/// rules of the node.
pub proof fn law_policy_binds_its_node(
    node: StellarNode,
    config: NetworkPolicyConfig,
    ctx: NodeContext,
)
    ensures
        ({
            let d = network_policy_doc(node, config, ctx);
            let selected = at3(d, "spec"@, "podSelector"@, "matchLabels"@);
            &&& d.member("kind"@) == Some(Doc::Text("NetworkPolicy"@))
            &&& at2(d, "metadata"@, "name"@) == Some(Doc::Text(resource_name_of(node, "netpol"@)))
            &&& selected is Some && selected->0.member("app.kubernetes.io/instance"@) == Some(
                Doc::Text(node.name@),
            )
            &&& at2(d, "spec"@, "ingress"@) == Some(Doc::List(ingress_rules(node, config)))
            &&& at2(d, "spec"@, "egress"@) == Some(Doc::List(egress_rules(node, ctx)))
            &&& at3(d, "metadata"@, "labels"@, NAMESPACE_NETWORK_LABEL@) == Some(
                Doc::Text(ctx.isolation_label@),
            )
        }),
{
    broadcast use group_members;

    reveal_strlit("apiVersion");
    reveal_strlit("kind");
    reveal_strlit("metadata");
    reveal_strlit("spec");
    reveal_strlit("name");
    reveal_strlit("namespace");
    reveal_strlit("labels");
    reveal_strlit("ownerReferences");
    reveal_strlit("annotations");
    reveal_strlit("podSelector");
    reveal_strlit("policyTypes");
    reveal_strlit("ingress");
    reveal_strlit("egress");
    reveal_strlit("matchLabels");
    reveal_strlit("app.kubernetes.io/instance");
    reveal_strlit("app.kubernetes.io/name");
    assert("kind"@[0] == 'k');
    assert("spec"@[0] == 's');
    assert("name"@[0] == 'n');
    assert("annotations"@[0] == 'a');
    assert("podSelector"@[0] == 'p');
    assert("policyTypes"@[0] == 'p');
    assert("podSelector"@[2] == 'd');
    assert("policyTypes"@[2] == 'l');
    assert("labels"@[0] == 'l');
    assert("egress"@[0] == 'e');
    assert("matchLabels"@[0] == 'm');
}

/// Who may come in: the namespaces and blocks of addresses that are listed, the
/// pods that are selected, what scrapes metrics where that is allowed, and those
/// that every node of its type serves.
pub proof fn law_who_may_come_in(node: StellarNode, config: NetworkPolicyConfig, i: int)
    ensures
        ({
            let rules = ingress_rules(node, config);
            let ports = app_ports_doc(node.spec.node_type);
            let spaces = namespace_peers(config.allow_namespaces@);
            let blocks = address_blocks(config.allow_cidrs@);
            &&& spaces.len() > 0 ==> rules.contains(ingress_rule_doc(Doc::List(spaces), ports))
            &&& blocks.len() > 0 ==> rules.contains(ingress_rule_doc(Doc::List(blocks), ports))
            &&& 0 <= i < config.allow_namespaces@.len() ==> spaces.len()
                == config.allow_namespaces@.len() && spaces[i] == namespace_peer_doc(
                "kubernetes.io/metadata.name"@,
                config.allow_namespaces@[i]@,
            )
            &&& 0 <= i < config.allow_cidrs@.len() ==> blocks.len() == config.allow_cidrs@.len()
                && blocks[i] == address_block_doc(config.allow_cidrs@[i]@)
            &&& config.allow_metrics_scrape <==> metrics_rules(config).len() == 1
            &&& config.allow_metrics_scrape ==> rules.contains(metrics_rules(config)[0])
            &&& config.allow_pod_selector is Some ==> pod_rules(config, node.spec.node_type).len()
                == 1 && rules.contains(pod_rules(config, node.spec.node_type)[0])
            &&& rules.last() == client_rule_doc(node.spec.node_type)
        }),
{
    let rules = ingress_rules(node, config);
    let t = node.spec.node_type;
    let a = rule_for(namespace_peers(config.allow_namespaces@), t);
    let b = pod_rules(config, t);
    let c = rule_for(address_blocks(config.allow_cidrs@), t);
    let d = metrics_rules(config);
    if a.len() > 0 {
        assert(rules[0] == a[0]);
    }
    if b.len() > 0 {
        assert(rules[a.len() as int] == b[0]);
    }
    if c.len() > 0 {
        assert(rules[a.len() as int + b.len() as int] == c[0]);
    }
    if d.len() > 0 {
        assert(rules[a.len() as int + b.len() as int + c.len() as int] == d[0]);
    }
}

/// Where a node may go: to names always; a validator to its peers, and to
/// archives just where it keeps a history; another node to the core nodes, and
/// to a database just where it has one.
pub proof fn law_where_a_node_may_go(node: StellarNode)
    ensures
        ({
            let rules = typed_egress(node);
            let validator = node.spec.node_type == NodeType::Validator;
            let archive = open_rule_doc(
                Doc::list().and(port_doc(80, "TCP"@)).and(port_doc(443, "TCP"@)),
            );
            let database = open_rule_doc(Doc::list().and(port_doc(5432, "TCP"@)));
            let keeps = match node.spec.validator_config {
                Some(c) => c.enable_history_archive && c.history_archive_urls@.len() > 0,
                None => false,
            };
            let stores = node.spec.database is Some || node.spec.managed_database is Some;
            &&& rules.len() >= 1 && rules[0] == open_rule_doc(dns_ports_doc())
            &&& validator && keeps ==> rules.last() == archive
            &&& !validator && stores ==> rules.last() == database
            &&& !validator && !stores ==> rules.len() == 2
            &&& validator && !keeps ==> rules.len() == 1 + peer_rules(peers_of(node)).len()
            &&& peer_rules(peers_of(node)).len() == 1 <==> peers_of(node).len() > 0
        }),
{
}

/// A key of a quorum set is an address where it holds a dot and does not begin
/// as an account does; a text is numeric where it holds only digits, dots and
/// colons.
pub proof fn law_addresses_are_told_apart(a: Seq<char>, b: Seq<char>)
    ensures
        !is_address(seq!['G'] + a),
        a.len() > 0 && a[0] != 'G' ==> is_address(a + seq!['.'] + b),
        !a.contains('.') ==> !is_address(a),
        is_numeric(seq!['1', '2', '.', '0', ':', '9']),
        !is_numeric(a + seq!['x'] + b),
{
    reveal_strlit("G");
    reveal_strlit(".");
    let s = seq!['G'] + a;
    assert(s.subrange(0, 1) =~= "G"@);
    let t = a + seq!['.'] + b;
    let n = a.len() as int;
    assert(t.subrange(n, n + 1) =~= "."@);
    assert(occurs_at(t, "."@, n));
    if a.len() > 0 && begins_with(t, "G"@) {
        assert(t.subrange(0, 1)[0] == a[0]);
    }
    if has_text(a, "."@) {
        let i = choose|i: int| #[trigger] occurs_at(a, "."@, i);
        assert(a.subrange(i, i + 1)[0] == a[i]);
        assert(a.contains(a[i]));
    }
    let u = a + seq!['x'] + b;
    assert(u[n] == 'x');
    assert(!numeric_char(u[n]));
}

/// The list opens the port over the protocol.
pub open spec fn opens(ports: Doc, number: int, protocol: Seq<char>) -> bool {
    match ports {
        Doc::List(s) => s.contains(port_doc(number, protocol)),
        _ => false,
    }
}

/// How many ports the list opens.
pub open spec fn opened(ports: Doc) -> nat {
    match ports {
        Doc::List(s) => s.len(),
        _ => 0,
    }
}

/// Names are asked for over both protocols, the API server is reached over both of
/// its ports, and a node over those of its kind; no other port is opened with
/// them.
pub proof fn law_ports_are_those_of_the_service(t: NodeType)
    ensures
        opens(dns_ports_doc(), 53, "UDP"@) && opens(dns_ports_doc(), 53, "TCP"@),
        opened(dns_ports_doc()) == 2,
        opens(api_server_ports_doc(), 443, "TCP"@) && opens(api_server_ports_doc(), 6443, "TCP"@),
        opened(api_server_ports_doc()) == 2,
        t == NodeType::Validator ==> opens(app_ports_doc(t), 11625, "TCP"@) && opens(
            app_ports_doc(t),
            11626,
            "TCP"@,
        ) && opened(app_ports_doc(t)) == 2,
        t != NodeType::Validator ==> opens(app_ports_doc(t), 8000, "TCP"@) && opened(
            app_ports_doc(t),
        ) == 1,
{
    let dns = Seq::<Doc>::empty().push(port_doc(53, "UDP"@)).push(port_doc(53, "TCP"@));
    assert(dns_ports_doc() == Doc::List(dns));
    assert(dns[0] == port_doc(53, "UDP"@) && dns[1] == port_doc(53, "TCP"@));
    let api = Seq::<Doc>::empty().push(port_doc(443, "TCP"@)).push(port_doc(6443, "TCP"@));
    assert(api_server_ports_doc() == Doc::List(api));
    assert(api[0] == port_doc(443, "TCP"@) && api[1] == port_doc(6443, "TCP"@));
    if t == NodeType::Validator {
        let own = Seq::<Doc>::empty().push(port_doc(11625, "TCP"@)).push(port_doc(11626, "TCP"@));
        assert(app_ports_doc(t) == Doc::List(own));
        assert(own[0] == port_doc(11625, "TCP"@) && own[1] == port_doc(11626, "TCP"@));
    } else {
        let own = Seq::<Doc>::empty().push(port_doc(8000, "TCP"@));
        assert(app_ports_doc(t) == Doc::List(own));
        assert(own[0] == port_doc(8000, "TCP"@));
    }
}

} // verus!
