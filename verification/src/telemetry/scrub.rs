//! Scrubbing of the attributes of spans.

use vstd::prelude::*;
use vstd::string::*;
use crate::text::same;

verus! {

/// An attribute of a span, with its value in writing.
#[derive(Debug)]
pub struct Attribute {
    pub key: String,
    pub value: String,
}

/// Whether the value of a key may not leave the cluster.
pub open spec fn is_private(key: Seq<char>) -> bool {
    key == "net.peer.ip"@ || key == "net.host.ip"@ || key == "http.client_ip"@ || key
        == "k8s.cluster.name"@ || key == "host.name"@
}

/// Whether the value of a key may not leave the cluster.
pub fn is_private_key(key: &str) -> (r: bool)
    ensures
        r == is_private(key@),
{
    same(key, "net.peer.ip") || same(key, "net.host.ip") || same(key, "http.client_ip") || same(
        key,
        "k8s.cluster.name",
    ) || same(key, "host.name")
}

/// What is left of an attribute.
pub open spec fn scrubbed(key: Seq<char>, value: Seq<char>) -> Seq<char> {
    if is_private(key) {
        "[REDACTED]"@
    } else {
        value
    }
}

/// Takes the private values out of attributes.
pub fn scrub_attributes(attributes: &mut Vec<Attribute>)
    ensures
        final(attributes)@.len() == old(attributes)@.len(),
        forall|i: int|
            0 <= i < old(attributes)@.len() ==> (#[trigger] final(attributes)@[i]).key@ == old(
                attributes,
            )@[i].key@ && final(attributes)@[i].value@ == scrubbed(
                old(attributes)@[i].key@,
                old(attributes)@[i].value@,
            ),
{
    let mut i: usize = 0;
    let n = attributes.len();
    while i < n
        invariant
            i <= n,
            n == attributes@.len(),
            n == old(attributes)@.len(),
            forall|j: int|
                0 <= j < i ==> (#[trigger] attributes@[j]).key@ == old(attributes)@[j].key@
                    && attributes@[j].value@ == scrubbed(
                    old(attributes)@[j].key@,
                    old(attributes)@[j].value@,
                ),
            forall|j: int| i <= j < n ==> #[trigger] attributes@[j] == old(attributes)@[j],
        decreases n - i,
    {
        let private = is_private_key(&attributes[i].key);
        if private {
            let key = attributes[i].key.clone();
            attributes.set(i, Attribute { key, value: "[REDACTED]".to_string() });
        }
        i = i + 1;
    }
}

/// No private value is left, and scrubbing again changes nothing.
pub proof fn law_nothing_private_is_left(key: Seq<char>, value: Seq<char>)
    ensures
        is_private(key) ==> scrubbed(key, value) == "[REDACTED]"@,
        !is_private(key) ==> scrubbed(key, value) == value,
        scrubbed(key, scrubbed(key, value)) == scrubbed(key, value),
{
}

/// What is private: the addresses of peers, hosts and clients, and the names of
/// clusters and hosts; nothing else is.
pub proof fn law_what_is_private(key: Seq<char>)
    ensures
        is_private("net.peer.ip"@),
        is_private("net.host.ip"@),
        is_private("http.client_ip"@),
        is_private("k8s.cluster.name"@),
        is_private("host.name"@),
        is_private(key) ==> key == "net.peer.ip"@ || key == "net.host.ip"@ || key
            == "http.client_ip"@ || key == "k8s.cluster.name"@ || key == "host.name"@,
{
}

} // verus!
