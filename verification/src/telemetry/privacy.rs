//! Scrubbing of the labels of metrics.

use vstd::prelude::*;
use vstd::string::*;
use crate::str_map::{
    StrMap, ascending, entry, lemma_read_after_write, lemma_with_entry_ascending, with_entry,
};

verus! {

/// The labels whose values may not leave the cluster.
pub open spec fn sensitive_keys() -> Seq<Seq<char>> {
    seq!["ip"@, "host.ip"@, "k8s.cluster.name"@, "cluster_name"@, "pod_name"@]
}

/// The labels with the values of the first `n` keys taken out.
pub open spec fn scrubbed_upto(
    labels: Seq<(Seq<char>, Seq<char>)>,
    keys: Seq<Seq<char>>,
    n: int,
) -> Seq<(Seq<char>, Seq<char>)>
    decreases n,
{
    if n <= 0 {
        labels
    } else {
        let before = scrubbed_upto(labels, keys, n - 1);
        if entry(before, keys[n - 1]) is Some {
            with_entry(before, keys[n - 1], "REDACTED"@)
        } else {
            before
        }
    }
}

/// The labels with the sensitive values taken out.
pub open spec fn scrubbed_labels(labels: Seq<(Seq<char>, Seq<char>)>) -> Seq<
    (Seq<char>, Seq<char>),
> {
    scrubbed_upto(labels, sensitive_keys(), 5)
}

fn redact(labels: &mut StrMap<String>, key: &str)
    ensures
        final(labels).texts() == if entry(old(labels).texts(), key@) is Some {
            with_entry(old(labels).texts(), key@, "REDACTED"@)
        } else {
            old(labels).texts()
        },
{
    if labels.text_at(key).is_some() {
        labels.put(key, "REDACTED");
    }
}

/// A metric that tells nothing of a single node.
pub struct PrivancyAwareMetric;

impl PrivancyAwareMetric {
    /// Takes the sensitive values out of a metric's labels.
    pub fn scrub_labels(labels: &mut StrMap<String>)
        ensures
            final(labels).texts() == scrubbed_labels(old(labels).texts()),
    {
        let ghost first = labels.texts();
        proof {
            reveal_with_fuel(scrubbed_upto, 6);
        }
        redact(labels, "ip");
        assert(labels.texts() == scrubbed_upto(first, sensitive_keys(), 1));
        redact(labels, "host.ip");
        assert(labels.texts() == scrubbed_upto(first, sensitive_keys(), 2));
        redact(labels, "k8s.cluster.name");
        assert(labels.texts() == scrubbed_upto(first, sensitive_keys(), 3));
        redact(labels, "cluster_name");
        assert(labels.texts() == scrubbed_upto(first, sensitive_keys(), 4));
        redact(labels, "pod_name");
    }
}

proof fn lemma_scrubbed_upto(
    labels: Seq<(Seq<char>, Seq<char>)>,
    keys: Seq<Seq<char>>,
    n: int,
    key: Seq<char>,
)
    requires
        ascending(labels),
        0 <= n <= keys.len(),
    ensures
        ascending(scrubbed_upto(labels, keys, n)),
        entry(scrubbed_upto(labels, keys, n), key) == match entry(labels, key) {
            Some(v) => if keys.subrange(0, n).contains(key) {
                Some("REDACTED"@)
            } else {
                Some(v)
            },
            None => None,
        },
    decreases n,
{
    if n > 0 {
        lemma_scrubbed_upto(labels, keys, n - 1, key);
        let before = scrubbed_upto(labels, keys, n - 1);
        let k = keys[n - 1];
        if entry(before, k) is Some {
            lemma_with_entry_ascending(before, k, "REDACTED"@);
            lemma_read_after_write(before, k, "REDACTED"@, key);
        }
        assert(keys.subrange(0, n).contains(key) == (keys.subrange(0, n - 1).contains(key) || key
            == k)) by {
            if keys.subrange(0, n).contains(key) {
                let i = choose|i: int| 0 <= i < n && keys.subrange(0, n)[i] == key;
                if i < n - 1 {
                    assert(keys.subrange(0, n - 1)[i] == key);
                }
            }
            let shorter = keys.subrange(0, n - 1);
            if shorter.contains(key) {
                let i = choose|i: int| 0 <= i < n - 1 && shorter[i] == key;
                assert(keys.subrange(0, n)[i] == key);
            }
            if key == k {
                assert(keys.subrange(0, n)[n - 1] == key);
            }
        }
    }
}

/// No sensitive value is left, and every other label stays as it was.
pub proof fn law_only_sensitive_labels_change(labels: Seq<(Seq<char>, Seq<char>)>, key: Seq<char>)
    requires
        ascending(labels),
    ensures
        entry(scrubbed_labels(labels), key) == match entry(labels, key) {
            Some(v) => if sensitive_keys().contains(key) {
                Some("REDACTED"@)
            } else {
                Some(v)
            },
            None => None,
        },
{
    lemma_scrubbed_upto(labels, sensitive_keys(), 5, key);
    assert(sensitive_keys().subrange(0, 5) =~= sensitive_keys());
}

/// Addresses, and the names of clusters and pods, are never told.
pub proof fn law_addresses_and_names_are_not_told(labels: Seq<(Seq<char>, Seq<char>)>)
    requires
        ascending(labels),
    ensures
        entry(labels, "ip"@) is Some ==> entry(scrubbed_labels(labels), "ip"@) == Some(
            "REDACTED"@,
        ),
        entry(labels, "host.ip"@) is Some ==> entry(scrubbed_labels(labels), "host.ip"@) == Some(
            "REDACTED"@,
        ),
        entry(labels, "k8s.cluster.name"@) is Some ==> entry(
            scrubbed_labels(labels),
            "k8s.cluster.name"@,
        ) == Some("REDACTED"@),
        entry(labels, "cluster_name"@) is Some ==> entry(scrubbed_labels(labels), "cluster_name"@)
            == Some("REDACTED"@),
        entry(labels, "pod_name"@) is Some ==> entry(scrubbed_labels(labels), "pod_name"@) == Some(
            "REDACTED"@,
        ),
{
    let k = sensitive_keys();
    assert(k[0] == "ip"@);
    assert(k[1] == "host.ip"@);
    assert(k[2] == "k8s.cluster.name"@);
    assert(k[3] == "cluster_name"@);
    assert(k[4] == "pod_name"@);
    law_only_sensitive_labels_change(labels, "ip"@);
    law_only_sensitive_labels_change(labels, "host.ip"@);
    law_only_sensitive_labels_change(labels, "k8s.cluster.name"@);
    law_only_sensitive_labels_change(labels, "cluster_name"@);
    law_only_sensitive_labels_change(labels, "pod_name"@);
}

} // verus!
