//! Consistency of resources over federated control planes.
//!
//! Each cluster counts its changes of a resource. The vectors of these counts
//! tell which of two versions is newer, or that both came about without
//! knowledge of each other; then the clusters' identity decides, the same way
//! on every cluster.

use vstd::prelude::*;
use vstd::string::*;
use crate::clock::Timestamp;
use crate::error::Error;
use crate::str_map::{
    StrMap, ascending, entry, has_key, lemma_entry_found, lemma_entry_missing,
    lemma_read_after_write, lemma_same_reads, lemma_slot, lemma_with_entry_ascending,
    lemma_with_entry_keys, slot, with_entry,
};
use crate::text::{cat3, decimal, decimal_text, join, joined, views};

verus! {

/// The counts of a vector, in the order of the clusters' names.
pub type Counts = Seq<(Seq<char>, u64)>;

/// The count of a cluster; 0 where there is none.
pub open spec fn count_of(a: Counts, k: Seq<char>) -> u64 {
    match entry(a, k) {
        Some(c) => c,
        None => 0,
    }
}

/// Whether no count of the second vector is above that of the first.
pub open spec fn covers(a: Counts, b: Counts) -> bool {
    forall|k: Seq<char>| #[trigger] count_of(a, k) >= #[trigger] count_of(b, k)
}

/// Whether the first vector is newer than the second: it has all the changes of
/// the second and others.
pub open spec fn newer(a: Counts, b: Counts) -> bool {
    covers(a, b) && !covers(b, a)
}

/// Whether neither vector is newer than the other.
pub open spec fn concurrent(a: Counts, b: Counts) -> bool {
    !newer(a, b) && !newer(b, a)
}

/// Whether a count is at least another; where there is none, it is below every
/// count.
pub open spec fn at_least(a: Option<u64>, b: Option<u64>) -> bool {
    match (a, b) {
        (_, None) => true,
        (Some(x), Some(y)) => x >= y,
        (None, Some(_)) => false,
    }
}

/// The larger of two counts.
pub open spec fn larger(a: Option<u64>, b: Option<u64>) -> Option<u64> {
    if at_least(a, b) {
        a
    } else {
        b
    }
}

/// The vector with the first `n` counts of another taken in.
pub open spec fn merged_upto(a: Counts, b: Counts, n: int) -> Counts
    decreases n,
{
    if n <= 0 {
        a
    } else {
        let before = merged_upto(a, b, n - 1);
        let (k, c) = b[n - 1];
        match larger(entry(before, k), Some(c)) {
            Some(m) => with_entry(before, k, m),
            None => before,
        }
    }
}

/// The larger counts of two vectors.
pub open spec fn merged(a: Counts, b: Counts) -> Counts {
    merged_upto(a, b, b.len() as int)
}

/// The vector after one more change by a cluster.
pub open spec fn incremented(a: Counts, k: Seq<char>) -> Counts {
    with_entry(a, k, (count_of(a, k) + 1) as u64)
}

/// The counts of a resource's changes.
#[derive(Debug)]
pub struct GenerationVector {
    /// The count of each cluster.
    pub generations: StrMap<u64>,
}

impl View for GenerationVector {
    type V = Counts;

    open spec fn view(&self) -> Counts {
        self.generations.list()
    }
}

/// The changes of a member tell about reads.
proof fn lemma_listed(a: Counts, k: Seq<char>)
    requires
        ascending(a),
        entry(a, k) is Some,
    ensures
        0 <= slot(a, k) < a.len(),
        a[slot(a, k)] == (k, entry(a, k)->0),
{
    lemma_slot(a, k);
}

impl GenerationVector {
    /// A vector without counts.
    pub fn new() -> (r: Self)
        ensures
            r@ == Seq::<(Seq<char>, u64)>::empty(),
    {
        GenerationVector { generations: StrMap::new() }
    }

    /// Counts one more change by a cluster.
    pub fn increment(&mut self, cluster_id: &str)
        requires
            count_of(old(self)@, cluster_id@) < u64::MAX,
        ensures
            final(self)@ == incremented(old(self)@, cluster_id@),
    {
        let n: u64 = self.get(cluster_id);
        self.generations.insert(cluster_id.to_string(), n + 1);
    }

    /// The count of a cluster; 0 where there is none.
    pub fn get(&self, cluster_id: &str) -> (r: u64)
        ensures
            r == count_of(self@, cluster_id@),
    {
        match self.generations.get(cluster_id) {
            Some(n) => *n,
            None => 0,
        }
    }

    fn covers(&self, other: &GenerationVector) -> (r: bool)
        ensures
            r == covers(self@, other@),
    {
        proof {
            use_type_invariant(&self.generations);
            use_type_invariant(&other.generations);
        }
        let n = other.generations.len();
        let mut i: usize = 0;
        while i < n
            invariant
                i <= n,
                n == other@.len(),
                ascending(self@),
                ascending(other@),
                forall|j: int|
                    0 <= j < i ==> count_of(self@, (#[trigger] other@[j]).0) >= other@[j].1,
            decreases n - i,
        {
            let k = other.generations.key_at(i);
            let c: u64 = *other.generations.value_at(i);
            if self.get(k) < c {
                proof {
                    lemma_entry_found(other@, i as int);
                    assert(count_of(self@, k@) < count_of(other@, k@));
                }
                return false;
            }
            i = i + 1;
        }
        proof {
            assert forall|k: Seq<char>| #[trigger] count_of(self@, k) >= #[trigger] count_of(
                other@,
                k,
            ) by {
                if entry(other@, k) is Some {
                    lemma_listed(other@, k);
                    let p = slot(other@, k);
                    assert(other@[p].0 == k);
                }
            }
        }
        true
    }

    /// Whether this vector is newer than another: it has all the changes of the
    /// other and more.
    pub fn dominates(&self, other: &GenerationVector) -> (r: bool)
        ensures
            r == newer(self@, other@),
    {
        self.covers(other) && !other.covers(self)
    }

    /// The larger counts of two vectors.
    pub fn merge(&self, other: &GenerationVector) -> (r: GenerationVector)
        ensures
            r@ == merged(self@, other@),
    {
        let mut generations = self.generations.copy();
        let n = other.generations.len();
        let mut i: usize = 0;
        while i < n
            invariant
                i <= n,
                n == other@.len(),
                generations.list() == merged_upto(self@, other@, i as int),
            decreases n - i,
        {
            let k = other.generations.key_at(i);
            let c: u64 = *other.generations.value_at(i);
            let m: u64 = match generations.get(k) {
                Some(mine) => if *mine >= c {
                    *mine
                } else {
                    c
                },
                None => c,
            };
            generations.insert(k.clone(), m);
            i = i + 1;
        }
        GenerationVector { generations }
    }

    /// A vector with the same counts.
    pub fn copy(&self) -> (r: GenerationVector)
        ensures
            r@ == self@,
    {
        GenerationVector { generations: self.generations.copy() }
    }
}

impl Default for GenerationVector {
    fn default() -> (r: Self)
        ensures
            r@ == Seq::<(Seq<char>, u64)>::empty(),
    {
        GenerationVector::new()
    }
}

/// A vector is newer than another just where no count of it is below that of the
/// other and one is above it.
pub proof fn law_newer_by_counts(a: Counts, b: Counts)
    ensures
        newer(a, b) <==> (forall|k: Seq<char>| #[trigger] count_of(a, k) >= #[trigger] count_of(b, k))
            && exists|k: Seq<char>| #[trigger] count_of(a, k) > #[trigger] count_of(b, k),
{
    if newer(a, b) {
        let k = choose|k: Seq<char>| #[trigger] count_of(b, k) < #[trigger] count_of(a, k);
        assert(count_of(a, k) > count_of(b, k));
    }
    if exists|k: Seq<char>| #[trigger] count_of(a, k) > #[trigger] count_of(b, k) {
        let k = choose|k: Seq<char>| #[trigger] count_of(a, k) > #[trigger] count_of(b, k);
        assert(count_of(b, k) < count_of(a, k));
    }
}

/// "Newer" is a strict order: no vector is newer than itself, of two at most
/// one is newer than the other, and what is newer than a newer one is newer.
pub proof fn law_newer_is_a_strict_order(a: Counts, b: Counts, c: Counts)
    ensures
        !newer(a, a),
        newer(a, b) ==> !newer(b, a),
        newer(a, b) && newer(b, c) ==> newer(a, c),
{
    if newer(a, b) && newer(b, c) {
        lemma_covers_transitive(a, b, c);
        if covers(c, a) {
            lemma_covers_transitive(b, c, a);
        }
    }
}

proof fn lemma_covers_transitive(a: Counts, b: Counts, c: Counts)
    requires
        covers(a, b),
        covers(b, c),
    ensures
        covers(a, c),
{
    assert forall|k: Seq<char>| #[trigger] count_of(a, k) >= #[trigger] count_of(c, k) by {
        assert(count_of(a, k) >= count_of(b, k));
        assert(count_of(b, k) >= count_of(c, k));
    }
}

/// One more change makes a vector newer.
pub proof fn law_a_change_is_newer(a: Counts, k: Seq<char>)
    requires
        ascending(a),
        count_of(a, k) < u64::MAX,
    ensures
        newer(incremented(a, k), a),
{
    let v = (count_of(a, k) + 1) as u64;
    let b = incremented(a, k);
    assert forall|o: Seq<char>| #[trigger] count_of(b, o) >= #[trigger] count_of(a, o) by {
        lemma_read_after_write(a, k, v, o);
    }
    lemma_read_after_write(a, k, v, k);
    assert(count_of(a, k) < count_of(b, k));
}

proof fn lemma_merged_upto(a: Counts, b: Counts, n: int, k: Seq<char>)
    requires
        ascending(a),
        ascending(b),
        0 <= n <= b.len(),
    ensures
        ascending(merged_upto(a, b, n)),
        entry(merged_upto(a, b, n), k) == larger(entry(a, k), entry(b.subrange(0, n), k)),
    decreases n,
{
    let s = b.subrange(0, n);
    assert(ascending(s));
    if n > 0 {
        let (key, c) = b[n - 1];
        lemma_merged_upto(a, b, n - 1, k);
        lemma_merged_upto(a, b, n - 1, key);
        let before = merged_upto(a, b, n - 1);
        let t = b.subrange(0, n - 1);
        assert(ascending(t));
        assert(s[n - 1] == b[n - 1]);
        lemma_entry_found(s, n - 1);
        let m = larger(entry(before, key), Some(c))->0;
        lemma_with_entry_ascending(before, key, m);
        lemma_read_after_write(before, key, m, k);
        assert forall|i: int| 0 <= i < t.len() implies #[trigger] t[i].0 != key by {
            assert(t[i] == s[i]);
            crate::str_map::lemma_distinct(s, i, n - 1);
        }
        lemma_entry_missing(t, key);
        if k != key {
            lemma_entry_missing(s, k);
            lemma_entry_missing(t, k);
            match entry(s, k) {
                Some(w) => {
                    lemma_listed(s, k);
                    let q = slot(s, k);
                    assert(q < n - 1);
                    assert(t[q] == s[q]);
                    lemma_entry_found(t, q);
                },
                None => {
                    assert forall|i: int| 0 <= i < t.len() implies #[trigger] t[i].0 != k by {
                        assert(s[i] == t[i]);
                        lemma_entry_found(s, i);
                    }
                    lemma_entry_missing(t, k);
                },
            }
        }
    } else {
        assert(s =~= Seq::<(Seq<char>, u64)>::empty());
    }
}

/// The merged vector has for each cluster the larger of its two counts.
pub proof fn law_merge_is_the_larger(a: Counts, b: Counts, k: Seq<char>)
    requires
        ascending(a),
        ascending(b),
    ensures
        ascending(merged(a, b)),
        entry(merged(a, b), k) == larger(entry(a, k), entry(b, k)),
{
    lemma_merged_upto(a, b, b.len() as int, k);
    assert(b.subrange(0, b.len() as int) =~= b);
}

/// Vectors can be merged in any order, and more than once.
pub proof fn law_merge_order_does_not_matter(a: Counts, b: Counts, c: Counts)
    requires
        ascending(a),
        ascending(b),
        ascending(c),
    ensures
        merged(a, b) == merged(b, a),
        merged(a, a) == a,
        merged(merged(a, b), c) == merged(a, merged(b, c)),
        covers(merged(a, b), a),
        covers(merged(a, b), b),
{
    let e = Seq::<char>::empty();
    law_merge_is_the_larger(a, b, e);
    law_merge_is_the_larger(b, a, e);
    law_merge_is_the_larger(a, a, e);
    law_merge_is_the_larger(b, c, e);
    law_merge_is_the_larger(merged(a, b), c, e);
    law_merge_is_the_larger(a, merged(b, c), e);
    assert forall|k: Seq<char>| #[trigger]
        entry(merged(a, b), k) == entry(merged(b, a), k) by {
        law_merge_is_the_larger(a, b, k);
        law_merge_is_the_larger(b, a, k);
    }
    lemma_same_reads(merged(a, b), merged(b, a));
    assert forall|k: Seq<char>| #[trigger] entry(merged(a, a), k) == entry(a, k) by {
        law_merge_is_the_larger(a, a, k);
    }
    lemma_same_reads(merged(a, a), a);
    let x = merged(merged(a, b), c);
    let y = merged(a, merged(b, c));
    assert forall|k: Seq<char>| #[trigger] entry(x, k) == entry(y, k) by {
        law_merge_is_the_larger(a, b, k);
        law_merge_is_the_larger(b, c, k);
        law_merge_is_the_larger(merged(a, b), c, k);
        law_merge_is_the_larger(a, merged(b, c), k);
    }
    lemma_same_reads(x, y);
    let m = merged(a, b);
    assert forall|k: Seq<char>| #[trigger] count_of(m, k) >= #[trigger] count_of(a, k) by {
        law_merge_is_the_larger(a, b, k);
    }
    assert forall|k: Seq<char>| #[trigger] count_of(m, k) >= #[trigger] count_of(b, k) by {
        law_merge_is_the_larger(a, b, k);
    }
}

/// A version of a resource.
#[verifier::ext_equal]
pub ghost struct Version {
    pub resource: Seq<char>,
    pub vector: Counts,
    pub modifier: Seq<char>,
    pub at: Timestamp,
    pub spec_hash: Seq<char>,
    pub annotations: Seq<(Seq<char>, Seq<char>)>,
}

/// A version of a resource on a cluster.
#[derive(Debug)]
pub struct FederatedResourceState {
    pub resource_id: String,
    pub generation_vector: GenerationVector,
    /// The cluster that changed the resource last.
    pub last_modifier: String,
    pub last_modified_at: Timestamp,
    pub spec_hash: String,
    /// Annotations, the vector among them.
    pub annotations: StrMap<String>,
}

impl View for FederatedResourceState {
    type V = Version;

    open spec fn view(&self) -> Version {
        Version {
            resource: self.resource_id@,
            vector: self.generation_vector@,
            modifier: self.last_modifier@,
            at: self.last_modified_at,
            spec_hash: self.spec_hash@,
            annotations: self.annotations.texts(),
        }
    }
}

/// The first `n` counts, each as `cluster=count`.
pub open spec fn count_texts(a: Counts, n: int) -> Seq<Seq<char>>
    decreases n,
{
    if n <= 0 {
        Seq::empty()
    } else {
        count_texts(a, n - 1).push(a[n - 1].0 + "="@ + decimal(a[n - 1].1 as int))
    }
}

/// The version with its vector and its last modifier in the annotations.
pub open spec fn annotated(v: Version) -> Version {
    Version {
        annotations: with_entry(
            with_entry(
                v.annotations,
                "stellar.io/generation-vector"@,
                joined(count_texts(v.vector, v.vector.len() as int), ","@),
            ),
            "stellar.io/last-modifier"@,
            v.modifier,
        ),
        ..v
    }
}

/// The first version of a resource, made by a cluster.
pub open spec fn first_version(
    resource: Seq<char>,
    cluster: Seq<char>,
    spec_hash: Seq<char>,
    now: Timestamp,
) -> Version {
    annotated(
        Version {
            resource,
            vector: incremented(Seq::empty(), cluster),
            modifier: cluster,
            at: now,
            spec_hash,
            annotations: Seq::empty(),
        },
    )
}

/// The numbers that stand for clusters where versions are concurrent.
pub type Numbers = Seq<(Seq<char>, u64)>;

/// The number of a cluster; 0 where it has none.
pub open spec fn number_of(numbers: Numbers, cluster: Seq<char>) -> u64 {
    match entry(numbers, cluster) {
        Some(n) => n,
        None => 0,
    }
}

fn number_in(numbers: &StrMap<u64>, cluster: &str) -> (r: u64)
    ensures
        r == number_of(numbers.list(), cluster@),
{
    match numbers.get(cluster) {
        Some(n) => *n,
        None => 0,
    }
}

/// Hashes a cluster's name with `std::collections::hash_map::DefaultHasher`, as
/// `DefaultHasher::new` makes it. Nothing is said of the number: another release
/// of Rust may hash otherwise.
#[verifier::external_body]
fn hash_cluster(cluster: &str) -> (r: u64)
{
    let mut hasher = std::collections::hash_map::DefaultHasher::new();
    std::hash::Hash::hash(cluster, &mut hasher);
    std::hash::Hasher::finish(&hasher)
}

/// Every modifier of a version has a number.
pub open spec fn number_all(numbers: Numbers, local: Version, remotes: Seq<Version>) -> bool {
    has_key(numbers, local.modifier) && forall|i: int|
        0 <= i < remotes.len() ==> has_key(numbers, (#[trigger] remotes[i]).modifier)
}

/// Gives each modifier of a version its number.
fn number_modifiers(
    local: &FederatedResourceState,
    remotes: &Vec<&FederatedResourceState>,
) -> (r: StrMap<u64>)
    ensures
        number_all(r.list(), local@, versions(remotes@)),
{
    let mut r: StrMap<u64> = StrMap::new();
    let ghost others = versions(remotes@);
    let number: u64 = hash_cluster(&local.last_modifier);
    proof {
        use_type_invariant(&r);
        lemma_with_entry_keys(r.list(), local@.modifier, number, local@.modifier);
    }
    r.insert(local.last_modifier.clone(), number);
    let mut i: usize = 0;
    while i < remotes.len()
        invariant
            i <= remotes.len(),
            others == versions(remotes@),
            has_key(r.list(), local@.modifier),
            forall|j: int| 0 <= j < i ==> has_key(r.list(), (#[trigger] others[j]).modifier),
        decreases remotes@.len() - i,
    {
        let remote = remotes[i];
        assert(others[i as int] == remote@);
        let number: u64 = hash_cluster(&remote.last_modifier);
        let ghost before = r.list();
        proof {
            use_type_invariant(&r);
            lemma_with_entry_keys(before, remote@.modifier, number, local@.modifier);
            assert forall|j: int| 0 <= j <= i implies has_key(
                with_entry(before, remote@.modifier, number),
                (#[trigger] others[j]).modifier,
            ) by {
                lemma_with_entry_keys(before, remote@.modifier, number, others[j].modifier);
            }
        }
        r.insert(remote.last_modifier.clone(), number);
        i = i + 1;
    }
    r
}

/// Whether the version of another cluster is kept, and not one's own.
pub open spec fn remote_wins(numbers: Numbers, local: Version, remote: Version) -> bool {
    if newer(local.vector, remote.vector) {
        false
    } else if newer(remote.vector, local.vector) {
        true
    } else {
        number_of(numbers, remote.modifier) > number_of(numbers, local.modifier)
    }
}

impl FederatedResourceState {
    /// The first version of a resource, made now.
    pub fn new(resource_id: String, cluster_id: String, spec_hash: String) -> (r: Self)
        ensures
            exists|now: Timestamp|
                r@ == #[trigger] first_version(resource_id@, cluster_id@, spec_hash@, now),
    {
        let now = Timestamp::now();
        FederatedResourceState::new_at(resource_id, cluster_id, spec_hash, now)
    }

    /// The first version of a resource.
    pub fn new_at(
        resource_id: String,
        cluster_id: String,
        spec_hash: String,
        now: Timestamp,
    ) -> (r: Self)
        ensures
            r@ == first_version(resource_id@, cluster_id@, spec_hash@, now),
    {
        let mut generation_vector = GenerationVector::new();
        assert(entry(generation_vector@, cluster_id@) is None);
        generation_vector.increment(&cluster_id);
        let annotations: StrMap<String> = StrMap::new();
        assert(annotations.texts() =~= Seq::<(Seq<char>, Seq<char>)>::empty());
        let mut state = FederatedResourceState {
            resource_id,
            generation_vector,
            last_modifier: cluster_id,
            last_modified_at: now,
            spec_hash,
            annotations,
        };
        state.update_generation_annotation();
        state
    }

    /// Writes the vector and the last modifier into the annotations.
    fn update_generation_annotation(&mut self)
        ensures
            final(self)@ == annotated(old(self)@),
    {
        let mut parts: Vec<String> = Vec::new();
        let n = self.generation_vector.generations.len();
        let mut i: usize = 0;
        assert(views(parts@) =~= Seq::<Seq<char>>::empty());
        while i < n
            invariant
                i <= n,
                n == self.generation_vector@.len(),
                *self == *old(self),
                views(parts@) == count_texts(self.generation_vector@, i as int),
            decreases n - i,
        {
            let ghost before = views(parts@);
            let k = self.generation_vector.generations.key_at(i);
            let c: u64 = *self.generation_vector.generations.value_at(i);
            let part = cat3(k, "=", &decimal_text(c));
            parts.push(part);
            assert(views(parts@) =~= before.push(part@));
            i = i + 1;
        }
        let text = join(&parts, ",");
        self.annotations.put("stellar.io/generation-vector", &text);
        self.annotations.put("stellar.io/last-modifier", &self.last_modifier);
    }

    /// Which of two versions is kept: the newer one, or where they are
    /// concurrent the one whose modifier has the higher number. The cluster
    /// that asks makes no difference.
    pub fn resolve_conflict(
        local: &FederatedResourceState,
        remote: &FederatedResourceState,
        local_cluster_id: &str,
    ) -> (r: &'static str)
        ensures
            exists|numbers: Numbers|
                number_all(numbers, local@, seq![remote@]) && r@ == if #[trigger] remote_wins(
                    numbers,
                    local@,
                    remote@,
                ) {
                    "remote"@
                } else {
                    "local"@
                },
    {
        let mut remotes: Vec<&FederatedResourceState> = Vec::new();
        remotes.push(remote);
        let numbers = number_modifiers(local, &remotes);
        assert(versions(remotes@) =~= seq![remote@]);
        FederatedResourceState::resolve_conflict_by(local, remote, &numbers)
    }

    /// Which of two versions is kept, where the clusters have given numbers.
    pub fn resolve_conflict_by(
        local: &FederatedResourceState,
        remote: &FederatedResourceState,
        numbers: &StrMap<u64>,
    ) -> (r: &'static str)
        ensures
            r@ == if remote_wins(numbers.list(), local@, remote@) {
                "remote"@
            } else {
                "local"@
            },
    {
        if local.generation_vector.dominates(&remote.generation_vector) {
            return "local";
        }
        if remote.generation_vector.dominates(&local.generation_vector) {
            return "remote";
        }
        if number_in(numbers, &remote.last_modifier) > number_in(numbers, &local.last_modifier) {
            "remote"
        } else {
            "local"
        }
    }

    /// The same version.
    pub fn copy(&self) -> (r: FederatedResourceState)
        ensures
            r@ == self@,
    {
        FederatedResourceState {
            resource_id: self.resource_id.clone(),
            generation_vector: self.generation_vector.copy(),
            last_modifier: self.last_modifier.clone(),
            last_modified_at: self.last_modified_at,
            spec_hash: self.spec_hash.clone(),
            annotations: self.annotations.copy(),
        }
    }
}

/// Both clusters keep the same of two versions, whichever of them is the local
/// one, but where concurrent versions have modifiers of one number.
pub proof fn law_clusters_agree(numbers: Numbers, a: Version, b: Version)
    requires
        concurrent(a.vector, b.vector) ==> number_of(numbers, a.modifier) != number_of(
            numbers,
            b.modifier,
        ),
    ensures
        remote_wins(numbers, a, b) == !remote_wins(numbers, b, a),
{
    law_newer_is_a_strict_order(a.vector, b.vector, b.vector);
}

/// The versions that references point to.
pub open spec fn versions(v: Seq<&FederatedResourceState>) -> Seq<Version> {
    Seq::new(v.len(), |i: int| v[i]@)
}

/// The vectors of a version and of the first `n` others, merged.
pub open spec fn merged_all(local: Version, remotes: Seq<Version>, n: int) -> Counts
    decreases n,
{
    if n <= 0 {
        local.vector
    } else {
        merged(merged_all(local, remotes, n - 1), remotes[n - 1].vector)
    }
}

/// Whether a version or one of some others is newer than a third.
pub open spec fn outdated(v: Version, local: Version, remotes: Seq<Version>) -> bool {
    newer(local.vector, v.vector) || exists|i: int|
        0 <= i < remotes.len() && newer((#[trigger] remotes[i]).vector, v.vector)
}

/// Whether a version is preferred to another one where they are concurrent: its
/// modifier has the higher number, or the same and the change came later.
pub open spec fn preferred(numbers: Numbers, a: Version, b: Version) -> bool {
    let x = number_of(numbers, a.modifier);
    let y = number_of(numbers, b.modifier);
    x > y || (x == y && b.at.instant() < a.at.instant())
}

/// The preferred one among those of a version and the first `n` others that none
/// of all is newer than.
pub open spec fn preferred_of(
    numbers: Numbers,
    local: Version,
    remotes: Seq<Version>,
    n: int,
) -> Option<Version>
    decreases n,
{
    if n <= 0 {
        if outdated(local, local, remotes) {
            None
        } else {
            Some(local)
        }
    } else {
        let best = preferred_of(numbers, local, remotes, n - 1);
        let next = remotes[n - 1];
        if outdated(next, local, remotes) {
            best
        } else {
            match best {
                Some(b) => if preferred(numbers, next, b) {
                    Some(next)
                } else {
                    best
                },
                None => Some(next),
            }
        }
    }
}

/// The version that is kept of a local one and others.
pub open spec fn kept(numbers: Numbers, local: Version, remotes: Seq<Version>) -> Version {
    match preferred_of(numbers, local, remotes, remotes.len() as int) {
        Some(v) => v,
        None => local,
    }
}

/// The version that comes of a local one and others: the one that is kept, with
/// all the vectors merged.
pub open spec fn reconciled(numbers: Numbers, local: Version, remotes: Seq<Version>) -> Version {
    annotated(
        Version {
            vector: merged_all(local, remotes, remotes.len() as int),
            ..kept(numbers, local, remotes)
        },
    )
}

/// Whether a version is the local one or one of the first `n` others.
pub open spec fn among(v: Version, local: Version, remotes: Seq<Version>, n: int) -> bool {
    v == local || exists|q: int| 0 <= q < n && v == #[trigger] remotes[q]
}

proof fn lemma_among_more(v: Version, local: Version, remotes: Seq<Version>, n: int)
    requires
        among(v, local, remotes, n),
    ensures
        among(v, local, remotes, n + 1),
{
    if v != local {
        let q = choose|q: int| 0 <= q < n && v == #[trigger] remotes[q];
        assert(remotes[q] == v && q < n + 1);
    }
}

proof fn lemma_preferred_of(numbers: Numbers, local: Version, remotes: Seq<Version>, n: int)
    requires
        0 <= n <= remotes.len(),
    ensures
        (match preferred_of(numbers, local, remotes, n) {
            Some(best) => among(best, local, remotes, n) && !outdated(best, local, remotes) && (
            outdated(local, local, remotes) || !preferred(numbers, local, best)) && forall|q: int|
                0 <= q < n && !outdated(#[trigger] remotes[q], local, remotes) ==> !preferred(
                    numbers,
                    remotes[q],
                    best,
                ),
            None => outdated(local, local, remotes) && forall|q: int|
                0 <= q < n ==> outdated(#[trigger] remotes[q], local, remotes),
        }),
    decreases n,
{
    if n > 0 {
        lemma_preferred_of(numbers, local, remotes, n - 1);
        let before = preferred_of(numbers, local, remotes, n - 1);
        let next = remotes[n - 1];
        assert(among(next, local, remotes, n));
        if before is Some {
            lemma_among_more(before->0, local, remotes, n - 1);
        }
    }
}

/// Among a version and the first `n` others there is one that none of them is
/// newer than.
proof fn lemma_unbeaten(local: Version, remotes: Seq<Version>, n: int) -> (v: Version)
    requires
        0 <= n <= remotes.len(),
    ensures
        among(v, local, remotes, n),
        !newer(local.vector, v.vector),
        forall|q: int| 0 <= q < n ==> !newer((#[trigger] remotes[q]).vector, v.vector),
    decreases n,
{
    if n == 0 {
        law_newer_is_a_strict_order(local.vector, local.vector, local.vector);
        local
    } else {
        let before = lemma_unbeaten(local, remotes, n - 1);
        let next = remotes[n - 1];
        if newer(next.vector, before.vector) {
            law_newer_is_a_strict_order(local.vector, next.vector, before.vector);
            law_newer_is_a_strict_order(next.vector, next.vector, next.vector);
            assert forall|q: int| 0 <= q < n implies !newer(
                (#[trigger] remotes[q]).vector,
                next.vector,
            ) by {
                law_newer_is_a_strict_order(remotes[q].vector, next.vector, before.vector);
            }
            assert(among(next, local, remotes, n));
            next
        } else {
            lemma_among_more(before, local, remotes, n - 1);
            before
        }
    }
}

/// The version that is kept is one of those given, none of them is newer, and
/// none that could be kept in its place is preferred to it.
pub proof fn law_kept_is_up_to_date(numbers: Numbers, local: Version, remotes: Seq<Version>)
    ensures
        ({
            let v = kept(numbers, local, remotes);
            &&& among(v, local, remotes, remotes.len() as int)
            &&& !outdated(v, local, remotes)
            &&& outdated(local, local, remotes) || !preferred(numbers, local, v)
            &&& forall|q: int|
                0 <= q < remotes.len() && !outdated(#[trigger] remotes[q], local, remotes)
                    ==> !preferred(numbers, remotes[q], v)
        }),
{
    let n = remotes.len() as int;
    lemma_preferred_of(numbers, local, remotes, n);
    let v = lemma_unbeaten(local, remotes, n);
    if v != local {
        let q = choose|q: int| 0 <= q < n && v == #[trigger] remotes[q];
        assert(!outdated(remotes[q], local, remotes));
    }
}

/// The count of a cluster in the merged vector: it is one of the counts, and
/// none is above it.
proof fn lemma_merged_all(local: Version, remotes: Seq<Version>, n: int, k: Seq<char>)
    requires
        0 <= n <= remotes.len(),
        ascending(local.vector),
        forall|q: int| 0 <= q < remotes.len() ==> ascending((#[trigger] remotes[q]).vector),
    ensures
        ascending(merged_all(local, remotes, n)),
        at_least(entry(merged_all(local, remotes, n), k), entry(local.vector, k)),
        forall|q: int|
            0 <= q < n ==> at_least(
                entry(merged_all(local, remotes, n), k),
                entry((#[trigger] remotes[q]).vector, k),
            ),
        entry(merged_all(local, remotes, n), k) == entry(local.vector, k) || exists|q: int|
            0 <= q < n && entry(merged_all(local, remotes, n), k) == entry(
                (#[trigger] remotes[q]).vector,
                k,
            ),
    decreases n,
{
    if n > 0 {
        lemma_merged_all(local, remotes, n - 1, k);
        let before = merged_all(local, remotes, n - 1);
        let after = merged_all(local, remotes, n);
        law_merge_is_the_larger(before, remotes[n - 1].vector, k);
        if entry(after, k) != entry(remotes[n - 1].vector, k) {
            assert(entry(after, k) == entry(before, k));
        }
    }
}

/// Of any two concurrent versions that differ, one is preferred.
pub open spec fn preference_decides(numbers: Numbers, states: Seq<Version>) -> bool {
    forall|p: int, q: int|
        0 <= p < q < states.len() && concurrent(
            (#[trigger] states[p]).vector,
            (#[trigger] states[q]).vector,
        ) ==> states[p] == states[q] || preferred(numbers, states[p], states[q]) || preferred(
            numbers,
            states[q],
            states[p],
        )
}

proof fn lemma_same_merge(states: Seq<Version>, i: int, j: int, k: Seq<char>)
    requires
        0 <= i < states.len(),
        0 <= j < states.len(),
        forall|q: int| 0 <= q < states.len() ==> ascending((#[trigger] states[q]).vector),
    ensures
        at_least(
            entry(merged_all(states[i], states.remove(i), states.len() - 1), k),
            entry(merged_all(states[j], states.remove(j), states.len() - 1), k),
        ),
{
    let n = states.len() - 1;
    let r = states.remove(i);
    let t = states.remove(j);
    assert forall|q: int| 0 <= q < n implies ascending((#[trigger] r[q]).vector) by {
        assert(r[q] == if q < i {
            states[q]
        } else {
            states[q + 1]
        });
    }
    assert forall|q: int| 0 <= q < n implies ascending((#[trigger] t[q]).vector) by {
        assert(t[q] == if q < j {
            states[q]
        } else {
            states[q + 1]
        });
    }
    lemma_merged_all(states[i], r, n, k);
    lemma_merged_all(states[j], t, n, k);
    let a = entry(merged_all(states[i], r, n), k);
    let b = entry(merged_all(states[j], t, n), k);
    let m: int = if b == entry(states[j].vector, k) {
        j
    } else {
        let q = choose|q: int| 0 <= q < n && b == entry((#[trigger] t[q]).vector, k);
        if q < j {
            q
        } else {
            q + 1
        }
    };
    assert(b == entry(states[m].vector, k));
    if m < i {
        assert(r[m] == states[m]);
    } else if m > i {
        assert(r[m - 1] == states[m]);
    }
}

/// All clusters come to the same version of a resource, however many they are,
/// if of any two concurrent versions that differ one is preferred.
pub proof fn law_clusters_converge(numbers: Numbers, states: Seq<Version>, i: int, j: int)
    requires
        0 <= i < states.len(),
        0 <= j < states.len(),
        forall|q: int| 0 <= q < states.len() ==> ascending((#[trigger] states[q]).vector),
        preference_decides(numbers, states),
    ensures
        reconciled(numbers, states[i], states.remove(i)) == reconciled(numbers, states[j], states.remove(j)),
{
    let n = states.len() - 1;
    let r = states.remove(i);
    let t = states.remove(j);
    let x = merged_all(states[i], r, n);
    let y = merged_all(states[j], t, n);
    assert forall|q: int| 0 <= q < n implies #[trigger] r[q] == states[if q < i {
        q
    } else {
        q + 1
    }] by {}
    assert forall|q: int| 0 <= q < n implies #[trigger] t[q] == states[if q < j {
        q
    } else {
        q + 1
    }] by {}
    lemma_merged_all(states[i], r, n, Seq::empty());
    lemma_merged_all(states[j], t, n, Seq::empty());
    assert forall|k: Seq<char>| #[trigger] entry(x, k) == entry(y, k) by {
        lemma_same_merge(states, i, j, k);
        lemma_same_merge(states, j, i, k);
    }
    lemma_same_reads(x, y);
    let a = kept(numbers, states[i], r);
    let b = kept(numbers, states[j], t);
    law_kept_is_up_to_date(numbers, states[i], r);
    law_kept_is_up_to_date(numbers, states[j], t);
    let p = lemma_place(a, states, i);
    let q = lemma_place(b, states, j);
    lemma_outdated(states, i, j, a);
    lemma_outdated(states, j, i, b);
    lemma_seen(states, i, q);
    lemma_seen(states, j, p);
    lemma_seen(states, i, p);
    lemma_seen(states, j, q);
    assert(!newer(a.vector, b.vector)) by {
        if p < j {
            assert(t[p] == a);
        } else if p > j {
            assert(t[p - 1] == a);
        }
    }
    assert(!newer(b.vector, a.vector)) by {
        if q < i {
            assert(r[q] == b);
        } else if q > i {
            assert(r[q - 1] == b);
        }
    }
    assert(!preferred(numbers, a, b)) by {
        if p < j {
            assert(!outdated(t[p], states[j], t));
        } else if p > j {
            assert(!outdated(t[p - 1], states[j], t));
        }
    }
    assert(!preferred(numbers, b, a)) by {
        if q < i {
            assert(!outdated(r[q], states[i], r));
        } else if q > i {
            assert(!outdated(r[q - 1], states[i], r));
        }
    }
    assert(a == b) by {
        if p < q {
            assert(concurrent(states[p].vector, states[q].vector));
        } else if q < p {
            assert(concurrent(states[q].vector, states[p].vector));
        }
    }
}

proof fn lemma_outdated(states: Seq<Version>, i: int, j: int, v: Version)
    requires
        0 <= i < states.len(),
        0 <= j < states.len(),
        !outdated(v, states[i], states.remove(i)),
    ensures
        !outdated(v, states[j], states.remove(j)),
{
    let r = states.remove(i);
    let t = states.remove(j);
    assert forall|q: int| 0 <= q < states.len() implies !newer(
        (#[trigger] states[q]).vector,
        v.vector,
    ) by {
        if q < i {
            assert(r[q] == states[q]);
        } else if q > i {
            assert(r[q - 1] == states[q]);
        }
    }
    assert forall|q: int| 0 <= q < t.len() implies !newer((#[trigger] t[q]).vector, v.vector) by {
        if q < j {
            assert(t[q] == states[q]);
        } else {
            assert(t[q] == states[q + 1]);
        }
    }
}

proof fn lemma_merged_same(local: Version, remotes: Seq<Version>, n: int)
    requires
        0 <= n <= remotes.len(),
        ascending(local.vector),
        forall|q: int| 0 <= q < remotes.len() ==> (#[trigger] remotes[q]).vector == local.vector,
    ensures
        merged_all(local, remotes, n) == local.vector,
    decreases n,
{
    if n > 0 {
        lemma_merged_same(local, remotes, n - 1);
        law_merge_order_does_not_matter(local.vector, local.vector, local.vector);
    }
}

/// Once all clusters have the same version, they keep it.
pub proof fn law_agreement_lasts(numbers: Numbers, local: Version, remotes: Seq<Version>)
    requires
        ascending(local.vector),
        forall|q: int| 0 <= q < remotes.len() ==> #[trigger] remotes[q] == local,
    ensures
        reconciled(numbers, local, remotes) == annotated(local),
{
    lemma_merged_same(local, remotes, remotes.len() as int);
    law_kept_is_up_to_date(numbers, local, remotes);
}

proof fn lemma_place(v: Version, states: Seq<Version>, i: int) -> (p: int)
    requires
        0 <= i < states.len(),
        among(v, states[i], states.remove(i), states.len() - 1),
    ensures
        0 <= p < states.len(),
        v == states[p],
{
    if v == states[i] {
        i
    } else {
        let q = choose|q: int|
            0 <= q < states.len() - 1 && v == #[trigger] states.remove(i)[q];
        if q < i {
            q
        } else {
            q + 1
        }
    }
}

proof fn lemma_seen(states: Seq<Version>, i: int, q: int)
    requires
        0 <= i < states.len(),
        0 <= q < states.len(),
    ensures
        q < i ==> states.remove(i)[q] == states[q],
        q > i ==> states.remove(i)[q - 1] == states[q],
{
}

/// Whether the peers have not been heard of for more than 30 seconds.
pub open spec fn partitioned(peers: Seq<FederatedResourceState>, now: Timestamp) -> bool {
    forall|i: int|
        0 <= i < peers.len() ==> now.instant() - (#[trigger] peers[i]).last_modified_at.instant()
            > 30_000_000_000
}

/// Reconciles the resources of a cluster with those of others.
pub struct FederationConsistencyReconciler {
    pub(crate) cluster_id: String,
    pub(crate) resource_states: StrMap<FederatedResourceState>,
}

impl FederationConsistencyReconciler {
    /// The name of the cluster.
    pub open(crate) spec fn cluster(&self) -> Seq<char> {
        self.cluster_id@
    }

    /// The versions of the cluster's resources.
    pub open(crate) spec fn states(&self) -> Seq<(Seq<char>, FederatedResourceState)> {
        self.resource_states.list()
    }

    pub fn new(cluster_id: String) -> (r: Self)
        ensures
            r.cluster() == cluster_id@,
            r.states() == Seq::<(Seq<char>, FederatedResourceState)>::empty(),
    {
        FederationConsistencyReconciler { cluster_id, resource_states: StrMap::new() }
    }

    /// Reconciles the local version of a resource with those of other clusters.
    pub fn reconcile_state(
        &mut self,
        resource_id: &str,
        local_state: &FederatedResourceState,
        remote_states: Vec<&FederatedResourceState>,
    ) -> (r: Result<FederatedResourceState, Error>)
        ensures
            *final(self) == *old(self),
            r is Ok,
            exists|numbers: Numbers|
                number_all(numbers, local_state@, versions(remote_states@)) && r->Ok_0@
                    == #[trigger] reconciled(numbers, local_state@, versions(remote_states@)),
    {
        let numbers = number_modifiers(local_state, &remote_states);
        self.reconcile_state_by(resource_id, local_state, remote_states, &numbers)
    }

    /// Reconciles the local version of a resource with those of other clusters,
    /// where the clusters have given numbers.
    pub fn reconcile_state_by(
        &mut self,
        resource_id: &str,
        local_state: &FederatedResourceState,
        remote_states: Vec<&FederatedResourceState>,
        numbers: &StrMap<u64>,
    ) -> (r: Result<FederatedResourceState, Error>)
        ensures
            *final(self) == *old(self),
            r is Ok,
            r->Ok_0@ == reconciled(numbers.list(), local_state@, versions(remote_states@)),
    {
        let ghost remotes = versions(remote_states@);
        let mut merged_vector = local_state.generation_vector.copy();
        let mut i: usize = 0;
        while i < remote_states.len()
            invariant
                i <= remote_states.len(),
                remotes == versions(remote_states@),
                merged_vector@ == merged_all(local_state@, remotes, i as int),
            decreases remote_states@.len() - i,
        {
            let remote = remote_states[i];
            assert(remotes[i as int] == remote@);
            merged_vector = merged_vector.merge(&remote.generation_vector);
            i = i + 1;
        }
        let mut result = FederationConsistencyReconciler::resolve_conflicts(
            local_state,
            &remote_states,
            numbers,
        );
        result.generation_vector = merged_vector;
        result.update_generation_annotation();
        Ok(result)
    }

    /// Whether this cluster is cut off from others: none of them has changed
    /// anything for more than 30 seconds.
    pub fn detect_partition(&self, peer_states: &[FederatedResourceState]) -> (r: bool)
        ensures
            exists|now: Timestamp| r == #[trigger] partitioned(peer_states@, now),
    {
        let now = Timestamp::now();
        self.detect_partition_at(peer_states, now)
    }

    /// Whether this cluster is cut off from others at an instant.
    pub fn detect_partition_at(
        &self,
        peer_states: &[FederatedResourceState],
        now: Timestamp,
    ) -> (r: bool)
        ensures
            r == partitioned(peer_states@, now),
    {
        let mut i: usize = 0;
        while i < peer_states.len()
            invariant
                i <= peer_states.len(),
                forall|j: int|
                    0 <= j < i ==> now.instant() - (
                    #[trigger] peer_states@[j]).last_modified_at.instant() > 30_000_000_000,
            decreases peer_states@.len() - i,
        {
            if !now.is_past(peer_states[i].last_modified_at, 30) {
                return false;
            }
            i = i + 1;
        }
        true
    }

    /// Whether one of the given versions is newer than another.
    fn is_outdated(
        v: &FederatedResourceState,
        local: &FederatedResourceState,
        remotes: &Vec<&FederatedResourceState>,
    ) -> (r: bool)
        ensures
            r == outdated(v@, local@, versions(remotes@)),
    {
        if local.generation_vector.dominates(&v.generation_vector) {
            return true;
        }
        let ghost others = versions(remotes@);
        let mut i: usize = 0;
        while i < remotes.len()
            invariant
                i <= remotes.len(),
                others == versions(remotes@),
                forall|j: int|
                    0 <= j < i ==> !newer((#[trigger] others[j]).vector, v@.vector),
            decreases remotes@.len() - i,
        {
            let remote = remotes[i];
            assert(others[i as int] == remote@);
            if remote.generation_vector.dominates(&v.generation_vector) {
                return true;
            }
            i = i + 1;
        }
        false
    }

    fn resolve_conflicts(
        local: &FederatedResourceState,
        remotes: &Vec<&FederatedResourceState>,
        numbers: &StrMap<u64>,
    ) -> (r: FederatedResourceState)
        ensures
            r@ == kept(numbers.list(), local@, versions(remotes@)),
    {
        let ghost others = versions(remotes@);
        let mut winner: Option<&FederatedResourceState> = None;
        if !FederationConsistencyReconciler::is_outdated(local, local, remotes) {
            winner = Some(local);
        }
        let mut i: usize = 0;
        while i < remotes.len()
            invariant
                i <= remotes.len(),
                others == versions(remotes@),
                preferred_of(numbers.list(), local@, others, i as int) == match winner {
                    Some(w) => Some(w@),
                    None => None,
                },
            decreases remotes@.len() - i,
        {
            let remote = remotes[i];
            assert(others[i as int] == remote@);
            if !FederationConsistencyReconciler::is_outdated(remote, local, remotes) {
                let better = match winner {
                    Some(best) => {
                        let new_number: u64 = number_in(numbers, &remote.last_modifier);
                        let best_number: u64 = number_in(numbers, &best.last_modifier);
                        new_number > best_number || (new_number == best_number
                            && best.last_modified_at.is_before(remote.last_modified_at))
                    },
                    None => true,
                };
                if better {
                    winner = Some(remote);
                }
            }
            i = i + 1;
        }
        match winner {
            Some(best) => best.copy(),
            None => local.copy(),
        }
    }

    /// Notes a change of a resource by this cluster, made now.
    pub fn update_state(&mut self, resource_id: String, spec_hash: String) -> (r: Result<(), Error>)
        ensures
            r is Ok,
            final(self).cluster() == old(self).cluster(),
            exists|state: FederatedResourceState, now: Timestamp|
                final(self).states() == with_entry(old(self).states(), resource_id@, state)
                    && state@ == annotated(
                    #[trigger] first_version(resource_id@, old(self).cluster(), spec_hash@, now),
                ) && #[trigger] state.last_modified_at == now,
    {
        let now = Timestamp::now();
        self.update_state_at(resource_id, spec_hash, now)
    }

    /// Notes a change of a resource by this cluster.
    pub fn update_state_at(
        &mut self,
        resource_id: String,
        spec_hash: String,
        now: Timestamp,
    ) -> (r: Result<(), Error>)
        ensures
            r is Ok,
            final(self).cluster() == old(self).cluster(),
            exists|state: FederatedResourceState|
                final(self).states() == with_entry(old(self).states(), resource_id@, state)
                    && #[trigger] state@ == annotated(
                    first_version(resource_id@, old(self).cluster(), spec_hash@, now),
                ),
    {
        let cluster_id = self.cluster_id.clone();
        let mut state = FederatedResourceState::new_at(
            resource_id.clone(),
            cluster_id,
            spec_hash,
            now,
        );
        state.update_generation_annotation();
        let ghost stored = state;
        self.resource_states.insert(resource_id, state);
        assert(stored@ == annotated(
            first_version(resource_id@, old(self).cluster(), spec_hash@, now),
        ));
        Ok(())
    }
}

/// A change counts one more for the cluster that made it, and nothing for any
/// other.
pub proof fn law_change_counts_for_its_cluster(a: Counts, k: Seq<char>, other: Seq<char>)
    requires
        ascending(a),
        count_of(a, k) < u64::MAX,
    ensures
        count_of(incremented(a, k), k) == count_of(a, k) + 1,
        other != k ==> count_of(incremented(a, k), other) == count_of(a, other),
{
    lemma_read_after_write(a, k, (count_of(a, k) + 1) as u64, k);
    lemma_read_after_write(a, k, (count_of(a, k) + 1) as u64, other);
}

/// The newer version wins; between two that do not know of each other the larger
/// number of the cluster decides.
pub proof fn law_newer_version_wins(numbers: Numbers, local: Version, remote: Version)
    ensures
        newer(local.vector, remote.vector) ==> !remote_wins(numbers, local, remote),
        newer(remote.vector, local.vector) ==> remote_wins(numbers, local, remote),
        concurrent(local.vector, remote.vector) ==> (remote_wins(numbers, local, remote)
            <==> number_of(numbers, remote.modifier) > number_of(numbers, local.modifier)),
{
    law_newer_is_a_strict_order(local.vector, remote.vector, local.vector);
}

/// An annotation tells who changed a version last, and changes nothing else of
/// it but the annotation of its counts.
pub proof fn law_annotation_tells_the_modifier(v: Version, k: Seq<char>)
    requires
        ascending(v.annotations),
    ensures
        entry(annotated(v).annotations, "stellar.io/last-modifier"@) == Some(v.modifier),
        entry(annotated(v).annotations, "stellar.io/generation-vector"@) == Some(
            joined(count_texts(v.vector, v.vector.len() as int), ","@),
        ),
        k != "stellar.io/last-modifier"@ && k != "stellar.io/generation-vector"@ ==> entry(
            annotated(v).annotations,
            k,
        ) == entry(v.annotations, k),
        annotated(v).vector == v.vector,
        annotated(v).resource == v.resource,
        annotated(v).spec_hash == v.spec_hash,
        annotated(v).modifier == v.modifier,
        annotated(v).at == v.at,
{
    let g = "stellar.io/generation-vector"@;
    let m = "stellar.io/last-modifier"@;
    reveal_strlit("stellar.io/generation-vector");
    reveal_strlit("stellar.io/last-modifier");
    let text = joined(count_texts(v.vector, v.vector.len() as int), ","@);
    let s = with_entry(v.annotations, g, text);
    lemma_with_entry_ascending(v.annotations, g, text);
    lemma_read_after_write(v.annotations, g, text, g);
    lemma_read_after_write(v.annotations, g, text, k);
    lemma_read_after_write(s, m, v.modifier, m);
    lemma_read_after_write(s, m, v.modifier, g);
    lemma_read_after_write(s, m, v.modifier, k);
}

/// The first version of a resource counts one change, of the cluster that made
/// it.
pub proof fn law_first_version_counts_one(
    resource: Seq<char>,
    cluster: Seq<char>,
    spec_hash: Seq<char>,
    now: Timestamp,
    other: Seq<char>,
)
    ensures
        ({
            let v = first_version(resource, cluster, spec_hash, now);
            &&& count_of(v.vector, cluster) == 1
            &&& other != cluster ==> count_of(v.vector, other) == 0
            &&& v.resource == resource && v.modifier == cluster && v.spec_hash == spec_hash && v.at
                == now
        }),
{
    let e = Seq::<(Seq<char>, u64)>::empty();
    assert(ascending(e));
    assert(count_of(e, cluster) == 0);
    assert(count_of(e, other) == 0);
    law_change_counts_for_its_cluster(e, cluster, other);
}

/// A partition is told where every peer was last heard of more than thirty
/// seconds ago: one that was heard of since is enough against it.
pub proof fn law_partition_needs_silence(peers: Seq<FederatedResourceState>, now: Timestamp, i: int)
    requires
        0 <= i < peers.len(),
    ensures
        now.instant() - peers[i].last_modified_at.instant() <= 30_000_000_000 ==> !partitioned(
            peers,
            now,
        ),
        partitioned(peers, now) ==> now.instant() - peers[i].last_modified_at.instant()
            > 30_000_000_000,
{
}

/// Peers of which none was heard within the last half minute are cut off.
pub proof fn law_silent_peers_are_cut_off(peers: Seq<FederatedResourceState>, now: Timestamp)
    ensures
        partitioned(peers, now) <==> (forall|i: int|
            0 <= i < peers.len() ==> (#[trigger] peers[i]).last_modified_at.instant()
                + 30_000_000_000 < now.instant()),
{
    if partitioned(peers, now) {
        assert forall|i: int| 0 <= i < peers.len() implies (
        #[trigger] peers[i]).last_modified_at.instant() + 30_000_000_000 < now.instant() by {
            assert(now.instant() - peers[i].last_modified_at.instant() > 30_000_000_000);
        }
    }
}

} // verus!
