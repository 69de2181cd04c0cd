//! A map with text keys, kept in the order of its keys.
//!
//! A map is stated as the list of its entries. No key occurs twice, and the
//! entries stand in the order in which strings compare: by code point.

use vstd::prelude::*;
use crate::text::{chars_of, same};

verus! {

/// `a` stands before `b`, where the two agree on their first `i` characters.
pub open spec fn precedes_from(a: Seq<char>, b: Seq<char>, i: int) -> bool
    decreases a.len() - i,
{
    if i < 0 || i >= b.len() {
        false
    } else if i >= a.len() {
        true
    } else if a[i] != b[i] {
        (a[i] as int) < b[i] as int
    } else {
        precedes_from(a, b, i + 1)
    }
}

/// The order of strings: by the first character in which they differ, a
/// prefix before what it begins.
pub open spec fn precedes(a: Seq<char>, b: Seq<char>) -> bool {
    precedes_from(a, b, 0)
}

/// The keys are in strictly ascending order.
pub open spec fn ascending<V>(s: Seq<(Seq<char>, V)>) -> bool {
    forall|i: int, j: int| 0 <= i < j < s.len() ==> precedes(#[trigger] s[i].0, #[trigger] s[j].0)
}

pub open spec fn slot_from<V>(s: Seq<(Seq<char>, V)>, k: Seq<char>, i: int) -> int
    decreases s.len() - i,
{
    if i < 0 || i >= s.len() || !precedes(s[i].0, k) {
        i
    } else {
        slot_from(s, k, i + 1)
    }
}

/// The place of the key `k`: the first that holds no key before it.
pub open spec fn slot<V>(s: Seq<(Seq<char>, V)>, k: Seq<char>) -> int {
    slot_from(s, k, 0)
}

/// The value of the key `k`.
pub open spec fn entry<V>(s: Seq<(Seq<char>, V)>, k: Seq<char>) -> Option<V> {
    let p = slot(s, k);
    if p < s.len() && s[p].0 == k {
        Some(s[p].1)
    } else {
        None
    }
}

/// The entries with the value of `k` replaced, or entered at its place.
pub open spec fn with_entry<V>(s: Seq<(Seq<char>, V)>, k: Seq<char>, v: V) -> Seq<(Seq<char>, V)> {
    let p = slot(s, k);
    if p < s.len() && s[p].0 == k {
        s.update(p, (k, v))
    } else {
        s.insert(p, (k, v))
    }
}

/// The entries but for that of `k`.
pub open spec fn without_entry<V>(s: Seq<(Seq<char>, V)>, k: Seq<char>) -> Seq<(Seq<char>, V)> {
    let p = slot(s, k);
    if p < s.len() && s[p].0 == k {
        s.remove(p)
    } else {
        s
    }
}

proof fn lemma_precedes_irreflexive(a: Seq<char>, i: int)
    requires
        0 <= i,
    ensures
        !precedes_from(a, a, i),
    decreases a.len() - i,
{
    if i < a.len() {
        lemma_precedes_irreflexive(a, i + 1);
    }
}

proof fn lemma_precedes_transitive(a: Seq<char>, b: Seq<char>, c: Seq<char>, i: int)
    requires
        0 <= i,
        precedes_from(a, b, i),
        precedes_from(b, c, i),
    ensures
        precedes_from(a, c, i),
    decreases a.len() - i,
{
    if i < a.len() && a[i] == b[i] && b[i] == c[i] {
        lemma_precedes_transitive(a, b, c, i + 1);
    }
}

proof fn lemma_precedes_total(a: Seq<char>, b: Seq<char>, i: int)
    requires
        0 <= i <= a.len(),
        i <= b.len(),
        forall|j: int| 0 <= j < i ==> a[j] == b[j],
    ensures
        precedes_from(a, b, i) || precedes_from(b, a, i) || a == b,
    decreases a.len() - i,
{
    if i < a.len() && i < b.len() && a[i] == b[i] {
        lemma_precedes_total(a, b, i + 1);
    } else if i == a.len() && i == b.len() {
        assert(a =~= b);
    }
}

proof fn lemma_slot_from<V>(s: Seq<(Seq<char>, V)>, k: Seq<char>, i: int)
    requires
        0 <= i <= s.len(),
    ensures
        i <= slot_from(s, k, i) <= s.len(),
        forall|j: int| i <= j < slot_from(s, k, i) ==> precedes(#[trigger] s[j].0, k),
        slot_from(s, k, i) < s.len() ==> !precedes(s[slot_from(s, k, i)].0, k),
    decreases s.len() - i,
{
    if i < s.len() && precedes(s[i].0, k) {
        lemma_slot_from(s, k, i + 1);
    }
}

/// What the place of a key is.
pub proof fn lemma_slot<V>(s: Seq<(Seq<char>, V)>, k: Seq<char>)
    ensures
        0 <= slot(s, k) <= s.len(),
        forall|j: int| 0 <= j < slot(s, k) ==> precedes(#[trigger] s[j].0, k),
        slot(s, k) < s.len() ==> !precedes(s[slot(s, k)].0, k),
{
    lemma_slot_from(s, k, 0);
}

/// In ascending entries a key is found wherever it stands, and only there.
pub proof fn lemma_entry_found<V>(s: Seq<(Seq<char>, V)>, i: int)
    requires
        ascending(s),
        0 <= i < s.len(),
    ensures
        slot(s, s[i].0) == i,
        entry(s, s[i].0) == Some(s[i].1),
{
    let k = s[i].0;
    let p = slot(s, k);
    lemma_slot(s, k);
    lemma_precedes_irreflexive(k, 0);
    if p < i {
        assert(precedes(s[p].0, s[i].0));
    } else if i < p {
        assert(precedes(s[i].0, k));
    }
}

/// A key that no entry has is not found.
pub proof fn lemma_entry_missing<V>(s: Seq<(Seq<char>, V)>, k: Seq<char>)
    ensures
        entry(s, k) is None <== (forall|i: int| 0 <= i < s.len() ==> #[trigger] s[i].0 != k),
        entry(s, k) is Some ==> 0 <= slot(s, k) < s.len() && s[slot(s, k)].0 == k && s[slot(s, k)].1
            == entry(s, k)->0,
{
    lemma_slot(s, k);
}

/// Entering a key keeps the entries in ascending order.
pub proof fn lemma_with_entry_ascending<V>(s: Seq<(Seq<char>, V)>, k: Seq<char>, v: V)
    requires
        ascending(s),
    ensures
        ascending(with_entry(s, k, v)),
{
    let p = slot(s, k);
    let t = with_entry(s, k, v);
    lemma_slot(s, k);
    if p < s.len() && s[p].0 == k {
        assert forall|i: int, j: int| 0 <= i < j < t.len() implies precedes(
            #[trigger] t[i].0,
            #[trigger] t[j].0,
        ) by {
            assert(t[i].0 == s[i].0 && t[j].0 == s[j].0);
        }
    } else {
        assert forall|i: int, j: int| 0 <= i < j < t.len() implies precedes(
            #[trigger] t[i].0,
            #[trigger] t[j].0,
        ) by {
            let a = if i < p { i } else { i - 1 };
            let b = if j < p { j } else { j - 1 };
            if i == p {
                assert(t[j].0 == s[b].0);
                if p < b {
                    assert(precedes(s[p].0, s[b].0));
                    lemma_precedes_total(s[p].0, k, 0);
                    lemma_precedes_transitive(k, s[p].0, s[b].0, 0);
                } else {
                    lemma_precedes_total(s[p].0, k, 0);
                }
            } else if j == p {
                assert(t[i].0 == s[a].0);
            } else {
                assert(t[i].0 == s[a].0 && t[j].0 == s[b].0);
            }
        }
    }
}

/// Some entry has the key `k`.
pub open spec fn has_key<V>(s: Seq<(Seq<char>, V)>, k: Seq<char>) -> bool {
    exists|i: int| 0 <= i < s.len() && (#[trigger] s[i]).0 == k
}

/// A write adds its key to the keys, and takes none away.
pub proof fn lemma_with_entry_keys<V>(s: Seq<(Seq<char>, V)>, k: Seq<char>, v: V, t: Seq<char>)
    requires
        ascending(s),
    ensures
        has_key(with_entry(s, k, v), t) <==> (t == k || has_key(s, t)),
{
    lemma_slot(s, k);
    let p = slot(s, k);
    let w = with_entry(s, k, v);
    assert(w[p].0 == k);
    if has_key(s, t) {
        let i = choose|i: int| 0 <= i < s.len() && (#[trigger] s[i]).0 == t;
        if i < p || w.len() == s.len() {
            assert(w[i].0 == t);
        } else {
            assert(w[i + 1].0 == t);
        }
    }
    if has_key(w, t) && t != k {
        let i = choose|i: int| 0 <= i < w.len() && (#[trigger] w[i]).0 == t;
        if i < p || w.len() == s.len() {
            assert(s[i].0 == t);
        } else {
            assert(s[i - 1].0 == t);
        }
    }
}

/// Leaving out a key keeps the entries in ascending order.
pub proof fn lemma_without_entry_ascending<V>(s: Seq<(Seq<char>, V)>, k: Seq<char>)
    requires
        ascending(s),
    ensures
        ascending(without_entry(s, k)),
{
    let p = slot(s, k);
    let t = without_entry(s, k);
    lemma_slot(s, k);
    if p < s.len() && s[p].0 == k {
        assert forall|i: int, j: int| 0 <= i < j < t.len() implies precedes(
            #[trigger] t[i].0,
            #[trigger] t[j].0,
        ) by {
            let a = if i < p { i } else { i + 1 };
            let b = if j < p { j } else { j + 1 };
            assert(t[i].0 == s[a].0 && t[j].0 == s[b].0);
        }
    }
}

/// A read of the key that was entered gives the value entered; any other
/// read gives what it gave before.
pub proof fn lemma_read_after_write<V>(s: Seq<(Seq<char>, V)>, k: Seq<char>, v: V, other: Seq<char>)
    requires
        ascending(s),
    ensures
        entry(with_entry(s, k, v), other) == if other == k { Some(v) } else { entry(s, other) },
{
    let p = slot(s, k);
    let t = with_entry(s, k, v);
    lemma_slot(s, k);
    lemma_with_entry_ascending(s, k, v);
    if other == k {
        assert(t[p] == (k, v));
        lemma_entry_found(t, p);
    } else {
        match entry(s, other) {
            Some(w) => {
                lemma_entry_missing(s, other);
                let q = slot(s, other);
                let q2 = if s[p].0 == k && p < s.len() {
                    q
                } else if q < p {
                    q
                } else {
                    q + 1
                };
                assert(t[q2] == s[q]);
                lemma_entry_found(t, q2);
            },
            None => {
                assert forall|i: int| 0 <= i < t.len() implies #[trigger] t[i].0 != other by {
                    if i != p {
                        let a = if p < s.len() && s[p].0 == k {
                            i
                        } else if i < p {
                            i
                        } else {
                            i - 1
                        };
                        assert(t[i] == s[a]);
                        lemma_entry_found(s, a);
                    }
                }
                lemma_entry_missing(t, other);
            },
        }
    }
}

/// A key that was left out is not found; any other read gives what it gave
/// before.
pub proof fn lemma_read_after_remove<V>(s: Seq<(Seq<char>, V)>, k: Seq<char>, other: Seq<char>)
    requires
        ascending(s),
    ensures
        entry(without_entry(s, k), other) == if other == k { None } else { entry(s, other) },
{
    let p = slot(s, k);
    let t = without_entry(s, k);
    lemma_slot(s, k);
    lemma_without_entry_ascending(s, k);
    if p < s.len() && s[p].0 == k {
        if other != k && entry(s, other) is Some {
            lemma_entry_missing(s, other);
            let q = slot(s, other);
            let q2 = if q < p { q } else { q - 1 };
            assert(t[q2] == s[q]);
            lemma_entry_found(t, q2);
        } else {
            assert forall|i: int| 0 <= i < t.len() implies #[trigger] t[i].0 != other by {
                let a = if i < p { i } else { i + 1 };
                assert(t[i] == s[a]);
                lemma_entry_found(s, a);
            }
            lemma_entry_missing(t, other);
        }
    }
}

/// Two lists of ascending entries that give the same on every read are the
/// same list.
pub proof fn lemma_same_reads<V>(s: Seq<(Seq<char>, V)>, t: Seq<(Seq<char>, V)>)
    requires
        ascending(s),
        ascending(t),
        forall|k: Seq<char>| #[trigger] entry(s, k) == entry(t, k),
    ensures
        s == t,
    decreases s.len(),
{
    if s.len() == 0 {
        if t.len() > 0 {
            lemma_entry_found(t, 0);
            assert(entry(s, t[0].0) == entry(t, t[0].0));
        }
        assert(s =~= t);
    } else {
        let n = s.len() - 1;
        lemma_entry_found(s, n);
        assert(entry(s, s[n].0) == entry(t, s[n].0));
        lemma_entry_missing(t, s[n].0);
        let m = t.len() - 1;
        lemma_entry_found(t, m);
        assert(entry(s, t[m].0) == entry(t, t[m].0));
        lemma_entry_missing(s, t[m].0);
        let q = slot(t, s[n].0);
        let r = slot(s, t[m].0);
        if q < m {
            assert(precedes(t[q].0, t[m].0));
            if r < n {
                assert(precedes(s[r].0, s[n].0));
                lemma_precedes_transitive(s[n].0, t[m].0, s[n].0, 0);
                lemma_precedes_irreflexive(s[n].0, 0);
            } else {
                lemma_precedes_irreflexive(s[n].0, 0);
            }
        }
        assert(s[n].0 == t[m].0);
        assert(s[n] == t[m]);
        let a = s.drop_last();
        let b = t.drop_last();
        assert(s =~= a.push(s[n]));
        assert(t =~= b.push(t[m]));
        assert(ascending(a)) by {
            assert forall|i: int, j: int| 0 <= i < j < a.len() implies precedes(
                #[trigger] a[i].0,
                #[trigger] a[j].0,
            ) by {
                assert(a[i] == s[i] && a[j] == s[j]);
            }
        }
        assert(ascending(b)) by {
            assert forall|i: int, j: int| 0 <= i < j < b.len() implies precedes(
                #[trigger] b[i].0,
                #[trigger] b[j].0,
            ) by {
                assert(b[i] == t[i] && b[j] == t[j]);
            }
        }
        assert forall|k: Seq<char>| #[trigger] entry(a, k) == entry(b, k) by {
            lemma_drop_last_entry(s, k);
            lemma_drop_last_entry(t, k);
            assert(entry(s, k) == entry(t, k));
        }
        lemma_same_reads(a, b);
    }
}

/// Two places of an ascending list hold different keys.
pub proof fn lemma_distinct<V>(s: Seq<(Seq<char>, V)>, i: int, j: int)
    requires
        ascending(s),
        0 <= i < j < s.len(),
    ensures
        s[i].0 != s[j].0,
{
    assert(precedes(s[i].0, s[j].0));
    lemma_precedes_irreflexive(s[i].0, 0);
}

/// A value that was taken out and put back is written over.
pub proof fn lemma_put_back<V>(s: Seq<(Seq<char>, V)>, k: Seq<char>, v: V)
    requires
        ascending(s),
    ensures
        with_entry(without_entry(s, k), k, v) == with_entry(s, k, v),
{
    let t = without_entry(s, k);
    lemma_without_entry_ascending(s, k);
    lemma_with_entry_ascending(t, k, v);
    lemma_with_entry_ascending(s, k, v);
    assert forall|o: Seq<char>| #[trigger]
        entry(with_entry(t, k, v), o) == entry(with_entry(s, k, v), o) by {
        lemma_read_after_write(t, k, v, o);
        lemma_read_after_write(s, k, v, o);
        lemma_read_after_remove(s, k, o);
    }
    lemma_same_reads(with_entry(t, k, v), with_entry(s, k, v));
}

proof fn lemma_drop_last_entry<V>(s: Seq<(Seq<char>, V)>, k: Seq<char>)
    requires
        ascending(s),
        s.len() > 0,
    ensures
        entry(s.drop_last(), k) == if k == s.last().0 { None } else { entry(s, k) },
{
    let n = s.len() - 1;
    let a = s.drop_last();
    assert forall|i: int, j: int| 0 <= i < j < a.len() implies precedes(
        #[trigger] a[i].0,
        #[trigger] a[j].0,
    ) by {
        assert(a[i] == s[i] && a[j] == s[j]);
    }
    lemma_entry_missing(s, k);
    let p = slot(s, k);
    if k != s[n].0 && entry(s, k) is Some {
        assert(a[p] == s[p]);
        lemma_entry_found(a, p);
    } else {
        assert forall|i: int| 0 <= i < a.len() implies #[trigger] a[i].0 != k by {
            assert(a[i] == s[i]);
            lemma_entry_found(s, i);
            lemma_entry_found(s, n);
        }
        lemma_entry_missing(a, k);
    }
}

fn char_is_before(x: char, y: char) -> (r: bool)
    ensures
        r == ((x as int) < y as int),
{
    (x as u32) < (y as u32)
}

/// The entries of a map, with each value as its view.
pub open spec fn viewed<V: View>(s: Seq<(Seq<char>, V)>) -> Seq<(Seq<char>, V::V)> {
    Seq::new(s.len(), |i: int| (s[i].0, s[i].1@))
}

proof fn lemma_viewed_slot<V: View>(s: Seq<(Seq<char>, V)>, k: Seq<char>, i: int)
    requires
        0 <= i <= s.len(),
    ensures
        slot_from(viewed(s), k, i) == slot_from(s, k, i),
        i <= slot_from(s, k, i) <= s.len(),
    decreases s.len() - i,
{
    if i < s.len() {
        assert(viewed(s)[i].0 == s[i].0);
        lemma_viewed_slot(s, k, i + 1);
    }
}

/// Entering a value enters its view, and taking it out takes its view out.
pub proof fn lemma_viewed<V: View>(s: Seq<(Seq<char>, V)>, k: Seq<char>, v: V)
    ensures
        viewed(with_entry(s, k, v)) == with_entry(viewed(s), k, v@),
        viewed(without_entry(s, k)) == without_entry(viewed(s), k),
        entry(viewed(s), k) == match entry(s, k) {
            Some(t) => Some(t@),
            None => None,
        },
{
    lemma_viewed_slot(s, k, 0);
    assert(viewed(with_entry(s, k, v)) =~= with_entry(viewed(s), k, v@));
    assert(viewed(without_entry(s, k)) =~= without_entry(viewed(s), k));
}

/// Whether `a` stands before `b`.
pub fn is_before(a: &str, b: &str) -> (r: bool)
    ensures
        r == precedes(a@, b@),
{
    let v = chars_of(a);
    let w = chars_of(b);
    let mut i: usize = 0;
    while i < v.len() && i < w.len() && v[i] == w[i]
        invariant
            i <= v.len(),
            i <= w.len(),
            v@ == a@,
            w@ == b@,
            precedes(a@, b@) == precedes_from(a@, b@, i as int),
        decreases v@.len() - i,
    {
        i = i + 1;
    }
    if i >= w.len() {
        false
    } else if i >= v.len() {
        true
    } else {
        char_is_before(v[i], w[i])
    }
}

/// The entries that a vector of pairs holds.
pub open spec fn pairs<V>(v: Seq<(String, V)>) -> Seq<(Seq<char>, V)> {
    Seq::new(v.len(), |i: int| (v[i].0@, v[i].1))
}

/// A map from texts to values, in the order of its keys.
#[derive(Debug)]
pub struct StrMap<V> {
    pub(crate) entries: Vec<(String, V)>,
}

impl<V> StrMap<V> {
    /// The entries, in the order of their keys.
    pub open(crate) spec fn list(&self) -> Seq<(Seq<char>, V)> {
        pairs(self.entries@)
    }

    #[verifier::type_invariant]
    pub open spec fn in_order(&self) -> bool {
        ascending(self.list())
    }

    /// The value of the key `k`.
    pub open spec fn at(&self, k: Seq<char>) -> Option<V> {
        entry(self.list(), k)
    }

    pub fn new() -> (r: Self)
        ensures
            r.list() == Seq::<(Seq<char>, V)>::empty(),
    {
        let entries: Vec<(String, V)> = Vec::new();
        assert(pairs(entries@) =~= Seq::<(Seq<char>, V)>::empty());
        StrMap { entries }
    }

    pub fn len(&self) -> (r: usize)
        ensures
            r == self.list().len(),
    {
        self.entries.len()
    }

    pub fn is_empty(&self) -> (r: bool)
        ensures
            r == (self.list().len() == 0),
    {
        self.entries.len() == 0
    }

    /// The key of the entry at `i`.
    pub fn key_at(&self, i: usize) -> (r: &String)
        requires
            i < self.list().len(),
        ensures
            r@ == self.list()[i as int].0,
    {
        &self.entries[i].0
    }

    /// The value of the entry at `i`.
    pub fn value_at(&self, i: usize) -> (r: &V)
        requires
            i < self.list().len(),
        ensures
            *r == self.list()[i as int].1,
    {
        &self.entries[i].1
    }

    fn place(&self, k: &str) -> (r: usize)
        ensures
            r == slot(self.list(), k@),
            r <= self.entries@.len(),
    {
        let mut i: usize = 0;
        while i < self.entries.len() && is_before(&self.entries[i].0, k)
            invariant
                i <= self.entries.len(),
                slot(self.list(), k@) == slot_from(self.list(), k@, i as int),
            decreases self.entries@.len() - i,
        {
            i = i + 1;
        }
        i
    }

    /// The value of the key `k`.
    pub fn get(&self, k: &str) -> (r: Option<&V>)
        ensures
            (match r {
                Some(v) => self.at(k@) == Some(*v),
                None => self.at(k@) is None,
            }),
    {
        let p = self.place(k);
        if p < self.entries.len() && same(&self.entries[p].0, k) {
            Some(&self.entries[p].1)
        } else {
            None
        }
    }

    /// Whether the map has the key `k`.
    pub fn has(&self, k: &str) -> (r: bool)
        ensures
            r == (self.at(k@) is Some),
    {
        self.get(k).is_some()
    }

    /// Enters the value of a key, in place of the one that it had.
    pub fn insert(&mut self, k: String, v: V)
        ensures
            final(self).list() == with_entry(old(self).list(), k@, v),
    {
        proof {
            use_type_invariant(&*self);
            lemma_slot(self.list(), k@);
            lemma_with_entry_ascending(self.list(), k@, v);
        }
        let p = self.place(&k);
        let found = p < self.entries.len() && same(&self.entries[p].0, &k);
        let ghost before = self.entries@;
        let mut entries: Vec<(String, V)> = Vec::new();
        assert(pairs(entries@) =~= Seq::<(Seq<char>, V)>::empty());
        std::mem::swap(&mut entries, &mut self.entries);
        if found {
            entries.set(p, (k, v));
            assert(pairs(entries@) =~= pairs(before).update(p as int, (k@, v)));
        } else {
            entries.insert(p, (k, v));
            assert(pairs(entries@) =~= pairs(before).insert(p as int, (k@, v)));
        }
        self.entries = entries;
    }

    /// Takes the entry of a key out of the map.
    pub fn remove(&mut self, k: &str) -> (r: Option<V>)
        ensures
            final(self).list() == without_entry(old(self).list(), k@),
            r == old(self).at(k@),
    {
        proof {
            use_type_invariant(&*self);
            lemma_slot(self.list(), k@);
            lemma_without_entry_ascending(self.list(), k@);
        }
        let p = self.place(k);
        if p < self.entries.len() && same(&self.entries[p].0, k) {
            let ghost before = self.entries@;
            let mut entries: Vec<(String, V)> = Vec::new();
            assert(pairs(entries@) =~= Seq::<(Seq<char>, V)>::empty());
            std::mem::swap(&mut entries, &mut self.entries);
            let (_, v) = entries.remove(p);
            assert(pairs(entries@) =~= pairs(before).remove(p as int));
            self.entries = entries;
            Some(v)
        } else {
            None
        }
    }
}

/// Keys are in the order of their first difference; what another begins with
/// comes before it, and none comes before itself.
pub proof fn law_keys_are_in_order(p: Seq<char>, x: char, y: char, a: Seq<char>, b: Seq<char>)
    requires
        (x as int) < y as int,
    ensures
        precedes(p + seq![x] + a, p + seq![y] + b),
        !precedes(p + seq![y] + b, p + seq![x] + a),
        precedes(p, p + seq![x] + a),
        !precedes(p + seq![x] + a, p),
        !precedes(p, p),
{
    lemma_first_difference(p + seq![x] + a, p + seq![y] + b, 0, p.len() as int);
    lemma_first_difference(p + seq![y] + b, p + seq![x] + a, 0, p.len() as int);
    lemma_first_difference(p, p + seq![x] + a, 0, p.len() as int);
    lemma_first_difference(p + seq![x] + a, p, 0, p.len() as int);
    lemma_first_difference(p, p, 0, p.len() as int);
}

proof fn lemma_first_difference(a: Seq<char>, b: Seq<char>, i: int, k: int)
    requires
        0 <= i <= k <= a.len(),
        k <= b.len(),
        forall|j: int| 0 <= j < k ==> a[j] == b[j],
    ensures
        precedes_from(a, b, i) == precedes_from(a, b, k),
    decreases k - i,
{
    if i < k {
        lemma_first_difference(a, b, i + 1, k);
    }
}

} // verus!
