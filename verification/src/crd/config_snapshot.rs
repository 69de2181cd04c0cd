//! Snapshots of the dataplane's configuration, addressed by their content.
//!
//! A snapshot holds all of the configuration, so that it can be fetched and
//! checked as a whole before it is applied.

use vstd::prelude::*;
use vstd::string::*;
use crate::clock::Timestamp;
use crate::digest::{hash_text, text_digest};
use crate::error::Error;
use crate::json::{Doc, Json, docs, law_member_read_after_write, members};
use crate::json_text::compact;
use crate::schema_registry::compat::lemma_members_entry;
use crate::str_map::{
    StrMap, ascending, entry, lemma_distinct, lemma_entry_found, lemma_entry_missing,
    lemma_read_after_remove, lemma_read_after_write, lemma_same_reads, lemma_slot,
    lemma_with_entry_ascending, lemma_without_entry_ascending, slot, with_entry, without_entry,
};
use crate::text::{
    begins_with, cat3, decimal, decimal_text, ends_in, same_but_case, same_ignoring_case,
    signed_decimal, signed_decimal_text, views,
};

verus! {

pub struct StellarConfigSnapshotSpec {
    /// Labels of the nodes that the snapshot is for; all nodes where it is
    /// empty.
    pub target_node_selector: Option<StrMap<String>>,
    /// All of the dataplane's configuration.
    pub dataplane_config: Json,
    /// Digest of the configuration.
    pub merkle_root: String,
    /// The snapshot that this one is a difference to.
    pub delta_from: Option<DeltaReference>,
    /// Signature over the digest, in Base64.
    pub signature: String,
    pub generation_time: Timestamp,
    /// Size of the configuration in bytes.
    pub config_size: i64,
    pub metadata_fields: Option<StrMap<String>>,
}

/// A snapshot that another one is a difference to.
#[derive(Debug)]
pub struct DeltaReference {
    pub name: String,
    /// The digest that the snapshot has to have.
    pub merkle_root: String,
    pub snapshot_time: Timestamp,
}

#[derive(Debug)]
pub struct StellarConfigSnapshotStatus {
    /// Pending, Generated, Signed, Applied or Failed.
    pub phase: String,
    pub applied_by: Vec<AgentApplyRecord>,
    pub verification_status: Option<VerificationStatus>,
    pub observed_generation: Option<i64>,
    pub conditions: Vec<Condition>,
}

/// An agent has applied the snapshot.
#[derive(Debug)]
pub struct AgentApplyRecord {
    pub agent_name: String,
    pub node_name: Option<String>,
    pub applied_time: Timestamp,
    /// Success or Failed.
    pub status: String,
}

#[derive(Debug)]
pub struct VerificationStatus {
    pub signature_valid: bool,
    pub merkle_root_verified: bool,
    pub last_verified_time: Timestamp,
}

#[derive(Debug)]
pub struct Condition {
    pub type_: String,
    /// True, False or Unknown.
    pub status: String,
    pub reason: Option<String>,
    pub message: Option<String>,
    pub last_transition_time: Timestamp,
    pub observed_generation: Option<i64>,
}

/// The digest of a configuration: that of its JSON with sorted keys and no
/// white space, in hexadecimal.
pub fn compute_merkle_root(config: &Json) -> (r: Result<String, Error>)
    ensures
        r is Ok,
        r->Ok_0@ == text_digest(compact(config@)),
        r->Ok_0@.len() == 64,
{
    Ok(hash_text(&config.to_text()))
}

/// Whether two digests are the same, whatever the case of their digits.
pub fn verify_merkle_root(computed: &str, expected: &str) -> (r: bool)
    ensures
        r == same_but_case(computed@, expected@),
{
    same_ignoring_case(computed, expected)
}

/// Those of the first `n` members that are new or have changed.
pub open spec fn changed(
    prior: Seq<(Seq<char>, Doc)>,
    current: Seq<(Seq<char>, Doc)>,
    n: int,
) -> Seq<(Seq<char>, Doc)>
    decreases n,
{
    if n <= 0 {
        Seq::empty()
    } else {
        let before = changed(prior, current, n - 1);
        let (k, v) = current[n - 1];
        if entry(prior, k) != Some(v) {
            with_entry(before, k, v)
        } else {
            before
        }
    }
}

/// The names of those of the first `n` members that are gone.
pub open spec fn deleted(
    prior: Seq<(Seq<char>, Doc)>,
    current: Seq<(Seq<char>, Doc)>,
    n: int,
) -> Seq<Seq<char>>
    decreases n,
{
    if n <= 0 {
        Seq::empty()
    } else if entry(current, prior[n - 1].0) is None {
        deleted(prior, current, n - 1).push(prior[n - 1].0)
    } else {
        deleted(prior, current, n - 1)
    }
}

/// The member of a difference that names the fields that are gone.
pub const DELETIONS: &'static str = "$deletions";

/// The member of a difference that holds the fields that are new or have
/// changed, where one of them has the name of this member or of that list.
pub const CHANGES: &'static str = "$changes";

/// A difference between two objects: what is new or has changed, and beside it
/// the names of the fields that are gone, where there are any. Fields that could
/// be taken for these names stand in a member of their own, with all others.
pub open spec fn difference(gone: Seq<Seq<char>>, fresh: Seq<(Seq<char>, Doc)>) -> Doc {
    if gone.len() == 0 && entry(fresh, DELETIONS@) is None {
        Doc::Object(fresh)
    } else if entry(fresh, DELETIONS@) is None && entry(fresh, CHANGES@) is None {
        Doc::Object(fresh).with(DELETIONS@, Doc::texts(gone))
    } else {
        Doc::object().with(DELETIONS@, Doc::texts(gone)).with(CHANGES@, Doc::Object(fresh))
    }
}

/// What is new, has changed or is gone from one configuration to another.
pub open spec fn delta_between(prior: Doc, current: Doc) -> Doc {
    match (prior, current) {
        (Doc::Object(p), Doc::Object(c)) => difference(
            deleted(p, c, p.len() as int),
            changed(p, c, c.len() as int),
        ),
        _ => current,
    }
}

/// The members without those that the first `n` of some texts name.
pub open spec fn stripped(s: Seq<(Seq<char>, Doc)>, names: Seq<Doc>, n: int) -> Seq<
    (Seq<char>, Doc),
>
    decreases n,
{
    if n <= 0 {
        s
    } else {
        match names[n - 1] {
            Doc::Text(k) => without_entry(stripped(s, names, n - 1), k),
            _ => stripped(s, names, n - 1),
        }
    }
}

/// The items of a list.
pub open spec fn items_of(d: Doc) -> Seq<Doc> {
    match d {
        Doc::List(l) => l,
        _ => Seq::empty(),
    }
}

/// The members of an object.
pub open spec fn members_of(d: Doc) -> Seq<(Seq<char>, Doc)> {
    match d {
        Doc::Object(m) => m,
        _ => Seq::empty(),
    }
}

/// The members with the first `n` of others entered.
pub open spec fn merged(
    prior: Seq<(Seq<char>, Doc)>,
    delta: Seq<(Seq<char>, Doc)>,
    n: int,
) -> Seq<(Seq<char>, Doc)>
    decreases n,
{
    if n <= 0 {
        prior
    } else {
        with_entry(merged(prior, delta, n - 1), delta[n - 1].0, delta[n - 1].1)
    }
}

/// A configuration with a difference applied to it.
pub open spec fn with_delta(prior: Doc, delta: Doc) -> Doc {
    match (prior, delta) {
        (Doc::Object(p), Doc::Object(d)) => match entry(d, DELETIONS@) {
            None => Doc::Object(merged(p, d, d.len() as int)),
            Some(gone) => {
                let names = items_of(gone);
                let fresh = match entry(d, CHANGES@) {
                    Some(c) => members_of(c),
                    None => without_entry(d, DELETIONS@),
                };
                Doc::Object(
                    merged(stripped(p, names, names.len() as int), fresh, fresh.len() as int),
                )
            },
        },
        _ => delta,
    }
}

fn changes(p: &StrMap<Json>, c: &StrMap<Json>) -> (r: Json)
    ensures
        r@ == Doc::Object(
            changed(members(p.entries@), members(c.entries@), c.entries@.len() as int),
        ),
{
    let ghost ps = members(p.entries@);
    let ghost cs = members(c.entries@);
    let mut delta = Json::object();
    let n = c.len();
    let mut i: usize = 0;
    while i < n
        invariant
            i <= n,
            n == c.entries@.len(),
            ps == members(p.entries@),
            cs == members(c.entries@),
            delta@ == Doc::Object(changed(ps, cs, i as int)),
        decreases n - i,
    {
        let k = c.key_at(i);
        let v = c.value_at(i);
        proof {
            lemma_members_entry(p.entries@, k@);
        }
        let same = match p.get(k) {
            Some(old_value) => old_value.equals(v),
            None => false,
        };
        if !same {
            proof {
                reveal(Doc::with);
            }
            delta = delta.with(k, v.clone());
        }
        i = i + 1;
    }
    delta
}

fn deletions(p: &StrMap<Json>, c: &StrMap<Json>) -> (r: Vec<String>)
    ensures
        views(r@) == deleted(members(p.entries@), members(c.entries@), p.entries@.len() as int),
{
    let ghost ps = members(p.entries@);
    let ghost cs = members(c.entries@);
    let mut r: Vec<String> = Vec::new();
    assert(views(r@) =~= Seq::<Seq<char>>::empty());
    let n = p.len();
    let mut i: usize = 0;
    while i < n
        invariant
            i <= n,
            n == p.entries@.len(),
            ps == members(p.entries@),
            cs == members(c.entries@),
            views(r@) == deleted(ps, cs, i as int),
        decreases n - i,
    {
        let k = p.key_at(i);
        proof {
            lemma_members_entry(c.entries@, k@);
        }
        if !c.has(k) {
            let ghost before = views(r@);
            r.push(k.clone());
            assert(views(r@) =~= before.push(k@));
        }
        i = i + 1;
    }
    r
}

/// What is new, has changed or is gone from one configuration to another.
pub fn compute_delta(prior: &Json, current: &Json) -> (r: Json)
    ensures
        r@ == delta_between(prior@, current@),
{
    match (prior, current) {
        (Json::Object(p), Json::Object(c)) => {
            let gone = deletions(p, c);
            let fresh = changes(p, c);
            assert(views(gone@).len() == gone@.len());
            if gone.len() == 0 && fresh.member(DELETIONS).is_none() {
                fresh
            } else if fresh.member(DELETIONS).is_none() && fresh.member(CHANGES).is_none() {
                fresh.with(DELETIONS, Json::texts(&gone))
            } else {
                Json::object().with(DELETIONS, Json::texts(&gone)).with(CHANGES, fresh)
            }
        },
        _ => current.clone(),
    }
}

fn enter(base: Json, d: &StrMap<Json>) -> (r: Json)
    requires
        base@ is Object,
    ensures
        r@ == Doc::Object(
            merged(base@->Object_0, members(d.entries@), d.entries@.len() as int),
        ),
{
    let ghost ps = base@->Object_0;
    let ghost ds = members(d.entries@);
    let mut result = base;
    let n = d.len();
    let mut i: usize = 0;
    while i < n
        invariant
            i <= n,
            n == d.entries@.len(),
            ds == members(d.entries@),
            result@ == Doc::Object(merged(ps, ds, i as int)),
        decreases n - i,
    {
        proof {
            reveal(Doc::with);
        }
        result = result.with(d.key_at(i), d.value_at(i).clone());
        i = i + 1;
    }
    result
}

fn strip(base: Json, names: &Json) -> (r: Json)
    requires
        base@ is Object,
    ensures
        r@ == Doc::Object(
            stripped(base@->Object_0, items_of(names@), items_of(names@).len() as int),
        ),
{
    match names {
        Json::List(v) => {
            let ghost ps = base@->Object_0;
            let ghost ks = docs(v@);
            let mut result = base;
            let mut i: usize = 0;
            while i < v.len()
                invariant
                    i <= v.len(),
                    ks == docs(v@),
                    result@ == Doc::Object(stripped(ps, ks, i as int)),
                decreases v@.len() - i,
            {
                assert(ks[i as int] == v@[i as int]@);
                match &v[i] {
                    Json::Text(k) => {
                        result = result.without(k);
                    },
                    _ => {},
                }
                i = i + 1;
            }
            result
        },
        _ => base,
    }
}

/// Enters a difference in a configuration.
pub fn apply_delta(prior: &Json, delta: &Json) -> (r: Result<Json, Error>)
    ensures
        r is Ok,
        r->Ok_0@ == with_delta(prior@, delta@),
{
    match (prior, delta) {
        (Json::Object(_), Json::Object(d)) => {
            match delta.member(DELETIONS) {
                None => Ok(enter(prior.clone(), d)),
                Some(gone) => {
                    let base = strip(prior.clone(), gone);
                    match delta.member(CHANGES) {
                        Some(Json::Object(fresh)) => Ok(enter(base, fresh)),
                        Some(_) => Ok(base),
                        None => match delta.clone().without(DELETIONS) {
                            Json::Object(fresh) => Ok(enter(base, &fresh)),
                            _ => Ok(base),
                        },
                    }
                },
            }
        },
        _ => Ok(delta.clone()),
    }
}

proof fn lemma_changed(
    prior: Seq<(Seq<char>, Doc)>,
    current: Seq<(Seq<char>, Doc)>,
    n: int,
    k: Seq<char>,
)
    requires
        ascending(current),
        0 <= n <= current.len(),
    ensures
        ascending(changed(prior, current, n)),
        entry(changed(prior, current, n), k) == match entry(current.subrange(0, n), k) {
            Some(v) => if entry(prior, k) != Some(v) {
                Some(v)
            } else {
                None
            },
            None => None,
        },
    decreases n,
{
    let s = current.subrange(0, n);
    assert(ascending(s));
    if n > 0 {
        lemma_changed(prior, current, n - 1, k);
        let before = changed(prior, current, n - 1);
        let t = current.subrange(0, n - 1);
        assert(ascending(t));
        let (key, v) = current[n - 1];
        assert(s[n - 1] == current[n - 1]);
        lemma_entry_found(s, n - 1);
        if entry(prior, key) != Some(v) {
            lemma_with_entry_ascending(before, key, v);
            lemma_read_after_write(before, key, v, k);
        }
        if k == key {
            assert(entry(t, k) is None) by {
                assert forall|i: int| 0 <= i < t.len() implies #[trigger] t[i].0 != k by {
                    assert(crate::str_map::precedes(s[i].0, s[n - 1].0));
                    crate::str_map::lemma_distinct(s, i, n - 1);
                }
                lemma_entry_missing(t, k);
            }
        } else {
            lemma_entry_missing(s, k);
            lemma_entry_missing(t, k);
            match entry(s, k) {
                Some(w) => {
                    let q = slot(s, k);
                    assert(q < n - 1);
                    assert(t[q] == s[q]);
                    lemma_entry_found(t, q);
                },
                None => {
                    assert forall|i: int| 0 <= i < t.len() implies #[trigger] t[i].0 != k by {
                        assert(s[i] == t[i]);
                        lemma_entry_found(s, i);
                    }
                    lemma_entry_missing(t, k);
                },
            }
        }
    } else {
        assert(s =~= Seq::<(Seq<char>, Doc)>::empty());
    }
}

proof fn lemma_merged(
    prior: Seq<(Seq<char>, Doc)>,
    delta: Seq<(Seq<char>, Doc)>,
    n: int,
    k: Seq<char>,
)
    requires
        ascending(prior),
        ascending(delta),
        0 <= n <= delta.len(),
    ensures
        ascending(merged(prior, delta, n)),
        entry(merged(prior, delta, n), k) == match entry(delta.subrange(0, n), k) {
            Some(v) => Some(v),
            None => entry(prior, k),
        },
    decreases n,
{
    let s = delta.subrange(0, n);
    assert(ascending(s));
    if n > 0 {
        lemma_merged(prior, delta, n - 1, k);
        let before = merged(prior, delta, n - 1);
        let t = delta.subrange(0, n - 1);
        assert(ascending(t));
        let (key, v) = delta[n - 1];
        assert(s[n - 1] == delta[n - 1]);
        lemma_entry_found(s, n - 1);
        lemma_with_entry_ascending(before, key, v);
        lemma_read_after_write(before, key, v, k);
        if k != key {
            lemma_entry_missing(s, k);
            lemma_entry_missing(t, k);
            match entry(s, k) {
                Some(w) => {
                    let q = slot(s, k);
                    assert(q < n - 1);
                    assert(t[q] == s[q]);
                    lemma_entry_found(t, q);
                },
                None => {
                    assert forall|i: int| 0 <= i < t.len() implies #[trigger] t[i].0 != k by {
                        assert(s[i] == t[i]);
                        lemma_entry_found(s, i);
                    }
                    lemma_entry_missing(t, k);
                },
            }
        }
    } else {
        assert(s =~= Seq::<(Seq<char>, Doc)>::empty());
    }
}

/// The names of the members that are gone are just those that the one object
/// has and the other lacks.
proof fn lemma_deleted(
    prior: Seq<(Seq<char>, Doc)>,
    current: Seq<(Seq<char>, Doc)>,
    n: int,
    k: Seq<char>,
)
    requires
        0 <= n <= prior.len(),
    ensures
        deleted(prior, current, n).contains(k) <==> entry(current, k) is None && exists|i: int|
            0 <= i < n && (#[trigger] prior[i]).0 == k,
    decreases n,
{
    if n > 0 {
        lemma_deleted(prior, current, n - 1, k);
        let before = deleted(prior, current, n - 1);
        let last = prior[n - 1].0;
        if entry(current, last) is None {
            let after = before.push(last);
            if before.contains(k) {
                let i = choose|i: int| 0 <= i < before.len() && before[i] == k;
                assert(after[i] == k);
            }
            if k == last {
                assert(after[before.len() as int] == k);
            }
            if after.contains(k) && !before.contains(k) {
                let i = choose|i: int| 0 <= i < after.len() && after[i] == k;
                if i < before.len() {
                    assert(before[i] == k);
                }
            }
        }
    }
}

proof fn lemma_stripped(s: Seq<(Seq<char>, Doc)>, names: Seq<Seq<char>>, n: int, k: Seq<char>)
    requires
        ascending(s),
        0 <= n <= names.len(),
    ensures
        ascending(stripped(s, items_of(Doc::texts(names)), n)),
        entry(stripped(s, items_of(Doc::texts(names)), n), k) == if names.subrange(0, n).contains(
            k,
        ) {
            None
        } else {
            entry(s, k)
        },
    decreases n,
{
    let items = items_of(Doc::texts(names));
    let now = names.subrange(0, n);
    if n > 0 {
        lemma_stripped(s, names, n - 1, k);
        let before = stripped(s, items, n - 1);
        let then = names.subrange(0, n - 1);
        assert(items[n - 1] == Doc::Text(names[n - 1]));
        lemma_without_entry_ascending(before, names[n - 1]);
        lemma_read_after_remove(before, names[n - 1], k);
        assert(now =~= then.push(names[n - 1]));
        if then.contains(k) {
            let i = choose|i: int| 0 <= i < then.len() && then[i] == k;
            assert(now[i] == k);
        }
        if names[n - 1] == k {
            assert(now[n - 1] == k);
        }
        if now.contains(k) && names[n - 1] != k {
            let i = choose|i: int| 0 <= i < now.len() && now[i] == k;
            assert(then[i] == k);
        }
    }
}

proof fn lemma_delta_of_objects(p: Seq<(Seq<char>, Doc)>, c: Seq<(Seq<char>, Doc)>)
    requires
        ascending(p),
        ascending(c),
    ensures
        ({
            let gone = deleted(p, c, p.len() as int);
            let fresh = changed(p, c, c.len() as int);
            let base = stripped(p, items_of(Doc::texts(gone)), gone.len() as int);
            merged(base, fresh, fresh.len() as int) == c
        }),
{
    let gone = deleted(p, c, p.len() as int);
    let d = changed(p, c, c.len() as int);
    let base = stripped(p, items_of(Doc::texts(gone)), gone.len() as int);
    let m = merged(base, d, d.len() as int);
    lemma_changed(p, c, c.len() as int, Seq::empty());
    lemma_stripped(p, gone, gone.len() as int, Seq::empty());
    lemma_merged(base, d, d.len() as int, Seq::empty());
    assert(c.subrange(0, c.len() as int) =~= c);
    assert(d.subrange(0, d.len() as int) =~= d);
    assert(gone.subrange(0, gone.len() as int) =~= gone);
    assert forall|k: Seq<char>| #[trigger] entry(m, k) == entry(c, k) by {
        lemma_changed(p, c, c.len() as int, k);
        lemma_stripped(p, gone, gone.len() as int, k);
        lemma_merged(base, d, d.len() as int, k);
        lemma_deleted(p, c, p.len() as int, k);
        lemma_entry_missing(p, k);
        lemma_slot(p, k);
        if entry(p, k) is Some {
            assert(p[slot(p, k)].0 == k);
        }
    }
    lemma_same_reads(m, c);
}

/// The difference between two configurations, applied to the first, gives the
/// second.
pub proof fn law_delta_is_inverse(prior: Doc, current: Doc)
    requires
        prior.in_order(),
        current.in_order(),
    ensures
        with_delta(prior, delta_between(prior, current)) == current,
{
    match (prior, current) {
        (Doc::Object(p), Doc::Object(c)) => {
            let gone = deleted(p, c, p.len() as int);
            let fresh = changed(p, c, c.len() as int);
            lemma_delta_of_objects(p, c);
            if gone.len() == 0 && entry(fresh, DELETIONS@) is None {
                assert(stripped(p, items_of(Doc::texts(gone)), 0) == p);
            } else if entry(fresh, DELETIONS@) is None && entry(fresh, CHANGES@) is None {
                reveal(Doc::with);
                reveal_strlit("$deletions");
                reveal_strlit("$changes");
                let t = Doc::texts(gone);
                let d = with_entry(fresh, DELETIONS@, t);
                lemma_changed(p, c, c.len() as int, DELETIONS@);
                lemma_with_entry_ascending(fresh, DELETIONS@, t);
                lemma_read_after_write(fresh, DELETIONS@, t, DELETIONS@);
                assert(DELETIONS@.len() != CHANGES@.len());
                lemma_read_after_write(fresh, DELETIONS@, t, CHANGES@);
                lemma_without_entry_ascending(d, DELETIONS@);
                let back = without_entry(d, DELETIONS@);
                assert forall|k: Seq<char>| #[trigger] entry(back, k) == entry(fresh, k) by {
                    lemma_read_after_remove(d, DELETIONS@, k);
                    lemma_read_after_write(fresh, DELETIONS@, t, k);
                }
                lemma_same_reads(back, fresh);
                assert(items_of(t).len() == gone.len());
            } else {
                reveal_strlit("$deletions");
                reveal_strlit("$changes");
                let first = Doc::object().with(DELETIONS@, Doc::texts(gone));
                law_member_read_after_write(
                    Doc::object(),
                    DELETIONS@,
                    Doc::texts(gone),
                    DELETIONS@,
                );
                law_member_read_after_write(first, CHANGES@, Doc::Object(fresh), DELETIONS@);
                law_member_read_after_write(first, CHANGES@, Doc::Object(fresh), CHANGES@);
                let delta = delta_between(prior, current);
                assert(delta == first.with(CHANGES@, Doc::Object(fresh)));
                assert(items_of(Doc::texts(gone)).len() == gone.len());
            }
        },
        _ => {},
    }
}

/// `n` divided by `d`, rounded to the nearest; half way to the even one.
pub open spec fn nearest(n: int, d: int) -> int {
    let q = n / d;
    let r = n % d;
    if 2 * r > d || (2 * r == d && q % 2 == 1) {
        q + 1
    } else {
        q
    }
}

fn nearest_to(n: u128, d: u128) -> (r: u128)
    requires
        0 < d <= 0x1_0000_0000_0000_0000,
        n < 0x1_0000_0000_0000_0000_0000_0000,
    ensures
        r == nearest(n as int, d as int),
{
    let q: u128 = n / d;
    let rest: u128 = n % d;
    assert(q <= n) by (nonlinear_arith)
        requires
            q == n / d,
            d > 0,
    ;
    if 2 * rest > d || (2 * rest == d && q % 2 == 1) {
        q + 1
    } else {
        q
    }
}

/// The step between numbers of 53 binary digits near `n`.
pub open spec fn grain(n: int) -> int {
    if n < 0x20_0000_0000_0000 {
        1
    } else if n < 0x40_0000_0000_0000 {
        2
    } else if n < 0x80_0000_0000_0000 {
        4
    } else if n < 0x100_0000_0000_0000 {
        8
    } else if n < 0x200_0000_0000_0000 {
        16
    } else if n < 0x400_0000_0000_0000 {
        32
    } else if n < 0x800_0000_0000_0000 {
        64
    } else if n < 0x1000_0000_0000_0000 {
        128
    } else if n < 0x2000_0000_0000_0000 {
        256
    } else if n < 0x4000_0000_0000_0000 {
        512
    } else {
        1024
    }
}

fn grain_of(n: u64) -> (r: u64)
    ensures
        r == grain(n as int),
        1 <= r <= 1024,
{
    if n < 0x20_0000_0000_0000 {
        1
    } else if n < 0x40_0000_0000_0000 {
        2
    } else if n < 0x80_0000_0000_0000 {
        4
    } else if n < 0x100_0000_0000_0000 {
        8
    } else if n < 0x200_0000_0000_0000 {
        16
    } else if n < 0x400_0000_0000_0000 {
        32
    } else if n < 0x800_0000_0000_0000 {
        64
    } else if n < 0x1000_0000_0000_0000 {
        128
    } else if n < 0x2000_0000_0000_0000 {
        256
    } else if n < 0x4000_0000_0000_0000 {
        512
    } else {
        1024
    }
}

/// A size to 53 binary digits.
pub open spec fn rounded_size(n: int) -> int {
    nearest(n, grain(n)) * grain(n)
}

/// Two decimal digits.
pub open spec fn two_digits(n: int) -> Seq<char> {
    if n < 10 {
        "0"@ + decimal(n)
    } else {
        decimal(n)
    }
}

/// A size in a unit, to the nearest hundredth.
pub open spec fn in_unit(size: int, unit: int) -> Seq<char> {
    let h = nearest(size * 100, unit);
    decimal(h / 100) + "."@ + two_digits(h % 100)
}

fn write_in_unit(size: u128, unit: u128) -> (r: String)
    requires
        1024 <= unit <= 0x4000_0000,
        size <= 0x8000_0000_0000_0000,
        size < 0x10_0000 * unit || unit == 0x4000_0000,
    ensures
        r@ == in_unit(size as int, unit as int),
{
    let h: u128 = nearest_to(size * 100, unit);
    proof {
        let n = size * 100;
        let d = unit as int;
        assert(n / d <= n) by (nonlinear_arith)
            requires
                n >= 0,
                d >= 1,
        ;
        assert(n / d < 0x1000_0000_0000_0000) by (nonlinear_arith)
            requires
                0 <= n <= 0x8000_0000_0000_0000 * 100,
                d >= 1024,
        ;
    }
    let whole_part = decimal_text((h / 100) as u64);
    let rest: u64 = (h % 100) as u64;
    let digits = if rest < 10 {
        crate::text::cat2("0", &decimal_text(rest))
    } else {
        decimal_text(rest)
    };
    cat3(&whole_part, ".", &digits)
}

/// A size in bytes for people to read: in KB, MB or GB with two decimals, from
/// 1024 bytes on. Sizes beyond 53 binary digits are rounded to as many first.
pub open spec fn size_text(bytes: int) -> Seq<char> {
    let size = rounded_size(bytes);
    if bytes < 1024 {
        signed_decimal(bytes) + " bytes"@
    } else if size >= 0x4000_0000 {
        in_unit(size, 0x4000_0000) + " GB"@
    } else if size >= 0x10_0000 {
        in_unit(size, 0x10_0000) + " MB"@
    } else {
        in_unit(size, 1024) + " KB"@
    }
}

/// A size in bytes for people to read.
pub fn format_config_size(bytes: i64) -> (r: String)
    ensures
        r@ == size_text(bytes as int),
{
    if bytes < 1024 {
        return crate::text::cat2(&signed_decimal_text(bytes), " bytes");
    }
    let grain: u128 = grain_of(bytes as u64) as u128;
    let count: u128 = nearest_to(bytes as u128, grain);
    proof {
        let n = bytes as int;
        let g = grain as int;
        lemma_rounded_bound(n);
    }
    let size: u128 = count * grain;
    if size >= 0x4000_0000 {
        crate::text::cat2(&write_in_unit(size, 0x4000_0000), " GB")
    } else if size >= 0x10_0000 {
        crate::text::cat2(&write_in_unit(size, 0x10_0000), " MB")
    } else {
        crate::text::cat2(&write_in_unit(size, 1024), " KB")
    }
}

proof fn lemma_rounded_bound(n: int)
    requires
        0 <= n < 0x8000_0000_0000_0000,
    ensures
        0 <= rounded_size(n) <= 0x8000_0000_0000_0000,
{
    let g = grain(n);
    let q = n / g;
    let r = n % g;
    assert(n == q * g + r) by {
        vstd::arithmetic::div_mod::lemma_fundamental_div_mod(n, g);
        assert(g * q == q * g) by (nonlinear_arith);
    }
    assert((q + 1) * g == q * g + g) by (nonlinear_arith);
    assert(0 <= r < g) by {
        vstd::arithmetic::div_mod::lemma_mod_bound(n, g);
    }
    assert(0 <= q) by {
        vstd::arithmetic::div_mod::lemma_div_pos_is_pos(n, g);
    }
    assert(0 <= q * g) by (nonlinear_arith)
        requires
            q >= 0,
            g >= 1,
    ;
    if g == 1024 {
        assert(q < 0x20_0000_0000_0000) by (nonlinear_arith)
            requires
                q * 1024 + r == n,
                r >= 0,
                n < 0x8000_0000_0000_0000,
        ;
    }
}

proof fn lemma_changed_member(
    prior: Seq<(Seq<char>, Doc)>,
    current: Seq<(Seq<char>, Doc)>,
    n: int,
    k: Seq<char>,
)
    requires
        ascending(current),
        0 <= n <= current.len(),
    ensures
        ascending(changed(prior, current, n)),
        entry(changed(prior, current, n), k) is Some ==> exists|i: int|
            0 <= i < n && (#[trigger] current[i]).0 == k && entry(changed(prior, current, n), k)
                == Some(current[i].1) && entry(prior, k) != Some(current[i].1),
        forall|i: int|
            0 <= i < n && (#[trigger] current[i]).0 == k && entry(prior, k) != Some(current[i].1)
                ==> entry(changed(prior, current, n), k) == Some(current[i].1),
    decreases n,
{
    if n > 0 {
        lemma_changed_member(prior, current, n - 1, k);
        let before = changed(prior, current, n - 1);
        let (key, v) = current[n - 1];
        if entry(prior, key) != Some(v) {
            lemma_with_entry_ascending(before, key, v);
            lemma_read_after_write(before, key, v, k);
        }
        assert forall|i: int|
            0 <= i < n && (#[trigger] current[i]).0 == k && entry(prior, k) != Some(
                current[i].1,
            ) implies entry(changed(prior, current, n), k) == Some(current[i].1) by {
            if i < n - 1 {
                lemma_distinct(current, i, n - 1);
            }
        }
        if entry(changed(prior, current, n), k) is Some && key == k && entry(prior, key) != Some(v) {
            assert(current[n - 1].0 == k);
        }
    }
}

/// A difference holds just the members that are new or have changed, with their
/// new values.
pub proof fn law_difference_holds_what_changed(
    prior: Seq<(Seq<char>, Doc)>,
    current: Seq<(Seq<char>, Doc)>,
    k: Seq<char>,
)
    requires
        ascending(current),
    ensures
        entry(changed(prior, current, current.len() as int), k) == if entry(current, k)
            != entry(prior, k) {
            entry(current, k)
        } else {
            None
        },
{
    let n = current.len() as int;
    lemma_changed_member(prior, current, n, k);
    if entry(current, k) is Some {
        lemma_slot(current, k);
        let i = slot(current, k);
        assert(current[i].0 == k);
    } else {
        lemma_entry_missing(current, k);
    }
    if entry(changed(prior, current, n), k) is Some {
        let i = choose|i: int|
            0 <= i < n && (#[trigger] current[i]).0 == k && entry(changed(prior, current, n), k)
                == Some(current[i].1) && entry(prior, k) != Some(current[i].1);
        lemma_entry_found(current, i);
    }
}

/// The members that are gone are found, and no other.
pub proof fn law_deleted_members_are_found(prior: Seq<(Seq<char>, Doc)>, current: Seq<(Seq<char>, Doc)>, n: int)
    requires
        0 <= n <= prior.len(),
    ensures
        forall|i: int|
            #![trigger prior[i]]
            0 <= i < n && entry(current, prior[i].0) is None ==> deleted(prior, current, n).contains(prior[i].0),
        forall|x: Seq<char>| #[trigger]
            deleted(prior, current, n).contains(x) ==> exists|i: int|
                #![trigger prior[i]]
                0 <= i < n && entry(current, prior[i].0) is None && x == prior[i].0,
    decreases n,
{
    if n > 0 {
        law_deleted_members_are_found(prior, current, n - 1);
        let p = deleted(prior, current, n - 1);
        let r = deleted(prior, current, n);
        assert forall|i: int|
            #![trigger prior[i]]
            0 <= i < n && entry(current, prior[i].0) is None implies r.contains(prior[i].0) by {
            if i == n - 1 {
                assert(r[p.len() as int] == prior[i].0);
            } else {
                assert(p.contains(prior[i].0));
                let k = choose|k: int| 0 <= k < p.len() && p[k] == prior[i].0;
                assert(r[k] == prior[i].0);
            }
        }
        assert forall|x: Seq<char>| #[trigger] r.contains(x) implies exists|i: int|
            #![trigger prior[i]]
            0 <= i < n && entry(current, prior[i].0) is None && x == prior[i].0 by {
            let j = choose|j: int| 0 <= j < r.len() && r[j] == x;
            if j < p.len() {
                assert(r[j] == p[j]);
                assert(p.contains(x));
                let i = choose|i: int|
                    #![trigger prior[i]]
                    0 <= i < n - 1 && entry(current, prior[i].0) is None && x == prior[i].0;
                assert(entry(current, prior[i].0) is None && x == prior[i].0);
            } else {
                let i = n - 1;
                assert(entry(current, prior[i].0) is None && x == prior[i].0);
            }
        }
    }
}

/// Rounding goes to the nearest whole, and to the even one of two that are as
/// near.
pub proof fn law_nearest_is_near(n: int, d: int)
    requires
        d > 0,
        n >= 0,
    ensures
        2 * (nearest(n, d) * d - n) <= d,
        2 * (n - nearest(n, d) * d) <= d,
        2 * (nearest(n, d) * d - n) == d || 2 * (n - nearest(n, d) * d) == d ==> nearest(n, d) % 2
            == 0,
{
    let q = n / d;
    let r = n % d;
    assert(n == q * d + r && 0 <= r < d) by (nonlinear_arith)
        requires
            d > 0,
            q == n / d,
            r == n % d,
    ;
    assert((q + 1) * d == q * d + d) by (nonlinear_arith);
}

/// A size is told in bytes below a kilobyte, and then in the largest unit of
/// which it holds one.
pub proof fn law_size_is_told_in_its_unit(bytes: int)
    ensures
        bytes < 1024 ==> ends_in(size_text(bytes), " bytes"@) && begins_with(
            size_text(bytes),
            signed_decimal(bytes),
        ),
        bytes >= 1024 && rounded_size(bytes) < 0x10_0000 ==> ends_in(size_text(bytes), " KB"@),
        bytes >= 1024 && 0x10_0000 <= rounded_size(bytes) < 0x4000_0000 ==> ends_in(
            size_text(bytes),
            " MB"@,
        ),
        bytes >= 1024 && rounded_size(bytes) >= 0x4000_0000 ==> ends_in(size_text(bytes), " GB"@),
        0 <= bytes < 0x20_0000_0000_0000 ==> rounded_size(bytes) == bytes,
{
    let t = size_text(bytes);
    let size = rounded_size(bytes);
    lemma_ends(signed_decimal(bytes), " bytes"@);
    lemma_ends(in_unit(size, 1024), " KB"@);
    lemma_ends(in_unit(size, 0x10_0000), " MB"@);
    lemma_ends(in_unit(size, 0x4000_0000), " GB"@);
}

proof fn lemma_ends(a: Seq<char>, b: Seq<char>)
    ensures
        ends_in(a + b, b),
        begins_with(a + b, a),
{
    assert((a + b).subrange(a.len() as int, (a + b).len() as int) =~= b);
    assert((a + b).subrange(0, a.len() as int) =~= a);
}

/// A number of hundredths is written with two digits behind the point.
pub proof fn law_hundredths_have_two_digits(n: int)
    requires
        0 <= n < 100,
    ensures
        n < 10 ==> two_digits(n) == seq!['0'] + decimal(n),
        n >= 10 ==> two_digits(n) == decimal(n),
{
    reveal_strlit("0");
    assert("0"@ =~= seq!['0']);
}

} // verus!
