//! The graph of migrations, and conversion along it.

use vstd::prelude::*;
use vstd::string::*;
use crate::clock::Timestamp;
use crate::error::Error;
use crate::json::{Doc, Json};
use crate::json_text::compact;
use crate::schema_evolution::audit::{
    Conversion, ConversionAuditEvent, ConversionAuditRingBuffer, conversions,
    law_newest_is_on_record, newest,
};
use crate::schema_evolution::fields::{
    FieldMapping, apply_field_mappings, can_apply_mappings, can_map_by, mapped_by,
};
use crate::str_map::{StrMap, entry, with_entry};
use crate::text::{
    cat2, cat4, copy_texts, debug_text, has, lists, same, views, write_debug,
};

verus! {

/// How to get from one version to another.
#[derive(Debug)]
pub struct SchemaMigration {
    pub from_version: String,
    pub to_version: String,
    pub conversion_rules: Vec<FieldMapping>,
    /// Whether the migration may be carried out without being asked for.
    pub auto_convertible: bool,
}

/// The migrations of a kind of resource.
#[derive(Debug)]
pub struct SchemaMigrationGraph {
    pub crd_kind: String,
    pub migrations: StrMap<SchemaMigration>,
    pub current_storage_version: String,
    pub supported_versions: Vec<String>,
}

/// A step of a validation failed.
pub open spec fn is_step_error(e: Error, step: Seq<char>, message: Seq<char>) -> bool {
    e is ValidationStep && e->step@ == step && e->ValidationStep_message@ == message
}

fn step_error(step: &str, message: &str) -> (r: Error)
    ensures
        is_step_error(r, step@, message@),
{
    Error::ValidationStep { step: step.to_string(), message: message.to_string() }
}

/// The migration leads from one version to another.
pub open spec fn leads(m: SchemaMigration, from: Seq<char>, to: Seq<char>) -> bool {
    m.from_version@ == from && m.to_version@ == to
}

/// Some migration leads from one version to another.
pub open spec fn is_edge(ms: Seq<(Seq<char>, SchemaMigration)>, from: Seq<char>, to: Seq<char>) -> bool {
    exists|i: int| 0 <= i < ms.len() && leads((#[trigger] ms[i]).1, from, to)
}

/// The versions can be passed one after the other.
pub open spec fn is_path(ms: Seq<(Seq<char>, SchemaMigration)>, p: Seq<Seq<char>>) -> bool {
    &&& p.len() > 0
    &&& forall|i: int| 0 <= i < p.len() - 1 ==> #[trigger] is_edge(ms, p[i], p[i + 1])
}

/// The versions lead from one to another.
pub open spec fn is_route(
    ms: Seq<(Seq<char>, SchemaMigration)>,
    p: Seq<Seq<char>>,
    from: Seq<char>,
    to: Seq<char>,
) -> bool {
    is_path(ms, p) && p[0] == from && p.last() == to
}

/// The versions lead from one to another, in as few steps as possible.
pub open spec fn is_shortest_route(
    ms: Seq<(Seq<char>, SchemaMigration)>,
    p: Seq<Seq<char>>,
    from: Seq<char>,
    to: Seq<char>,
) -> bool {
    is_route(ms, p, from, to) && forall|q: Seq<Seq<char>>| #[trigger]
        is_route(ms, q, from, to) ==> p.len() <= q.len()
}

/// The place of the first migration from `i` on that leads from one version
/// to another.
pub open spec fn migration_from(
    ms: Seq<(Seq<char>, SchemaMigration)>,
    from: Seq<char>,
    to: Seq<char>,
    i: int,
) -> Option<int>
    decreases ms.len() - i,
{
    if i < 0 || i >= ms.len() {
        None
    } else if leads(ms[i].1, from, to) {
        Some(i)
    } else {
        migration_from(ms, from, to, i + 1)
    }
}

/// The migration that is carried out between two versions.
pub open spec fn rules_between(
    ms: Seq<(Seq<char>, SchemaMigration)>,
    from: Seq<char>,
    to: Seq<char>,
) -> Seq<FieldMapping> {
    match migration_from(ms, from, to, 0) {
        Some(i) => ms[i].1.conversion_rules@,
        None => Seq::empty(),
    }
}

/// The document after the first `n` steps of a path.
pub open spec fn converted(
    ms: Seq<(Seq<char>, SchemaMigration)>,
    p: Seq<Seq<char>>,
    d: Doc,
    n: int,
) -> Doc
    decreases n,
{
    if n <= 0 {
        d
    } else {
        let rules = rules_between(ms, p[n - 1], p[n]);
        mapped_by(converted(ms, p, d, n - 1), rules, rules.len() as int)
    }
}

/// The mappings of the first `n` steps of a path can be carried out.
pub open spec fn can_convert(
    ms: Seq<(Seq<char>, SchemaMigration)>,
    p: Seq<Seq<char>>,
    d: Doc,
    n: int,
) -> bool
    decreases n,
{
    if n <= 0 {
        true
    } else {
        let rules = rules_between(ms, p[n - 1], p[n]);
        can_convert(ms, p, d, n - 1) && can_map_by(
            converted(ms, p, d, n - 1),
            rules,
            rules.len() as int,
        )
    }
}

/// Why a graph cannot be registered: the first migration from `i` on that
/// names a version which is not supported.
pub open spec fn migration_error(
    supported: Seq<String>,
    ms: Seq<(Seq<char>, SchemaMigration)>,
    i: int,
) -> Option<Seq<char>>
    decreases ms.len() - i,
{
    if i < 0 || i >= ms.len() {
        None
    } else if !lists(supported, ms[i].1.from_version@) {
        Some("Unknown from_version: "@ + ms[i].1.from_version@)
    } else if !lists(supported, ms[i].1.to_version@) {
        Some("Unknown to_version: "@ + ms[i].1.to_version@)
    } else {
        migration_error(supported, ms, i + 1)
    }
}

/// Why a graph cannot be registered: the step that fails and what it says.
pub open spec fn graph_error(g: SchemaMigrationGraph) -> Option<(Seq<char>, Seq<char>)> {
    if !lists(g.supported_versions@, g.current_storage_version@) {
        Some(
            ("validate storage version"@, "Current storage version not in supported versions"@),
        )
    } else {
        match migration_error(g.supported_versions@, g.migrations.list(), 0) {
            Some(e) => Some(("validate migration"@, e)),
            None => None,
        }
    }
}

/// How many of the first `n` migrations have not been taken.
pub open spec fn not_taken(taken: Seq<bool>, n: int) -> int
    decreases n,
{
    if n <= 0 {
        0
    } else {
        not_taken(taken, n - 1) + if taken[n - 1] {
            0int
        } else {
            1int
        }
    }
}

proof fn lemma_take(taken: Seq<bool>, i: int, n: int)
    requires
        0 <= i < taken.len(),
        n <= taken.len(),
        !taken[i],
    ensures
        not_taken(taken.update(i, true), n) == not_taken(taken, n) - if i < n {
            1int
        } else {
            0int
        },
        not_taken(taken, n) >= 0,
    decreases n,
{
    if n > 0 {
        lemma_take(taken, i, n - 1);
    }
}

proof fn lemma_not_taken(taken: Seq<bool>, n: int)
    requires
        n <= taken.len(),
    ensures
        not_taken(taken, n) >= 0,
    decreases n,
{
    if n > 0 {
        lemma_not_taken(taken, n - 1);
    }
}

/// A version was seen.
pub open spec fn is_seen(seen: Seq<String>, v: Seq<char>) -> bool {
    lists(seen, v)
}

/// One of the paths from `k` on ends in the version.
pub open spec fn is_pending_from(paths: Seq<Vec<String>>, k: int, v: Seq<char>) -> bool {
    exists|i: int| k <= i < paths.len() && views((#[trigger] paths[i])@).last() == v
}

/// One of the paths ends in the version.
pub open spec fn is_pending(paths: Seq<Vec<String>>, v: Seq<char>) -> bool {
    is_pending_from(paths, 0, v)
}

/// All versions that a version leads to were seen.
pub open spec fn is_done(
    ms: Seq<(Seq<char>, SchemaMigration)>,
    seen: Seq<String>,
    v: Seq<char>,
) -> bool {
    forall|i: int|
        0 <= i < ms.len() && (#[trigger] ms[i]).1.from_version@ == v ==> is_seen(
            seen,
            ms[i].1.to_version@,
        )
}

/// A path that the search has found so far.
pub open spec fn is_found(
    ms: Seq<(Seq<char>, SchemaMigration)>,
    seen: Seq<String>,
    p: Seq<Seq<char>>,
    from: Seq<char>,
) -> bool {
    &&& is_path(ms, p)
    &&& p[0] == from
    &&& p.no_duplicates()
    &&& forall|i: int| 0 <= i < p.len() ==> is_seen(seen, #[trigger] p[i])
}

/// A version that was seen stays so.
proof fn lemma_seen_more(seen: Seq<String>, s: String, v: Seq<char>)
    ensures
        is_seen(seen.push(s), v) == (is_seen(seen, v) || s@ == v),
{
    let t = seen.push(s);
    if is_seen(seen, v) {
        let i = choose|i: int| 0 <= i < seen.len() && (#[trigger] seen[i])@ == v;
        assert(t[i]@ == v);
    }
    if s@ == v {
        assert(t[seen.len() as int]@ == v);
    }
    if is_seen(t, v) {
        let i = choose|i: int| 0 <= i < t.len() && (#[trigger] t[i])@ == v;
        if i < seen.len() {
            assert(seen[i]@ == v);
        }
    }
}

/// Where all that was seen is done, every version that can be reached was seen.
proof fn lemma_all_reached(
    ms: Seq<(Seq<char>, SchemaMigration)>,
    seen: Seq<String>,
    p: Seq<Seq<char>>,
    n: int,
)
    requires
        is_path(ms, p),
        is_seen(seen, p[0]),
        forall|v: Seq<char>| #[trigger] is_seen(seen, v) ==> is_done(ms, seen, v),
        0 <= n < p.len(),
    ensures
        is_seen(seen, p[n]),
    decreases n,
{
    if n > 0 {
        lemma_all_reached(ms, seen, p, n - 1);
        assert(is_edge(ms, p[n - 1], p[n - 1 + 1]));
        let i = choose|i: int| 0 <= i < ms.len() && leads((#[trigger] ms[i]).1, p[n - 1], p[n]);
        assert(is_done(ms, seen, p[n - 1]));
        assert(ms[i].1.from_version@ == p[n - 1]);
    }
}

proof fn lemma_extend_path(
    ms: Seq<(Seq<char>, SchemaMigration)>,
    p: Seq<Seq<char>>,
    i: int,
)
    requires
        is_path(ms, p),
        0 <= i < ms.len(),
        ms[i].1.from_version@ == p.last(),
    ensures
        is_path(ms, p.push(ms[i].1.to_version@)),
{
    let q = p.push(ms[i].1.to_version@);
    assert forall|j: int| 0 <= j < q.len() - 1 implies #[trigger] is_edge(ms, q[j], q[j + 1]) by {
        if j < p.len() - 1 {
            assert(is_edge(ms, p[j], p[j + 1]));
        } else {
            assert(leads(ms[i].1, q[j], q[j + 1]));
        }
    }
}

/// A path that was found stays so when more versions are seen.
proof fn lemma_found_more(
    ms: Seq<(Seq<char>, SchemaMigration)>,
    seen: Seq<String>,
    more: Seq<String>,
    p: Seq<Seq<char>>,
    from: Seq<char>,
)
    requires
        is_found(ms, seen, p, from),
        forall|v: Seq<char>| #[trigger] is_seen(seen, v) ==> is_seen(more, v),
    ensures
        is_found(ms, more, p, from),
{
    assert forall|k: int| 0 <= k < p.len() implies is_seen(more, #[trigger] p[k]) by {
        assert(is_seen(seen, p[k]));
    }
}

/// Every version that a path of so many versions leads to was seen.
pub open spec fn reaches(
    ms: Seq<(Seq<char>, SchemaMigration)>,
    seen: Seq<String>,
    from: Seq<char>,
    n: int,
) -> bool {
    forall|p: Seq<Seq<char>>| #[trigger]
        is_path(ms, p) && p[0] == from && p.len() <= n ==> is_seen(seen, p.last())
}

/// Where all that was seen is done, the search reaches one version further.
proof fn lemma_reaches_further(
    ms: Seq<(Seq<char>, SchemaMigration)>,
    before: Seq<String>,
    seen: Seq<String>,
    from: Seq<char>,
    n: int,
)
    requires
        n >= 1,
        reaches(ms, before, from, n),
        forall|v: Seq<char>| #[trigger] is_seen(before, v) ==> is_seen(seen, v) && is_done(
            ms,
            seen,
            v,
        ),
    ensures
        reaches(ms, seen, from, n + 1),
{
    assert forall|p: Seq<Seq<char>>| #[trigger]
        is_path(ms, p) && p[0] == from && p.len() <= n + 1 implies is_seen(seen, p.last()) by {
        if p.len() <= n {
            assert(is_seen(before, p.last()));
        } else {
            let q = p.drop_last();
            assert forall|i: int| 0 <= i < q.len() - 1 implies #[trigger] is_edge(
                ms,
                q[i],
                q[i + 1],
            ) by {
                assert(is_edge(ms, p[i], p[i + 1]));
            }
            assert(is_path(ms, q));
            assert(is_seen(before, q.last()));
            let j = p.len() - 2;
            assert(is_edge(ms, p[j], p[j + 1]));
            let i = choose|i: int| 0 <= i < ms.len() && leads((#[trigger] ms[i]).1, p[j], p[j + 1]);
            assert(is_done(ms, seen, q.last()));
            assert(ms[i].1.from_version@ == q.last());
        }
    }
}

/// Adds to the paths those to what a version leads to and was not seen yet.
fn expand(
    ms: &StrMap<SchemaMigration>,
    path: &Vec<String>,
    from: &str,
    next: &mut Vec<Vec<String>>,
    seen: &mut Vec<String>,
    taken: &mut Vec<bool>,
)
    requires
        is_found(ms.list(), old(seen)@, views(path@), from@),
        old(taken)@.len() == ms.list().len(),
        forall|i: int|
            0 <= i < ms.list().len() && #[trigger] old(taken)@[i] ==> is_seen(
                old(seen)@,
                ms.list()[i].1.to_version@,
            ),
        forall|i: int|
            0 <= i < old(next)@.len() ==> is_found(
                ms.list(),
                old(seen)@,
                views((#[trigger] old(next)@[i])@),
                from@,
            ) && old(next)@[i]@.len() == path@.len() + 1,
    ensures
        is_done(ms.list(), final(seen)@, views(path@).last()),
        forall|v: Seq<char>| #[trigger] is_seen(old(seen)@, v) ==> is_seen(final(seen)@, v),
        forall|v: Seq<char>| #[trigger]
            is_seen(final(seen)@, v) ==> is_seen(old(seen)@, v) || is_pending(final(next)@, v),
        forall|v: Seq<char>| #[trigger]
            is_pending(old(next)@, v) ==> is_pending(final(next)@, v),
        forall|i: int|
            0 <= i < final(next)@.len() ==> is_found(
                ms.list(),
                final(seen)@,
                views((#[trigger] final(next)@[i])@),
                from@,
            ) && final(next)@[i]@.len() == path@.len() + 1,
        final(taken)@.len() == ms.list().len(),
        forall|i: int|
            0 <= i < ms.list().len() && #[trigger] final(taken)@[i] ==> is_seen(
                final(seen)@,
                ms.list()[i].1.to_version@,
            ),
        final(next)@.len() + 2 * not_taken(final(taken)@, ms.list().len() as int) <= old(
            next,
        )@.len() + 2 * not_taken(old(taken)@, ms.list().len() as int),
{
    let ghost list = ms.list();
    let ghost p = views(path@);
    let ghost seen0 = seen@;
    let ghost next0 = next@;
    let ghost taken0 = taken@;
    let n = ms.len();
    let mut i: usize = 0;
    while i < n
        invariant
            i <= n,
            n == list.len(),
            list == ms.list(),
            p == views(path@),
            is_found(list, seen@, p, from@),
            taken@.len() == list.len(),
            forall|j: int|
                0 <= j < i && (#[trigger] list[j]).1.from_version@ == p.last() ==> is_seen(
                    seen@,
                    list[j].1.to_version@,
                ),
            forall|v: Seq<char>| #[trigger] is_seen(seen0, v) ==> is_seen(seen@, v),
            forall|v: Seq<char>| #[trigger]
                is_seen(seen@, v) ==> is_seen(seen0, v) || is_pending(next@, v),
            forall|v: Seq<char>| #[trigger] is_pending(next0, v) ==> is_pending(next@, v),
            forall|j: int|
                0 <= j < next@.len() ==> is_found(
                    list,
                    seen@,
                    views((#[trigger] next@[j])@),
                    from@,
                ) && next@[j]@.len() == path@.len() + 1,
            forall|j: int|
                0 <= j < list.len() && #[trigger] taken@[j] ==> is_seen(
                    seen@,
                    list[j].1.to_version@,
                ),
            next@.len() + 2 * not_taken(taken@, list.len() as int) <= next0.len() + 2 * not_taken(
                taken0,
                list.len() as int,
            ),
        decreases n - i,
    {
        let m = ms.value_at(i);
        let last = &path[path.len() - 1];
        assert(last@ == p.last());
        let known = has(seen, &m.to_version);
        if same(&m.from_version, last) && !known {
            let ghost seen1 = seen@;
            let ghost next1 = next@;
            let ghost taken1 = taken@;
            let ghost to = m.to_version@;
            let mut longer = copy_texts(path);
            longer.push(m.to_version.clone());
            assert(views(longer@) =~= p.push(to));
            seen.push(m.to_version.clone());
            next.push(longer);
            taken.set(i, true);
            proof {
                lemma_extend_path(list, p, i as int);
                lemma_take(taken1, i as int, list.len() as int);
                assert forall|v: Seq<char>| #[trigger] is_seen(seen1, v) implies is_seen(
                    seen@,
                    v,
                ) by {
                    lemma_seen_more(seen1, m.to_version, v);
                }
                lemma_seen_more(seen1, m.to_version, to);
                let q = p.push(to);
                assert(q.no_duplicates()) by {
                    assert forall|a: int, b: int|
                        0 <= a < q.len() && 0 <= b < q.len() && a != b implies q[a] != q[b] by {
                        if a < p.len() && b < p.len() {
                            assert(p[a] != p[b]);
                        } else if a < p.len() {
                            assert(is_seen(seen1, p[a]));
                        } else {
                            assert(is_seen(seen1, p[b]));
                        }
                    }
                }
                assert forall|j: int| 0 <= j < q.len() implies is_seen(seen@, #[trigger] q[j]) by {
                    if j < p.len() {
                        assert(is_seen(seen1, p[j]));
                    }
                }
                assert(is_found(list, seen@, q, from@));
                assert forall|j: int| 0 <= j < next@.len() implies is_found(
                    list,
                    seen@,
                    views((#[trigger] next@[j])@),
                    from@,
                ) && next@[j]@.len() == path@.len() + 1 by {
                    if j < next1.len() {
                        assert(next@[j] == next1[j]);
                        let r = views(next1[j]@);
                        assert(is_found(list, seen1, r, from@));
                        assert forall|k: int| 0 <= k < r.len() implies is_seen(
                            seen@,
                            #[trigger] r[k],
                        ) by {
                            assert(is_seen(seen1, r[k]));
                        }
                    }
                }
                assert forall|v: Seq<char>| #[trigger] is_pending(next1, v) implies is_pending(
                    next@,
                    v,
                ) by {
                    let j = choose|j: int|
                        0 <= j < next1.len() && views((#[trigger] next1[j])@).last() == v;
                    assert(next@[j] == next1[j]);
                }
                assert(views(next@[next1.len() as int]@).last() == to);
                assert forall|v: Seq<char>| #[trigger] is_seen(seen@, v) implies is_seen(seen0, v)
                    || is_pending(next@, v) by {
                    lemma_seen_more(seen1, m.to_version, v);
                    if is_seen(seen1, v) {
                        assert(is_seen(seen0, v) || is_pending(next1, v));
                    } else {
                        assert(is_pending(next@, to));
                    }
                }
                assert forall|j: int| 0 <= j < list.len() && #[trigger] taken@[j] implies is_seen(
                    seen@,
                    list[j].1.to_version@,
                ) by {
                    if j != i {
                        assert(taken1[j]);
                        assert(is_seen(seen1, list[j].1.to_version@));
                    }
                }
                assert(is_found(list, seen@, p, from@)) by {
                    assert forall|k: int| 0 <= k < p.len() implies is_seen(seen@, #[trigger] p[k]) by {
                        assert(is_seen(seen1, p[k]));
                    }
                }
                assert forall|j: int|
                    0 <= j < i + 1 && (#[trigger] list[j]).1.from_version@ == p.last() implies is_seen(
                    seen@,
                    list[j].1.to_version@,
                ) by {
                    if j < i {
                        assert(is_seen(seen1, list[j].1.to_version@));
                    }
                }
            }
        }
        i = i + 1;
    }
}

/// The first of the paths that ends in a version.
fn path_to(paths: &Vec<Vec<String>>, to: &str) -> (r: Option<usize>)
    requires
        forall|i: int| 0 <= i < paths@.len() ==> (#[trigger] paths@[i])@.len() > 0,
    ensures
        (match r {
            Some(k) => k < paths@.len() && views(paths@[k as int]@).last() == to@,
            None => !is_pending(paths@, to@),
        }),
{
    let mut k: usize = 0;
    while k < paths.len()
        invariant
            k <= paths.len(),
            forall|i: int| 0 <= i < paths@.len() ==> (#[trigger] paths@[i])@.len() > 0,
            forall|i: int| 0 <= i < k ==> views((#[trigger] paths@[i])@).last() != to@,
        decreases paths@.len() - k,
    {
        let path = &paths[k];
        let last = &path[path.len() - 1];
        assert(last@ == views(path@).last());
        if same(last, to) {
            return Some(k);
        }
        k = k + 1;
    }
    None
}

/// The paths that are one version longer than the given ones, to versions that
/// were not seen yet.
fn next_paths(
    ms: &StrMap<SchemaMigration>,
    paths: &Vec<Vec<String>>,
    from: &str,
    to: &str,
    seen: &mut Vec<String>,
    taken: &mut Vec<bool>,
    Ghost(len): Ghost<int>,
) -> (r: Vec<Vec<String>>)
    requires
        old(taken)@.len() == ms.list().len(),
        forall|i: int|
            0 <= i < ms.list().len() && #[trigger] old(taken)@[i] ==> is_seen(
                old(seen)@,
                ms.list()[i].1.to_version@,
            ),
        forall|i: int|
            0 <= i < paths@.len() ==> is_found(
                ms.list(),
                old(seen)@,
                views((#[trigger] paths@[i])@),
                from@,
            ) && paths@[i]@.len() == len,
        !is_pending(paths@, to@),
        forall|v: Seq<char>| #[trigger]
            is_seen(old(seen)@, v) ==> is_pending(paths@, v) || (is_done(
                ms.list(),
                old(seen)@,
                v,
            ) && v != to@),
    ensures
        final(taken)@.len() == ms.list().len(),
        forall|i: int|
            0 <= i < ms.list().len() && #[trigger] final(taken)@[i] ==> is_seen(
                final(seen)@,
                ms.list()[i].1.to_version@,
            ),
        forall|i: int|
            0 <= i < r@.len() ==> is_found(
                ms.list(),
                final(seen)@,
                views((#[trigger] r@[i])@),
                from@,
            ) && r@[i]@.len() == len + 1,
        forall|v: Seq<char>| #[trigger]
            is_seen(old(seen)@, v) ==> is_seen(final(seen)@, v) && is_done(
                ms.list(),
                final(seen)@,
                v,
            ),
        forall|v: Seq<char>| #[trigger]
            is_seen(final(seen)@, v) ==> is_pending(r@, v) || (is_done(
                ms.list(),
                final(seen)@,
                v,
            ) && v != to@),
        r@.len() + 2 * not_taken(final(taken)@, ms.list().len() as int) <= 2 * not_taken(
            old(taken)@,
            ms.list().len() as int,
        ),
{
    let ghost list = ms.list();
    let ghost seen0 = seen@;
    let ghost taken0 = taken@;
    let mut next: Vec<Vec<String>> = Vec::new();
    let mut k: usize = 0;
    while k < paths.len()
        invariant
            k <= paths.len(),
            list == ms.list(),
            taken@.len() == list.len(),
            forall|i: int|
                0 <= i < list.len() && #[trigger] taken@[i] ==> is_seen(
                    seen@,
                    list[i].1.to_version@,
                ),
            forall|i: int|
                0 <= i < paths@.len() ==> is_found(
                    list,
                    seen@,
                    views((#[trigger] paths@[i])@),
                    from@,
                ) && paths@[i]@.len() == len,
            forall|i: int|
                0 <= i < next@.len() ==> is_found(
                    list,
                    seen@,
                    views((#[trigger] next@[i])@),
                    from@,
                ) && next@[i]@.len() == len + 1,
            !is_pending(paths@, to@),
            forall|v: Seq<char>| #[trigger] is_seen(seen0, v) ==> is_seen(seen@, v),
            forall|v: Seq<char>| #[trigger]
                is_seen(seen0, v) ==> is_pending_from(paths@, k as int, v) || (is_done(
                    list,
                    seen@,
                    v,
                ) && v != to@),
            forall|v: Seq<char>| #[trigger]
                is_seen(seen@, v) ==> is_seen(seen0, v) || is_pending(next@, v),
            next@.len() + 2 * not_taken(taken@, list.len() as int) <= 2 * not_taken(
                taken0,
                list.len() as int,
            ),
        decreases paths@.len() - k,
    {
        let ghost seen1 = seen@;
        let ghost next1 = next@;
        let path = &paths[k];
        let ghost p = views(path@);
        assert(is_found(list, seen1, views(paths@[k as int]@), from@));
        expand(ms, path, from, &mut next, seen, taken);
        proof {
            assert(p.last() != to@);
            assert forall|i: int| 0 <= i < paths@.len() implies is_found(
                list,
                seen@,
                views((#[trigger] paths@[i])@),
                from@,
            ) && paths@[i]@.len() == len by {
                lemma_found_more(list, seen1, seen@, views(paths@[i]@), from@);
            }
            assert forall|v: Seq<char>| #[trigger] is_seen(seen0, v) implies is_pending_from(
                paths@,
                k + 1,
                v,
            ) || (is_done(list, seen@, v) && v != to@) by {
                assert(is_seen(seen1, v));
                if v != p.last() {
                    if is_pending_from(paths@, k as int, v) {
                        let i = choose|i: int|
                            k <= i < paths@.len() && views((#[trigger] paths@[i])@).last() == v;
                        assert(i != k);
                        assert(views(paths@[i]@).last() == v);
                    } else {
                        lemma_done_more(list, seen1, seen@, v);
                    }
                }
            }
            assert forall|v: Seq<char>| #[trigger] is_seen(seen@, v) implies is_seen(seen0, v)
                || is_pending(next@, v) by {
                if is_seen(seen1, v) && !is_seen(seen0, v) {
                    assert(is_pending(next1, v));
                }
            }
        }
        k = k + 1;
    }
    next
}

/// A version that was done stays so when more versions are seen.
proof fn lemma_done_more(
    ms: Seq<(Seq<char>, SchemaMigration)>,
    seen: Seq<String>,
    more: Seq<String>,
    v: Seq<char>,
)
    requires
        is_done(ms, seen, v),
        forall|w: Seq<char>| #[trigger] is_seen(seen, w) ==> is_seen(more, w),
    ensures
        is_done(ms, more, v),
{
    assert forall|i: int| 0 <= i < ms.len() && (#[trigger] ms[i]).1.from_version@ == v implies is_seen(
        more,
        ms[i].1.to_version@,
    ) by {
        assert(is_seen(seen, ms[i].1.to_version@));
    }
}

/// A way from one version to another, in as few steps as possible. It passes no
/// version twice.
pub fn find_conversion_path(graph: &SchemaMigrationGraph, from: &str, to: &str) -> (r: Result<
    Vec<String>,
    Error,
>)
    ensures
        (match r {
            Ok(p) => is_shortest_route(graph.migrations.list(), views(p@), from@, to@)
                && views(p@).no_duplicates(),
            Err(e) => is_step_error(
                e,
                "find conversion path"@,
                "No conversion path from "@ + from@ + " to "@ + to@,
            ) && forall|p: Seq<Seq<char>>|
                !#[trigger] is_route(graph.migrations.list(), p, from@, to@),
        }),
{
    let ghost list = graph.migrations.list();
    let mut start: Vec<String> = Vec::new();
    start.push(from.to_string());
    assert(views(start@) =~= seq![from@]);
    if same(from, to) {
        return Ok(start);
    }
    let mut seen: Vec<String> = Vec::new();
    seen.push(from.to_string());
    assert(seen@[0]@ == from@);
    assert(is_seen(seen@, from@));
    let mut paths: Vec<Vec<String>> = Vec::new();
    paths.push(start);
    let n = graph.migrations.len();
    let mut taken: Vec<bool> = Vec::new();
    let mut k: usize = 0;
    while k < n
        invariant
            k <= n,
            taken@.len() == k,
            forall|j: int| 0 <= j < k ==> !#[trigger] taken@[j],
        decreases n - k,
    {
        taken.push(false);
        k = k + 1;
    }
    let ghost mut len: int = 1;
    proof {
        assert(views(paths@[0]@).last() == from@);
        assert(is_found(list, seen@, views(paths@[0]@), from@));
        assert forall|p: Seq<Seq<char>>| #[trigger] is_route(list, p, from@, to@) implies p.len()
            >= 1 by {}
    }
    while paths.len() > 0
        invariant
            list == graph.migrations.list(),
            len >= 1,
            taken@.len() == list.len(),
            is_seen(seen@, from@),
            forall|i: int|
                0 <= i < list.len() && #[trigger] taken@[i] ==> is_seen(
                    seen@,
                    list[i].1.to_version@,
                ),
            forall|i: int|
                0 <= i < paths@.len() ==> is_found(
                    list,
                    seen@,
                    views((#[trigger] paths@[i])@),
                    from@,
                ) && paths@[i]@.len() == len,
            forall|v: Seq<char>| #[trigger]
                is_seen(seen@, v) ==> is_pending(paths@, v) || (is_done(list, seen@, v) && v != to@),
            reaches(list, seen@, from@, len),
            forall|p: Seq<Seq<char>>| #[trigger]
                is_route(list, p, from@, to@) ==> p.len() >= len,
        decreases paths@.len() + 2 * not_taken(taken@, list.len() as int),
    {
        proof {
            lemma_not_taken(taken@, list.len() as int);
        }
        if let Some(k) = path_to(&paths, to) {
            let found = copy_texts(&paths[k]);
            assert(views(found@) == views(paths@[k as int]@));
            assert(is_found(list, seen@, views(paths@[k as int]@), from@));
            return Ok(found);
        }
        let ghost seen0 = seen@;
        let next = next_paths(
            &graph.migrations,
            &paths,
            from,
            to,
            &mut seen,
            &mut taken,
            Ghost(len),
        );
        proof {
            lemma_not_taken(taken@, list.len() as int);
            assert forall|p: Seq<Seq<char>>| #[trigger]
                is_route(list, p, from@, to@) implies p.len() >= len + 1 by {
                if p.len() <= len {
                    assert(is_path(list, p));
                    assert(is_seen(seen0, to@));
                }
            }
            lemma_reaches_further(list, seen0, seen@, from@, len);
            len = len + 1;
        }
        paths = next;
    }
    proof {
        assert forall|p: Seq<Seq<char>>| !#[trigger] is_route(list, p, from@, to@) by {
            if is_route(list, p, from@, to@) {
                assert forall|v: Seq<char>| #[trigger] is_seen(seen@, v) implies is_done(
                    list,
                    seen@,
                    v,
                ) by {
                    assert(!is_pending(paths@, v));
                }
                lemma_all_reached(list, seen@, p, p.len() - 1);
                assert(is_seen(seen@, to@));
                assert(!is_pending(paths@, to@));
            }
        }
    }
    Err(
        step_error(
            "find conversion path",
            &cat4("No conversion path from ", from, " to ", to),
        ),
    )
}

/// The rules of the migration that is carried out between two versions.
fn find_rules<'a>(ms: &'a StrMap<SchemaMigration>, from: &str, to: &str) -> (r: Option<
    &'a Vec<FieldMapping>,
>)
    ensures
        (match r {
            Some(v) => migration_from(ms.list(), from@, to@, 0) is Some && v@ == rules_between(
                ms.list(),
                from@,
                to@,
            ),
            None => migration_from(ms.list(), from@, to@, 0) is None,
        }),
{
    let n = ms.len();
    let mut i: usize = 0;
    while i < n
        invariant
            i <= n,
            n == ms.list().len(),
            migration_from(ms.list(), from@, to@, 0) == migration_from(
                ms.list(),
                from@,
                to@,
                i as int,
            ),
        decreases n - i,
    {
        let m = ms.value_at(i);
        if same(&m.from_version, from) && same(&m.to_version, to) {
            return Some(&m.conversion_rules);
        }
        i = i + 1;
    }
    None
}

/// Where a migration leads from one version to another, one is found.
pub proof fn lemma_edge_is_found(
    ms: Seq<(Seq<char>, SchemaMigration)>,
    from: Seq<char>,
    to: Seq<char>,
    i: int,
)
    requires
        0 <= i,
    ensures
        (match migration_from(ms, from, to, i) {
            Some(j) => i <= j < ms.len() && leads(ms[j].1, from, to),
            None => forall|j: int| i <= j < ms.len() ==> !leads((#[trigger] ms[j]).1, from, to),
        }),
    decreases ms.len() - i,
{
    if i < ms.len() {
        lemma_edge_is_found(ms, from, to, i + 1);
    }
}

/// Whether the migration between two versions can be carried out, or there is
/// none.
pub fn can_apply_conversion(graph: &SchemaMigrationGraph, spec: &Json, from: &str, to: &str) -> (r:
    bool)
    ensures
        r == ({
            let rules = rules_between(graph.migrations.list(), from@, to@);
            can_map_by(spec@, rules, rules.len() as int)
        }),
{
    match find_rules(&graph.migrations, from, to) {
        Some(rules) => can_apply_mappings(spec, rules),
        None => true,
    }
}

/// Carries out the migration between two versions.
pub fn apply_conversion(graph: &SchemaMigrationGraph, spec: Json, from: &str, to: &str) -> (r:
    Result<Json, Error>)
    requires
        ({
            let rules = rules_between(graph.migrations.list(), from@, to@);
            can_map_by(spec@, rules, rules.len() as int)
        }),
    ensures
        (match r {
            Ok(j) => {
                let rules = rules_between(graph.migrations.list(), from@, to@);
                is_edge(graph.migrations.list(), from@, to@) && j@ == mapped_by(
                    spec@,
                    rules,
                    rules.len() as int,
                )
            },
            Err(e) => !is_edge(graph.migrations.list(), from@, to@) && is_step_error(
                e,
                "find migration"@,
                "No migration from "@ + from@ + " to "@ + to@,
            ),
        }),
{
    proof {
        lemma_edge_is_found(graph.migrations.list(), from@, to@, 0);
    }
    match find_rules(&graph.migrations, from, to) {
        Some(rules) => Ok(apply_field_mappings(spec, rules)),
        None => Err(step_error("find migration", &cat4("No migration from ", from, " to ", to))),
    }
}

/// Checks that a graph names only versions that it supports.
pub fn validate_migration_graph(graph: &SchemaMigrationGraph) -> (r: Result<(), Error>)
    ensures
        (match graph_error(*graph) {
            Some((step, message)) => r is Err && is_step_error(r->Err_0, step, message),
            None => r is Ok,
        }),
{
    let stored = has(&graph.supported_versions, &graph.current_storage_version);
    if !stored {
        return Err(
            step_error(
                "validate storage version",
                "Current storage version not in supported versions",
            ),
        );
    }
    let ms = &graph.migrations;
    let n = ms.len();
    let mut i: usize = 0;
    while i < n
        invariant
            i <= n,
            *ms == graph.migrations,
            n == ms.list().len(),
            lists(graph.supported_versions@, graph.current_storage_version@),
            migration_error(graph.supported_versions@, ms.list(), 0) == migration_error(
                graph.supported_versions@,
                ms.list(),
                i as int,
            ),
        decreases n - i,
    {
        let m = ms.value_at(i);
        let knows_from = has(&graph.supported_versions, &m.from_version);
        if !knows_from {
            return Err(
                step_error("validate migration", &cat2("Unknown from_version: ", &m.from_version)),
            );
        }
        let knows_to = has(&graph.supported_versions, &m.to_version);
        if !knows_to {
            return Err(
                step_error("validate migration", &cat2("Unknown to_version: ", &m.to_version)),
            );
        }
        i = i + 1;
    }
    Ok(())
}

/// Why a conversion is refused before it begins: the step that fails and what
/// it says.
pub open spec fn version_error(
    graphs: Seq<(Seq<char>, SchemaMigrationGraph)>,
    kind: Seq<char>,
    from: Seq<char>,
    to: Seq<char>,
) -> Option<(Seq<char>, Seq<char>)> {
    match entry(graphs, kind) {
        None => Some(("find migration graph"@, "graph not found"@)),
        Some(g) => if !lists(g.supported_versions@, from) {
            Some(("validate from_version"@, "Unknown version: "@ + from))
        } else if !lists(g.supported_versions@, to) {
            Some(("validate to_version"@, "Unknown version: "@ + to))
        } else {
            None
        },
    }
}

/// Converts resources, and keeps a record.
#[derive(Debug)]
pub struct SchemaVersionConverter {
    pub graphs: StrMap<SchemaMigrationGraph>,
    pub audit_buffer: ConversionAuditRingBuffer,
}

/// The record of a conversion that succeeded.
pub open spec fn success(
    kind: Seq<char>,
    name: Seq<char>,
    namespace: Seq<char>,
    from: Seq<char>,
    to: Seq<char>,
    now: Timestamp,
    d: Doc,
) -> Conversion {
    Conversion {
        crd_kind: kind,
        resource_name: name,
        namespace,
        from_version: from,
        to_version: to,
        success: true,
        error_message: None,
        timestamp: now,
        spec_hash: debug_text(compact(d)),
    }
}

/// A resource was converted along a shortest way between the versions, and that is
/// on record; or it was refused, and nothing is changed.
pub open spec fn conversion_done(
    graphs: Seq<(Seq<char>, SchemaMigrationGraph)>,
    record: Seq<Conversion>,
    room: int,
    after: Seq<Conversion>,
    r: Result<Json, Error>,
    kind: Seq<char>,
    name: Seq<char>,
    namespace: Seq<char>,
    from: Seq<char>,
    to: Seq<char>,
    spec: Doc,
    now: Timestamp,
) -> bool {
    match r {
        Ok(j) => {
            let ms = entry(graphs, kind)->0.migrations.list();
            &&& version_error(graphs, kind, from, to) is None
            &&& exists|p: Seq<Seq<char>>| #[trigger]
                is_shortest_route(ms, p, from, to) && j@ == converted(ms, p, spec, p.len() - 1)
            &&& after == newest(
                record.push(success(kind, name, namespace, from, to, now, j@)),
                room,
            )
        },
        Err(e) => {
            &&& after == record
            &&& match version_error(graphs, kind, from, to) {
                Some((step, message)) => is_step_error(e, step, message),
                None => is_step_error(
                    e,
                    "find conversion path"@,
                    "No conversion path from "@ + from + " to "@ + to,
                ) && forall|p: Seq<Seq<char>>|
                    !#[trigger] is_route(entry(graphs, kind)->0.migrations.list(), p, from, to),
            }
        },
    }
}

/// The conversion is refused before it begins, or whichever shortest way is
/// taken between the versions, its mappings can be carried out.
pub open spec fn is_convertible(
    graphs: Seq<(Seq<char>, SchemaMigrationGraph)>,
    kind: Seq<char>,
    from: Seq<char>,
    to: Seq<char>,
    d: Doc,
) -> bool {
    version_error(graphs, kind, from, to) is Some || ways_are_open(
        entry(graphs, kind)->0.migrations.list(),
        from,
        to,
        d,
    )
}

/// Whichever shortest way is taken between the versions, its mappings can be
/// carried out.
pub open spec fn ways_are_open(
    ms: Seq<(Seq<char>, SchemaMigration)>,
    from: Seq<char>,
    to: Seq<char>,
    d: Doc,
) -> bool {
    forall|p: Seq<Seq<char>>| #[trigger]
        is_shortest_route(ms, p, from, to) ==> can_convert(ms, p, d, p.len() - 1)
}

/// The document after the migration between two versions.
spec fn stepped(
    ms: Seq<(Seq<char>, SchemaMigration)>,
    from: Seq<char>,
    to: Seq<char>,
    d: Doc,
) -> Doc {
    let rules = rules_between(ms, from, to);
    mapped_by(d, rules, rules.len() as int)
}

/// The first step of a path, and then the others.
proof fn lemma_first_step(
    ms: Seq<(Seq<char>, SchemaMigration)>,
    p: Seq<Seq<char>>,
    d: Doc,
    n: int,
)
    requires
        1 <= n < p.len(),
    ensures
        ({
            let q = p.subrange(1, p.len() as int);
            let next = stepped(ms, p[0], p[1], d);
            let rules = rules_between(ms, p[0], p[1]);
            &&& converted(ms, p, d, n) == converted(ms, q, next, n - 1)
            &&& can_convert(ms, p, d, n) == (can_map_by(d, rules, rules.len() as int)
                && can_convert(ms, q, next, n - 1))
        }),
    decreases n,
{
    let q = p.subrange(1, p.len() as int);
    if n > 1 {
        lemma_first_step(ms, p, d, n - 1);
        assert(q[n - 2] == p[n - 1]);
        assert(q[n - 1] == p[n]);
    } else {
        assert(converted(ms, p, d, 0) == d);
        assert(can_convert(ms, p, d, 0));
        assert(p[n - 1] == p[0] && p[n] == p[1]);
    }
}

/// A way goes on with the step to its second version.
proof fn lemma_shorter_way(
    ms: Seq<(Seq<char>, SchemaMigration)>,
    p: Seq<Seq<char>>,
    from: Seq<char>,
    to: Seq<char>,
)
    requires
        is_shortest_route(ms, p, from, to),
        p.len() > 1,
    ensures
        is_edge(ms, from, p[1]),
        is_shortest_route(ms, p.subrange(1, p.len() as int), p[1], to),
{
    let q = p.subrange(1, p.len() as int);
    assert(is_edge(ms, p[0int], p[0int + 1]));
    assert forall|i: int| 0 <= i < q.len() - 1 implies #[trigger] is_edge(ms, q[i], q[i + 1]) by {
        assert(is_edge(ms, p[i + 1], p[i + 1 + 1]));
    }
    assert(q.last() == p.last());
    assert(is_route(ms, q, p[1], to));
    assert forall|w: Seq<Seq<char>>| #[trigger] is_route(ms, w, p[1], to) implies q.len()
        <= w.len() by {
        lemma_longer_way(ms, w, from, p[1], to);
        let x = seq![from] + w;
        assert(is_route(ms, x, from, to));
    }
}

/// A step before a way makes a way.
proof fn lemma_longer_way(
    ms: Seq<(Seq<char>, SchemaMigration)>,
    w: Seq<Seq<char>>,
    from: Seq<char>,
    via: Seq<char>,
    to: Seq<char>,
)
    requires
        is_edge(ms, from, via),
        is_route(ms, w, via, to),
    ensures
        is_route(ms, seq![from] + w, from, to),
{
    let x = seq![from] + w;
    assert forall|i: int| 0 <= i < x.len() - 1 implies #[trigger] is_edge(ms, x[i], x[i + 1]) by {
        if i > 0 {
            assert(is_edge(ms, w[i - 1], w[i - 1 + 1]));
        } else {
            assert(x[1] == w[0]);
        }
    }
    assert(x.last() == w.last());
}

/// Whether, whichever shortest way of so many steps is taken between the
/// versions, its mappings can be carried out.
fn are_ways_open(
    graph: &SchemaMigrationGraph,
    from: &str,
    to: &str,
    spec: &Json,
    way: &Vec<String>,
    steps: usize,
) -> (r: bool)
    requires
        is_shortest_route(graph.migrations.list(), views(way@), from@, to@),
        way@.len() == steps + 1,
    ensures
        r == ways_are_open(graph.migrations.list(), from@, to@, spec@),
    decreases steps,
{
    let ghost ms = graph.migrations.list();
    let ghost shortest = views(way@);
    assert(shortest.len() == steps + 1);
    if steps == 0 {
        assert forall|p: Seq<Seq<char>>| #[trigger]
            is_shortest_route(ms, p, from@, to@) implies can_convert(
            ms,
            p,
            spec@,
            p.len() - 1,
        ) by {
            assert(p.len() <= shortest.len());
        }
        return true;
    }
    let n = graph.migrations.len();
    let mut i: usize = 0;
    while i < n
        invariant
            i <= n,
            n == ms.len(),
            ms == graph.migrations.list(),
            steps > 0,
            shortest.len() == steps + 1,
            is_shortest_route(ms, shortest, from@, to@),
            forall|p: Seq<Seq<char>>, j: int|
                0 <= j < i && leads((#[trigger] ms[j]).1, from@, p[1])
                    && #[trigger] is_shortest_route(ms, p, from@, to@) ==> can_convert(
                    ms,
                    p,
                    spec@,
                    p.len() - 1,
                ),
        decreases n - i,
    {
        let m = graph.migrations.value_at(i);
        let via = &m.to_version;
        if same(&m.from_version, from) {
            assert(leads(ms[i as int].1, from@, via@));
            assert(is_edge(ms, from@, via@));
            if let Ok(rest) = find_conversion_path(graph, via, to) {
                let ghost others = views(rest@);
                assert(others.len() == rest@.len());
                if rest.len() == steps {
                    let ghost p = seq![from@] + others;
                    proof {
                        lemma_longer_way(ms, others, from@, via@, to@);
                        assert(is_shortest_route(ms, p, from@, to@));
                        lemma_edge_is_found(ms, from@, via@, 0);
                        lemma_first_step(ms, p, spec@, p.len() - 1);
                        assert(p.subrange(1, p.len() as int) =~= others);
                    }
                    let next = match find_rules(&graph.migrations, from, via) {
                        Some(rules) => {
                            if !can_apply_mappings(spec, rules) {
                                assert(!can_convert(ms, p, spec@, p.len() - 1));
                                return false;
                            }
                            apply_field_mappings(spec.clone(), rules)
                        },
                        None => spec.clone(),
                    };
                    assert(next@ == stepped(ms, from@, via@, spec@));
                    if !are_ways_open(graph, via, to, &next, &rest, steps - 1) {
                        proof {
                            let q = choose|q: Seq<Seq<char>>| #[trigger]
                                is_shortest_route(ms, q, via@, to@) && !can_convert(
                                    ms,
                                    q,
                                    next@,
                                    q.len() - 1,
                                );
                            let x = seq![from@] + q;
                            lemma_longer_way(ms, q, from@, via@, to@);
                            assert(q.len() == others.len());
                            assert(is_shortest_route(ms, x, from@, to@));
                            assert(x.subrange(1, x.len() as int) =~= q);
                            lemma_first_step(ms, x, spec@, x.len() - 1);
                            assert(!can_convert(ms, x, spec@, x.len() - 1));
                        }
                        return false;
                    }
                    proof {
                        assert forall|p: Seq<Seq<char>>|
                            p[1] == via@ && #[trigger] is_shortest_route(
                                ms,
                                p,
                                from@,
                                to@,
                            ) implies can_convert(ms, p, spec@, p.len() - 1) by {
                            assert(p.len() == shortest.len());
                            lemma_shorter_way(ms, p, from@, to@);
                            lemma_first_step(ms, p, spec@, p.len() - 1);
                        }
                    }
                } else {
                    proof {
                        assert forall|p: Seq<Seq<char>>|
                            p[1] == via@ implies !#[trigger] is_shortest_route(
                            ms,
                            p,
                            from@,
                            to@,
                        ) by {
                            if is_shortest_route(ms, p, from@, to@) {
                                assert(p.len() == shortest.len());
                                lemma_shorter_way(ms, p, from@, to@);
                                let q = p.subrange(1, p.len() as int);
                                assert(is_route(ms, q, via@, to@));
                                assert(is_route(ms, others, via@, to@));
                                assert(q.len() == others.len());
                            }
                        }
                    }
                }
            } else {
                proof {
                    assert forall|p: Seq<Seq<char>>|
                        p[1] == via@ implies !#[trigger] is_shortest_route(ms, p, from@, to@) by {
                        if is_shortest_route(ms, p, from@, to@) {
                            assert(p.len() == shortest.len());
                            lemma_shorter_way(ms, p, from@, to@);
                            let q = p.subrange(1, p.len() as int);
                            assert(is_route(ms, q, via@, to@));
                        }
                    }
                }
            }
        }
        i = i + 1;
    }
    proof {
        assert forall|p: Seq<Seq<char>>| #[trigger]
            is_shortest_route(ms, p, from@, to@) implies can_convert(
            ms,
            p,
            spec@,
            p.len() - 1,
        ) by {
            assert(p.len() == shortest.len());
            lemma_shorter_way(ms, p, from@, to@);
            let j = choose|j: int| 0 <= j < ms.len() && leads((#[trigger] ms[j]).1, from@, p[1]);
            assert(leads(ms[j].1, from@, p[1]));
        }
    }
    true
}

impl SchemaVersionConverter {
    pub open spec fn record(&self) -> Seq<Conversion> {
        self.audit_buffer.kept()
    }

    pub open spec fn room(&self) -> int {
        self.audit_buffer.room()
    }

    pub fn new(capacity: usize) -> (r: Self)
        ensures
            r.graphs.list().len() == 0,
            r.record() == Seq::<Conversion>::empty(),
            r.room() == capacity,
    {
        SchemaVersionConverter {
            graphs: StrMap::new(),
            audit_buffer: ConversionAuditRingBuffer::new(capacity),
        }
    }

    /// Enters the migrations of a kind, in place of those that it had.
    pub fn register_migration_graph(&mut self, graph: SchemaMigrationGraph) -> (r: Result<
        (),
        Error,
    >)
        ensures
            final(self).record() == old(self).record(),
            final(self).room() == old(self).room(),
            (match graph_error(graph) {
                Some((step, message)) => r is Err && is_step_error(r->Err_0, step, message)
                    && final(self).graphs == old(self).graphs,
                None => r is Ok && final(self).graphs.list() == with_entry(
                    old(self).graphs.list(),
                    graph.crd_kind@,
                    graph,
                ),
            }),
    {
        match validate_migration_graph(&graph) {
            Ok(()) => {},
            Err(e) => return Err(e),
        }
        self.graphs.insert(graph.crd_kind.clone(), graph);
        Ok(())
    }

    /// Whether a resource can be converted from one version to another, or is
    /// refused before that begins.
    pub fn can_convert_resource(
        &self,
        crd_kind: &str,
        from_version: &str,
        to_version: &str,
        spec: &Json,
    ) -> (r: bool)
        ensures
            r == is_convertible(
                self.graphs.list(),
                crd_kind@,
                from_version@,
                to_version@,
                spec@,
            ),
    {
        let graph = match self.graphs.get(crd_kind) {
            Some(g) => g,
            None => return true,
        };
        let knows_from = has(&graph.supported_versions, from_version);
        let knows_to = has(&graph.supported_versions, to_version);
        if !knows_from || !knows_to {
            return true;
        }
        match find_conversion_path(graph, from_version, to_version) {
            Ok(path) => {
                assert(views(path@).len() == path@.len());
                are_ways_open(graph, from_version, to_version, spec, &path, path.len() - 1)
            },
            Err(_) => true,
        }
    }

    /// Converts a resource from one version to another at a given time.
    pub fn convert_at(
        &mut self,
        crd_kind: &str,
        resource_name: &str,
        namespace: &str,
        from_version: &str,
        to_version: &str,
        spec: Json,
        now: Timestamp,
    ) -> (r: Result<Json, Error>)
        requires
            is_convertible(
                old(self).graphs.list(),
                crd_kind@,
                from_version@,
                to_version@,
                spec@,
            ),
        ensures
            final(self).graphs == old(self).graphs,
            final(self).room() == old(self).room(),
            conversion_done(
                old(self).graphs.list(),
                old(self).record(),
                old(self).room(),
                final(self).record(),
                r,
                crd_kind@,
                resource_name@,
                namespace@,
                from_version@,
                to_version@,
                spec@,
                now,
            ),
    {
        let ghost start = spec@;
        let graph = match self.graphs.get(crd_kind) {
            Some(g) => g,
            None => return Err(step_error("find migration graph", "graph not found")),
        };
        let knows_from = has(&graph.supported_versions, from_version);
        if !knows_from {
            return Err(
                step_error("validate from_version", &cat2("Unknown version: ", from_version)),
            );
        }
        let knows_to = has(&graph.supported_versions, to_version);
        if !knows_to {
            return Err(step_error("validate to_version", &cat2("Unknown version: ", to_version)));
        }
        let path = match find_conversion_path(graph, from_version, to_version) {
            Ok(p) => p,
            Err(e) => return Err(e),
        };
        let ghost ms = graph.migrations.list();
        let ghost p = views(path@);
        let current = convert_along(graph, &path, spec);
        let event = ConversionAuditEvent {
            crd_kind: crd_kind.to_string(),
            resource_name: resource_name.to_string(),
            namespace: namespace.to_string(),
            from_version: from_version.to_string(),
            to_version: to_version.to_string(),
            success: true,
            error_message: None,
            timestamp: now,
            spec_hash: write_debug(&current.to_text()),
        };
        self.audit_buffer.record(event);
        assert(is_shortest_route(ms, p, from_version@, to_version@));
        Ok(current)
    }

    /// Converts a resource from one version to another.
    pub fn convert(
        &mut self,
        crd_kind: &str,
        resource_name: &str,
        namespace: &str,
        from_version: &str,
        to_version: &str,
        spec: Json,
    ) -> (r: Result<Json, Error>)
        requires
            is_convertible(
                old(self).graphs.list(),
                crd_kind@,
                from_version@,
                to_version@,
                spec@,
            ),
        ensures
            final(self).graphs == old(self).graphs,
            final(self).room() == old(self).room(),
            exists|now: Timestamp| #[trigger]
                conversion_done(
                    old(self).graphs.list(),
                    old(self).record(),
                    old(self).room(),
                    final(self).record(),
                    r,
                    crd_kind@,
                    resource_name@,
                    namespace@,
                    from_version@,
                    to_version@,
                    spec@,
                    now,
                ),
    {
        let now = Timestamp::now();
        self.convert_at(
            crd_kind,
            resource_name,
            namespace,
            from_version,
            to_version,
            spec,
            now,
        )
    }

    /// All conversions on record.
    pub fn get_audit_events(&self) -> (r: Vec<ConversionAuditEvent>)
        ensures
            conversions(r@) == self.record(),
    {
        self.audit_buffer.get_events()
    }
}

/// Converts a document along a path of the graph.
fn convert_along(graph: &SchemaMigrationGraph, path: &Vec<String>, spec: Json) -> (r: Json)
    requires
        is_path(graph.migrations.list(), views(path@)),
        can_convert(graph.migrations.list(), views(path@), spec@, path@.len() - 1),
    ensures
        r@ == converted(graph.migrations.list(), views(path@), spec@, path@.len() - 1),
{
    let ghost start = spec@;
    let ghost ms = graph.migrations.list();
    let ghost p = views(path@);
    let mut current = spec;
    let mut i: usize = 0;
    while i < path.len() - 1
        invariant
            i < path.len(),
            ms == graph.migrations.list(),
            p == views(path@),
            is_path(ms, p),
            can_convert(ms, p, start, path@.len() - 1),
            current@ == converted(ms, p, start, i as int),
        decreases path@.len() - i,
    {
        proof {
            lemma_can_convert_prefix(ms, p, start, i as int + 1, path@.len() - 1);
            assert(is_edge(ms, p[i as int], p[i as int + 1]));
            lemma_edge_is_found(ms, p[i as int], p[i as int + 1], 0);
            let j = choose|j: int|
                0 <= j < ms.len() && leads((#[trigger] ms[j]).1, p[i as int], p[i as int + 1]);
        }
        if let Some(rules) = find_rules(&graph.migrations, &path[i], &path[i + 1]) {
            current = apply_field_mappings(current, rules);
        }
        i = i + 1;
    }
    current
}

proof fn lemma_can_convert_prefix(
    ms: Seq<(Seq<char>, SchemaMigration)>,
    p: Seq<Seq<char>>,
    d: Doc,
    m: int,
    n: int,
)
    requires
        0 <= m <= n,
        can_convert(ms, p, d, n),
    ensures
        can_convert(ms, p, d, m),
    decreases n,
{
    if m < n {
        lemma_can_convert_prefix(ms, p, d, m, n - 1);
    }
}

/// Between a version and itself there is nothing to convert.
pub proof fn law_same_version_is_kept(
    ms: Seq<(Seq<char>, SchemaMigration)>,
    v: Seq<char>,
    d: Doc,
)
    ensures
        is_shortest_route(ms, seq![v], v, v),
        converted(ms, seq![v], d, 0) == d,
        forall|p: Seq<Seq<char>>| #[trigger] is_shortest_route(ms, p, v, v) ==> p == seq![v],
{
    assert(is_route(ms, seq![v], v, v));
    assert forall|p: Seq<Seq<char>>| #[trigger] is_shortest_route(ms, p, v, v) implies p == seq![
        v,
    ] by {
        assert(p =~= seq![v]);
    }
}

/// A conversion that is not known is refused, and one between unknown versions
/// too. Nothing goes on record then.
pub proof fn law_unknown_conversion_is_refused(
    graphs: Seq<(Seq<char>, SchemaMigrationGraph)>,
    record: Seq<Conversion>,
    room: int,
    after: Seq<Conversion>,
    r: Result<Json, Error>,
    kind: Seq<char>,
    name: Seq<char>,
    namespace: Seq<char>,
    from: Seq<char>,
    to: Seq<char>,
    spec: Doc,
    now: Timestamp,
)
    requires
        conversion_done(
            graphs,
            record,
            room,
            after,
            r,
            kind,
            name,
            namespace,
            from,
            to,
            spec,
            now,
        ),
        version_error(graphs, kind, from, to) is Some || forall|p: Seq<Seq<char>>|
            !#[trigger] is_route(entry(graphs, kind)->0.migrations.list(), p, from, to),
    ensures
        r is Err,
        after == record,
{
}

/// Every conversion that was carried out goes on record, as the newest.
pub proof fn law_conversion_goes_on_record(
    graphs: Seq<(Seq<char>, SchemaMigrationGraph)>,
    record: Seq<Conversion>,
    room: int,
    after: Seq<Conversion>,
    r: Result<Json, Error>,
    kind: Seq<char>,
    name: Seq<char>,
    namespace: Seq<char>,
    from: Seq<char>,
    to: Seq<char>,
    spec: Doc,
    now: Timestamp,
)
    requires
        conversion_done(
            graphs,
            record,
            room,
            after,
            r,
            kind,
            name,
            namespace,
            from,
            to,
            spec,
            now,
        ),
        r is Ok,
        0 < room,
        record.len() <= room,
    ensures
        after.len() > 0,
        after.last() == success(kind, name, namespace, from, to, now, r->Ok_0@),
{
    law_newest_is_on_record(
        record,
        success(kind, name, namespace, from, to, now, r->Ok_0@),
        room,
    );
}

proof fn lemma_migration_error(
    supported: Seq<String>,
    ms: Seq<(Seq<char>, SchemaMigration)>,
    i: int,
)
    requires
        0 <= i <= ms.len(),
    ensures
        migration_error(supported, ms, i) is None <==> forall|j: int|
            i <= j < ms.len() ==> lists(supported, (#[trigger] ms[j]).1.from_version@) && lists(
                supported,
                ms[j].1.to_version@,
            ),
    decreases ms.len() - i,
{
    if i < ms.len() {
        lemma_migration_error(supported, ms, i + 1);
        if migration_error(supported, ms, i) is None {
            assert forall|j: int| i <= j < ms.len() implies lists(
                supported,
                (#[trigger] ms[j]).1.from_version@,
            ) && lists(supported, ms[j].1.to_version@) by {
                if j > i {
                    assert(lists(supported, ms[j].1.from_version@));
                }
            }
        } else if lists(supported, ms[i].1.from_version@) && lists(
            supported,
            ms[i].1.to_version@,
        ) {
            assert(migration_error(supported, ms, i + 1) is Some);
        }
    }
}

/// A graph is accepted just where it supports the version in which resources
/// are stored, and both versions of every migration.
pub proof fn law_graph_names_only_supported_versions(g: SchemaMigrationGraph)
    ensures
        graph_error(g) is None <==> lists(g.supported_versions@, g.current_storage_version@)
            && forall|j: int|
            0 <= j < g.migrations.list().len() ==> lists(
                g.supported_versions@,
                (#[trigger] g.migrations.list()[j]).1.from_version@,
            ) && lists(g.supported_versions@, g.migrations.list()[j].1.to_version@),
{
    lemma_migration_error(g.supported_versions@, g.migrations.list(), 0);
}

/// A conversion is refused before it begins just where its kind has no graph or
/// one of the versions is not supported.
pub proof fn law_known_versions_are_converted(
    graphs: Seq<(Seq<char>, SchemaMigrationGraph)>,
    kind: Seq<char>,
    from: Seq<char>,
    to: Seq<char>,
)
    ensures
        version_error(graphs, kind, from, to) is None <==> entry(graphs, kind) is Some && lists(
            entry(graphs, kind)->0.supported_versions@,
            from,
        ) && lists(entry(graphs, kind)->0.supported_versions@, to),
{
}

/// Where one migration alone leads from a version to another, every shortest way
/// is that single step, and the resource becomes what the rules of just that
/// migration make of it.
pub proof fn law_direct_migration_is_taken(
    ms: Seq<(Seq<char>, SchemaMigration)>,
    i: int,
    from: Seq<char>,
    to: Seq<char>,
    p: Seq<Seq<char>>,
    d: Doc,
)
    requires
        0 <= i < ms.len(),
        from != to,
        ms[i].1.from_version@ == from,
        ms[i].1.to_version@ == to,
        forall|j: int|
            0 <= j < ms.len() && j != i ==> !((#[trigger] ms[j]).1.from_version@ == from
                && ms[j].1.to_version@ == to),
        is_shortest_route(ms, p, from, to),
    ensures
        p == seq![from, to],
        converted(ms, p, d, p.len() - 1) == mapped_by(
            d,
            ms[i].1.conversion_rules@,
            ms[i].1.conversion_rules@.len() as int,
        ),
{
    let direct = seq![from, to];
    assert(leads(ms[i].1, from, to));
    assert(is_edge(ms, direct[0], direct[1]));
    assert(is_route(ms, direct, from, to));
    assert(p.len() <= 2);
    assert(p =~= direct);
    lemma_edge_is_found(ms, from, to, 0);
    assert(migration_from(ms, from, to, 0) == Some(i));
    assert(converted(ms, p, d, 0) == d);
}

/// A conversion along a way is the conversion along its beginning, followed by
/// that along the rest.
pub proof fn law_conversion_passes_each_version(
    ms: Seq<(Seq<char>, SchemaMigration)>,
    p: Seq<Seq<char>>,
    q: Seq<Seq<char>>,
    d: Doc,
    n: int,
)
    requires
        p.len() > 0,
        0 <= n <= q.len(),
    ensures
        converted(ms, p + q, d, p.len() - 1 + n) == converted(
            ms,
            seq![p.last()] + q,
            converted(ms, p, d, p.len() - 1),
            n,
        ),
    decreases n,
{
    let all = p + q;
    let rest = seq![p.last()] + q;
    if n > 0 {
        law_conversion_passes_each_version(ms, p, q, d, n - 1);
        let m = p.len() - 1 + n;
        assert(all[m] == q[n - 1]);
        assert(rest[n] == q[n - 1]);
        assert(all[m - 1] == rest[n - 1]);
    } else {
        lemma_converted_prefix(ms, p, q, d, p.len() - 1);
    }
}

proof fn lemma_converted_prefix(
    ms: Seq<(Seq<char>, SchemaMigration)>,
    p: Seq<Seq<char>>,
    q: Seq<Seq<char>>,
    d: Doc,
    n: int,
)
    requires
        0 <= n < p.len(),
    ensures
        converted(ms, p + q, d, n) == converted(ms, p, d, n),
    decreases n,
{
    if n > 0 {
        lemma_converted_prefix(ms, p, q, d, n - 1);
        assert((p + q)[n] == p[n]);
        assert((p + q)[n - 1] == p[n - 1]);
    }
}

/// What goes on record of a conversion names the resource, both versions and the
/// time, and says that it succeeded.
pub proof fn law_record_names_the_conversion(
    kind: Seq<char>,
    name: Seq<char>,
    namespace: Seq<char>,
    from: Seq<char>,
    to: Seq<char>,
    now: Timestamp,
    d: Doc,
)
    ensures
        ({
            let c = success(kind, name, namespace, from, to, now, d);
            &&& c.crd_kind == kind && c.resource_name == name && c.namespace == namespace
            &&& c.from_version == from && c.to_version == to
            &&& c.success && c.error_message is None
            &&& c.timestamp == now
        }),
{
}

/// An error of a step tells which step failed and why, and no other.
pub proof fn law_step_error_tells_one_step(
    e: Error,
    step: Seq<char>,
    message: Seq<char>,
    other_step: Seq<char>,
    other_message: Seq<char>,
)
    requires
        is_step_error(e, step, message),
    ensures
        e is ValidationStep,
        is_step_error(e, other_step, other_message) <==> other_step == step && other_message
            == message,
{
}

} // verus!
