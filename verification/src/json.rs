//! JSON documents: the values that schemas, snapshots and manifests are
//! made of.

use vstd::prelude::*;
use crate::str_map::{
    StrMap, ascending, entry, lemma_read_after_remove, lemma_read_after_write, lemma_slot,
    lemma_with_entry_ascending, lemma_without_entry_ascending, pairs, slot, slot_from, with_entry,
    without_entry,
};
use crate::text::{same, signed_decimal, signed_decimal_text, views};

verus! {

/// A JSON value. The members of an object stand in the order of their keys; a
/// number is kept as the text in which it is written.
#[derive(Debug)]
pub enum Json {
    Null,
    Bool(bool),
    Number(String),
    Text(String),
    List(Vec<Json>),
    Object(StrMap<Json>),
}

/// What a JSON value says.
pub ghost enum Doc {
    Null,
    Bool(bool),
    Number(Seq<char>),
    Text(Seq<char>),
    List(Seq<Doc>),
    Object(Seq<(Seq<char>, Doc)>),
}

impl Doc {
    pub open spec fn object() -> Doc {
        Doc::Object(Seq::empty())
    }

    pub open spec fn list() -> Doc {
        Doc::List(Seq::empty())
    }

    pub open spec fn text(s: Seq<char>) -> Doc {
        Doc::Text(s)
    }

    /// A list of texts.
    pub open spec fn texts(v: Seq<Seq<char>>) -> Doc {
        Doc::List(Seq::new(v.len(), |i: int| Doc::Text(v[i])))
    }

    pub open spec fn number(n: int) -> Doc {
        Doc::Number(signed_decimal(n))
    }

    /// The object with the member `k` set to `v`.
    #[verifier::opaque]
    pub open spec fn with(self, k: Seq<char>, v: Doc) -> Doc {
        match self {
            Doc::Object(s) => Doc::Object(with_entry(s, k, v)),
            _ => self,
        }
    }

    /// The object with the member `k` set to `v`, where there is a `v`.
    pub open spec fn with_some(self, k: Seq<char>, v: Option<Doc>) -> Doc {
        match v {
            Some(d) => self.with(k, d),
            None => self,
        }
    }

    /// The object without the member `k`.
    pub open spec fn without(self, k: Seq<char>) -> Doc {
        match self {
            Doc::Object(s) => Doc::Object(without_entry(s, k)),
            _ => self,
        }
    }

    /// The list with `v` behind its last item.
    pub open spec fn and(self, v: Doc) -> Doc {
        match self {
            Doc::List(s) => Doc::List(s.push(v)),
            _ => self,
        }
    }

    /// The member `k` of an object.
    pub open spec fn member(self, k: Seq<char>) -> Option<Doc> {
        match self {
            Doc::Object(s) => entry(s, k),
            _ => None,
        }
    }

    /// The members of every object stand in ascending order of their keys.
    pub open spec fn in_order(self) -> bool
        decreases self,
    {
        match self {
            Doc::List(s) => forall|i: int| 0 <= i < s.len() ==> (#[trigger] s[i]).in_order(),
            Doc::Object(s) => {
                &&& ascending(s)
                &&& forall|i: int| 0 <= i < s.len() ==> (#[trigger] s[i]).1.in_order()
            },
            _ => true,
        }
    }
}

/// What each value of a list says.
pub open spec fn docs(v: Seq<Json>) -> Seq<Doc>
    decreases v,
{
    Seq::new(v.len(), |i: int| if 0 <= i < v.len() { doc(v[i]) } else { Doc::Null })
}

/// What each member of an object says.
pub open spec fn members(v: Seq<(String, Json)>) -> Seq<(Seq<char>, Doc)>
    decreases v,
{
    Seq::new(
        v.len(),
        |i: int| if 0 <= i < v.len() { (v[i].0@, doc(v[i].1)) } else { (Seq::empty(), Doc::Null) },
    )
}

pub open(crate) spec fn doc(j: Json) -> Doc
    decreases j,
{
    match j {
        Json::Null => Doc::Null,
        Json::Bool(b) => Doc::Bool(b),
        Json::Number(s) => Doc::Number(s@),
        Json::Text(s) => Doc::Text(s@),
        Json::List(v) => Doc::List(docs(v@)),
        Json::Object(m) => Doc::Object(members(m.entries@)),
    }
}

/// Entries with the same keys give a key the same place.
proof fn lemma_same_slot<V, W>(
    s: Seq<(Seq<char>, V)>,
    t: Seq<(Seq<char>, W)>,
    k: Seq<char>,
    i: int,
)
    requires
        0 <= i,
        s.len() == t.len(),
        forall|j: int| 0 <= j < s.len() ==> #[trigger] s[j].0 == (#[trigger] t[j]).0,
    ensures
        slot_from(s, k, i) == slot_from(t, k, i),
    decreases s.len() - i,
{
    if i < s.len() {
        assert(s[i].0 == t[i].0);
        lemma_same_slot(s, t, k, i + 1);
    }
}

pub proof fn lemma_members_slot(v: Seq<(String, Json)>, k: Seq<char>)
    ensures
        slot(members(v), k) == slot(pairs(v), k),
        0 <= slot(pairs(v), k) <= v.len(),
{
    lemma_same_slot(members(v), pairs(v), k, 0);
    lemma_slot(pairs(v), k);
}

impl View for Json {
    type V = Doc;

    open spec fn view(&self) -> Doc {
        doc(*self)
    }
}

impl Clone for Json {
    fn clone(&self) -> (r: Json)
        ensures
            r@ == self@,
        decreases self,
    {
        match self {
            Json::Null => Json::Null,
            Json::Bool(b) => Json::Bool(*b),
            Json::Number(s) => Json::Number(s.clone()),
            Json::Text(s) => Json::Text(s.clone()),
            Json::List(v) => {
                let mut w: Vec<Json> = Vec::new();
                let mut i: usize = 0;
                while i < v.len()
                    invariant
                        i <= v.len(),
                        w@.len() == i,
                        forall|j: int| 0 <= j < i ==> doc(#[trigger] w@[j]) == doc(v@[j]),
                        *self == Json::List(*v),
                    decreases v@.len() - i,
                {
                    assert(decreases_to!(*self => self->List_0@[i as int]));
                    let x = v[i].clone();
                    w.push(x);
                    i = i + 1;
                }
                assert(docs(w@) =~= docs(v@));
                Json::List(w)
            },
            Json::Object(m) => {
                let mut e: Vec<(String, Json)> = Vec::new();
                let mut i: usize = 0;
                while i < m.entries.len()
                    invariant
                        i <= m.entries.len(),
                        e@.len() == i,
                        forall|j: int|
                            0 <= j < i ==> (#[trigger] e@[j]).0 == m.entries@[j].0 && doc(e@[j].1)
                                == doc(m.entries@[j].1),
                        *self == Json::Object(*m),
                    decreases m.entries@.len() - i,
                {
                    assert(decreases_to!(*self => self->Object_0.entries@[i as int].1));
                    let x = m.entries[i].1.clone();
                    e.push((m.entries[i].0.clone(), x));
                    i = i + 1;
                }
                assert(members(e@) =~= members(m.entries@));
                proof {
                    use_type_invariant(m);
                    assert forall|a: int, b: int| 0 <= a < b < pairs(e@).len() implies
                        crate::str_map::precedes(#[trigger] pairs(e@)[a].0, #[trigger] pairs(e@)[b].0) by {
                        assert(m.list()[a].0 == pairs(e@)[a].0);
                        assert(m.list()[b].0 == pairs(e@)[b].0);
                    }
                }
                Json::Object(StrMap { entries: e })
            },
        }
    }
}

impl Json {
    pub fn object() -> (r: Json)
        ensures
            r@ == Doc::object(),
    {
        let m: StrMap<Json> = StrMap::new();
        assert(m.list().len() == 0);
        assert(members(m.entries@) =~= Seq::<(Seq<char>, Doc)>::empty());
        Json::Object(m)
    }

    pub fn list() -> (r: Json)
        ensures
            r@ == Doc::list(),
    {
        let v: Vec<Json> = Vec::new();
        assert(docs(v@) =~= Seq::<Doc>::empty());
        Json::List(v)
    }

    pub fn text(s: &str) -> (r: Json)
        ensures
            r@ == Doc::text(s@),
    {
        Json::Text(s.to_owned())
    }

    /// A list of texts.
    pub fn texts(v: &Vec<String>) -> (r: Json)
        ensures
            r@ == Doc::texts(views(v@)),
    {
        let mut l: Vec<Json> = Vec::new();
        let mut i: usize = 0;
        while i < v.len()
            invariant
                i <= v.len(),
                l@.len() == i,
                forall|j: int| 0 <= j < i ==> (#[trigger] l@[j])@ == Doc::Text(v@[j]@),
            decreases v@.len() - i,
        {
            l.push(Json::text(&v[i]));
            i = i + 1;
        }
        let r = Json::List(l);
        assert(docs(l@) =~= Seq::new(views(v@).len(), |i: int| Doc::Text(views(v@)[i])));
        r
    }

    pub fn number(n: i64) -> (r: Json)
        ensures
            r@ == Doc::number(n as int),
    {
        Json::Number(signed_decimal_text(n))
    }

    pub fn flag(b: bool) -> (r: Json)
        ensures
            r@ == Doc::Bool(b),
    {
        Json::Bool(b)
    }

    /// The object with the member `k` set to `v`; any other value as it is.
    pub fn with(self, k: &str, v: Json) -> (r: Json)
        ensures
            r@ == self@.with(k@, v@),
    {
        reveal(Doc::with);
        match self {
            Json::Object(m) => {
                let mut m = m;
                let ghost before = m.entries@;
                m.insert(k.to_owned(), v);
                proof {
                    lemma_members_slot(before, k@);
                    lemma_pairs_write(before, m.entries@, k@, v);
                }
                Json::Object(m)
            },
            other => other,
        }
    }

    /// The object with the member `k` set to `v`, where there is a `v`.
    pub fn with_some(self, k: &str, v: Option<Json>) -> (r: Json)
        ensures
            r@ == self@.with_some(
                k@,
                match v {
                    Some(j) => Some(j@),
                    None => None,
                },
            ),
    {
        match v {
            Some(j) => self.with(k, j),
            None => self,
        }
    }

    /// The object without the member `k`; any other value as it is.
    pub fn without(self, k: &str) -> (r: Json)
        ensures
            r@ == self@.without(k@),
    {
        match self {
            Json::Object(m) => {
                let mut m = m;
                let ghost before = m.entries@;
                let _ = m.remove(k);
                proof {
                    lemma_members_slot(before, k@);
                    let p = slot(pairs(before), k@);
                    let after = m.entries@;
                    if p < before.len() && pairs(before)[p].0 == k@ {
                        assert(pairs(after) == pairs(before).remove(p));
                        assert forall|i: int| 0 <= i < after.len() implies members(after)[i]
                            == #[trigger] members(before).remove(p)[i] by {
                            assert(pairs(after)[i] == pairs(before).remove(p)[i]);
                        }
                        assert(after.len() == pairs(after).len());
                        assert(members(after) =~= members(before).remove(p));
                    } else {
                        assert(after.len() == pairs(after).len());
                        assert forall|i: int| 0 <= i < after.len() implies members(after)[i]
                            == #[trigger] members(before)[i] by {
                            assert(pairs(after)[i] == pairs(before)[i]);
                        }
                        assert(members(after) =~= members(before));
                    }
                }
                Json::Object(m)
            },
            other => other,
        }
    }

    /// The list with `v` behind its last item; any other value as it is.
    pub fn and(self, v: Json) -> (r: Json)
        ensures
            r@ == self@.and(v@),
    {
        match self {
            Json::List(w) => {
                let mut w = w;
                let ghost before = w@;
                w.push(v);
                assert(docs(w@) =~= docs(before).push(v@));
                Json::List(w)
            },
            other => other,
        }
    }

    /// The member `k` of an object.
    pub fn member(&self, k: &str) -> (r: Option<&Json>)
        ensures
            (match r {
                Some(j) => self@.member(k@) == Some(j@),
                None => self@.member(k@) is None,
            }),
    {
        match self {
            Json::Object(m) => {
                proof {
                    lemma_members_slot(m.entries@, k@);
                }
                m.get(k)
            },
            _ => None,
        }
    }

    /// Whether two values say the same.
    pub fn equals(&self, other: &Json) -> (r: bool)
        ensures
            r == (self@ == other@),
        decreases self,
    {
        match (self, other) {
            (Json::Null, Json::Null) => true,
            (Json::Bool(a), Json::Bool(b)) => *a == *b,
            (Json::Number(a), Json::Number(b)) => same(a, b),
            (Json::Text(a), Json::Text(b)) => same(a, b),
            (Json::List(v), Json::List(w)) => {
                if v.len() != w.len() {
                    assert(docs(v@).len() != docs(w@).len());
                    return false;
                }
                let mut i: usize = 0;
                while i < v.len()
                    invariant
                        i <= v.len(),
                        v.len() == w.len(),
                        *self == Json::List(*v),
                        *other == Json::List(*w),
                        forall|j: int| 0 <= j < i ==> doc(#[trigger] v@[j]) == doc(w@[j]),
                    decreases v@.len() - i,
                {
                    assert(decreases_to!(*self => self->List_0@[i as int]));
                    if !v[i].equals(&w[i]) {
                        assert(docs(v@)[i as int] != docs(w@)[i as int]);
                        return false;
                    }
                    i = i + 1;
                }
                assert(docs(v@) =~= docs(w@));
                true
            },
            (Json::Object(m), Json::Object(n)) => {
                let v = &m.entries;
                let w = &n.entries;
                if v.len() != w.len() {
                    assert(members(v@).len() != members(w@).len());
                    return false;
                }
                let mut i: usize = 0;
                while i < v.len()
                    invariant
                        i <= v.len(),
                        v.len() == w.len(),
                        *self == Json::Object(*m),
                        *other == Json::Object(*n),
                        *v == m.entries,
                        *w == n.entries,
                        forall|j: int|
                            0 <= j < i ==> (#[trigger] v@[j]).0@ == w@[j].0@ && doc(v@[j].1) == doc(
                                w@[j].1,
                            ),
                    decreases v@.len() - i,
                {
                    assert(decreases_to!(*self => self->Object_0.entries@[i as int].1));
                    if !same(&v[i].0, &w[i].0) || !v[i].1.equals(&w[i].1) {
                        assert(members(v@)[i as int] != members(w@)[i as int]);
                        return false;
                    }
                    i = i + 1;
                }
                assert(members(v@) =~= members(w@));
                true
            },
            _ => false,
        }
    }
}

proof fn lemma_pairs_write(
    before: Seq<(String, Json)>,
    after: Seq<(String, Json)>,
    k: Seq<char>,
    v: Json,
)
    requires
        pairs(after) == with_entry(pairs(before), k, v),
    ensures
        members(after) == with_entry(members(before), k, doc(v)),
{
    lemma_members_slot(before, k);
    let p = slot(pairs(before), k);
    assert(after.len() == pairs(after).len());
    let want = with_entry(members(before), k, doc(v));
    assert forall|i: int| 0 <= i < after.len() implies members(after)[i] == #[trigger] want[i] by {
        assert(pairs(after)[i] == with_entry(pairs(before), k, v)[i]);
    }
    assert(members(after) =~= want);
}

/// A document is an object, with its members in ascending order of their keys.
pub open spec fn is_object(d: Doc) -> bool {
    d is Object && ascending(d->Object_0)
}

/// A member that was set is read back, and the others stay as they were.
pub proof fn law_member_read_after_write(d: Doc, k: Seq<char>, v: Doc, other: Seq<char>)
    requires
        is_object(d),
    ensures
        is_object(d.with(k, v)),
        d.with(k, v).member(other) == (if other == k {
            Some(v)
        } else {
            d.member(other)
        }),
{
    reveal(Doc::with);
    lemma_with_entry_ascending(d->Object_0, k, v);
    lemma_read_after_write(d->Object_0, k, v, other);
}

/// A member of an object that was set.
pub broadcast proof fn lemma_member_of_with(d: Doc, k: Seq<char>, v: Doc, other: Seq<char>)
    requires
        is_object(d),
    ensures
        #[trigger] d.with(k, v).member(other) == (if other == k {
            Some(v)
        } else {
            d.member(other)
        }),
{
    law_member_read_after_write(d, k, v, other);
}

/// An object stays one.
pub broadcast proof fn lemma_with_is_object(d: Doc, k: Seq<char>, v: Doc)
    requires
        is_object(d),
    ensures
        is_object(#[trigger] d.with(k, v)),
{
    law_member_read_after_write(d, k, v, k);
}

pub broadcast group group_members {
    lemma_member_of_with,
    lemma_with_is_object,
}

/// The member of a member.
pub open spec fn at2(d: Doc, a: Seq<char>, b: Seq<char>) -> Option<Doc> {
    match d.member(a) {
        Some(x) => x.member(b),
        None => None,
    }
}

/// The member of a member of a member.
pub open spec fn at3(d: Doc, a: Seq<char>, b: Seq<char>, c: Seq<char>) -> Option<Doc> {
    match at2(d, a, b) {
        Some(x) => x.member(c),
        None => None,
    }
}

/// A list has the item.
pub open spec fn has_item(d: Option<Doc>, item: Doc) -> bool {
    match d {
        Some(Doc::List(s)) => s.contains(item),
        _ => false,
    }
}

/// A member that was removed is gone, and the others stay as they were.
pub proof fn law_member_removed(d: Doc, k: Seq<char>, other: Seq<char>)
    requires
        is_object(d),
    ensures
        is_object(d.without(k)),
        d.without(k).member(other) == (if other == k {
            None
        } else {
            d.member(other)
        }),
{
    lemma_without_entry_ascending(d->Object_0, k);
    lemma_read_after_remove(d->Object_0, k, other);
}

/// A member of an object from which one was removed.
pub broadcast proof fn lemma_member_of_without(d: Doc, k: Seq<char>, other: Seq<char>)
    requires
        is_object(d),
    ensures
        #[trigger] d.without(k).member(other) == (if other == k {
            None
        } else {
            d.member(other)
        }),
{
    law_member_removed(d, k, other);
}

/// An object stays one.
pub broadcast proof fn lemma_without_is_object(d: Doc, k: Seq<char>)
    requires
        is_object(d),
    ensures
        is_object(#[trigger] d.without(k)),
{
    law_member_removed(d, k, k);
}

pub broadcast group group_removals {
    lemma_member_of_without,
    lemma_without_is_object,
}

/// A member is set where there is a value for it; a list gains its item at its
/// end.
pub proof fn law_optional_member_and_item(d: Doc, k: Seq<char>, v: Doc, l: Seq<Doc>)
    requires
        is_object(d),
    ensures
        d.with_some(k, Some(v)).member(k) == Some(v),
        d.with_some(k, None) == d,
        Doc::List(l).and(v) == Doc::List(l.push(v)),
{
    law_member_read_after_write(d, k, v, k);
}

} // verus!
