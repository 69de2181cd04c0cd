//! Fields of a document, by their paths.

use vstd::prelude::*;
use vstd::string::*;
use crate::json::{Doc, Json};
use crate::text::{Cut, cut, joined, law_pieces_make_the_text, pieces, views};

verus! {

/// What becomes of a field.
#[derive(Debug)]
pub enum TransformationType {
    /// It is copied to its new place.
    Identity,
    /// It is dropped.
    Drop,
    /// It gets a value, if it has none.
    Default(Json),
    /// Something else, which is not carried out.
    Custom(String),
}

/// How a field of one version becomes a field of another. A path names the
/// members on the way to a field, with full stops between them.
#[derive(Debug)]
pub struct FieldMapping {
    pub source_field: String,
    pub target_field: String,
    pub transformation: TransformationType,
}

/// The parts of a path.
pub open spec fn parts_of(path: Seq<char>) -> Seq<Seq<char>> {
    pieces(path, Cut::Dots)
}

/// The member `k`, or null where there is none.
pub open spec fn index(d: Doc, k: Seq<char>) -> Doc {
    match d.member(k) {
        Some(v) => v,
        None => Doc::Null,
    }
}

/// A document that can be given members.
pub open spec fn can_hold(d: Doc) -> bool {
    d is Object || d is Null
}

/// The document with the member `k` set; null becomes an object.
pub open spec fn put(d: Doc, k: Seq<char>, v: Doc) -> Doc {
    match d {
        Doc::Null => Doc::object().with(k, v),
        _ => d.with(k, v),
    }
}

/// The value at the parts of a path from `i` on; null counts as none.
pub open spec fn field_at(d: Doc, parts: Seq<Seq<char>>, i: int) -> Option<Doc>
    decreases parts.len() - i,
{
    if i < 0 || i >= parts.len() {
        Some(d)
    } else {
        let v = index(d, parts[i]);
        if v is Null {
            None
        } else {
            field_at(v, parts, i + 1)
        }
    }
}

/// The document with a value set at the parts of a path from `i` on. What
/// stands in the way and is no object is replaced by one.
pub open spec fn with_field(d: Doc, parts: Seq<Seq<char>>, i: int, v: Doc) -> Doc
    decreases parts.len() - i,
{
    if i < 0 || i >= parts.len() {
        d
    } else if i == parts.len() - 1 {
        put(d, parts[i], v)
    } else {
        let inner = index(d, parts[i]);
        let inner = if inner is Object {
            inner
        } else {
            Doc::object()
        };
        put(d, parts[i], with_field(inner, parts, i + 1, v))
    }
}

/// The document without the field at the parts of a path from `i` on. The
/// members on the way are entered where they are missing.
pub open spec fn without_field(d: Doc, parts: Seq<Seq<char>>, i: int) -> Doc
    decreases parts.len() - i,
{
    if i < 0 || i >= parts.len() {
        d
    } else if i == parts.len() - 1 {
        d.without(parts[i])
    } else {
        put(d, parts[i], without_field(index(d, parts[i]), parts, i + 1))
    }
}

/// Nothing but objects and nulls stands on the way to the field.
pub open spec fn is_open_way(d: Doc, parts: Seq<Seq<char>>, i: int) -> bool
    decreases parts.len() - i,
{
    if i < 0 || i >= parts.len() - 1 {
        true
    } else {
        can_hold(d) && is_open_way(index(d, parts[i]), parts, i + 1)
    }
}

/// The document after a mapping.
pub open spec fn mapped(d: Doc, m: FieldMapping) -> Doc {
    match m.transformation {
        TransformationType::Identity => match field_at(d, parts_of(m.source_field@), 0) {
            Some(v) => with_field(d, parts_of(m.target_field@), 0, v),
            None => d,
        },
        TransformationType::Drop => without_field(d, parts_of(m.source_field@), 0),
        TransformationType::Default(v) => if field_at(d, parts_of(m.target_field@), 0) is Some {
            d
        } else {
            with_field(d, parts_of(m.target_field@), 0, v@)
        },
        TransformationType::Custom(_) => d,
    }
}

/// The mapping can be carried out on the document.
pub open spec fn can_map(d: Doc, m: FieldMapping) -> bool {
    match m.transformation {
        TransformationType::Drop => is_open_way(d, parts_of(m.source_field@), 0),
        TransformationType::Default(_) => can_hold(d) || field_at(
            d,
            parts_of(m.target_field@),
            0,
        ) is Some,
        _ => true,
    }
}

/// The document after the first `n` mappings.
pub open spec fn mapped_by(d: Doc, rules: Seq<FieldMapping>, n: int) -> Doc
    decreases n,
{
    if n <= 0 {
        d
    } else {
        mapped(mapped_by(d, rules, n - 1), rules[n - 1])
    }
}

/// The first `n` mappings can be carried out, one after the other.
pub open spec fn can_map_by(d: Doc, rules: Seq<FieldMapping>, n: int) -> bool
    decreases n,
{
    if n <= 0 {
        true
    } else {
        can_map_by(d, rules, n - 1) && can_map(mapped_by(d, rules, n - 1), rules[n - 1])
    }
}

/// The value of a field; null counts as none.
pub fn get_field_value(spec: &Json, path: &str) -> (r: Option<Json>)
    ensures
        (match r {
            Some(v) => field_at(spec@, parts_of(path@), 0) == Some(v@),
            None => field_at(spec@, parts_of(path@), 0) is None,
        }),
{
    let parts = cut(path, Cut::Dots);
    let ghost names = views(parts@);
    let mut current = spec;
    let mut i: usize = 0;
    while i < parts.len()
        invariant
            i <= parts.len(),
            names == views(parts@),
            names == parts_of(path@),
            field_at(spec@, names, 0) == field_at(current@, names, i as int),
        decreases parts@.len() - i,
    {
        match current.member(&parts[i]) {
            Some(v) => match v {
                Json::Null => return None,
                _ => {
                    current = v;
                },
            },
            None => return None,
        }
        i = i + 1;
    }
    Some(current.clone())
}

/// Whether a field has a value other than null.
pub fn field_exists(spec: &Json, path: &str) -> (r: bool)
    ensures
        r == (field_at(spec@, parts_of(path@), 0) is Some),
{
    get_field_value(spec, path).is_some()
}

fn put_member(j: Json, k: &str, v: Json) -> (r: Json)
    ensures
        r@ == put(j@, k@, v@),
{
    match j {
        Json::Null => Json::object().with(k, v),
        _ => j.with(k, v),
    }
}

fn set_at(j: Json, parts: &Vec<String>, i: usize, v: Json) -> (r: Json)
    requires
        i < parts@.len(),
        can_hold(j@),
    ensures
        r@ == with_field(j@, views(parts@), i as int, v@),
    decreases parts@.len() - i,
{
    let k = &parts[i];
    assert(views(parts@)[i as int] == k@);
    if i == parts.len() - 1 {
        put_member(j, k, v)
    } else {
        let inner = match j.member(k) {
            Some(x) => match x {
                Json::Object(_) => x.clone(),
                _ => Json::object(),
            },
            None => Json::object(),
        };
        let inner = set_at(inner, parts, i + 1, v);
        put_member(j, k, inner)
    }
}

/// Sets a field of an object or of null.
pub fn set_field_value(spec: Json, path: &str, value: Json) -> (r: Json)
    requires
        can_hold(spec@),
    ensures
        r@ == with_field(spec@, parts_of(path@), 0, value@),
{
    let parts = cut(path, Cut::Dots);
    set_at(spec, &parts, 0, value)
}

fn remove_at(j: Json, parts: &Vec<String>, i: usize) -> (r: Json)
    requires
        i < parts@.len(),
        is_open_way(j@, views(parts@), i as int),
    ensures
        r@ == without_field(j@, views(parts@), i as int),
    decreases parts@.len() - i,
{
    let k = &parts[i];
    assert(views(parts@)[i as int] == k@);
    if i == parts.len() - 1 {
        j.without(k)
    } else {
        let inner = match j.member(k) {
            Some(x) => x.clone(),
            None => Json::Null,
        };
        let inner = remove_at(inner, parts, i + 1);
        put_member(j, k, inner)
    }
}

/// Removes a field, to which nothing but objects and nulls may lead.
pub fn remove_field_value(spec: Json, path: &str) -> (r: Json)
    requires
        is_open_way(spec@, parts_of(path@), 0),
    ensures
        r@ == without_field(spec@, parts_of(path@), 0),
{
    let parts = cut(path, Cut::Dots);
    remove_at(spec, &parts, 0)
}

/// Whether a document can be given members.
pub fn can_hold_fields(spec: &Json) -> (r: bool)
    ensures
        r == can_hold(spec@),
{
    match spec {
        Json::Object(_) => true,
        Json::Null => true,
        _ => false,
    }
}

/// Whether nothing but objects and nulls stands on the way to a field.
pub fn can_remove_field(spec: &Json, path: &str) -> (r: bool)
    ensures
        r == is_open_way(spec@, parts_of(path@), 0),
{
    let parts = cut(path, Cut::Dots);
    let ghost names = views(parts@);
    assert(names.len() == parts@.len());
    let nothing = Json::Null;
    let mut current = spec;
    let mut i: usize = 0;
    proof {
        lemma_cut_not_empty(path@, Cut::Dots, path@.len() as int);
    }
    while i < parts.len() - 1
        invariant
            i < parts.len(),
            names == views(parts@),
            names.len() == parts@.len(),
            names == parts_of(path@),
            nothing@ == Doc::Null,
            is_open_way(spec@, names, 0) == is_open_way(current@, names, i as int),
        decreases parts@.len() - i,
    {
        if !can_hold_fields(current) {
            return false;
        }
        assert(names[i as int] == parts@[i as int]@);
        current = match current.member(&parts[i]) {
            Some(v) => v,
            None => &nothing,
        };
        i = i + 1;
    }
    true
}

/// Whether a mapping can be carried out.
pub fn can_apply_mapping(spec: &Json, mapping: &FieldMapping) -> (r: bool)
    ensures
        r == can_map(spec@, *mapping),
{
    match &mapping.transformation {
        TransformationType::Drop => can_remove_field(spec, &mapping.source_field),
        TransformationType::Default(_) => can_hold_fields(spec) || field_exists(
            spec,
            &mapping.target_field,
        ),
        _ => true,
    }
}

/// Carries out a mapping.
pub fn apply_field_mapping(spec: Json, mapping: &FieldMapping) -> (r: Json)
    requires
        can_map(spec@, *mapping),
    ensures
        r@ == mapped(spec@, *mapping),
{
    match &mapping.transformation {
        TransformationType::Identity => match get_field_value(&spec, &mapping.source_field) {
            Some(v) => {
                assert(can_hold(spec@)) by {
                    lemma_cut_not_empty(mapping.source_field@, Cut::Dots, mapping.source_field@.len() as int);
                }
                set_field_value(spec, &mapping.target_field, v)
            },
            None => spec,
        },
        TransformationType::Drop => remove_field_value(spec, &mapping.source_field),
        TransformationType::Default(v) => {
            if field_exists(&spec, &mapping.target_field) {
                spec
            } else {
                set_field_value(spec, &mapping.target_field, v.clone())
            }
        },
        TransformationType::Custom(_) => spec,
    }
}

/// A text is cut into at least one piece.
pub proof fn lemma_cut_not_empty(s: Seq<char>, k: Cut, n: int)
    ensures
        crate::text::cut_upto(s, k, n).len() > 0,
    decreases n,
{
    if n > 0 {
        lemma_cut_not_empty(s, k, n - 1);
    }
}

/// Carries out mappings, one after the other.
pub fn apply_field_mappings(spec: Json, rules: &Vec<FieldMapping>) -> (r: Json)
    requires
        can_map_by(spec@, rules@, rules@.len() as int),
    ensures
        r@ == mapped_by(spec@, rules@, rules@.len() as int),
{
    let ghost start = spec@;
    let mut current = spec;
    let mut i: usize = 0;
    while i < rules.len()
        invariant
            i <= rules.len(),
            can_map_by(start, rules@, rules@.len() as int),
            current@ == mapped_by(start, rules@, i as int),
        decreases rules@.len() - i,
    {
        proof {
            lemma_can_map_prefix(start, rules@, i as int + 1, rules@.len() as int);
        }
        current = apply_field_mapping(current, &rules[i]);
        i = i + 1;
    }
    current
}

/// Whether mappings can be carried out, one after the other.
pub fn can_apply_mappings(spec: &Json, rules: &Vec<FieldMapping>) -> (r: bool)
    ensures
        r == can_map_by(spec@, rules@, rules@.len() as int),
{
    let mut current = spec.clone();
    let mut i: usize = 0;
    while i < rules.len()
        invariant
            i <= rules.len(),
            can_map_by(spec@, rules@, i as int),
            current@ == mapped_by(spec@, rules@, i as int),
        decreases rules@.len() - i,
    {
        if !can_apply_mapping(&current, &rules[i]) {
            proof {
                if can_map_by(spec@, rules@, rules@.len() as int) {
                    lemma_can_map_prefix(spec@, rules@, i as int + 1, rules@.len() as int);
                }
            }
            return false;
        }
        current = apply_field_mapping(current, &rules[i]);
        i = i + 1;
    }
    true
}

proof fn lemma_can_map_prefix(d: Doc, rules: Seq<FieldMapping>, m: int, n: int)
    requires
        0 <= m <= n,
        can_map_by(d, rules, n),
    ensures
        can_map_by(d, rules, m),
    decreases n,
{
    if m < n {
        lemma_can_map_prefix(d, rules, m, n - 1);
    }
}

/// A field that was set is read back, unless it was set to null.
pub proof fn law_field_read_after_write(d: Doc, parts: Seq<Seq<char>>, i: int, v: Doc)
    requires
        can_hold(d),
        d.in_order(),
        0 <= i < parts.len(),
        !(v is Null),
    ensures
        field_at(with_field(d, parts, i, v), parts, i) == Some(v),
    decreases parts.len() - i,
{
    reveal(Doc::with);
    let inner = index(d, parts[i]);
    let inner = if inner is Object {
        inner
    } else {
        Doc::object()
    };
    let value = if i == parts.len() - 1 {
        v
    } else {
        with_field(inner, parts, i + 1, v)
    };
    let s = match d {
        Doc::Object(s) => s,
        _ => Seq::<(Seq<char>, Doc)>::empty(),
    };
    crate::str_map::lemma_read_after_write(s, parts[i], value, parts[i]);
    assert(with_field(d, parts, i, v) == put(d, parts[i], value));
    assert(index(put(d, parts[i], value), parts[i]) == value);
    if i < parts.len() - 1 {
        assert(inner.in_order()) by {
            crate::str_map::lemma_slot(s, parts[i]);
        }
        law_field_read_after_write(inner, parts, i + 1, v);
        assert(!(value is Null));
    }
}

proof fn lemma_value_is_not_null(d: Doc, parts: Seq<Seq<char>>, i: int)
    requires
        0 <= i < parts.len(),
        field_at(d, parts, i) is Some,
    ensures
        !(field_at(d, parts, i)->0 is Null),
        d is Object,
    decreases parts.len() - i,
{
    if i < parts.len() - 1 {
        lemma_value_is_not_null(index(d, parts[i]), parts, i + 1);
    } else {
        assert(field_at(index(d, parts[i]), parts, i + 1) == Some(index(d, parts[i])));
    }
}

/// A field is a member of the field that the path without its last part leads
/// to.
pub proof fn law_field_is_a_member_of_its_parent(d: Doc, parts: Seq<Seq<char>>, k: Seq<char>)
    ensures
        field_at(d, parts.push(k), 0) == match field_at(d, parts, 0) {
            Some(parent) => match parent.member(k) {
                Some(v) => if v == Doc::Null {
                    None
                } else {
                    Some(v)
                },
                None => None,
            },
            None => None,
        },
{
    lemma_parent(d, parts, k, 0);
}

proof fn lemma_parent(d: Doc, parts: Seq<Seq<char>>, k: Seq<char>, i: int)
    requires
        0 <= i <= parts.len(),
    ensures
        field_at(d, parts.push(k), i) == match field_at(d, parts, i) {
            Some(parent) => match parent.member(k) {
                Some(v) => if v == Doc::Null {
                    None
                } else {
                    Some(v)
                },
                None => None,
            },
            None => None,
        },
    decreases parts.len() - i,
{
    let more = parts.push(k);
    if i < parts.len() {
        assert(more[i] == parts[i]);
        lemma_parent(index(d, parts[i]), parts, k, i + 1);
    } else {
        assert(more[i] == k);
        assert(field_at(index(d, k), more, i + 1) == Some(index(d, k)));
    }
}

/// A default leaves a document as it is where its field has a value already;
/// where it has none, the field has the default from then on.
pub proof fn law_default_fills_only_a_gap(d: Doc, m: FieldMapping)
    requires
        m.transformation is Default,
    ensures
        field_at(d, parts_of(m.target_field@), 0) is Some ==> mapped(d, m) == d,
        field_at(d, parts_of(m.target_field@), 0) is None && can_hold(d) && d.in_order() && !(
        m.transformation->Default_0@ is Null) ==> field_at(
            mapped(d, m),
            parts_of(m.target_field@),
            0,
        ) == Some(m.transformation->Default_0@),
{
    let parts = parts_of(m.target_field@);
    lemma_cut_not_empty(m.target_field@, Cut::Dots, m.target_field@.len() as int);
    let v = m.transformation->Default_0@;
    if field_at(d, parts, 0) is None && can_hold(d) && d.in_order() && !(v is Null) {
        law_field_read_after_write(d, parts, 0, v);
    }
}

/// What is carried over stands in its new place with the value of the old one;
/// where the old place has no value, nothing changes.
pub proof fn law_field_is_carried_over(d: Doc, m: FieldMapping)
    requires
        m.transformation is Identity,
        d.in_order(),
    ensures
        field_at(d, parts_of(m.source_field@), 0) is Some ==> field_at(
            mapped(d, m),
            parts_of(m.target_field@),
            0,
        ) == field_at(d, parts_of(m.source_field@), 0),
        field_at(d, parts_of(m.source_field@), 0) is None ==> mapped(d, m) == d,
{
    let from = parts_of(m.source_field@);
    let to = parts_of(m.target_field@);
    lemma_cut_not_empty(m.source_field@, Cut::Dots, m.source_field@.len() as int);
    lemma_cut_not_empty(m.target_field@, Cut::Dots, m.target_field@.len() as int);
    if field_at(d, from, 0) is Some {
        lemma_value_is_not_null(d, from, 0);
        law_field_read_after_write(d, to, 0, field_at(d, from, 0)->0);
    }
}

/// A field that is dropped has no value any more.
pub proof fn law_dropped_field_is_gone(d: Doc, m: FieldMapping)
    requires
        m.transformation is Drop,
        d.in_order(),
        can_map(d, m),
    ensures
        field_at(mapped(d, m), parts_of(m.source_field@), 0) is None,
{
    lemma_cut_not_empty(m.source_field@, Cut::Dots, m.source_field@.len() as int);
    lemma_dropped(d, parts_of(m.source_field@), 0);
}

proof fn lemma_dropped(d: Doc, parts: Seq<Seq<char>>, i: int)
    requires
        0 <= i < parts.len(),
        d.in_order(),
        is_open_way(d, parts, i),
    ensures
        field_at(without_field(d, parts, i), parts, i) is None,
    decreases parts.len() - i,
{
    reveal(Doc::with);
    let k = parts[i];
    let s = match d {
        Doc::Object(s) => s,
        _ => Seq::<(Seq<char>, Doc)>::empty(),
    };
    if i == parts.len() - 1 {
        crate::str_map::lemma_read_after_remove(s, k, k);
    } else {
        let inner = index(d, k);
        assert(inner.in_order()) by {
            crate::str_map::lemma_slot(s, k);
        }
        lemma_dropped(inner, parts, i + 1);
        let left = without_field(inner, parts, i + 1);
        crate::str_map::lemma_read_after_write(s, k, left, k);
        assert(index(put(d, k, left), k) == left);
    }
}

/// The member of a document in which a mapping writes.
pub open spec fn written_member(m: FieldMapping) -> Seq<char> {
    if m.transformation is Drop {
        parts_of(m.source_field@)[0]
    } else {
        parts_of(m.target_field@)[0]
    }
}

/// A mapping leaves all members as they are but the one that it writes in, and
/// what is not carried out leaves the whole document as it is.
pub proof fn law_mapping_leaves_other_members(d: Doc, m: FieldMapping, k: Seq<char>)
    requires
        d is Object,
        d.in_order(),
    ensures
        k != written_member(m) ==> mapped(d, m).member(k) == d.member(k),
        m.transformation is Custom ==> mapped(d, m) == d,
{
    reveal(Doc::with);
    let s = d->Object_0;
    let from = parts_of(m.source_field@);
    let to = parts_of(m.target_field@);
    lemma_cut_not_empty(m.source_field@, Cut::Dots, m.source_field@.len() as int);
    lemma_cut_not_empty(m.target_field@, Cut::Dots, m.target_field@.len() as int);
    if k != written_member(m) {
        if m.transformation is Drop {
            crate::str_map::lemma_read_after_remove(s, from[0], k);
            if from.len() > 1 {
                let left = without_field(index(d, from[0]), from, 1);
                crate::str_map::lemma_read_after_write(s, from[0], left, k);
            }
        } else {
            let v = if m.transformation is Identity {
                field_at(d, from, 0)->0
            } else {
                m.transformation->Default_0@
            };
            let inner = index(d, to[0]);
            let inner = if inner is Object {
                inner
            } else {
                Doc::object()
            };
            let value = if to.len() == 1 {
                v
            } else {
                with_field(inner, to, 1, v)
            };
            crate::str_map::lemma_read_after_write(s, to[0], value, k);
        }
    }
}

/// Mappings are carried out one after the other, in their order.
pub proof fn law_mappings_follow_one_another(
    d: Doc,
    first: Seq<FieldMapping>,
    second: Seq<FieldMapping>,
    n: int,
)
    requires
        0 <= n <= second.len(),
    ensures
        mapped_by(d, first + second, first.len() + n) == mapped_by(
            mapped_by(d, first, first.len() as int),
            second,
            n,
        ),
    decreases n,
{
    let both = first + second;
    if n > 0 {
        law_mappings_follow_one_another(d, first, second, n - 1);
        assert(both[first.len() + n - 1] == second[n - 1]);
    } else {
        lemma_prefix(d, first, second, first.len() as int);
    }
}

proof fn lemma_prefix(d: Doc, first: Seq<FieldMapping>, second: Seq<FieldMapping>, n: int)
    requires
        0 <= n <= first.len(),
    ensures
        mapped_by(d, first + second, n) == mapped_by(d, first, n),
    decreases n,
{
    if n > 0 {
        lemma_prefix(d, first, second, n - 1);
        assert((first + second)[n - 1] == first[n - 1]);
    }
}

/// The parts of a path, with full stops between them, are the path; no part
/// holds a full stop.
pub proof fn law_path_is_its_parts(path: Seq<char>)
    ensures
        joined(parts_of(path), "."@) == path,
        forall|i: int, j: int|
            0 <= i < parts_of(path).len() && 0 <= j < parts_of(path)[i].len()
                ==> #[trigger] parts_of(path)[i][j] != '.',
{
    reveal_strlit(".");
    assert("."@ =~= seq!['.']);
    law_pieces_make_the_text(path, Cut::Dots, '.');
}

/// The way to a field is open through what is not there yet, whatever its length,
/// and a way of a single name is always open; a value that is neither an object nor
/// null stops it.
pub proof fn law_way_is_open_until_a_value_stops_it(d: Doc, parts: Seq<Seq<char>>, i: int)
    requires
        0 <= i,
    ensures
        is_open_way(Doc::Null, parts, i),
        i >= parts.len() - 1 ==> is_open_way(d, parts, i),
        i < parts.len() - 1 && !(d is Object) && !(d is Null) ==> !is_open_way(d, parts, i),
        i < parts.len() - 1 && d is Object && d.member(parts[i]) is None ==> is_open_way(
            d,
            parts,
            i,
        ),
    decreases parts.len() - i,
{
    if i < parts.len() - 1 {
        law_way_is_open_until_a_value_stops_it(d, parts, i + 1);
        assert(Doc::Null.member(parts[i]) is None);
    }
}

} // verus!
