//! Whether a schema can take the place of another.

use vstd::prelude::*;
use vstd::string::*;
use crate::json::{Doc, Json, doc, docs, members};
use crate::json_text::compact;
use crate::str_map::{StrMap, entry, lemma_slot, slot};
use crate::schema_registry::protobuf::{declarations, protobuf_declarations};
use crate::text::{cat3, cat5, has, lists, views};

verus! {

/// In which direction a new version of a schema has to be compatible.
#[derive(Clone, Copy, Debug, PartialEq, Eq, Structural)]
pub enum CompatibilityMode {
    Backward,
    Forward,
    Full,
    /// Nothing is asked; written `None`.
    Unchecked,
}

impl Default for CompatibilityMode {
    fn default() -> (r: Self)
        ensures
            r == CompatibilityMode::Backward,
    {
        CompatibilityMode::Backward
    }
}

impl CompatibilityMode {
    pub open spec fn name(self) -> Seq<char> {
        match self {
            CompatibilityMode::Backward => "Backward"@,
            CompatibilityMode::Forward => "Forward"@,
            CompatibilityMode::Full => "Full"@,
            CompatibilityMode::Unchecked => "None"@,
        }
    }

    pub fn as_str(self) -> (r: &'static str)
        ensures
            r@ == self.name(),
    {
        match self {
            CompatibilityMode::Backward => "Backward",
            CompatibilityMode::Forward => "Forward",
            CompatibilityMode::Full => "Full",
            CompatibilityMode::Unchecked => "None",
        }
    }

    /// What held for the old schema has to hold for the new one.
    pub open spec fn looks_back(self) -> bool {
        self == CompatibilityMode::Backward || self == CompatibilityMode::Full
    }

    /// What holds for the new schema has to hold for the old one.
    pub open spec fn looks_ahead(self) -> bool {
        self == CompatibilityMode::Forward || self == CompatibilityMode::Full
    }
}

/// Whether a schema can take the place of another, and what speaks against it.
#[derive(Clone, Debug)]
pub struct CompatibilityResult {
    pub compatible: bool,
    pub mode: CompatibilityMode,
    pub issues: Vec<String>,
}

/// The properties of a schema.
pub open spec fn properties(d: Doc) -> Option<Seq<(Seq<char>, Doc)>> {
    match d.member("properties"@) {
        Some(Doc::Object(s)) => Some(s),
        _ => None,
    }
}

/// The properties of a schema are smaller than the schema.
pub proof fn lemma_properties_smaller(d: Doc)
    requires
        properties(d) is Some,
    ensures
        decreases_to!(d => properties(d)->0),
{
    let s = d->Object_0;
    let k = "properties"@;
    lemma_slot(s, k);
    let i = slot(s, k);
    assert(s[i].1 == d.member(k)->0);
    assert(decreases_to!(d => d->Object_0[i].1));
    assert(decreases_to!(d->Object_0[i].1 => d->Object_0[i].1->Object_0));
}

fn property_map(j: &Json) -> (r: Option<&StrMap<Json>>)
    ensures
        (match r {
            Some(m) => properties(j@) == Some(members(m.entries@)) && decreases_to!(*j => *m),
            None => properties(j@) is None,
        }),
{
    match j {
        Json::Object(o) => {
            proof {
                lemma_members_entry(o.entries@, "properties"@);
            }
            match o.get("properties") {
                Some(p) => match p {
                    Json::Object(m) => {
                        proof {
                            lemma_member_smaller(*j, *p, "properties"@);
                            assert(decreases_to!(*p => p->Object_0));
                        }
                        Some(m)
                    },
                    _ => None,
                },
                None => None,
            }
        },
        _ => None,
    }
}

/// The texts among the first `n` items.
pub open spec fn texts(l: Seq<Doc>, n: int) -> Seq<Seq<char>>
    decreases n,
{
    if n <= 0 {
        Seq::empty()
    } else {
        match l[n - 1] {
            Doc::Text(s) => texts(l, n - 1).push(s),
            _ => texts(l, n - 1),
        }
    }
}

/// The fields that a schema requires.
pub open spec fn required_fields(d: Doc) -> Seq<Seq<char>> {
    match d.member("required"@) {
        Some(Doc::List(l)) => texts(l, l.len() as int),
        _ => Seq::empty(),
    }
}

fn required(j: &Json) -> (r: Vec<String>)
    ensures
        views(r@) == required_fields(j@),
{
    let mut r: Vec<String> = Vec::new();
    assert(views(r@) =~= Seq::<Seq<char>>::empty());
    if let Some(Json::List(v)) = j.member("required") {
        let ghost l = docs(v@);
        let mut i: usize = 0;
        while i < v.len()
            invariant
                i <= v.len(),
                l == docs(v@),
                views(r@) == texts(l, i as int),
            decreases v@.len() - i,
        {
            if let Json::Text(s) = &v[i] {
                let ghost had = views(r@);
                r.push(s.clone());
                assert(views(r@) =~= had.push(s@));
            }
            i = i + 1;
        }
    }
    r
}

/// The properties lack a field.
pub open spec fn lacks(p: Option<Seq<(Seq<char>, Doc)>>, f: Seq<char>) -> bool {
    p is None || entry(p->0, f) is None
}

/// Required fields that are gone: those of the first `n` that the new schema
/// lacks.
pub open spec fn backward_issues(
    old_required: Seq<Seq<char>>,
    new: Option<Seq<(Seq<char>, Doc)>>,
    path: Seq<char>,
    n: int,
) -> Seq<Seq<char>>
    decreases n,
{
    if n <= 0 {
        Seq::empty()
    } else {
        let before = backward_issues(old_required, new, path, n - 1);
        let f = old_required[n - 1];
        if lacks(new, f) {
            before.push(
                "Backward incompatible: field '"@ + path + "."@ + f
                    + "' removed or not required"@,
            )
        } else {
            before
        }
    }
}

/// Fields that are newly required: those of the first `n` that the old schema
/// lacks or does not require.
pub open spec fn forward_issues(
    new_required: Seq<Seq<char>>,
    old: Option<Seq<(Seq<char>, Doc)>>,
    old_required: Seq<Seq<char>>,
    path: Seq<char>,
    n: int,
) -> Seq<Seq<char>>
    decreases n,
{
    if n <= 0 {
        Seq::empty()
    } else {
        let before = forward_issues(new_required, old, old_required, path, n - 1);
        let f = new_required[n - 1];
        if lacks(old, f) || !old_required.contains(f) {
            before.push(
                "Forward incompatible: required field '"@ + path + "."@ + f
                    + "' not in old schema"@,
            )
        } else {
            before
        }
    }
}

/// What speaks against the types of two schemas.
pub open spec fn type_issues(old: Doc, new: Doc, path: Seq<char>) -> Seq<Seq<char>> {
    match (old.member("type"@), new.member("type"@)) {
        (Some(o), Some(n)) => if o != n {
            Seq::empty().push(
                "Incompatible type at '"@ + path + "': "@ + compact(o) + " -> "@ + compact(n),
            )
        } else {
            Seq::empty()
        },
        _ => Seq::empty(),
    }
}

/// Values of an enumeration that are gone: those of the first `n`.
pub open spec fn gone_values(old: Seq<Doc>, new: Seq<Doc>, path: Seq<char>, n: int) -> Seq<Seq<char>>
    decreases n,
{
    if n <= 0 {
        Seq::empty()
    } else {
        let before = gone_values(old, new, path, n - 1);
        if new.contains(old[n - 1]) {
            before
        } else {
            before.push("Incompatible enum value removed at '"@ + path + "'"@)
        }
    }
}

/// The values of an enumeration.
pub open spec fn enum_of(d: Doc) -> Option<Seq<Doc>> {
    match d.member("enum"@) {
        Some(Doc::List(l)) => Some(l),
        _ => None,
    }
}

/// What speaks against the enumerations of two schemas.
pub open spec fn enum_issues(old: Doc, new: Doc, path: Seq<char>) -> Seq<Seq<char>> {
    match (enum_of(old), enum_of(new)) {
        (Some(o), Some(n)) => gone_values(o, n, path, o.len() as int),
        (Some(_), None) => Seq::empty().push("Incompatible enum removed at '"@ + path + "'"@),
        _ => Seq::empty(),
    }
}

/// What speaks against the requirements of two schemas.
pub open spec fn requirement_issues(
    old: Doc,
    new: Doc,
    path: Seq<char>,
    mode: CompatibilityMode,
) -> Seq<Seq<char>> {
    let back = if mode.looks_back() {
        backward_issues(
            required_fields(old),
            properties(new),
            path,
            required_fields(old).len() as int,
        )
    } else {
        Seq::empty()
    };
    let ahead = if mode.looks_ahead() {
        forward_issues(
            required_fields(new),
            properties(old),
            required_fields(old),
            path,
            required_fields(new).len() as int,
        )
    } else {
        Seq::empty()
    };
    back + ahead
}

/// What speaks against putting the schema `new` in the place of `old`, both
/// found at `path`. A mode has to be given in which anything is asked.
pub open spec fn json_issues(old: Doc, new: Doc, path: Seq<char>, mode: CompatibilityMode) -> Seq<
    Seq<char>,
>
    decreases old, 0int,
{
    proof {
        if properties(old) is Some {
            lemma_properties_smaller(old);
        }
    }
    let nested = match (properties(old), properties(new)) {
        (Some(o), Some(n)) => nested_issues(o, n, path, mode, o.len() as int),
        _ => Seq::empty(),
    };
    requirement_issues(old, new, path, mode) + nested + type_issues(old, new, path) + enum_issues(
        old,
        new,
        path,
    )
}

/// What speaks against those of the first `n` properties that both schemas
/// have.
pub open spec fn nested_issues(
    old: Seq<(Seq<char>, Doc)>,
    new: Seq<(Seq<char>, Doc)>,
    path: Seq<char>,
    mode: CompatibilityMode,
    n: int,
) -> Seq<Seq<char>>
    decreases old, n,
{
    if n <= 0 || n > old.len() {
        Seq::empty()
    } else {
        let before = nested_issues(old, new, path, mode, n - 1);
        match entry(new, old[n - 1].0) {
            Some(v) => before + json_issues(old[n - 1].1, v, path + "."@ + old[n - 1].0, mode),
            None => before,
        }
    }
}

/// Appends a text.
fn note(issues: &mut Vec<String>, s: String)
    ensures
        views(final(issues)@) == views(old(issues)@).push(s@),
{
    issues.push(s);
    assert(views(issues@) =~= views(old(issues)@).push(s@));
}

fn map_lacks(p: Option<&StrMap<Json>>, f: &str) -> (r: bool)
    ensures
        r == lacks(
            match p {
                Some(m) => Some(members(m.entries@)),
                None => None,
            },
            f@,
        ),
{
    match p {
        Some(m) => {
            proof {
                lemma_members_entry(m.entries@, f@);
            }
            !m.has(f)
        },
        None => true,
    }
}

/// The value of a key in the members of an object.
pub proof fn lemma_members_entry(v: Seq<(String, Json)>, k: Seq<char>)
    ensures
        entry(members(v), k) == match entry(crate::str_map::pairs(v), k) {
            Some(j) => Some(doc(j)),
            None => None,
        },
{
    crate::json::lemma_members_slot(v, k);
    lemma_slot(members(v), k);
}

/// A member of an object is smaller than the object.
proof fn lemma_member_smaller(j: Json, p: Json, k: Seq<char>)
    requires
        j is Object,
        entry(crate::str_map::pairs(j->Object_0.entries@), k) == Some(p),
    ensures
        decreases_to!(j => p),
{
    let s = crate::str_map::pairs(j->Object_0.entries@);
    lemma_slot(s, k);
    let i = slot(s, k);
    assert(decreases_to!(j => j->Object_0.entries@[i].1));
    assert(s[i].1 == j->Object_0.entries@[i].1);
}

fn note_requirements(
    prior: &Json,
    new: &Json,
    path: &str,
    mode: CompatibilityMode,
    issues: &mut Vec<String>,
)
    ensures
        views(final(issues)@) == views(old(issues)@) + requirement_issues(prior@, new@, path@, mode),
{
    let ghost start = views(issues@);
    let old_map = property_map(prior);
    let new_map = property_map(new);
    let old_required = required(prior);
    let new_required = required(new);
    let ghost want_back = views(old_required@);
    let ghost want_ahead = views(new_required@);
    let ghost back = Seq::<Seq<char>>::empty();
    let back_asked = mode == CompatibilityMode::Backward || mode == CompatibilityMode::Full;
    if back_asked {
        let mut i: usize = 0;
        assert(start + backward_issues(want_back, properties(new@), path@, 0) =~= start);
        while i < old_required.len()
            invariant
                i <= old_required.len(),
                want_back == views(old_required@),
                properties(new@) == match new_map {
                    Some(m) => Some(members(m.entries@)),
                    None => None,
                },
                views(issues@) == start + backward_issues(
                    want_back,
                    properties(new@),
                    path@,
                    i as int,
                ),
            decreases old_required@.len() - i,
        {
            if map_lacks(new_map, &old_required[i]) {
                note(
                    issues,
                    cat5(
                        "Backward incompatible: field '",
                        path,
                        ".",
                        &old_required[i],
                        "' removed or not required",
                    ),
                );
            }
            i = i + 1;
            assert(views(issues@) =~= start + backward_issues(
                want_back,
                properties(new@),
                path@,
                i as int,
            ));
        }
        proof {
            back = backward_issues(want_back, properties(new@), path@, want_back.len() as int);
        }
    }
    assert(views(issues@) =~= start + back);
    let ghost middle = views(issues@);
    let ahead_asked = mode == CompatibilityMode::Forward || mode == CompatibilityMode::Full;
    if ahead_asked {
        let mut i: usize = 0;
        assert(middle + forward_issues(want_ahead, properties(prior@), want_back, path@, 0)
            =~= middle);
        while i < new_required.len()
            invariant
                i <= new_required.len(),
                want_ahead == views(new_required@),
                want_back == views(old_required@),
                properties(prior@) == match old_map {
                    Some(m) => Some(members(m.entries@)),
                    None => None,
                },
                views(issues@) == middle + forward_issues(
                    want_ahead,
                    properties(prior@),
                    want_back,
                    path@,
                    i as int,
                ),
            decreases new_required@.len() - i,
        {
            let was_required = has(&old_required, &new_required[i]);
            let gone = map_lacks(old_map, &new_required[i]);
            let ghost f = want_ahead[i as int];
            let ghost had = forward_issues(want_ahead, properties(prior@), want_back, path@, i as int);
            proof {
                lemma_lists(old_required@, f);
                assert(was_required == want_back.contains(f));
                assert(gone == lacks(properties(prior@), f));
            }
            if gone || !was_required {
                note(
                    issues,
                    cat5(
                        "Forward incompatible: required field '",
                        path,
                        ".",
                        &new_required[i],
                        "' not in old schema",
                    ),
                );
                assert(views(issues@) =~= middle + had.push(
                    "Forward incompatible: required field '"@ + path@ + "."@ + f
                        + "' not in old schema"@,
                ));
            } else {
                assert(forward_issues(want_ahead, properties(prior@), want_back, path@, i as int + 1) == had);
            }
            i = i + 1;
            assert(views(issues@) =~= middle + forward_issues(
                want_ahead,
                properties(prior@),
                want_back,
                path@,
                i as int,
            ));
        }
    } else {
        assert(middle + Seq::<Seq<char>>::empty() =~= middle);
    }
    assert(views(issues@) =~= start + requirement_issues(prior@, new@, path@, mode));
}

/// A text is listed just where it is among the texts.
proof fn lemma_lists(v: Seq<String>, s: Seq<char>)
    ensures
        lists(v, s) == views(v).contains(s),
{
    if lists(v, s) {
        let i = choose|i: int| 0 <= i < v.len() && (#[trigger] v[i])@ == s;
        assert(views(v)[i] == s);
    }
    if views(v).contains(s) {
        let i = choose|i: int| 0 <= i < views(v).len() && views(v)[i] == s;
        assert(v[i]@ == s);
    }
}

fn list_has(v: &Vec<Json>, x: &Json) -> (r: bool)
    ensures
        r == docs(v@).contains(x@),
{
    let mut i: usize = 0;
    while i < v.len()
        invariant
            i <= v.len(),
            forall|j: int| 0 <= j < i ==> #[trigger] docs(v@)[j] != x@,
        decreases v@.len() - i,
    {
        if v[i].equals(x) {
            assert(docs(v@)[i as int] == x@);
            return true;
        }
        i = i + 1;
    }
    false
}

fn note_types(prior: &Json, new: &Json, path: &str, issues: &mut Vec<String>)
    ensures
        views(final(issues)@) == views(old(issues)@) + type_issues(prior@, new@, path@),
{
    let ghost start = views(issues@);
    if let Some(o) = prior.member("type") {
        if let Some(n) = new.member("type") {
            if !o.equals(n) {
                note(
                    issues,
                    crate::text::cat6(
                        "Incompatible type at '",
                        path,
                        "': ",
                        &o.to_text(),
                        " -> ",
                        &n.to_text(),
                    ),
                );
            }
        }
    }
    assert(views(issues@) =~= start + type_issues(prior@, new@, path@));
}

fn note_enums(prior: &Json, new: &Json, path: &str, issues: &mut Vec<String>)
    ensures
        views(final(issues)@) == views(old(issues)@) + enum_issues(prior@, new@, path@),
{
    let ghost start = views(issues@);
    if let Some(Json::List(o)) = prior.member("enum") {
        if let Some(Json::List(n)) = new.member("enum") {
            let ghost before = docs(o@);
            let ghost now = docs(n@);
            let mut i: usize = 0;
            assert(start + gone_values(before, now, path@, 0) =~= start);
            while i < o.len()
                invariant
                    i <= o.len(),
                    before == docs(o@),
                    now == docs(n@),
                    views(issues@) == start + gone_values(before, now, path@, i as int),
                decreases o@.len() - i,
            {
                if !list_has(n, &o[i]) {
                    note(issues, cat3("Incompatible enum value removed at '", path, "'"));
                }
                i = i + 1;
                assert(views(issues@) =~= start + gone_values(before, now, path@, i as int));
            }
        } else {
            note(issues, cat3("Incompatible enum removed at '", path, "'"));
            assert(views(issues@) =~= start + enum_issues(prior@, new@, path@));
        }
    } else {
        assert(start + Seq::<Seq<char>>::empty() =~= start);
    }
}

fn check_json(
    prior: &Json,
    new: &Json,
    path: &str,
    mode: CompatibilityMode,
    issues: &mut Vec<String>,
)
    ensures
        views(final(issues)@) == views(old(issues)@) + json_issues(prior@, new@, path@, mode),
    decreases prior,
{
    let ghost start = views(issues@);
    note_requirements(prior, new, path, mode, issues);
    let ghost first = requirement_issues(prior@, new@, path@, mode);
    let ghost mut nested = Seq::<Seq<char>>::empty();
    if let Some(o) = property_map(prior) {
        if let Some(n) = property_map(new) {
            let ghost before = members(o.entries@);
            let ghost now = members(n.entries@);
            let count = o.len();
            let mut i: usize = 0;
            assert(start + first + nested_issues(before, now, path@, mode, 0) =~= start + first);
            while i < count
                invariant
                    i <= count,
                    count == o.entries@.len(),
                    before == members(o.entries@),
                    now == members(n.entries@),
                    decreases_to!(*prior => *o),
                    views(issues@) == start + first + nested_issues(
                        before,
                        now,
                        path@,
                        mode,
                        i as int,
                    ),
                decreases count - i,
            {
                let name = o.key_at(i);
                proof {
                    lemma_members_entry(n.entries@, name@);
                }
                if let Some(v) = n.get(name) {
                    let inner = o.value_at(i);
                    assert(decreases_to!(*o => o.entries@[i as int].1));
                    check_json(inner, v, &cat3(path, ".", name), mode, issues);
                }
                i = i + 1;
                assert(views(issues@) =~= start + first + nested_issues(
                    before,
                    now,
                    path@,
                    mode,
                    i as int,
                ));
            }
            proof {
                nested = nested_issues(before, now, path@, mode, before.len() as int);
            }
        }
    }
    assert(views(issues@) =~= start + first + nested);
    note_types(prior, new, path, issues);
    note_enums(prior, new, path, issues);
    assert(views(issues@) =~= start + json_issues(prior@, new@, path@, mode));
}

/// Declarations that are gone: those of the first `n`.
pub open spec fn gone_declarations(old: Seq<Seq<char>>, new: Seq<Seq<char>>, n: int) -> Seq<
    Seq<char>,
>
    decreases n,
{
    if n <= 0 {
        Seq::empty()
    } else {
        let before = gone_declarations(old, new, n - 1);
        if new.contains(old[n - 1]) {
            before
        } else {
            before.push("Protobuf declaration '"@ + old[n - 1] + "' removed"@)
        }
    }
}

/// What speaks against putting a protobuf source in the place of another: a
/// declaration must not go, but more may come.
pub open spec fn protobuf_issues(old: Seq<char>, new: Seq<char>) -> Seq<Seq<char>> {
    gone_declarations(declarations(old), declarations(new), declarations(old).len() as int)
}

fn check_protobuf(old: &str, new: &str) -> (r: Vec<String>)
    ensures
        views(r@) == protobuf_issues(old@, new@),
{
    let was = protobuf_declarations(old);
    let now = protobuf_declarations(new);
    let ghost all = views(was@);
    let mut r: Vec<String> = Vec::new();
    let mut i: usize = 0;
    assert(views(r@) =~= gone_declarations(all, views(now@), 0));
    while i < was.len()
        invariant
            i <= was.len(),
            all == views(was@),
            views(r@) == gone_declarations(all, views(now@), i as int),
        decreases was@.len() - i,
    {
        proof {
            lemma_lists(now@, all[i as int]);
        }
        let kept = has(&now, &was[i]);
        if !kept {
            note(&mut r, cat3("Protobuf declaration '", &was[i], "' removed"));
        }
        i = i + 1;
    }
    r
}

/// What speaks against putting the schema `new` in the place of `old`. Two
/// texts are protobuf sources, anything else JSON schemas.
pub open spec fn issues_between(old: Doc, new: Doc, mode: CompatibilityMode) -> Seq<Seq<char>> {
    if mode == CompatibilityMode::Unchecked {
        Seq::empty()
    } else {
        match (old, new) {
            (Doc::Text(o), Doc::Text(n)) => protobuf_issues(o, n),
            _ => json_issues(old, new, "$"@, mode),
        }
    }
}

/// Nothing speaks against putting the schema `new` in the place of `old`.
pub open spec fn is_compatible(old: Doc, new: Doc, mode: CompatibilityMode) -> bool {
    issues_between(old, new, mode).len() == 0
}

/// Whether the schema `new` can take the place of `old`, with nested objects,
/// changes of type, removed values of enumerations, and in the directions that
/// the mode asks for.
pub fn check_compatibility(old: &Json, new: &Json, mode: CompatibilityMode) -> (r:
    CompatibilityResult)
    ensures
        r.compatible == is_compatible(old@, new@, mode),
        r.mode == mode,
        views(r.issues@) == issues_between(old@, new@, mode),
{
    let mut issues: Vec<String> = Vec::new();
    assert(views(issues@) =~= Seq::<Seq<char>>::empty());
    match mode {
        CompatibilityMode::Unchecked => {},
        _ => match (old, new) {
            (Json::Text(o), Json::Text(n)) => {
                issues = check_protobuf(o, n);
            },
            _ => {
                check_json(old, new, "$", mode, &mut issues);
                assert(Seq::<Seq<char>>::empty() + json_issues(old@, new@, "$"@, mode)
                    =~= json_issues(old@, new@, "$"@, mode));
            },
        },
    }
    assert(views(issues@).len() == issues@.len());
    CompatibilityResult { compatible: issues.len() == 0, mode, issues }
}

proof fn lemma_full_json(old: Doc, new: Doc, path: Seq<char>)
    ensures
        json_issues(old, new, path, CompatibilityMode::Full).len() == 0 <==> (json_issues(
            old,
            new,
            path,
            CompatibilityMode::Backward,
        ).len() == 0 && json_issues(old, new, path, CompatibilityMode::Forward).len() == 0),
    decreases old, 0int,
{
    if properties(old) is Some {
        lemma_properties_smaller(old);
        if properties(new) is Some {
            let o = properties(old)->0;
            lemma_full_nested(o, properties(new)->0, path, o.len() as int);
        }
    }
}

proof fn lemma_full_nested(
    old: Seq<(Seq<char>, Doc)>,
    new: Seq<(Seq<char>, Doc)>,
    path: Seq<char>,
    n: int,
)
    ensures
        nested_issues(old, new, path, CompatibilityMode::Full, n).len() == 0 <==> (nested_issues(
            old,
            new,
            path,
            CompatibilityMode::Backward,
            n,
        ).len() == 0 && nested_issues(old, new, path, CompatibilityMode::Forward, n).len() == 0),
    decreases old, n,
{
    if 0 < n <= old.len() {
        lemma_full_nested(old, new, path, n - 1);
        match entry(new, old[n - 1].0) {
            Some(v) => {
                lemma_full_json(old[n - 1].1, v, path + "."@ + old[n - 1].0);
            },
            None => {},
        }
    }
}

/// Full compatibility is backward and forward compatibility together, and
/// where nothing is asked every schema is compatible.
pub proof fn law_full_is_both_directions(old: Doc, new: Doc)
    ensures
        is_compatible(old, new, CompatibilityMode::Full) <==> (is_compatible(
            old,
            new,
            CompatibilityMode::Backward,
        ) && is_compatible(old, new, CompatibilityMode::Forward)),
        is_compatible(old, new, CompatibilityMode::Unchecked),
{
    lemma_full_json(old, new, "$"@);
}

proof fn lemma_gone(old: Seq<Seq<char>>, new: Seq<Seq<char>>, n: int)
    requires
        0 <= n <= old.len(),
    ensures
        gone_declarations(old, new, n).len() == 0 <==> forall|i: int|
            0 <= i < n ==> new.contains(#[trigger] old[i]),
    decreases n,
{
    if n > 0 {
        lemma_gone(old, new, n - 1);
        if gone_declarations(old, new, n).len() == 0 {
            assert(new.contains(old[n - 1]));
        }
    }
}

/// A protobuf source can take the place of another just where it declares all
/// that the other does, in every mode in which anything is asked.
pub proof fn law_protobuf_may_grow(old: Seq<char>, new: Seq<char>, mode: CompatibilityMode)
    requires
        mode != CompatibilityMode::Unchecked,
    ensures
        is_compatible(Doc::Text(old), Doc::Text(new), mode) <==> forall|i: int|
            0 <= i < declarations(old).len() ==> declarations(new).contains(
                #[trigger] declarations(old)[i],
            ),
{
    lemma_gone(declarations(old), declarations(new), declarations(old).len() as int);
}

/// A property that changes its type makes a schema incompatible.
pub proof fn law_type_change_breaks(old: Doc, new: Doc, mode: CompatibilityMode)
    requires
        mode != CompatibilityMode::Unchecked,
        old.member("type"@) is Some,
        new.member("type"@) is Some,
        old.member("type"@) != new.member("type"@),
    ensures
        !is_compatible(old, new, mode),
{
}

proof fn lemma_texts(l: Seq<Doc>, n: int, f: Seq<char>)
    requires
        0 <= n <= l.len(),
    ensures
        texts(l, n).contains(f) <==> exists|i: int| 0 <= i < n && #[trigger] l[i] == Doc::Text(f),
    decreases n,
{
    if n > 0 {
        lemma_texts(l, n - 1, f);
        let before = texts(l, n - 1);
        let after = texts(l, n);
        if before.contains(f) {
            let i = choose|i: int| 0 <= i < before.len() && before[i] == f;
            assert(after[i] == f);
        }
        if l[n - 1] == Doc::Text(f) {
            assert(after[before.len() as int] == f);
        }
        if after.contains(f) && !before.contains(f) {
            let i = choose|i: int| 0 <= i < after.len() && after[i] == f;
            if i < before.len() {
                assert(before[i] == f);
            }
        }
    }
}

/// A schema requires a field: its list `required` names it.
pub open spec fn requires_field(d: Doc, f: Seq<char>) -> bool {
    match d.member("required"@) {
        Some(Doc::List(l)) => exists|i: int| 0 <= i < l.len() && #[trigger] l[i] == Doc::Text(f),
        _ => false,
    }
}

/// A property of a schema.
pub open spec fn property(d: Doc, f: Seq<char>) -> Option<Doc> {
    match d.member("properties"@) {
        Some(p) => p.member(f),
        None => None,
    }
}

proof fn lemma_required(d: Doc, f: Seq<char>)
    ensures
        required_fields(d).contains(f) <==> requires_field(d, f),
{
    match d.member("required"@) {
        Some(Doc::List(l)) => {
            lemma_texts(l, l.len() as int, f);
        },
        _ => {},
    }
}

proof fn lemma_property(d: Doc, f: Seq<char>)
    ensures
        lacks(properties(d), f) <==> property(d, f) is None,
        properties(d) is Some ==> entry(properties(d)->0, f) == property(d, f),
{
}

proof fn lemma_backward(r: Seq<Seq<char>>, new: Option<Seq<(Seq<char>, Doc)>>, path: Seq<char>, n: int)
    requires
        0 <= n <= r.len(),
    ensures
        backward_issues(r, new, path, n).len() == 0 <==> forall|i: int|
            0 <= i < n ==> !lacks(new, #[trigger] r[i]),
    decreases n,
{
    if n > 0 {
        lemma_backward(r, new, path, n - 1);
        if backward_issues(r, new, path, n).len() == 0 {
            assert(!lacks(new, r[n - 1]));
        }
    }
}

proof fn lemma_forward(
    r: Seq<Seq<char>>,
    old: Option<Seq<(Seq<char>, Doc)>>,
    was: Seq<Seq<char>>,
    path: Seq<char>,
    n: int,
)
    requires
        0 <= n <= r.len(),
    ensures
        forward_issues(r, old, was, path, n).len() == 0 <==> forall|i: int|
            0 <= i < n ==> !lacks(old, #[trigger] r[i]) && was.contains(r[i]),
    decreases n,
{
    if n > 0 {
        lemma_forward(r, old, was, path, n - 1);
        if forward_issues(r, old, was, path, n).len() == 0 {
            assert(!lacks(old, r[n - 1]));
        }
    }
}

proof fn lemma_values(old: Seq<Doc>, new: Seq<Doc>, path: Seq<char>, n: int)
    requires
        0 <= n <= old.len(),
    ensures
        gone_values(old, new, path, n).len() == 0 <==> forall|i: int|
            0 <= i < n ==> new.contains(#[trigger] old[i]),
    decreases n,
{
    if n > 0 {
        lemma_values(old, new, path, n - 1);
        if gone_values(old, new, path, n).len() == 0 {
            assert(new.contains(old[n - 1]));
        }
    }
}

proof fn lemma_path(old: Doc, new: Doc, p: Seq<char>, q: Seq<char>, mode: CompatibilityMode)
    ensures
        json_issues(old, new, p, mode).len() == json_issues(old, new, q, mode).len(),
    decreases old, 0int,
{
    lemma_lengths(old, new, p, q, mode);
    if properties(old) is Some {
        lemma_properties_smaller(old);
        if properties(new) is Some {
            let o = properties(old)->0;
            lemma_nested_path(o, properties(new)->0, p, q, mode, o.len() as int);
        }
    }
}

proof fn lemma_nested_path(
    old: Seq<(Seq<char>, Doc)>,
    new: Seq<(Seq<char>, Doc)>,
    p: Seq<char>,
    q: Seq<char>,
    mode: CompatibilityMode,
    n: int,
)
    ensures
        nested_issues(old, new, p, mode, n).len() == nested_issues(old, new, q, mode, n).len(),
    decreases old, n,
{
    if 0 < n <= old.len() {
        lemma_nested_path(old, new, p, q, mode, n - 1);
        let k = old[n - 1].0;
        match entry(new, k) {
            Some(v) => {
                lemma_path(old[n - 1].1, v, p + "."@ + k, q + "."@ + k, mode);
            },
            None => {},
        }
    }
}

proof fn lemma_lengths(old: Doc, new: Doc, p: Seq<char>, q: Seq<char>, mode: CompatibilityMode)
    ensures
        requirement_issues(old, new, p, mode).len() == requirement_issues(old, new, q, mode).len(),
        type_issues(old, new, p).len() == type_issues(old, new, q).len(),
        enum_issues(old, new, p).len() == enum_issues(old, new, q).len(),
{
    let r = required_fields(old);
    let t = required_fields(new);
    lemma_lengths_upto(old, new, p, q, r, t, r.len() as int);
    lemma_lengths_upto(old, new, p, q, r, t, t.len() as int);
    match (enum_of(old), enum_of(new)) {
        (Some(a), Some(b)) => {
            lemma_values_length(a, b, p, q, a.len() as int);
        },
        _ => {},
    }
}

proof fn lemma_values_length(a: Seq<Doc>, b: Seq<Doc>, p: Seq<char>, q: Seq<char>, n: int)
    ensures
        gone_values(a, b, p, n).len() == gone_values(a, b, q, n).len(),
    decreases n,
{
    if n > 0 {
        lemma_values_length(a, b, p, q, n - 1);
    }
}

proof fn lemma_lengths_upto(
    old: Doc,
    new: Doc,
    p: Seq<char>,
    q: Seq<char>,
    r: Seq<Seq<char>>,
    t: Seq<Seq<char>>,
    n: int,
)
    ensures
        backward_issues(r, properties(new), p, n).len() == backward_issues(
            r,
            properties(new),
            q,
            n,
        ).len(),
        forward_issues(t, properties(old), r, p, n).len() == forward_issues(
            t,
            properties(old),
            r,
            q,
            n,
        ).len(),
    decreases n,
{
    if n > 0 {
        lemma_lengths_upto(old, new, p, q, r, t, n - 1);
    }
}

proof fn lemma_nested(
    old: Seq<(Seq<char>, Doc)>,
    new: Seq<(Seq<char>, Doc)>,
    path: Seq<char>,
    mode: CompatibilityMode,
    n: int,
)
    requires
        0 <= n <= old.len(),
    ensures
        nested_issues(old, new, path, mode, n).len() == 0 <==> forall|i: int|
            0 <= i < n && entry(new, (#[trigger] old[i]).0) is Some ==> json_issues(
                old[i].1,
                entry(new, old[i].0)->0,
                "$"@,
                mode,
            ).len() == 0,
    decreases n,
{
    if n > 0 {
        lemma_nested(old, new, path, mode, n - 1);
        let k = old[n - 1].0;
        if entry(new, k) is Some {
            lemma_path(old[n - 1].1, entry(new, k)->0, path + "."@ + k, "$"@, mode);
            if nested_issues(old, new, path, mode, n).len() == 0 {
                assert(json_issues(old[n - 1].1, entry(new, k)->0, "$"@, mode).len() == 0);
            }
        }
    }
}

/// A property of both schemas can take the place of itself.
pub open spec fn property_fits(old: Doc, new: Doc, mode: CompatibilityMode, f: Seq<char>) -> bool {
    property(old, f) is Some && property(new, f) is Some ==> json_issues(
        property(old, f)->0,
        property(new, f)->0,
        "$"@,
        mode,
    ).len() == 0
}

/// A JSON schema can take the place of another just where
/// - looking back, no field that was required has lost its property;
/// - looking ahead, no field is required that had no property or was not
///   required;
/// - each property that both have can take the place of itself;
/// - the type, where both have one, is the same;
/// - an enumeration stays one, and keeps all its values.
pub proof fn law_when_schemas_are_compatible(old: Doc, new: Doc, mode: CompatibilityMode)
    requires
        old.in_order(),
        mode != CompatibilityMode::Unchecked,
        !(old is Text && new is Text),
    ensures
        is_compatible(old, new, mode) <==> {
            &&& mode == CompatibilityMode::Backward || mode == CompatibilityMode::Full
                ==> forall|f: Seq<char>| #[trigger]
                requires_field(old, f) ==> property(new, f) is Some
            &&& mode == CompatibilityMode::Forward || mode == CompatibilityMode::Full
                ==> forall|f: Seq<char>| #[trigger]
                requires_field(new, f) ==> property(old, f) is Some && requires_field(old, f)
            &&& forall|f: Seq<char>| #[trigger] property_fits(old, new, mode, f)
            &&& old.member("type"@) is Some && new.member("type"@) is Some ==> old.member("type"@)
                == new.member("type"@)
            &&& match old.member("enum"@) {
                Some(Doc::List(a)) => match new.member("enum"@) {
                    Some(Doc::List(b)) => forall|i: int|
                        0 <= i < a.len() ==> b.contains(#[trigger] a[i]),
                    _ => false,
                },
                _ => true,
            }
        },
{
    let r = required_fields(old);
    let t = required_fields(new);
    let back = backward_issues(r, properties(new), "$"@, r.len() as int);
    let ahead = forward_issues(t, properties(old), r, "$"@, t.len() as int);
    lemma_backward(r, properties(new), "$"@, r.len() as int);
    lemma_forward(t, properties(old), r, "$"@, t.len() as int);
    let lost = !(forall|f: Seq<char>| #[trigger]
        requires_field(old, f) ==> property(new, f) is Some);
    assert(back.len() == 0 <==> !lost) by {
        if back.len() == 0 {
            assert forall|f: Seq<char>| #[trigger] requires_field(old, f) implies property(
                new,
                f,
            ) is Some by {
                lemma_required(old, f);
                lemma_property(new, f);
                let i = choose|i: int| 0 <= i < r.len() && r[i] == f;
                assert(!lacks(properties(new), r[i]));
            }
        }
        if !lost {
            assert forall|i: int| 0 <= i < r.len() implies !lacks(
                properties(new),
                #[trigger] r[i],
            ) by {
                lemma_required(old, r[i]);
                lemma_property(new, r[i]);
                assert(r.contains(r[i]));
                assert(requires_field(old, r[i]));
            }
        }
    }
    let raised = !(forall|f: Seq<char>| #[trigger]
        requires_field(new, f) ==> property(old, f) is Some && requires_field(old, f));
    assert(ahead.len() == 0 <==> !raised) by {
        if ahead.len() == 0 {
            assert forall|f: Seq<char>| #[trigger] requires_field(new, f) implies property(
                old,
                f,
            ) is Some && requires_field(old, f) by {
                lemma_required(new, f);
                lemma_required(old, f);
                lemma_property(old, f);
                let i = choose|i: int| 0 <= i < t.len() && t[i] == f;
                assert(!lacks(properties(old), t[i]));
            }
        }
        if !raised {
            assert forall|i: int| 0 <= i < t.len() implies !lacks(properties(old), #[trigger] t[i])
                && r.contains(t[i]) by {
                lemma_required(new, t[i]);
                lemma_required(old, t[i]);
                lemma_property(old, t[i]);
                assert(t.contains(t[i]));
                assert(requires_field(new, t[i]));
            }
        }
    }
    let nested = match (properties(old), properties(new)) {
        (Some(o), Some(n)) => nested_issues(o, n, "$"@, mode, o.len() as int),
        _ => Seq::empty(),
    };
    assert(nested.len() == 0 <==> forall|f: Seq<char>| #[trigger]
        property_fits(old, new, mode, f)) by {
        if properties(old) is Some && properties(new) is Some {
            let o = properties(old)->0;
            let n = properties(new)->0;
            lemma_nested(o, n, "$"@, mode, o.len() as int);
            lemma_ordered(old);
            if nested.len() == 0 {
                assert forall|f: Seq<char>| #[trigger] property_fits(old, new, mode, f) by {
                    lemma_property(old, f);
                    lemma_property(new, f);
                    if entry(o, f) is Some {
                        lemma_slot(o, f);
                        assert(o[slot(o, f)].0 == f);
                    }
                }
            }
            if forall|f: Seq<char>| #[trigger] property_fits(old, new, mode, f) {
                assert forall|i: int|
                    0 <= i < o.len() && entry(n, (#[trigger] o[i]).0) is Some implies json_issues(
                    o[i].1,
                    entry(n, o[i].0)->0,
                    "$"@,
                    mode,
                ).len() == 0 by {
                    crate::str_map::lemma_entry_found(o, i);
                    assert(property_fits(old, new, mode, o[i].0));
                }
            }
        } else {
            assert forall|f: Seq<char>| #[trigger] property_fits(old, new, mode, f) by {
                lemma_property(old, f);
                lemma_property(new, f);
            }
        }
    }
    match (enum_of(old), enum_of(new)) {
        (Some(a), Some(b)) => {
            lemma_values(a, b, "$"@, a.len() as int);
            assert(new.member("enum"@) == Some(Doc::List(b)));
            assert(old.member("enum"@) == Some(Doc::List(a)));
        },
        (Some(a), None) => {
            assert(old.member("enum"@) == Some(Doc::List(a)));
        },
        _ => {},
    }
    let issues = json_issues(old, new, "$"@, mode);
    assert(issues.len() == requirement_issues(old, new, "$"@, mode).len() + nested.len()
        + type_issues(old, new, "$"@).len() + enum_issues(old, new, "$"@).len());
}

proof fn lemma_ordered(d: Doc)
    requires
        d.in_order(),
        properties(d) is Some,
    ensures
        crate::str_map::ascending(properties(d)->0),
{
    let s = d->Object_0;
    lemma_slot(s, "properties"@);
    assert(s[slot(s, "properties"@)].1.in_order());
}

/// An enumeration that loses a value is not compatible, in any mode in which
/// anything is asked, and every lost value is told; one that only gains values
/// is no reason against.
pub proof fn law_enumeration_may_only_grow(
    old: Doc,
    new: Doc,
    a: Seq<Doc>,
    b: Seq<Doc>,
    mode: CompatibilityMode,
)
    requires
        mode != CompatibilityMode::Unchecked,
        old.member("enum"@) == Some(Doc::List(a)),
        new.member("enum"@) == Some(Doc::List(b)),
    ensures
        (exists|i: int| 0 <= i < a.len() && !b.contains(#[trigger] a[i])) ==> !is_compatible(
            old,
            new,
            mode,
        ),
        (forall|i: int| 0 <= i < a.len() ==> b.contains(#[trigger] a[i])) ==> enum_issues(
            old,
            new,
            "$"@,
        ).len() == 0,
{
    lemma_values(a, b, "$"@, a.len() as int);
}

proof fn lemma_itself(d: Doc, path: Seq<char>, mode: CompatibilityMode)
    requires
        d.in_order(),
        forall|f: Seq<char>| #[trigger] requires_field(d, f) ==> property(d, f) is Some,
        properties(d) is None,
    ensures
        json_issues(d, d, path, mode).len() == 0,
{
    let r = required_fields(d);
    lemma_backward(r, properties(d), path, r.len() as int);
    lemma_forward(r, properties(d), r, path, r.len() as int);
    assert forall|i: int| 0 <= i < r.len() implies !lacks(properties(d), #[trigger] r[i])
        && r.contains(r[i]) by {
        assert(r.contains(r[i]));
        lemma_required(d, r[i]);
        lemma_property(d, r[i]);
        assert(requires_field(d, r[i]));
    }
    if enum_of(d) is Some {
        let a = enum_of(d)->0;
        lemma_values(a, a, path, a.len() as int);
        assert forall|i: int| 0 <= i < a.len() implies a.contains(#[trigger] a[i]) by {}
    }
}

/// A schema without nested properties, whose required fields it has, can take
/// the place of itself.
pub proof fn law_same_schema_is_compatible(d: Doc, mode: CompatibilityMode)
    requires
        d.in_order(),
        !(d is Text),
        forall|f: Seq<char>| #[trigger] requires_field(d, f) ==> property(d, f) is Some,
        d.member("properties"@) is None,
    ensures
        is_compatible(d, d, mode),
{
    lemma_itself(d, "$"@, mode);
}

/// The first `n` issues of lost declarations name just those that are lost.
pub proof fn law_lost_declarations_are_told(
    old: Seq<Seq<char>>,
    new: Seq<Seq<char>>,
    n: int,
    i: int,
)
    requires
        0 <= i < n <= old.len(),
        !new.contains(old[i]),
    ensures
        gone_declarations(old, new, n).contains(
            "Protobuf declaration '"@ + old[i] + "' removed"@,
        ),
    decreases n,
{
    let text = "Protobuf declaration '"@ + old[i] + "' removed"@;
    let before = gone_declarations(old, new, n - 1);
    let after = gone_declarations(old, new, n);
    if i == n - 1 {
        assert(after[before.len() as int] == text);
    } else {
        law_lost_declarations_are_told(old, new, n - 1, i);
        let j = choose|j: int| 0 <= j < before.len() && before[j] == text;
        assert(after[j] == text);
    }
}

} // verus!
