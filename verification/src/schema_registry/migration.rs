//! How to get from one version of a schema to another.

use vstd::prelude::*;
use vstd::string::*;
use crate::json::{Doc, Json, members};
use crate::schema_registry::compat::{lemma_members_entry, properties};
use crate::schema_registry::model::SchemaVersion;
use crate::schema_registry::registry::{SchemaRegistry, version_of};
use crate::str_map::{StrMap, entry};
use crate::text::cat3;
use crate::wall_clock::now_secs;

verus! {

#[derive(Debug)]
pub struct MigrationStep {
    pub description: String,
    pub field: String,
    pub action: MigrationAction,
}

#[derive(Debug)]
pub enum MigrationAction {
    AddField { default_value: Json },
    RemoveField,
    RenameField { new_name: String },
    ChangeType { new_type: String },
}

#[derive(Debug)]
pub struct MigrationPlan {
    pub subject: String,
    pub from_version: u32,
    pub to_version: u32,
    pub steps: Vec<MigrationStep>,
    pub generated_at: u64,
}

/// What a step does to a field.
pub ghost enum Change {
    Add(Doc),
    Remove,
    Rename(Seq<char>),
    Retype(Seq<char>),
}

/// A step, as a value.
pub ghost struct Move {
    pub description: Seq<char>,
    pub field: Seq<char>,
    pub change: Change,
}

impl View for MigrationStep {
    type V = Move;

    open spec fn view(&self) -> Move {
        Move {
            description: self.description@,
            field: self.field@,
            change: match self.action {
                MigrationAction::AddField { default_value } => Change::Add(default_value@),
                MigrationAction::RemoveField => Change::Remove,
                MigrationAction::RenameField { new_name } => Change::Rename(new_name@),
                MigrationAction::ChangeType { new_type } => Change::Retype(new_type@),
            },
        }
    }
}

/// The steps, as values.
pub open spec fn moves(v: Seq<MigrationStep>) -> Seq<Move> {
    Seq::new(v.len(), |i: int| v[i]@)
}

/// The fields of a schema.
pub open spec fn fields(d: Doc) -> Seq<(Seq<char>, Doc)> {
    match properties(d) {
        Some(s) => s,
        None => Seq::empty(),
    }
}

/// A field comes, with the default that its schema gives or null.
pub open spec fn addition(f: Seq<char>, schema: Doc) -> Move {
    Move {
        description: "Add new field '"@ + f + "'"@,
        field: f,
        change: Change::Add(
            match schema.member("default"@) {
                Some(d) => d,
                None => Doc::Null,
            },
        ),
    }
}

/// A field goes.
pub open spec fn removal(f: Seq<char>) -> Move {
    Move { description: "Remove field '"@ + f + "'"@, field: f, change: Change::Remove }
}

/// Those of the first `n` new fields that come.
pub open spec fn additions(
    old: Seq<(Seq<char>, Doc)>,
    new: Seq<(Seq<char>, Doc)>,
    n: int,
) -> Seq<Move>
    decreases n,
{
    if n <= 0 {
        Seq::empty()
    } else if entry(old, new[n - 1].0) is None {
        additions(old, new, n - 1).push(addition(new[n - 1].0, new[n - 1].1))
    } else {
        additions(old, new, n - 1)
    }
}

/// Those of the first `n` old fields that go.
pub open spec fn removals(
    old: Seq<(Seq<char>, Doc)>,
    new: Seq<(Seq<char>, Doc)>,
    n: int,
) -> Seq<Move>
    decreases n,
{
    if n <= 0 {
        Seq::empty()
    } else if entry(new, old[n - 1].0) is None {
        removals(old, new, n - 1).push(removal(old[n - 1].0))
    } else {
        removals(old, new, n - 1)
    }
}

/// The steps from one schema to another: first what comes, then what goes.
pub open spec fn steps_between(old: Doc, new: Doc) -> Seq<Move> {
    additions(fields(old), fields(new), fields(new).len() as int) + removals(
        fields(old),
        fields(new),
        fields(old).len() as int,
    )
}

/// The plan leads from one version to another.
pub open spec fn leads(p: MigrationPlan, subject: Seq<char>, from: SchemaVersion, to: SchemaVersion) -> bool {
    &&& p.subject@ == subject
    &&& p.from_version == from.version
    &&& p.to_version == to.version
    &&& moves(p.steps@) == steps_between(from.definition@, to.definition@)
}

fn push_move(v: &mut Vec<MigrationStep>, s: MigrationStep)
    ensures
        moves(final(v)@) == moves(old(v)@).push(s@),
{
    v.push(s);
    assert(moves(v@) =~= moves(old(v)@).push(s@));
}

/// The fields of a schema; `none` where it has none.
fn fields_of<'a>(j: &'a Json, none: &'a StrMap<Json>) -> (r: &'a StrMap<Json>)
    requires
        none.entries@.len() == 0,
    ensures
        members(r.entries@) == fields(j@),
{
    assert(members(none.entries@) =~= Seq::<(Seq<char>, Doc)>::empty());
    match j.member("properties") {
        Some(p) => match p {
            Json::Object(m) => m,
            _ => none,
        },
        None => none,
    }
}

/// The plan that leads from one version of a subject to another, made at a
/// given time.
pub fn migration_plan_at(subject: &str, from: &SchemaVersion, to: &SchemaVersion, now: u64) -> (r:
    MigrationPlan)
    ensures
        leads(r, subject@, *from, *to),
        r.generated_at == now,
{
    let none: StrMap<Json> = StrMap::new();
    assert(none.list().len() == 0);
    let was = fields_of(&from.definition, &none);
    let new = fields_of(&to.definition, &none);
    let ghost o = fields(from.definition@);
    let ghost n = fields(to.definition@);
    let mut steps: Vec<MigrationStep> = Vec::new();
    assert(moves(steps@) =~= additions(o, n, 0));
    let count = new.len();
    let mut i: usize = 0;
    while i < count
        invariant
            i <= count,
            count == new.entries@.len(),
            n == members(new.entries@),
            o == members(was.entries@),
            moves(steps@) == additions(o, n, i as int),
        decreases count - i,
    {
        let f = new.key_at(i);
        proof {
            lemma_members_entry(was.entries@, f@);
        }
        if !was.has(f) {
            let default_value = match new.value_at(i).member("default") {
                Some(d) => d.clone(),
                None => Json::Null,
            };
            push_move(
                &mut steps,
                MigrationStep {
                    description: cat3("Add new field '", f, "'"),
                    field: f.clone(),
                    action: MigrationAction::AddField { default_value },
                },
            );
        }
        i = i + 1;
    }
    let ghost first = moves(steps@);
    let count = was.len();
    let mut j: usize = 0;
    assert(first + removals(o, n, 0) =~= first);
    while j < count
        invariant
            j <= count,
            count == was.entries@.len(),
            n == members(new.entries@),
            o == members(was.entries@),
            moves(steps@) == first + removals(o, n, j as int),
        decreases count - j,
    {
        let f = was.key_at(j);
        proof {
            lemma_members_entry(new.entries@, f@);
        }
        if !new.has(f) {
            push_move(
                &mut steps,
                MigrationStep {
                    description: cat3("Remove field '", f, "'"),
                    field: f.clone(),
                    action: MigrationAction::RemoveField,
                },
            );
        }
        j = j + 1;
        assert(moves(steps@) =~= first + removals(o, n, j as int));
    }
    MigrationPlan {
        subject: subject.to_string(),
        from_version: from.version,
        to_version: to.version,
        steps,
        generated_at: now,
    }
}

/// The plan that leads from one version of a subject to another.
pub fn generate_migration_plan(subject: &str, from: &SchemaVersion, to: &SchemaVersion) -> (r:
    MigrationPlan)
    ensures
        leads(r, subject@, *from, *to),
{
    migration_plan_at(subject, from, to, now_secs())
}

impl SchemaRegistry {
    /// The plan that leads from one version of a subject to another, where both
    /// are there.
    pub fn migration_plan(&self, s: &str, a: u32, b: u32) -> (r: Option<MigrationPlan>)
        ensures
            (match (version_of(self.state(), s@, a), version_of(self.state(), s@, b)) {
                (Some(i), Some(j)) => {
                    let v = self.state().subjects.at(s@)->0.versions@;
                    r is Some && leads(r->0, s@, v[i], v[j])
                },
                _ => r is None,
            }),
    {
        match self.get_version(s, a) {
            Some(from) => match self.get_version(s, b) {
                Some(to) => Some(generate_migration_plan(s, from, to)),
                None => None,
            },
            None => None,
        }
    }
}

/// A field that is new is added, and no other.
pub proof fn law_new_fields_are_added(old: Seq<(Seq<char>, Doc)>, new: Seq<(Seq<char>, Doc)>, n: int)
    requires
        0 <= n <= new.len(),
    ensures
        forall|i: int|
            #![trigger new[i]]
            0 <= i < n && entry(old, new[i].0) is None ==> additions(old, new, n).contains(addition(new[i].0, new[i].1)),
        forall|x: Move| #[trigger]
            additions(old, new, n).contains(x) ==> exists|i: int|
                #![trigger new[i]]
                0 <= i < n && entry(old, new[i].0) is None && x == addition(new[i].0, new[i].1),
    decreases n,
{
    if n > 0 {
        law_new_fields_are_added(old, new, n - 1);
        let p = additions(old, new, n - 1);
        let r = additions(old, new, n);
        assert forall|i: int|
            #![trigger new[i]]
            0 <= i < n && entry(old, new[i].0) is None implies r.contains(addition(new[i].0, new[i].1)) by {
            if i == n - 1 {
                assert(r[p.len() as int] == addition(new[i].0, new[i].1));
            } else {
                assert(p.contains(addition(new[i].0, new[i].1)));
                let k = choose|k: int| 0 <= k < p.len() && p[k] == addition(new[i].0, new[i].1);
                assert(r[k] == addition(new[i].0, new[i].1));
            }
        }
        assert forall|x: Move| #[trigger] r.contains(x) implies exists|i: int|
            #![trigger new[i]]
            0 <= i < n && entry(old, new[i].0) is None && x == addition(new[i].0, new[i].1) by {
            let j = choose|j: int| 0 <= j < r.len() && r[j] == x;
            if j < p.len() {
                assert(r[j] == p[j]);
                assert(p.contains(x));
                let i = choose|i: int|
                    #![trigger new[i]]
                    0 <= i < n - 1 && entry(old, new[i].0) is None && x == addition(new[i].0, new[i].1);
                assert(entry(old, new[i].0) is None && x == addition(new[i].0, new[i].1));
            } else {
                let i = n - 1;
                assert(entry(old, new[i].0) is None && x == addition(new[i].0, new[i].1));
            }
        }
    }
}

/// A field that is gone is removed, and no other.
pub proof fn law_lost_fields_are_removed(old: Seq<(Seq<char>, Doc)>, new: Seq<(Seq<char>, Doc)>, n: int)
    requires
        0 <= n <= old.len(),
    ensures
        forall|i: int|
            #![trigger old[i]]
            0 <= i < n && entry(new, old[i].0) is None ==> removals(old, new, n).contains(removal(old[i].0)),
        forall|x: Move| #[trigger]
            removals(old, new, n).contains(x) ==> exists|i: int|
                #![trigger old[i]]
                0 <= i < n && entry(new, old[i].0) is None && x == removal(old[i].0),
    decreases n,
{
    if n > 0 {
        law_lost_fields_are_removed(old, new, n - 1);
        let p = removals(old, new, n - 1);
        let r = removals(old, new, n);
        assert forall|i: int|
            #![trigger old[i]]
            0 <= i < n && entry(new, old[i].0) is None implies r.contains(removal(old[i].0)) by {
            if i == n - 1 {
                assert(r[p.len() as int] == removal(old[i].0));
            } else {
                assert(p.contains(removal(old[i].0)));
                let k = choose|k: int| 0 <= k < p.len() && p[k] == removal(old[i].0);
                assert(r[k] == removal(old[i].0));
            }
        }
        assert forall|x: Move| #[trigger] r.contains(x) implies exists|i: int|
            #![trigger old[i]]
            0 <= i < n && entry(new, old[i].0) is None && x == removal(old[i].0) by {
            let j = choose|j: int| 0 <= j < r.len() && r[j] == x;
            if j < p.len() {
                assert(r[j] == p[j]);
                assert(p.contains(x));
                let i = choose|i: int|
                    #![trigger old[i]]
                    0 <= i < n - 1 && entry(new, old[i].0) is None && x == removal(old[i].0);
                assert(entry(new, old[i].0) is None && x == removal(old[i].0));
            } else {
                let i = n - 1;
                assert(entry(new, old[i].0) is None && x == removal(old[i].0));
            }
        }
    }
}

/// A field is added with its default, or with nothing where it has none; it is
/// named by the step that adds or removes it.
pub proof fn law_steps_name_their_field(f: Seq<char>, schema: Doc)
    ensures
        addition(f, schema).field == f,
        schema.member("default"@) is Some ==> addition(f, schema).change == Change::Add(
            schema.member("default"@)->0,
        ),
        schema.member("default"@) is None ==> addition(f, schema).change == Change::Add(Doc::Null),
        removal(f).field == f,
        removal(f).change == Change::Remove,
{
}

/// A plan is for its subject and leads from the one version to the other: there
/// is a step that adds each field that is new, a step that removes each that is
/// gone, and no step else; what is added comes before what is removed.
pub proof fn law_plan_leads_to_the_new_version(
    p: MigrationPlan,
    subject: Seq<char>,
    from: SchemaVersion,
    to: SchemaVersion,
    i: int,
    j: int,
)
    requires
        leads(p, subject, from, to),
        0 <= i < j < p.steps@.len(),
    ensures
        p.subject@ == subject,
        p.from_version == from.version,
        p.to_version == to.version,
        ({
            let m = moves(p.steps@);
            let old = fields(from.definition@);
            let new = fields(to.definition@);
            let adds = additions(old, new, new.len() as int);
            let drops = removals(old, new, old.len() as int);
            &&& m.len() == adds.len() + drops.len()
            &&& adds.contains(m[i]) || drops.contains(m[i])
            &&& adds.contains(m[j]) || drops.contains(m[j])
            &&& m[i].change is Remove ==> m[j].change is Remove
            &&& m[i].change is Add || m[i].change is Remove
        }),
{
    let m = moves(p.steps@);
    let old = fields(from.definition@);
    let new = fields(to.definition@);
    let adds = additions(old, new, new.len() as int);
    let drops = removals(old, new, old.len() as int);
    assert(m == adds + drops);
    law_new_fields_are_added(old, new, new.len() as int);
    law_lost_fields_are_removed(old, new, old.len() as int);
    if i < adds.len() {
        assert(m[i] == adds[i]);
        assert(adds.contains(adds[i]));
    } else {
        assert(m[i] == drops[i - adds.len()]);
        assert(drops.contains(drops[i - adds.len()]));
    }
    if j < adds.len() {
        assert(m[j] == adds[j]);
        assert(adds.contains(adds[j]));
    } else {
        assert(m[j] == drops[j - adds.len()]);
        assert(drops.contains(drops[j - adds.len()]));
    }
}

/// Each field that is new is added by a step of the plan, and each that is gone is
/// removed by one.
pub proof fn law_plan_leaves_no_field_out(
    p: MigrationPlan,
    subject: Seq<char>,
    from: SchemaVersion,
    to: SchemaVersion,
    i: int,
)
    requires
        leads(p, subject, from, to),
    ensures
        ({
            let m = moves(p.steps@);
            let old = fields(from.definition@);
            let new = fields(to.definition@);
            &&& p.subject@ == subject && p.from_version == from.version && p.to_version
                == to.version
            &&& 0 <= i < new.len() && entry(old, new[i].0) is None ==> m.contains(
                addition(new[i].0, new[i].1),
            )
            &&& 0 <= i < old.len() && entry(new, old[i].0) is None ==> m.contains(
                removal(old[i].0),
            )
        }),
{
    let m = moves(p.steps@);
    let old = fields(from.definition@);
    let new = fields(to.definition@);
    let adds = additions(old, new, new.len() as int);
    let drops = removals(old, new, old.len() as int);
    assert(m == adds + drops);
    law_new_fields_are_added(old, new, new.len() as int);
    law_lost_fields_are_removed(old, new, old.len() as int);
    if 0 <= i < new.len() && entry(old, new[i].0) is None {
        let k = choose|k: int| 0 <= k < adds.len() && adds[k] == addition(new[i].0, new[i].1);
        assert(m[k] == adds[k]);
    }
    if 0 <= i < old.len() && entry(new, old[i].0) is None {
        let k = choose|k: int| 0 <= k < drops.len() && drops[k] == removal(old[i].0);
        assert(m[adds.len() + k] == drops[k]);
    }
}

} // verus!
