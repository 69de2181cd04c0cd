//! What the registry holds.

use vstd::prelude::*;
use vstd::string::*;
use crate::crd::control_plane_health::opt_view;
use crate::json::{Doc, Json};
use crate::schema_registry::compat::CompatibilityMode;
use crate::str_map::StrMap;
use crate::text::{blank, is_blank, same, views};
use crate::wall_clock::now_secs;

verus! {

#[derive(Clone, Copy, Debug, PartialEq, Eq, Structural)]
pub enum SchemaFormat {
    JsonSchema,
    Avro,
    Protobuf,
    OpenApi,
}

#[derive(Clone, Copy, Debug, PartialEq, Eq, Structural)]
pub enum ApprovalStatus {
    Pending,
    Approved,
    Rejected,
}

/// A version of a schema.
#[derive(Debug)]
pub struct SchemaVersion {
    pub version: u32,
    pub schema_id: String,
    pub definition: Json,
    pub format: SchemaFormat,
    pub description: String,
    pub author: String,
    pub created_at: u64,
    pub approval_status: ApprovalStatus,
    pub approved_by: Option<String>,
    pub tags: Vec<String>,
    pub deprecated: bool,
    pub migration_notes: Option<String>,
    pub impact_report: Option<ConsumerImpactReport>,
}

/// A version as it is first made: pending, and with nothing said of it.
pub open spec fn is_new(
    v: SchemaVersion,
    version: u32,
    schema_id: Seq<char>,
    definition: Doc,
    format: SchemaFormat,
    author: Seq<char>,
) -> bool {
    &&& v.version == version
    &&& v.schema_id@ == schema_id
    &&& v.definition@ == definition
    &&& v.format == format
    &&& v.description@ == ""@
    &&& v.author@ == author
    &&& v.approval_status == ApprovalStatus::Pending
    &&& v.approved_by is None
    &&& v.tags@.len() == 0
    &&& !v.deprecated
    &&& v.migration_notes is None
}

impl SchemaVersion {
    /// A version made at a given time.
    pub fn new_at(
        version: u32,
        schema_id: &str,
        definition: Json,
        format: SchemaFormat,
        author: &str,
        created_at: u64,
    ) -> (r: Self)
        ensures
            is_new(r, version, schema_id@, definition@, format, author@),
            r.created_at == created_at,
            r.impact_report is None,
    {
        SchemaVersion {
            version,
            schema_id: schema_id.to_string(),
            definition,
            format,
            description: "".to_string(),
            author: author.to_string(),
            created_at,
            approval_status: ApprovalStatus::Pending,
            approved_by: None,
            tags: Vec::new(),
            deprecated: false,
            migration_notes: None,
            impact_report: None,
        }
    }

    /// A version made now.
    pub fn new(
        version: u32,
        schema_id: &str,
        definition: Json,
        format: SchemaFormat,
        author: &str,
    ) -> (r: Self)
        ensures
            is_new(r, version, schema_id@, definition@, format, author@),
            r.impact_report is None,
    {
        Self::new_at(version, schema_id, definition, format, author, now_secs())
    }
}

/// A schema with its versions.
#[derive(Debug)]
pub struct SchemaSubject {
    pub name: String,
    pub namespace: String,
    pub compatibility: CompatibilityMode,
    pub versions: Vec<SchemaVersion>,
    pub usage_count: u64,
    pub last_used_at: Option<u64>,
    pub owners: Vec<String>,
}

/// Where the last of the first `n` versions stands that is approved and not
/// deprecated.
pub open spec fn last_approved(v: Seq<SchemaVersion>, n: int) -> Option<int>
    decreases n,
{
    if n <= 0 {
        None
    } else if v[n - 1].approval_status == ApprovalStatus::Approved && !v[n - 1].deprecated {
        Some(n - 1)
    } else {
        last_approved(v, n - 1)
    }
}

/// Where the version to build on stands.
pub open spec fn latest(v: Seq<SchemaVersion>) -> Option<int> {
    last_approved(v, v.len() as int)
}

/// Where the first version with a given number stands from `i` on.
pub open spec fn numbered_from(v: Seq<SchemaVersion>, number: u32, i: int) -> Option<int>
    decreases v.len() - i,
{
    if i < 0 || i >= v.len() {
        None
    } else if v[i].version == number {
        Some(i)
    } else {
        numbered_from(v, number, i + 1)
    }
}

/// Where the version with a given number stands.
pub open spec fn numbered(v: Seq<SchemaVersion>, number: u32) -> Option<int> {
    numbered_from(v, number, 0)
}

/// The largest number of the first `n` versions.
pub open spec fn largest(v: Seq<SchemaVersion>, n: int) -> int
    decreases n,
{
    if n <= 0 {
        0
    } else if v[n - 1].version > largest(v, n - 1) {
        v[n - 1].version as int
    } else {
        largest(v, n - 1)
    }
}

/// The number of the next version.
pub open spec fn next_number(v: Seq<SchemaVersion>) -> int {
    largest(v, v.len() as int) + 1
}

pub proof fn lemma_largest(v: Seq<SchemaVersion>, n: int)
    requires
        0 <= n <= v.len(),
    ensures
        0 <= largest(v, n) <= u32::MAX,
        forall|i: int| 0 <= i < n ==> (#[trigger] v[i]).version <= largest(v, n),
    decreases n,
{
    if n > 0 {
        lemma_largest(v, n - 1);
    }
}

pub proof fn lemma_numbered(v: Seq<SchemaVersion>, number: u32, i: int)
    requires
        0 <= i,
    ensures
        (match numbered_from(v, number, i) {
            Some(j) => i <= j < v.len() && v[j].version == number,
            None => forall|j: int| i <= j < v.len() ==> (#[trigger] v[j]).version != number,
        }),
    decreases v.len() - i,
{
    if i < v.len() {
        lemma_numbered(v, number, i + 1);
    }
}

pub proof fn lemma_latest(v: Seq<SchemaVersion>, n: int)
    requires
        n <= v.len(),
    ensures
        (match last_approved(v, n) {
            Some(j) => 0 <= j < n && v[j].approval_status == ApprovalStatus::Approved
                && !v[j].deprecated,
            None => true,
        }),
    decreases n,
{
    if n > 0 {
        lemma_latest(v, n - 1);
    }
}

/// Where the version with a given number stands.
pub(crate) fn place_of(v: &Vec<SchemaVersion>, number: u32) -> (r: Option<usize>)
    ensures
        (match r {
            Some(i) => numbered(v@, number) == Some(i as int) && i < v@.len(),
            None => numbered(v@, number) is None,
        }),
{
    let mut i: usize = 0;
    while i < v.len()
        invariant
            i <= v.len(),
            numbered(v@, number) == numbered_from(v@, number, i as int),
        decreases v@.len() - i,
    {
        if v[i].version == number {
            return Some(i);
        }
        i = i + 1;
    }
    None
}

impl SchemaSubject {
    pub fn new(name: &str, namespace: &str) -> (r: Self)
        ensures
            r.name@ == name@,
            r.namespace@ == namespace@,
            r.compatibility == CompatibilityMode::Backward,
            r.versions@.len() == 0,
            r.usage_count == 0,
            r.last_used_at is None,
            r.owners@.len() == 0,
    {
        SchemaSubject {
            name: name.to_string(),
            namespace: namespace.to_string(),
            compatibility: CompatibilityMode::Backward,
            versions: Vec::new(),
            usage_count: 0,
            last_used_at: None,
            owners: Vec::new(),
        }
    }

    /// The last version that is approved and not deprecated.
    pub fn latest_approved(&self) -> (r: Option<&SchemaVersion>)
        ensures
            (match r {
                Some(v) => latest(self.versions@) is Some && *v == self.versions@[latest(
                    self.versions@,
                )->0],
                None => latest(self.versions@) is None,
            }),
    {
        let mut n: usize = self.versions.len();
        while n > 0
            invariant
                n <= self.versions.len(),
                latest(self.versions@) == last_approved(self.versions@, n as int),
            decreases n,
        {
            let v = &self.versions[n - 1];
            if v.approval_status == ApprovalStatus::Approved && !v.deprecated {
                return Some(v);
            }
            n = n - 1;
        }
        None
    }

    /// The version with a given number.
    pub fn get_version(&self, v: u32) -> (r: Option<&SchemaVersion>)
        ensures
            (match r {
                Some(x) => numbered(self.versions@, v) is Some && *x == self.versions@[numbered(
                    self.versions@,
                    v,
                )->0],
                None => numbered(self.versions@, v) is None,
            }),
    {
        match place_of(&self.versions, v) {
            Some(i) => Some(&self.versions[i]),
            None => None,
        }
    }

    /// The number of the next version: one more than the largest.
    pub fn next_version_number(&self) -> (r: u32)
        requires
            next_number(self.versions@) <= u32::MAX,
        ensures
            r == next_number(self.versions@),
    {
        let mut m: u32 = 0;
        let mut i: usize = 0;
        while i < self.versions.len()
            invariant
                i <= self.versions.len(),
                m == largest(self.versions@, i as int),
            decreases self.versions@.len() - i,
        {
            if self.versions[i].version > m {
                m = self.versions[i].version;
            }
            i = i + 1;
        }
        m + 1
    }
}

/// Someone who uses schemas.
#[derive(Debug)]
pub struct Consumer {
    pub name: String,
    pub owner: String,
    /// The version of each subject that the consumer is bound to.
    pub pinned_versions: StrMap<u32>,
    pub generated_client: Option<String>,
}

/// Leave to register one incompatible version.
#[derive(Clone, Debug, PartialEq, Eq)]
pub struct RegistryOverride {
    pub id: String,
    pub subject: String,
    pub reason: String,
    pub requested_by: String,
    pub approved_by: String,
    pub created_at: u64,
    pub consumed: bool,
}

/// The override holds for a subject: it was given for it, it was not used yet,
/// and it says why and by whom.
pub open spec fn holds_for(o: RegistryOverride, subject: Seq<char>) -> bool {
    o.subject@ == subject && !o.consumed && !blank(o.reason@) && !blank(o.approved_by@)
}

impl RegistryOverride {
    pub fn is_valid(&self, subject: &str) -> (r: bool)
        ensures
            r == holds_for(*self, subject@),
    {
        same(&self.subject, subject) && !self.consumed && !is_blank(&self.reason) && !is_blank(
            &self.approved_by,
        )
    }
}

/// What a new version means for a consumer.
#[derive(Clone, Debug, PartialEq, Eq)]
pub struct ConsumerImpact {
    pub consumer: String,
    pub pinned_version: u32,
    pub compatible: bool,
    pub issues: Vec<String>,
}

/// What a new version means for a consumer, as a value.
pub ghost struct Impact {
    pub consumer: Seq<char>,
    pub pinned_version: u32,
    pub compatible: bool,
    pub issues: Seq<Seq<char>>,
}

impl View for ConsumerImpact {
    type V = Impact;

    open spec fn view(&self) -> Impact {
        Impact {
            consumer: self.consumer@,
            pinned_version: self.pinned_version,
            compatible: self.compatible,
            issues: views(self.issues@),
        }
    }
}

/// What a new version means for consumers, as values.
pub open spec fn impacts(v: Seq<ConsumerImpact>) -> Seq<Impact> {
    Seq::new(v.len(), |i: int| v[i]@)
}

/// What a new version means for those who are bound to a version.
#[derive(Clone, Debug, PartialEq, Eq)]
pub struct ConsumerImpactReport {
    pub subject: String,
    pub from_version: u32,
    pub to_version: u32,
    pub mode: CompatibilityMode,
    pub breaking: bool,
    pub consumers: Vec<ConsumerImpact>,
    pub override_id: Option<String>,
}

/// What a new version means for those who are bound to a version, as a value.
pub ghost struct Report {
    pub subject: Seq<char>,
    pub from_version: int,
    pub to_version: int,
    pub mode: CompatibilityMode,
    pub breaking: bool,
    pub consumers: Seq<Impact>,
    pub override_id: Option<Seq<char>>,
}

impl View for ConsumerImpactReport {
    type V = Report;

    open spec fn view(&self) -> Report {
        Report {
            subject: self.subject@,
            from_version: self.from_version as int,
            to_version: self.to_version as int,
            mode: self.mode,
            breaking: self.breaking,
            consumers: impacts(self.consumers@),
            override_id: opt_view(self.override_id),
        }
    }
}

#[derive(Clone, Debug, PartialEq)]
pub struct AuditEntry {
    pub at: u64,
    pub actor: String,
    pub action: String,
    pub subject: String,
    pub detail: String,
}

/// An entry of the audit says this.
pub open spec fn is_entry(
    e: AuditEntry,
    at: u64,
    actor: Seq<char>,
    action: Seq<char>,
    subject: Seq<char>,
    detail: Seq<char>,
) -> bool {
    &&& e.at == at
    &&& e.actor@ == actor
    &&& e.action@ == action
    &&& e.subject@ == subject
    &&& e.detail@ == detail
}

/// All that the registry holds.
#[derive(Debug)]
pub struct RegistrySnapshot {
    pub subjects: StrMap<SchemaSubject>,
    pub consumers: StrMap<Consumer>,
    pub overrides: Vec<RegistryOverride>,
    pub audit: Vec<AuditEntry>,
}

impl Default for RegistrySnapshot {
    fn default() -> (r: Self)
        ensures
            r.subjects.list().len() == 0,
            r.consumers.list().len() == 0,
            r.overrides@.len() == 0,
            r.audit@.len() == 0,
    {
        RegistrySnapshot {
            subjects: StrMap::new(),
            consumers: StrMap::new(),
            overrides: Vec::new(),
            audit: Vec::new(),
        }
    }
}

/// The version to build on is approved and not deprecated, and no later version
/// is; where there is none, no version is.
pub proof fn law_latest_is_the_last_approved(v: Seq<SchemaVersion>, n: int)
    requires
        0 <= n <= v.len(),
    ensures
        (match last_approved(v, n) {
            Some(i) => 0 <= i < n && v[i].approval_status == ApprovalStatus::Approved
                && !v[i].deprecated && forall|j: int|
                i < j < n ==> (#[trigger] v[j]).approval_status != ApprovalStatus::Approved
                    || v[j].deprecated,
            None => forall|j: int|
                0 <= j < n ==> (#[trigger] v[j]).approval_status != ApprovalStatus::Approved
                    || v[j].deprecated,
        }),
    decreases n,
{
    if n > 0 {
        law_latest_is_the_last_approved(v, n - 1);
    }
}

/// A version is found by its number, wherever it stands; the next number is
/// larger than all, and by one only than the largest.
pub proof fn law_versions_are_numbered(v: Seq<SchemaVersion>, number: u32)
    ensures
        numbered(v, number) is Some <==> exists|i: int|
            0 <= i < v.len() && (#[trigger] v[i]).version == number,
        numbered(v, number) is Some ==> 0 <= numbered(v, number)->0 < v.len()
            && v[numbered(v, number)->0].version == number,
        forall|i: int| 0 <= i < v.len() ==> (#[trigger] v[i]).version < next_number(v),
        v.len() == 0 ==> next_number(v) == 1,
        next_number(v) > 1 ==> exists|i: int|
            0 <= i < v.len() && (#[trigger] v[i]).version == next_number(v) - 1,
{
    lemma_numbered(v, number, 0);
    lemma_largest(v, v.len() as int);
    lemma_largest_is_there(v, v.len() as int);
}

proof fn lemma_largest_is_there(v: Seq<SchemaVersion>, n: int)
    requires
        0 <= n <= v.len(),
    ensures
        largest(v, n) > 0 ==> exists|i: int|
            0 <= i < n && (#[trigger] v[i]).version == largest(v, n),
    decreases n,
{
    if n > 0 {
        lemma_largest_is_there(v, n - 1);
        if v[n - 1].version > largest(v, n - 1) {
            assert(v[n - 1].version == largest(v, n));
        }
    }
}

/// An override holds for its own subject alone, with a reason and an approval,
/// and until it was used.
pub proof fn law_override_holds_for_its_subject(o: RegistryOverride, subject: Seq<char>)
    ensures
        holds_for(o, subject) ==> o.subject@ == subject && !o.consumed && !blank(o.reason@)
            && !blank(o.approved_by@),
        !o.consumed && !blank(o.reason@) && !blank(o.approved_by@) ==> holds_for(o, o.subject@),
{
}

} // verus!
