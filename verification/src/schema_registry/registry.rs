//! The registry: registration, approval, and what a new version means for
//! those who use the old ones.
//!
//! A registration is atomic: the subject's policy, every consumer and an
//! override are looked at before anything is changed.

use vstd::prelude::*;
use vstd::string::*;
use crate::crd::control_plane_health::opt_view;
use crate::json::{Doc, Json};
use crate::json_text::pretty;
use crate::schema_registry::compat::{
    CompatibilityMode, check_compatibility, is_compatible, issues_between,
};
use crate::schema_registry::model::{
    ApprovalStatus, AuditEntry, Consumer, ConsumerImpact, ConsumerImpactReport, Impact,
    RegistryOverride, RegistrySnapshot, Report, SchemaFormat, SchemaSubject, SchemaVersion,
    holds_for, impacts, is_entry, is_new, latest, lemma_largest, lemma_latest, lemma_numbered,
    next_number, numbered, place_of,
};
use crate::str_map::{
    StrMap, ascending, entry, lemma_put_back, lemma_read_after_write, with_entry, without_entry,
};
use crate::text::{
    blank, cat2, cat3, cat5, cat6, cat7, contains, copy_texts, decimal, decimal_text, ends_in,
    ends_with, has_text, is_blank, join, joined, lower_case, occurs_at, same, to_lower_case, views,
};
use crate::wall_clock::now_secs;

verus! {

/// A client that is not bound to a version: it follows `latest` or `main`.
pub open spec fn is_floating(client: Seq<char>) -> bool {
    ||| has_text(client, ":latest"@)
    ||| has_text(client, "@latest"@)
    ||| ends_in(client, "/latest"@)
    ||| ends_in(client, ":main"@)
    ||| ends_in(client, "@main"@)
    ||| ends_in(client, "/main"@)
    ||| client == "latest"@
    ||| client == "main"@
}

/// Whether a client is not bound to a version.
pub fn floats(client: &str) -> (r: bool)
    ensures
        r == is_floating(client@),
{
    contains(client, ":latest") || contains(client, "@latest") || ends_with(client, "/latest")
        || ends_with(client, ":main") || ends_with(client, "@main") || ends_with(client, "/main")
        || same(client, "latest") || same(client, "main")
}

/// The version of a subject that a consumer is bound to is not there.
pub open spec fn pin_missing(s: Seq<(Seq<char>, SchemaSubject)>, subject: Seq<char>, v: u32) -> bool {
    match entry(s, subject) {
        Some(x) => numbered(x.versions@, v) is None,
        None => true,
    }
}

/// The first pin from `i` on whose version is not there.
pub open spec fn missing_pin(
    subjects: Seq<(Seq<char>, SchemaSubject)>,
    pins: Seq<(Seq<char>, u32)>,
    i: int,
) -> Option<(Seq<char>, u32)>
    decreases pins.len() - i,
{
    if i < 0 || i >= pins.len() {
        None
    } else if pin_missing(subjects, pins[i].0, pins[i].1) {
        Some(pins[i])
    } else {
        missing_pin(subjects, pins, i + 1)
    }
}

/// Why a consumer cannot be registered.
pub open spec fn consumer_error(s: RegistrySnapshot, c: Consumer) -> Option<Seq<char>> {
    if blank(c.name@) {
        Some("consumer name is required"@)
    } else {
        match missing_pin(s.subjects.list(), c.pinned_versions.list(), 0) {
            Some((subject, v)) => Some(
                "consumer pin "@ + subject + "/v"@ + decimal(v as int) + " does not exist"@,
            ),
            None => if c.generated_client is Some && is_floating(c.generated_client->0@) {
                Some("generated client reference must be pinned"@)
            } else {
                None
            },
        }
    }
}

/// What a schema means for a consumer that is bound to the version at `i`.
pub open spec fn impact_on(
    consumer: Seq<char>,
    pin: u32,
    prior: SchemaVersion,
    new: Doc,
    mode: CompatibilityMode,
) -> Impact {
    Impact {
        consumer,
        pinned_version: pin,
        compatible: is_compatible(prior.definition@, new, mode),
        issues: issues_between(prior.definition@, new, mode),
    }
}

/// What a schema means for those of the first `n` consumers that are bound to
/// a version of the subject.
pub open spec fn impacts_on(
    consumers: Seq<(Seq<char>, Consumer)>,
    name: Seq<char>,
    subject: SchemaSubject,
    new: Doc,
    n: int,
) -> Seq<Impact>
    decreases n,
{
    if n <= 0 {
        Seq::empty()
    } else {
        let before = impacts_on(consumers, name, subject, new, n - 1);
        let c = consumers[n - 1].1;
        match entry(c.pinned_versions.list(), name) {
            Some(pin) => match numbered(subject.versions@, pin) {
                Some(i) => before.push(
                    impact_on(c.name@, pin, subject.versions@[i], new, subject.compatibility),
                ),
                None => before,
            },
            None => before,
        }
    }
}

/// What a schema means for all consumers.
pub open spec fn all_impacts(s: RegistrySnapshot, name: Seq<char>, subject: SchemaSubject, new: Doc) -> Seq<
    Impact,
> {
    let consumers = s.consumers.list();
    impacts_on(consumers, name, subject, new, consumers.len() as int)
}

/// One of the first `n` consumers is bound to a version of the subject that
/// is not there.
pub open spec fn bound_to_nothing(
    consumers: Seq<(Seq<char>, Consumer)>,
    name: Seq<char>,
    subject: SchemaSubject,
    n: int,
) -> bool
    decreases n,
{
    if n <= 0 {
        false
    } else {
        bound_to_nothing(consumers, name, subject, n - 1) || match entry(
            consumers[n - 1].1.pinned_versions.list(),
            name,
        ) {
            Some(pin) => numbered(subject.versions@, pin) is None,
            None => false,
        }
    }
}

/// Some consumer cannot use the schema.
pub open spec fn breaks_someone(s: Seq<Impact>) -> bool {
    exists|i: int| 0 <= i < s.len() && !(#[trigger] s[i]).compatible
}

/// What speaks against the schema for each of the first `n` consumers.
pub open spec fn consumer_issues(s: Seq<Impact>, n: int) -> Seq<Seq<char>>
    decreases n,
{
    if n <= 0 {
        Seq::empty()
    } else {
        consumer_issues(s, n - 1) + s[n - 1].issues
    }
}

/// The first override from `i` on with a given name that holds for a subject.
pub open spec fn override_from(
    v: Seq<RegistryOverride>,
    id: Seq<char>,
    subject: Seq<char>,
    i: int,
) -> Option<int>
    decreases v.len() - i,
{
    if i < 0 || i >= v.len() {
        None
    } else if v[i].id@ == id && holds_for(v[i], subject) {
        Some(i)
    } else {
        override_from(v, id, subject, i + 1)
    }
}

/// The override that can be used.
pub open spec fn usable_override(
    v: Seq<RegistryOverride>,
    id: Option<&str>,
    subject: Seq<char>,
) -> Option<int> {
    match id {
        Some(id) => override_from(v, id@, subject, 0),
        None => None,
    }
}

/// An override that was entered at a given time.
pub open spec fn dated(o: RegistryOverride, now: u64) -> RegistryOverride {
    RegistryOverride { created_at: now, ..o }
}

/// What becomes of a request to register a version.
pub ghost enum Verdict {
    /// It is refused.
    Refused(Seq<char>),
    /// It is accepted, with a report where there was a version to build on,
    /// and on the strength of the override at a place.
    Accepted { report: Option<Report>, used: Option<int> },
}

/// What speaks against a schema beside the version to build on. The first
/// approved version has none to be held against.
pub open spec fn base_issues(subject: SchemaSubject, new: Doc) -> Seq<Seq<char>> {
    match latest(subject.versions@) {
        Some(l) => issues_between(subject.versions@[l].definition@, new, subject.compatibility),
        None => Seq::empty(),
    }
}

/// The schema cannot take the place of the version to build on, or breaks a
/// consumer.
pub open spec fn breaks(s: RegistrySnapshot, name: Seq<char>, new: Doc) -> bool {
    let subject = s.subjects.at(name)->0;
    base_issues(subject, new).len() > 0 || breaks_someone(all_impacts(s, name, subject, new))
}

/// What becomes of a request to register a version.
pub open spec fn verdict_on(
    s: RegistrySnapshot,
    name: Seq<char>,
    new: Doc,
    override_id: Option<&str>,
) -> Verdict {
    match s.subjects.at(name) {
        None => Verdict::Refused("Subject '"@ + name + "' not found"@),
        Some(subject) => {
            let base = base_issues(subject, new);
            let consumers = all_impacts(s, name, subject, new);
            let breaking = base.len() > 0 || breaks_someone(consumers);
            let used = if breaking {
                usable_override(s.overrides@, override_id, name)
            } else {
                None
            };
            if bound_to_nothing(
                s.consumers.list(),
                name,
                subject,
                s.consumers.list().len() as int,
            ) {
                Verdict::Refused("pinned consumer version missing"@)
            } else if breaking && used is None {
                Verdict::Refused(
                    "Schema incompatible; explicit registry override required: "@ + joined(
                        base + consumer_issues(consumers, consumers.len() as int),
                        "; "@,
                    ),
                )
            } else {
                Verdict::Accepted {
                    report: match latest(subject.versions@) {
                        Some(l) => Some(
                            Report {
                                subject: name,
                                from_version: subject.versions@[l].version as int,
                                to_version: next_number(subject.versions@),
                                mode: subject.compatibility,
                                breaking,
                                consumers,
                                override_id: match used {
                                    Some(i) => Some(s.overrides@[i].id@),
                                    None => None,
                                },
                            },
                        ),
                        None => None,
                    },
                    used,
                }
            }
        },
    }
}

/// The report, where there is one.
pub open spec fn opt_report(r: Option<ConsumerImpactReport>) -> Option<Report> {
    match r {
        Some(x) => Some(x@),
        None => None,
    }
}

/// The overrides with the one at a place used.
pub open spec fn with_used(v: Seq<RegistryOverride>, used: Option<int>) -> Seq<RegistryOverride> {
    match used {
        Some(i) => v.update(i, RegistryOverride { consumed: true, ..v[i] }),
        None => v,
    }
}

/// The registry has taken a version: `t` is `s` with it, and nothing else is
/// changed.
pub open spec fn took_version(
    s: RegistrySnapshot,
    t: RegistrySnapshot,
    name: Seq<char>,
    new: Doc,
    format: SchemaFormat,
    author: Seq<char>,
    report: Option<Report>,
    used: Option<int>,
    created: u64,
    at: u64,
) -> bool {
    let was = s.subjects.at(name)->0;
    let is_now = t.subjects.at(name)->0;
    let n = next_number(was.versions@);
    &&& t.subjects.list() == with_entry(s.subjects.list(), name, is_now)
    &&& is_now == (SchemaSubject { versions: is_now.versions, ..was })
    &&& is_now.versions@.len() == was.versions@.len() + 1
    &&& is_now.versions@.drop_last() == was.versions@
    &&& is_new(
        is_now.versions@.last(),
        n as u32,
        name + "-v"@ + decimal(n),
        new,
        format,
        author,
    )
    &&& is_now.versions@.last().created_at == created
    &&& opt_report(is_now.versions@.last().impact_report) == report
    &&& t.consumers == s.consumers
    &&& t.overrides@ == with_used(s.overrides@, used)
    &&& t.audit@.len() == s.audit@.len() + 1
    &&& t.audit@.drop_last() == s.audit@
    &&& is_entry(
        t.audit@.last(),
        at,
        author,
        "register_version"@,
        name,
        match used {
            Some(i) => "override:"@ + s.overrides@[i].id@,
            None => "policy-clean"@,
        },
    )
}

/// A request to register a version was answered as its verdict says.
pub open spec fn registered(
    s: RegistrySnapshot,
    t: RegistrySnapshot,
    r: Result<u32, String>,
    name: Seq<char>,
    new: Doc,
    format: SchemaFormat,
    author: Seq<char>,
    override_id: Option<&str>,
    created: u64,
    at: u64,
) -> bool {
    match verdict_on(s, name, new, override_id) {
        Verdict::Refused(e) => r is Err && r->Err_0@ == e && t == s,
        Verdict::Accepted { report, used } => r is Ok && r->Ok_0 == next_number(
            s.subjects.at(name)->0.versions@,
        ) && took_version(s, t, name, new, format, author, report, used, created, at),
    }
}

/// Another number can be given to a version of the subject.
pub open spec fn has_number_left(s: RegistrySnapshot, name: Seq<char>) -> bool {
    match s.subjects.at(name) {
        Some(x) => next_number(x.versions@) <= u32::MAX,
        None => true,
    }
}

/// The subject with the version at `i` put in another state.
pub open spec fn with_version(
    s: RegistrySnapshot,
    t: RegistrySnapshot,
    name: Seq<char>,
    i: int,
    v: SchemaVersion,
) -> bool {
    let was = s.subjects.at(name)->0;
    let is_now = t.subjects.at(name)->0;
    &&& t.subjects.list() == with_entry(s.subjects.list(), name, is_now)
    &&& is_now == (SchemaSubject { versions: is_now.versions, ..was })
    &&& is_now.versions@ == was.versions@.update(i, v)
    &&& t.consumers == s.consumers
    &&& t.overrides == s.overrides
}

/// Where a version of a subject stands.
pub open spec fn version_of(s: RegistrySnapshot, name: Seq<char>, v: u32) -> Option<int> {
    match s.subjects.at(name) {
        Some(x) => numbered(x.versions@, v),
        None => None,
    }
}

/// The subjects among the first `n` whose name or namespace holds `q`, which
/// is in lower case.
pub open spec fn hits(s: Seq<(Seq<char>, SchemaSubject)>, q: Seq<char>, n: int) -> Seq<
    SchemaSubject,
>
    decreases n,
{
    if n <= 0 {
        Seq::empty()
    } else {
        let x = s[n - 1].1;
        if has_text(lower_case(x.name@), q) || has_text(lower_case(x.namespace@), q) {
            hits(s, q, n - 1).push(x)
        } else {
            hits(s, q, n - 1)
        }
    }
}

/// The place of a count among counts in descending order, behind those that
/// are as large.
pub open spec fn rank_from(s: Seq<(Seq<char>, u64)>, count: u64, i: int) -> int
    decreases s.len() - i,
{
    if i < 0 || i >= s.len() || s[i].1 < count {
        i
    } else {
        rank_from(s, count, i + 1)
    }
}

/// How often the first `n` subjects were used, in descending order; those that
/// were used equally often stay in order.
pub open spec fn ranked(s: Seq<(Seq<char>, SchemaSubject)>, n: int) -> Seq<(Seq<char>, u64)>
    decreases n,
{
    if n <= 0 {
        Seq::empty()
    } else {
        let before = ranked(s, n - 1);
        before.insert(rank_from(before, s[n - 1].1.usage_count, 0), (s[n - 1].0, s[n - 1].1.usage_count))
    }
}

/// The names and counts, as values.
pub open spec fn counts(v: Seq<(&str, u64)>) -> Seq<(Seq<char>, u64)> {
    Seq::new(v.len(), |i: int| (v[i].0@, v[i].1))
}

/// The description of the first `n` versions.
pub open spec fn version_docs(v: Seq<SchemaVersion>, n: int) -> Seq<char>
    decreases n,
{
    if n <= 0 {
        ""@
    } else {
        version_docs(v, n - 1) + ("### v"@ + decimal(v[n - 1].version as int) + " by "@
            + v[n - 1].author@ + "\n\n```json\n"@ + pretty(v[n - 1].definition@, ""@) + "\n```\n"@)
    }
}

/// The description of a subject.
pub open spec fn subject_docs(s: SchemaSubject) -> Seq<char> {
    "# Schema: "@ + s.name@ + "\n\nCompatibility: `"@ + s.compatibility.name() + "`\n\n"@
        + version_docs(s.versions@, s.versions@.len() as int)
}

/// The report on what a schema would mean.
pub open spec fn impact_report(s: RegistrySnapshot, name: Seq<char>, new: Doc) -> Report {
    let subject = s.subjects.at(name)->0;
    let mode = subject.compatibility;
    let from = match latest(subject.versions@) {
        Some(l) => subject.versions@[l].version as int,
        None => 0,
    };
    let consumers = all_impacts(s, name, subject, new);
    Report {
        subject: name,
        from_version: from,
        to_version: from + 1,
        mode,
        breaking: (match latest(subject.versions@) {
            Some(l) => !is_compatible(subject.versions@[l].definition@, new, mode),
            None => false,
        }) || breaks_someone(consumers),
        consumers,
        override_id: None,
    }
}

fn any_incompatible(v: &Vec<ConsumerImpact>) -> (r: bool)
    ensures
        r == breaks_someone(impacts(v@)),
{
    let mut i: usize = 0;
    while i < v.len()
        invariant
            i <= v.len(),
            forall|j: int| 0 <= j < i ==> (#[trigger] impacts(v@)[j]).compatible,
        decreases v@.len() - i,
    {
        if !v[i].compatible {
            assert(!impacts(v@)[i as int].compatible);
            return true;
        }
        i = i + 1;
    }
    false
}

fn gather_issues(base: &Vec<String>, consumers: &Vec<ConsumerImpact>) -> (r: Vec<String>)
    ensures
        views(r@) == views(base@) + consumer_issues(
            impacts(consumers@),
            consumers@.len() as int,
        ),
{
    let mut r = copy_texts(base);
    let ghost all = impacts(consumers@);
    let ghost start = views(base@);
    let mut i: usize = 0;
    assert(start + consumer_issues(all, 0) =~= start);
    while i < consumers.len()
        invariant
            i <= consumers.len(),
            all == impacts(consumers@),
            views(r@) == start + consumer_issues(all, i as int),
        decreases consumers@.len() - i,
    {
        let ghost had = r@;
        let mut more = copy_texts(&consumers[i].issues);
        let ghost added = more@;
        r.append(&mut more);
        assert(views(r@) =~= views(had) + views(added));
        i = i + 1;
        assert(views(r@) =~= start + consumer_issues(all, i as int));
    }
    r
}

/// Who uses which version of which schema.
#[derive(Debug)]
pub struct SchemaRegistry {
    state: RegistrySnapshot,
}

impl Default for SchemaRegistry {
    fn default() -> (r: Self)
        ensures
            r.state().subjects.list().len() == 0,
            r.state().consumers.list().len() == 0,
            r.state().overrides@.len() == 0,
            r.state().audit@.len() == 0,
    {
        Self::new()
    }
}

impl SchemaRegistry {
    pub closed spec fn state(&self) -> RegistrySnapshot {
        self.state
    }

    pub fn new() -> (r: Self)
        ensures
            r.state().subjects.list().len() == 0,
            r.state().consumers.list().len() == 0,
            r.state().overrides@.len() == 0,
            r.state().audit@.len() == 0,
    {
        SchemaRegistry { state: RegistrySnapshot::default() }
    }

    pub fn from_snapshot(s: RegistrySnapshot) -> (r: Self)
        ensures
            r.state() == s,
    {
        SchemaRegistry { state: s }
    }

    pub fn snapshot(&self) -> (r: &RegistrySnapshot)
        ensures
            *r == self.state(),
    {
        &self.state
    }

    /// Hands the state out.
    pub fn into_snapshot(self) -> (r: RegistrySnapshot)
        ensures
            r == self.state(),
    {
        self.state
    }

    /// Enters a subject, unless there is one of its name.
    pub fn create_subject(&mut self, subject: SchemaSubject)
        ensures
            final(self).state().subjects.list() == if old(self).state().subjects.at(subject.name@) is Some {
                old(self).state().subjects.list()
            } else {
                with_entry(old(self).state().subjects.list(), subject.name@, subject)
            },
            final(self).state().consumers == old(self).state().consumers,
            final(self).state().overrides == old(self).state().overrides,
            final(self).state().audit == old(self).state().audit,
    {
        let known = self.state.subjects.has(&subject.name);
        if !known {
            self.state.subjects.insert(subject.name.clone(), subject);
        }
    }

    /// Sets in which direction new versions of a subject have to be compatible.
    pub fn set_compatibility(&mut self, subject: &str, mode: CompatibilityMode) -> (r: bool)
        ensures
            r == (old(self).state().subjects.at(subject@) is Some),
            !r ==> final(self).state() == old(self).state(),
            r ==> final(self).state().subjects.list() == with_entry(
                old(self).state().subjects.list(),
                subject@,
                SchemaSubject {
                    compatibility: mode,
                    ..old(self).state().subjects.at(subject@)->0
                },
            ),
            final(self).state().consumers == old(self).state().consumers,
            final(self).state().overrides == old(self).state().overrides,
            final(self).state().audit == old(self).state().audit,
    {
        if !self.state.subjects.has(subject) {
            return false;
        }
        proof {
            use_type_invariant(&self.state.subjects);
        }
        let ghost before = self.state.subjects.list();
        if let Some(mut s) = self.state.subjects.remove(subject) {
            s.compatibility = mode;
            self.state.subjects.insert(subject.to_string(), s);
            proof {
                lemma_put_back(before, subject@, s);
            }
        }
        true
    }

    pub fn subject(&self, name: &str) -> (r: Option<&SchemaSubject>)
        ensures
            (match r {
                Some(s) => self.state().subjects.at(name@) == Some(*s),
                None => self.state().subjects.at(name@) is None,
            }),
    {
        self.state.subjects.get(name)
    }

    /// The consumers, by name.
    pub fn consumers(&self) -> (r: &StrMap<Consumer>)
        ensures
            *r == self.state().consumers,
    {
        &self.state.consumers
    }

    pub fn audit(&self) -> (r: &Vec<AuditEntry>)
        ensures
            *r == self.state().audit,
    {
        &self.state.audit
    }

    /// Enters a consumer, in place of the one that had its name.
    pub fn register_consumer(&mut self, consumer: Consumer) -> (r: Result<(), String>)
        ensures
            (match consumer_error(old(self).state(), consumer) {
                Some(e) => r is Err && r->Err_0@ == e && final(self).state() == old(self).state(),
                None => r is Ok && final(self).state().consumers.list() == with_entry(
                    old(self).state().consumers.list(),
                    consumer.name@,
                    consumer,
                ) && final(self).state().subjects == old(self).state().subjects
                    && final(self).state().overrides == old(self).state().overrides
                    && final(self).state().audit == old(self).state().audit,
            }),
    {
        if is_blank(&consumer.name) {
            return Err("consumer name is required".to_string());
        }
        if let Some((subject, v)) = self.find_missing_pin(&consumer.pinned_versions) {
            return Err(
                cat5(
                    "consumer pin ",
                    &subject,
                    "/v",
                    &decimal_text(v as u64),
                    " does not exist",
                ),
            );
        }
        if let Some(client) = &consumer.generated_client {
            if floats(client) {
                return Err("generated client reference must be pinned".to_string());
            }
        }
        self.state.consumers.insert(consumer.name.clone(), consumer);
        Ok(())
    }

    fn find_missing_pin(&self, pins: &StrMap<u32>) -> (r: Option<(String, u32)>)
        ensures
            (match r {
                Some((s, v)) => missing_pin(self.state().subjects.list(), pins.list(), 0) == Some(
                    (s@, v),
                ),
                None => missing_pin(self.state().subjects.list(), pins.list(), 0) is None,
            }),
    {
        let n = pins.len();
        let mut i: usize = 0;
        while i < n
            invariant
                i <= n,
                n == pins.list().len(),
                missing_pin(self.state().subjects.list(), pins.list(), 0) == missing_pin(
                    self.state().subjects.list(),
                    pins.list(),
                    i as int,
                ),
            decreases n - i,
        {
            let subject = pins.key_at(i);
            let v: u32 = *pins.value_at(i);
            let missing = match self.state.subjects.get(subject) {
                Some(s) => s.get_version(v).is_none(),
                None => true,
            };
            if missing {
                return Some((subject.clone(), v));
            }
            i = i + 1;
        }
        None
    }

    /// Enters an override at a given time.
    pub fn add_override_at(&mut self, o: RegistryOverride, now: u64) -> (r: Result<String, String>)
        ensures
            blank(o.id@) || blank(o.reason@) || blank(o.approved_by@) ==> r is Err && r->Err_0@
                == "override requires id, reason and approved_by"@ && final(self).state() == old(
                self,
            ).state(),
            !blank(o.id@) && !blank(o.reason@) && !blank(o.approved_by@) ==> r is Ok && r->Ok_0@
                == o.id@ && final(self).state().overrides@ == old(self).state().overrides@.push(
                dated(o, now),
            ),
            final(self).state().subjects == old(self).state().subjects,
            final(self).state().consumers == old(self).state().consumers,
            final(self).state().audit == old(self).state().audit,
    {
        if is_blank(&o.id) || is_blank(&o.reason) || is_blank(&o.approved_by) {
            return Err("override requires id, reason and approved_by".to_string());
        }
        let mut o = o;
        o.created_at = now;
        let id = o.id.clone();
        self.state.overrides.push(o);
        Ok(id)
    }

    /// Enters an override, with the time.
    pub fn add_override(&mut self, o: RegistryOverride) -> (r: Result<String, String>)
        ensures
            blank(o.id@) || blank(o.reason@) || blank(o.approved_by@) ==> r is Err && r->Err_0@
                == "override requires id, reason and approved_by"@ && final(self).state() == old(
                self,
            ).state(),
            !blank(o.id@) && !blank(o.reason@) && !blank(o.approved_by@) ==> r is Ok && r->Ok_0@
                == o.id@ && exists|now: u64|
                final(self).state().overrides@ == old(self).state().overrides@.push(
                    #[trigger] dated(o, now),
                ),
            final(self).state().subjects == old(self).state().subjects,
            final(self).state().consumers == old(self).state().consumers,
            final(self).state().audit == old(self).state().audit,
    {
        let now: u64 = now_secs();
        let r = self.add_override_at(o, now);
        assert(dated(o, now).created_at == now);
        r
    }

    fn impacts_of(&self, name: &str, subject: &SchemaSubject, new: &Json) -> (r: Vec<
        ConsumerImpact,
    >)
        ensures
            impacts(r@) == all_impacts(self.state(), name@, *subject, new@),
    {
        let consumers = &self.state.consumers;
        let n = consumers.len();
        let ghost all = consumers.list();
        let mut r: Vec<ConsumerImpact> = Vec::new();
        assert(impacts(r@) =~= impacts_on(all, name@, *subject, new@, 0));
        let mut i: usize = 0;
        while i < n
            invariant
                i <= n,
                all == consumers.list(),
                n == all.len(),
                impacts(r@) == impacts_on(all, name@, *subject, new@, i as int),
            decreases n - i,
        {
            let c = consumers.value_at(i);
            if let Some(pin) = c.pinned_versions.get(name) {
                if let Some(prior) = subject.get_version(*pin) {
                    let result = check_compatibility(
                        &prior.definition,
                        new,
                        subject.compatibility,
                    );
                    let ghost had = impacts(r@);
                    let impact = ConsumerImpact {
                        consumer: c.name.clone(),
                        pinned_version: *pin,
                        compatible: result.compatible,
                        issues: result.issues,
                    };
                    r.push(impact);
                    assert(impacts(r@) =~= had.push(impact@));
                }
            }
            i = i + 1;
        }
        r
    }

    fn has_lost_pin(&self, name: &str, subject: &SchemaSubject) -> (r: bool)
        ensures
            r == bound_to_nothing(
                self.state().consumers.list(),
                name@,
                *subject,
                self.state().consumers.list().len() as int,
            ),
    {
        let consumers = &self.state.consumers;
        let n = consumers.len();
        let mut found = false;
        let mut i: usize = 0;
        while i < n
            invariant
                i <= n,
                n == consumers.list().len(),
                found == bound_to_nothing(consumers.list(), name@, *subject, i as int),
            decreases n - i,
        {
            let c = consumers.value_at(i);
            if let Some(pin) = c.pinned_versions.get(name) {
                if subject.get_version(*pin).is_none() {
                    found = true;
                }
            }
            i = i + 1;
        }
        found
    }

    /// Whether an override with a given name holds for a subject.
    pub fn has_override(&self, id: &str, subject: &str) -> (r: bool)
        ensures
            r == (override_from(self.state().overrides@, id@, subject@, 0) is Some),
    {
        find_in(&self.state.overrides, id, subject).is_some()
    }

    fn find_override(&self, id: Option<&str>, subject: &str) -> (r: Option<usize>)
        ensures
            (match r {
                Some(i) => usable_override(self.state().overrides@, id, subject@) == Some(i as int)
                    && i < self.state().overrides@.len(),
                None => usable_override(self.state().overrides@, id, subject@) is None,
            }),
    {
        let id = match id {
            Some(id) => id,
            None => return None,
        };
        find_in(&self.state.overrides, id, subject)
    }

    /// Registers a version, as of given times.
    pub fn register_version_at(
        &mut self,
        subject_name: &str,
        definition: Json,
        format: SchemaFormat,
        author: &str,
        override_id: Option<&str>,
        created: u64,
        at: u64,
    ) -> (r: Result<u32, String>)
        requires
            has_number_left(old(self).state(), subject_name@),
        ensures
            registered(
                old(self).state(),
                final(self).state(),
                r,
                subject_name@,
                definition@,
                format,
                author@,
                override_id,
                created,
                at,
            ),
    {
        let ghost s0 = self.state;
        let subject = match self.state.subjects.get(subject_name) {
            Some(s) => s,
            None => {
                return Err(cat3("Subject '", subject_name, "' not found"));
            },
        };
        let mut report: Option<ConsumerImpactReport> = None;
        let mut used: Option<usize> = None;
        let n: u32 = subject.next_version_number();
        proof {
            lemma_latest(subject.versions@, subject.versions@.len() as int);
        }
        let prior = subject.latest_approved();
        let base: Vec<String> = match prior {
            Some(v) => check_compatibility(&v.definition, &definition, subject.compatibility).issues,
            None => Vec::new(),
        };
        assert(views(base@) =~= base_issues(*subject, definition@));
        if self.has_lost_pin(subject_name, subject) {
            return Err("pinned consumer version missing".to_string());
        }
        let consumers = self.impacts_of(subject_name, subject, &definition);
        let breaking = base.len() > 0 || any_incompatible(&consumers);
        let mut override_used: Option<String> = None;
        if breaking {
            match self.find_override(override_id, subject_name) {
                Some(i) => {
                    used = Some(i);
                    override_used = Some(self.state.overrides[i].id.clone());
                },
                None => {
                    let issues = gather_issues(&base, &consumers);
                    return Err(
                        cat2(
                            "Schema incompatible; explicit registry override required: ",
                            &join(&issues, "; "),
                        ),
                    );
                },
            }
        }
        if let Some(v) = prior {
            report = Some(
                ConsumerImpactReport {
                    subject: subject_name.to_string(),
                    from_version: v.version,
                    to_version: n,
                    mode: subject.compatibility,
                    breaking,
                    consumers,
                    override_id: override_used,
                },
            );
        }
        let ghost want = verdict_on(s0, subject_name@, definition@, override_id);
        assert(want is Accepted);
        assert(opt_report(report) == want->Accepted_report);
        assert((match used {
            Some(i) => Some(i as int),
            None => None::<int>,
        }) == want->Accepted_used);
        let detail = match used {
            Some(i) => cat2("override:", &self.state.overrides[i].id),
            None => "policy-clean".to_string(),
        };
        if let Some(i) = used {
            self.mark_used(i);
        }
        assert(self.state.overrides@ == with_used(s0.overrides@, want->Accepted_used));
        let mut v = SchemaVersion::new_at(
            n,
            &cat3(subject_name, "-v", &decimal_text(n as u64)),
            definition,
            format,
            author,
            created,
        );
        v.impact_report = report;
        proof {
            use_type_invariant(&self.state.subjects);
        }
        let ghost listed = self.state.subjects.list();
        if let Some(mut s) = self.state.subjects.remove(subject_name) {
            let ghost had = s;
            s.versions.push(v);
            assert(s.versions@.drop_last() =~= had.versions@);
            self.state.subjects.insert(subject_name.to_string(), s);
            proof {
                lemma_put_back(listed, subject_name@, s);
                lemma_read_after_write(listed, subject_name@, s, subject_name@);
            }
        }
        let ghost log = self.state.audit@;
        self.state.audit.push(
            AuditEntry {
                at,
                actor: author.to_string(),
                action: "register_version".to_string(),
                subject: subject_name.to_string(),
                detail,
            },
        );
        assert(self.state.audit@.drop_last() =~= log);
        Ok(n)
    }

    fn mark_used(&mut self, i: usize)
        requires
            i < old(self).state().overrides@.len(),
        ensures
            final(self).state().subjects == old(self).state().subjects,
            final(self).state().consumers == old(self).state().consumers,
            final(self).state().audit == old(self).state().audit,
            final(self).state().overrides@ == with_used(
                old(self).state().overrides@,
                Some(i as int),
            ),
    {
        let mut o = self.state.overrides.remove(i);
        o.consumed = true;
        self.state.overrides.insert(i, o);
        assert(self.state.overrides@ =~= with_used(old(self).state().overrides@, Some(i as int)));
    }

    /// Registers a version of a subject, where nothing speaks against it or an
    /// override with the given name holds for it.
    pub fn register_version_with_override(
        &mut self,
        subject_name: &str,
        definition: Json,
        format: SchemaFormat,
        author: &str,
        override_id: Option<&str>,
    ) -> (r: Result<u32, String>)
        requires
            has_number_left(old(self).state(), subject_name@),
        ensures
            exists|created: u64, at: u64| #[trigger]
                registered(
                    old(self).state(),
                    final(self).state(),
                    r,
                    subject_name@,
                    definition@,
                    format,
                    author@,
                    override_id,
                    created,
                    at,
                ),
    {
        let created: u64 = now_secs();
        let at: u64 = now_secs();
        self.register_version_at(
            subject_name,
            definition,
            format,
            author,
            override_id,
            created,
            at,
        )
    }

    /// Registers a version of a subject, where nothing speaks against it.
    pub fn register_version(
        &mut self,
        subject: &str,
        definition: Json,
        format: SchemaFormat,
        author: &str,
    ) -> (r: Result<u32, String>)
        requires
            has_number_left(old(self).state(), subject@),
        ensures
            exists|created: u64, at: u64| #[trigger]
                registered(
                    old(self).state(),
                    final(self).state(),
                    r,
                    subject@,
                    definition@,
                    format,
                    author@,
                    None,
                    created,
                    at,
                ),
    {
        self.register_version_with_override(subject, definition, format, author, None)
    }

    /// Takes a version out of its subject, and puts it back in another state.
    fn take_version(&mut self, subject: &str, version: u32) -> (r: Option<(
        SchemaSubject,
        usize,
        SchemaVersion,
    )>)
        ensures
            (match r {
                Some((s, i, v)) => {
                    let was = old(self).state().subjects.at(subject@)->0;
                    &&& version_of(old(self).state(), subject@, version) == Some(i as int)
                    &&& old(self).state().subjects.at(subject@) is Some
                    &&& i < was.versions@.len()
                    &&& v == was.versions@[i as int]
                    &&& s == (SchemaSubject { versions: s.versions, ..was })
                    &&& s.versions@ == was.versions@.remove(i as int)
                    &&& ascending(old(self).state().subjects.list())
                    &&& final(self).state().subjects.list() == without_entry(
                        old(self).state().subjects.list(),
                        subject@,
                    )
                },
                None => version_of(old(self).state(), subject@, version) is None
                    && final(self).state() == old(self).state(),
            }),
            final(self).state().consumers == old(self).state().consumers,
            final(self).state().overrides == old(self).state().overrides,
            final(self).state().audit == old(self).state().audit,
    {
        let i = match self.state.subjects.get(subject) {
            Some(s) => match place_of(&s.versions, version) {
                Some(i) => i,
                None => return None,
            },
            None => return None,
        };
        proof {
            use_type_invariant(&self.state.subjects);
        }
        match self.state.subjects.remove(subject) {
            Some(s) => {
                let mut s = s;
                let v = s.versions.remove(i);
                Some((s, i, v))
            },
            None => None,
        }
    }

    fn put_version(&mut self, subject: &str, s: SchemaSubject, i: usize, v: SchemaVersion)
        requires
            i <= s.versions@.len(),
        ensures
            ({
                let now = final(self).state().subjects.at(subject@)->0;
                &&& now == (SchemaSubject { versions: now.versions, ..s })
                &&& now.versions@ == s.versions@.insert(i as int, v)
                &&& final(self).state().subjects.list() == with_entry(
                    old(self).state().subjects.list(),
                    subject@,
                    now,
                )
            }),
            final(self).state().consumers == old(self).state().consumers,
            final(self).state().overrides == old(self).state().overrides,
            final(self).state().audit == old(self).state().audit,
    {
        let mut s = s;
        s.versions.insert(i, v);
        proof {
            use_type_invariant(&self.state.subjects);
            lemma_read_after_write(self.state.subjects.list(), subject@, s, subject@);
        }
        self.state.subjects.insert(subject.to_string(), s);
    }

    /// Approves a version at a given time.
    pub fn approve_version_at(
        &mut self,
        subject: &str,
        version: u32,
        approver: &str,
        now: u64,
    ) -> (r: bool)
        ensures
            approved(old(self).state(), final(self).state(), r, subject@, version, approver@, now),
    {
        match self.take_version(subject, version) {
            Some((s, i, v)) => {
                let ghost was = v;
                let mut v = v;
                v.approval_status = ApprovalStatus::Approved;
                v.approved_by = Some(approver.to_string());
                self.put_version(subject, s, i, v);
                proof {
                    let before = old(self).state();
                    let subjects = before.subjects.list();
                    let now_there = self.state.subjects.at(subject@)->0;
                    lemma_put_back(subjects, subject@, now_there);
                    assert(s.versions@.insert(i as int, v) =~= before.subjects.at(
                        subject@,
                    )->0.versions@.update(i as int, v));
                }
                let ghost log = self.state.audit@;
                self.state.audit.push(
                    AuditEntry {
                        at: now,
                        actor: approver.to_string(),
                        action: "approve".to_string(),
                        subject: subject.to_string(),
                        detail: cat2("v", &decimal_text(version as u64)),
                    },
                );
                assert(self.state.audit@.drop_last() =~= log);
                true
            },
            None => false,
        }
    }

    /// Approves a version.
    pub fn approve_version(&mut self, subject: &str, version: u32, approver: &str) -> (r: bool)
        ensures
            exists|now: u64| #[trigger]
                approved(
                    old(self).state(),
                    final(self).state(),
                    r,
                    subject@,
                    version,
                    approver@,
                    now,
                ),
    {
        let now: u64 = now_secs();
        self.approve_version_at(subject, version, approver, now)
    }

    /// Rejects a version.
    pub fn reject_version(&mut self, s: &str, v: u32) -> (r: bool)
        ensures
            r == (version_of(old(self).state(), s@, v) is Some),
            !r ==> final(self).state() == old(self).state(),
            r ==> ({
                let i = version_of(old(self).state(), s@, v)->0;
                with_version(
                    old(self).state(),
                    final(self).state(),
                    s@,
                    i,
                    SchemaVersion {
                        approval_status: ApprovalStatus::Rejected,
                        ..old(self).state().subjects.at(s@)->0.versions@[i]
                    },
                )
            }),
            final(self).state().audit == old(self).state().audit,
    {
        match self.take_version(s, v) {
            Some((x, i, version)) => {
                let mut version = version;
                version.approval_status = ApprovalStatus::Rejected;
                self.put_version(s, x, i, version);
                proof {
                    let before = old(self).state();
                    lemma_put_back(
                        before.subjects.list(),
                        s@,
                        self.state.subjects.at(s@)->0,
                    );
                    assert(x.versions@.insert(i as int, version) =~= before.subjects.at(
                        s@,
                    )->0.versions@.update(i as int, version));
                }
                true
            },
            None => false,
        }
    }

    /// Marks a version as deprecated.
    pub fn deprecate_version(&mut self, s: &str, v: u32) -> (r: bool)
        ensures
            r == (version_of(old(self).state(), s@, v) is Some),
            !r ==> final(self).state() == old(self).state(),
            r ==> ({
                let i = version_of(old(self).state(), s@, v)->0;
                with_version(
                    old(self).state(),
                    final(self).state(),
                    s@,
                    i,
                    SchemaVersion {
                        deprecated: true,
                        ..old(self).state().subjects.at(s@)->0.versions@[i]
                    },
                )
            }),
            final(self).state().audit == old(self).state().audit,
    {
        match self.take_version(s, v) {
            Some((x, i, version)) => {
                let mut version = version;
                version.deprecated = true;
                self.put_version(s, x, i, version);
                proof {
                    let before = old(self).state();
                    lemma_put_back(
                        before.subjects.list(),
                        s@,
                        self.state.subjects.at(s@)->0,
                    );
                    assert(x.versions@.insert(i as int, version) =~= before.subjects.at(
                        s@,
                    )->0.versions@.update(i as int, version));
                }
                true
            },
            None => false,
        }
    }

    /// The version of a subject to build on.
    pub fn get_latest(&self, s: &str) -> (r: Option<&SchemaVersion>)
        ensures
            (match self.state().subjects.at(s@) {
                Some(x) => match latest(x.versions@) {
                    Some(i) => r == Some(&x.versions@[i]),
                    None => r is None,
                },
                None => r is None,
            }),
    {
        match self.state.subjects.get(s) {
            Some(x) => x.latest_approved(),
            None => None,
        }
    }

    /// A version of a subject.
    pub fn get_version(&self, s: &str, v: u32) -> (r: Option<&SchemaVersion>)
        ensures
            (match version_of(self.state(), s@, v) {
                Some(i) => r == Some(&self.state().subjects.at(s@)->0.versions@[i]),
                None => r is None,
            }),
    {
        match self.state.subjects.get(s) {
            Some(x) => x.get_version(v),
            None => None,
        }
    }

    /// The subjects whose name or namespace holds a text, whatever the case.
    pub fn search(&self, q: &str) -> (r: Vec<&SchemaSubject>)
        ensures
            ({
                let s = self.state().subjects.list();
                let found = hits(s, lower_case(q@), s.len() as int);
                r@.len() == found.len() && forall|i: int|
                    0 <= i < found.len() ==> *(#[trigger] r@[i]) == found[i]
            }),
    {
        let q = to_lower_case(q);
        let subjects = &self.state.subjects;
        let n = subjects.len();
        let ghost s = subjects.list();
        let mut r: Vec<&SchemaSubject> = Vec::new();
        let mut i: usize = 0;
        while i < n
            invariant
                i <= n,
                s == subjects.list(),
                n == s.len(),
                r@.len() == hits(s, q@, i as int).len(),
                forall|j: int| 0 <= j < r@.len() ==> *(#[trigger] r@[j]) == hits(s, q@, i as int)[j],
            decreases n - i,
        {
            let x = subjects.value_at(i);
            if contains(&to_lower_case(&x.name), &q) || contains(&to_lower_case(&x.namespace), &q) {
                r.push(x);
            }
            i = i + 1;
        }
        r
    }

    /// Counts a use of a subject at a given time.
    pub fn record_usage_at(&mut self, s: &str, now: u64)
        requires
            old(self).state().subjects.at(s@) is Some ==> old(self).state().subjects.at(
                s@,
            )->0.usage_count < u64::MAX,
        ensures
            used_once(old(self).state(), final(self).state(), s@, now),
    {
        if !self.state.subjects.has(s) {
            return;
        }
        proof {
            use_type_invariant(&self.state.subjects);
        }
        let ghost before = self.state.subjects.list();
        if let Some(mut x) = self.state.subjects.remove(s) {
            x.usage_count = x.usage_count + 1;
            x.last_used_at = Some(now);
            self.state.subjects.insert(s.to_string(), x);
            proof {
                lemma_put_back(before, s@, x);
            }
        }
    }

    /// Counts a use of a subject.
    pub fn record_usage(&mut self, s: &str)
        requires
            old(self).state().subjects.at(s@) is Some ==> old(self).state().subjects.at(
                s@,
            )->0.usage_count < u64::MAX,
        ensures
            exists|now: u64| #[trigger] used_once(old(self).state(), final(self).state(), s@, now),
    {
        let now: u64 = now_secs();
        self.record_usage_at(s, now);
    }

    /// How often each subject was used, the most used first.
    pub fn usage_analytics(&self) -> (r: Vec<(&str, u64)>)
        ensures
            counts(r@) == ranked(
                self.state().subjects.list(),
                self.state().subjects.list().len() as int,
            ),
    {
        let subjects = &self.state.subjects;
        let n = subjects.len();
        let ghost s = subjects.list();
        let mut r: Vec<(&str, u64)> = Vec::new();
        assert(counts(r@) =~= ranked(s, 0));
        let mut i: usize = 0;
        while i < n
            invariant
                i <= n,
                s == subjects.list(),
                n == s.len(),
                counts(r@) == ranked(s, i as int),
            decreases n - i,
        {
            let count: u64 = subjects.value_at(i).usage_count;
            let ghost had = counts(r@);
            let p = place_in(&r, count);
            let ghost before = r@;
            r.insert(p, (subjects.key_at(i).as_str(), count));
            assert(counts(r@) =~= had.insert(p as int, (s[i as int].0, count)));
            i = i + 1;
        }
        r
    }

    /// The description of a subject.
    pub fn docs(&self, s: &str) -> (r: Option<String>)
        ensures
            (match self.state().subjects.at(s@) {
                Some(x) => r is Some && r->0@ == subject_docs(x),
                None => r is None,
            }),
    {
        match self.state.subjects.get(s) {
            Some(x) => {
                let mut body = "".to_string();
                let mut i: usize = 0;
                while i < x.versions.len()
                    invariant
                        i <= x.versions.len(),
                        body@ == version_docs(x.versions@, i as int),
                    decreases x.versions@.len() - i,
                {
                    let v = &x.versions[i];
                    body.append(
                        &cat7(
                            "### v",
                            &decimal_text(v.version as u64),
                            " by ",
                            &v.author,
                            "\n\n```json\n",
                            &v.definition.to_pretty_text(),
                            "\n```\n",
                        ),
                    );
                    i = i + 1;
                }
                Some(
                    cat6(
                        "# Schema: ",
                        &x.name,
                        "\n\nCompatibility: `",
                        x.compatibility.as_str(),
                        "`\n\n",
                        &body,
                    ),
                )
            },
            None => None,
        }
    }

    /// What a schema would mean for a subject, which has to be there.
    pub fn impact(&self, subject: &str, definition: &Json) -> (r: ConsumerImpactReport)
        requires
            self.state().subjects.at(subject@) is Some,
            impact_report(self.state(), subject@, definition@).to_version <= u32::MAX,
        ensures
            r@ == impact_report(self.state(), subject@, definition@),
    {
        let s = self.state.subjects.get(subject).unwrap();
        self.impact_on_subject(subject, s, definition)
    }

    fn impact_on_subject(&self, subject: &str, s: &SchemaSubject, definition: &Json) -> (r:
        ConsumerImpactReport)
        requires
            self.state().subjects.at(subject@) == Some(*s),
            impact_report(self.state(), subject@, definition@).to_version <= u32::MAX,
        ensures
            r@ == impact_report(self.state(), subject@, definition@),
    {
        let mode = s.compatibility;
        let mut from: u32 = 0;
        let mut base_breaks = false;
        if let Some(v) = s.latest_approved() {
            from = v.version;
            base_breaks = !check_compatibility(&v.definition, definition, mode).compatible;
        }
        let consumers = self.impacts_of(subject, s, definition);
        let breaking = base_breaks || any_incompatible(&consumers);
        ConsumerImpactReport {
            subject: subject.to_string(),
            from_version: from,
            to_version: from + 1,
            mode,
            breaking,
            consumers,
            override_id: None,
        }
    }

    /// What a schema would mean for a subject.
    pub fn try_impact(&self, subject: &str, definition: &Json) -> (r: Result<
        ConsumerImpactReport,
        String,
    >)
        requires
            self.state().subjects.at(subject@) is Some ==> impact_report(
                self.state(),
                subject@,
                definition@,
            ).to_version <= u32::MAX,
        ensures
            (match self.state().subjects.at(subject@) {
                Some(_) => r is Ok && r->Ok_0@ == impact_report(
                    self.state(),
                    subject@,
                    definition@,
                ),
                None => r is Err && r->Err_0@ == "Subject '"@ + subject@ + "' not found"@,
            }),
    {
        match self.state.subjects.get(subject) {
            Some(s) => Ok(self.impact_on_subject(subject, s, definition)),
            None => Err(cat3("Subject '", subject, "' not found")),
        }
    }
}

/// A version was approved, or there was none.
pub open spec fn approved(
    s: RegistrySnapshot,
    t: RegistrySnapshot,
    r: bool,
    name: Seq<char>,
    version: u32,
    approver: Seq<char>,
    now: u64,
) -> bool {
    match version_of(s, name, version) {
        Some(i) => {
            let was = s.subjects.at(name)->0.versions@[i];
            let is_now = t.subjects.at(name)->0.versions@[i];
            &&& r
            &&& with_version(s, t, name, i, is_now)
            &&& is_now == (SchemaVersion {
                approval_status: ApprovalStatus::Approved,
                approved_by: is_now.approved_by,
                ..was
            })
            &&& opt_view(is_now.approved_by) == Some(approver)
            &&& t.audit@.len() == s.audit@.len() + 1
            &&& t.audit@.drop_last() == s.audit@
            &&& is_entry(
                t.audit@.last(),
                now,
                approver,
                "approve"@,
                name,
                "v"@ + decimal(version as int),
            )
        },
        None => !r && t == s,
    }
}

/// A use of a subject was counted, where there is one.
pub open spec fn used_once(s: RegistrySnapshot, t: RegistrySnapshot, name: Seq<char>, now: u64) -> bool {
    match s.subjects.at(name) {
        Some(x) => {
            &&& t.subjects.list() == with_entry(
                s.subjects.list(),
                name,
                SchemaSubject {
                    usage_count: (x.usage_count + 1) as u64,
                    last_used_at: Some(now),
                    ..x
                },
            )
            &&& t.consumers == s.consumers
            &&& t.overrides == s.overrides
            &&& t.audit == s.audit
        },
        None => t == s,
    }
}

fn place_in(v: &Vec<(&str, u64)>, count: u64) -> (r: usize)
    ensures
        r == rank_from(counts(v@), count, 0),
        r <= v@.len(),
{
    let mut i: usize = 0;
    while i < v.len() && v[i].1 >= count
        invariant
            i <= v.len(),
            rank_from(counts(v@), count, 0) == rank_from(counts(v@), count, i as int),
        decreases v@.len() - i,
    {
        i = i + 1;
    }
    i
}

fn find_in(v: &Vec<RegistryOverride>, id: &str, subject: &str) -> (r: Option<usize>)
    ensures
        (match r {
            Some(i) => override_from(v@, id@, subject@, 0) == Some(i as int) && i < v@.len(),
            None => override_from(v@, id@, subject@, 0) is None,
        }),
{
    let mut i: usize = 0;
    while i < v.len()
        invariant
            i <= v.len(),
            override_from(v@, id@, subject@, 0) == override_from(v@, id@, subject@, i as int),
        decreases v@.len() - i,
    {
        if same(&v[i].id, id) && v[i].is_valid(subject) {
            return Some(i);
        }
        i = i + 1;
    }
    None
}

/// A version that was registered is found under its number, which no version
/// had before.
pub proof fn law_registered_version_is_found(
    s: RegistrySnapshot,
    t: RegistrySnapshot,
    r: Result<u32, String>,
    name: Seq<char>,
    new: Doc,
    format: SchemaFormat,
    author: Seq<char>,
    override_id: Option<&str>,
    created: u64,
    at: u64,
)
    requires
        s.subjects.in_order(),
        has_number_left(s, name),
        registered(s, t, r, name, new, format, author, override_id, created, at),
        r is Ok,
    ensures
        version_of(s, name, r->Ok_0) is None,
        version_of(t, name, r->Ok_0) == Some(s.subjects.at(name)->0.versions@.len() as int),
        t.subjects.at(name)->0.versions@[version_of(t, name, r->Ok_0)->0].definition@ == new,
{
    let was = s.subjects.at(name)->0.versions@;
    let now = t.subjects.at(name)->0.versions@;
    let n = r->Ok_0;
    lemma_read_after_write(s.subjects.list(), name, t.subjects.at(name)->0, name);
    lemma_largest(was, was.len() as int);
    lemma_numbered(was, n, 0);
    lemma_numbered(now, n, 0);
    assert forall|i: int| 0 <= i < was.len() implies (#[trigger] now[i]).version != n by {
        assert(now.drop_last()[i] == now[i]);
        assert(was[i].version <= next_number(was) - 1);
    }
    assert(now[was.len() as int] == now.last());
    assert(now.last().version == n);
}

/// What cannot take the place of the version to build on, or breaks a
/// consumer, is registered only on the strength of an override, and what breaks
/// nothing needs none. That holds of the first version too.
pub proof fn law_breaking_needs_override(
    s: RegistrySnapshot,
    name: Seq<char>,
    new: Doc,
    override_id: Option<&str>,
)
    requires
        verdict_on(s, name, new, override_id) is Accepted,
    ensures
        ({
            let v = verdict_on(s, name, new, override_id);
            &&& breaks(s, name, new) <==> v->Accepted_used is Some
            &&& v->Accepted_report is Some ==> v->Accepted_report->0.breaking == breaks(s, name, new)
            &&& v->Accepted_used is Some ==> override_id is Some && holds_for(
                s.overrides@[v->Accepted_used->0],
                name,
            )
        }),
{
    if let Some(id) = override_id {
        lemma_override(s.overrides@, id@, name, 0);
    }
}

pub proof fn lemma_override(v: Seq<RegistryOverride>, id: Seq<char>, subject: Seq<char>, i: int)
    requires
        0 <= i,
    ensures
        (match override_from(v, id, subject, i) {
            Some(j) => i <= j < v.len() && v[j].id@ == id && holds_for(v[j], subject),
            None => forall|j: int|
                i <= j < v.len() ==> !((#[trigger] v[j]).id@ == id && holds_for(v[j], subject)),
        }),
    decreases v.len() - i,
{
    if i < v.len() {
        lemma_override(v, id, subject, i + 1);
    }
}

/// An override that was used holds for nothing any more: it is not found
/// again, and every other override is as it was.
pub proof fn law_override_is_used_once(
    v: Seq<RegistryOverride>,
    i: int,
    id: &str,
    subject: Seq<char>,
)
    requires
        0 <= i < v.len(),
    ensures
        !holds_for(with_used(v, Some(i))[i], subject),
        usable_override(with_used(v, Some(i)), Some(id), subject) != Some(i),
        forall|j: int| 0 <= j < v.len() && j != i ==> #[trigger] with_used(v, Some(i))[j] == v[j],
{
    lemma_override(with_used(v, Some(i)), id@, subject, 0);
}

/// The counts fall or stay the same.
pub open spec fn falling(s: Seq<(Seq<char>, u64)>) -> bool {
    forall|i: int, j: int| 0 <= i < j < s.len() ==> (#[trigger] s[i]).1 >= (#[trigger] s[j]).1
}

proof fn lemma_rank(s: Seq<(Seq<char>, u64)>, count: u64, i: int)
    requires
        falling(s),
        0 <= i <= s.len(),
        forall|j: int| 0 <= j < i ==> (#[trigger] s[j]).1 >= count,
    ensures
        i <= rank_from(s, count, i) <= s.len(),
        forall|j: int| 0 <= j < rank_from(s, count, i) ==> (#[trigger] s[j]).1 >= count,
        forall|j: int| rank_from(s, count, i) <= j < s.len() ==> (#[trigger] s[j]).1 < count,
    decreases s.len() - i,
{
    if i < s.len() && s[i].1 >= count {
        lemma_rank(s, count, i + 1);
    }
}

/// How often each of the first `n` subjects was used.
pub open spec fn usage(s: Seq<(Seq<char>, SchemaSubject)>, n: int) -> Seq<(Seq<char>, u64)> {
    Seq::new(n as nat, |i: int| (s[i].0, s[i].1.usage_count))
}

/// The analytics list every subject with its count, the most used first.
pub proof fn law_analytics_are_sorted(s: Seq<(Seq<char>, SchemaSubject)>, n: int)
    requires
        0 <= n <= s.len(),
    ensures
        falling(ranked(s, n)),
        ranked(s, n).to_multiset() == usage(s, n).to_multiset(),
    decreases n,
{
    broadcast use vstd::seq_lib::group_to_multiset_ensures;

    if n > 0 {
        law_analytics_are_sorted(s, n - 1);
        let before = ranked(s, n - 1);
        let x = (s[n - 1].0, s[n - 1].1.usage_count);
        lemma_rank(before, x.1, 0);
        let p = rank_from(before, x.1, 0);
        let after = before.insert(p, x);
        assert forall|i: int, j: int| 0 <= i < j < after.len() implies (#[trigger] after[i]).1 >= (
        #[trigger] after[j]).1 by {
            let a = if i < p {
                i
            } else {
                i - 1
            };
            let b = if j < p {
                j
            } else {
                j - 1
            };
            if i != p && j != p {
                assert(before[a].1 >= before[b].1);
            } else if i == p {
                assert(before[b].1 < x.1);
            } else {
                assert(before[a].1 >= x.1);
            }
        }
        assert(usage(s, n) =~= usage(s, n - 1).push(x));
        assert(after.to_multiset() =~= before.to_multiset().insert(x));
    } else {
        assert(ranked(s, n) =~= usage(s, n));
    }
}

/// A registration is atomic: one that is refused changes nothing.
pub proof fn law_refused_registration_changes_nothing(
    s: RegistrySnapshot,
    t: RegistrySnapshot,
    r: Result<u32, String>,
    name: Seq<char>,
    new: Doc,
    format: SchemaFormat,
    author: Seq<char>,
    override_id: Option<&str>,
    created: u64,
    at: u64,
)
    requires
        registered(s, t, r, name, new, format, author, override_id, created, at),
        r is Err,
    ensures
        t == s,
{
}

proof fn lemma_part(s: Seq<char>, p: Seq<char>, i: int, q: Seq<char>, k: int)
    requires
        occurs_at(s, p, i),
        0 <= k <= p.len() - q.len(),
        p.subrange(k, k + q.len()) == q,
    ensures
        has_text(s, q),
{
    assert(s.subrange(i, i + p.len()).subrange(k, k + q.len()) =~= s.subrange(
        i + k,
        i + k + q.len(),
    ));
    assert(occurs_at(s, q, i + k));
}

/// A client that names the latest version or the main branch is not bound to a
/// version; one in which neither word occurs is.
pub proof fn law_floating_clients(client: Seq<char>)
    ensures
        is_floating(client + ":latest"@),
        is_floating(client + "@latest"@),
        is_floating(client + "/latest"@),
        is_floating(client + ":main"@),
        is_floating(client + "@main"@),
        is_floating(client + "/main"@),
        is_floating("latest"@),
        is_floating("main"@),
        is_floating(client) ==> has_text(client, "latest"@) || has_text(client, "main"@),
{
    reveal_strlit(":latest");
    reveal_strlit("@latest");
    reveal_strlit("/latest");
    reveal_strlit(":main");
    reveal_strlit("@main");
    reveal_strlit("/main");
    reveal_strlit("latest");
    reveal_strlit("main");
    let n = client.len() as int;
    assert((client + ":latest"@).subrange(n, n + 7) =~= ":latest"@);
    assert((client + "@latest"@).subrange(n, n + 7) =~= "@latest"@);
    assert((client + "/latest"@).subrange(n, n + 7) =~= "/latest"@);
    assert((client + ":main"@).subrange(n, n + 5) =~= ":main"@);
    assert((client + "@main"@).subrange(n, n + 5) =~= "@main"@);
    assert((client + "/main"@).subrange(n, n + 5) =~= "/main"@);
    assert(occurs_at(client + ":latest"@, ":latest"@, n));
    assert(occurs_at(client + "@latest"@, "@latest"@, n));
    assert(":latest"@.subrange(1, 7) =~= "latest"@);
    assert("@latest"@.subrange(1, 7) =~= "latest"@);
    assert("/latest"@.subrange(1, 7) =~= "latest"@);
    assert(":main"@.subrange(1, 5) =~= "main"@);
    assert("@main"@.subrange(1, 5) =~= "main"@);
    assert("/main"@.subrange(1, 5) =~= "main"@);
    if has_text(client, ":latest"@) {
        let i = choose|i: int| #[trigger] occurs_at(client, ":latest"@, i);
        lemma_part(client, ":latest"@, i, "latest"@, 1);
    }
    if has_text(client, "@latest"@) {
        let i = choose|i: int| #[trigger] occurs_at(client, "@latest"@, i);
        lemma_part(client, "@latest"@, i, "latest"@, 1);
    }
    if ends_in(client, "/latest"@) {
        lemma_part(client, "/latest"@, n - 7, "latest"@, 1);
    }
    if ends_in(client, ":main"@) {
        lemma_part(client, ":main"@, n - 5, "main"@, 1);
    }
    if ends_in(client, "@main"@) {
        lemma_part(client, "@main"@, n - 5, "main"@, 1);
    }
    if ends_in(client, "/main"@) {
        lemma_part(client, "/main"@, n - 5, "main"@, 1);
    }
    if client == "latest"@ {
        assert(client.subrange(0, 6) =~= "latest"@);
        assert(occurs_at(client, "latest"@, 0));
    }
    if client == "main"@ {
        assert(client.subrange(0, 4) =~= "main"@);
        assert(occurs_at(client, "main"@, 0));
    }
}

/// A version of a subject is there.
pub open spec fn is_there(
    s: Seq<(Seq<char>, SchemaSubject)>,
    subject: Seq<char>,
    v: u32,
) -> bool {
    entry(s, subject) is Some && exists|k: int|
        0 <= k < entry(s, subject)->0.versions@.len() && (#[trigger] entry(
            s,
            subject,
        )->0.versions@[k]).version == v
}

proof fn lemma_missing_pin(
    subjects: Seq<(Seq<char>, SchemaSubject)>,
    pins: Seq<(Seq<char>, u32)>,
    i: int,
)
    requires
        0 <= i,
    ensures
        (match missing_pin(subjects, pins, i) {
            Some(p) => exists|k: int|
                i <= k < pins.len() && #[trigger] pins[k] == p && !is_there(subjects, p.0, p.1),
            None => forall|k: int|
                i <= k < pins.len() ==> is_there(
                    subjects,
                    (#[trigger] pins[k]).0,
                    pins[k].1,
                ),
        }),
    decreases pins.len() - i,
{
    if i < pins.len() {
        lemma_missing_pin(subjects, pins, i + 1);
        if entry(subjects, pins[i].0) is Some {
            lemma_numbered(entry(subjects, pins[i].0)->0.versions@, pins[i].1, 0);
        }
        assert(pin_missing(subjects, pins[i].0, pins[i].1) <==> !is_there(
            subjects,
            pins[i].0,
            pins[i].1,
        ));
    }
}

/// A consumer is taken where it has a name, every version that it is bound to is
/// there, and its client is bound to a version too; and only there.
pub proof fn law_consumer_is_taken(s: RegistrySnapshot, c: Consumer)
    ensures
        consumer_error(s, c) is None <==> {
            &&& !blank(c.name@)
            &&& forall|k: int|
                0 <= k < c.pinned_versions.list().len() ==> is_there(
                    s.subjects.list(),
                    (#[trigger] c.pinned_versions.list()[k]).0,
                    c.pinned_versions.list()[k].1,
                )
            &&& c.generated_client is Some ==> !is_floating(c.generated_client->0@)
        },
{
    lemma_missing_pin(s.subjects.list(), c.pinned_versions.list(), 0);
}

/// Where the version of a subject stands that a consumer is bound to.
pub open spec fn bound_version(c: Consumer, name: Seq<char>, subject: SchemaSubject) -> Option<int> {
    match entry(c.pinned_versions.list(), name) {
        Some(pin) => numbered(subject.versions@, pin),
        None => None,
    }
}

/// Every consumer that is bound to a version of the subject is judged by that
/// version, and no other is.
pub proof fn law_bound_consumers_are_judged(consumers: Seq<(Seq<char>, Consumer)>, name: Seq<char>, subject: SchemaSubject, new: Doc, n: int)
    requires
        0 <= n <= consumers.len(),
    ensures
        forall|i: int|
            #![trigger consumers[i]]
            0 <= i < n && bound_version(consumers[i].1, name, subject) is Some ==> impacts_on(consumers, name, subject, new, n).contains(impact_on(consumers[i].1.name@, entry(consumers[i].1.pinned_versions.list(), name)->0, subject.versions@[bound_version(consumers[i].1, name, subject)->0], new, subject.compatibility)),
        forall|x: Impact| #[trigger]
            impacts_on(consumers, name, subject, new, n).contains(x) ==> exists|i: int|
                #![trigger consumers[i]]
                0 <= i < n && bound_version(consumers[i].1, name, subject) is Some && x == impact_on(consumers[i].1.name@, entry(consumers[i].1.pinned_versions.list(), name)->0, subject.versions@[bound_version(consumers[i].1, name, subject)->0], new, subject.compatibility),
    decreases n,
{
    if n > 0 {
        law_bound_consumers_are_judged(consumers, name, subject, new, n - 1);
        let p = impacts_on(consumers, name, subject, new, n - 1);
        let r = impacts_on(consumers, name, subject, new, n);
        assert forall|i: int|
            #![trigger consumers[i]]
            0 <= i < n && bound_version(consumers[i].1, name, subject) is Some implies r.contains(impact_on(consumers[i].1.name@, entry(consumers[i].1.pinned_versions.list(), name)->0, subject.versions@[bound_version(consumers[i].1, name, subject)->0], new, subject.compatibility)) by {
            if i == n - 1 {
                assert(r[p.len() as int] == impact_on(consumers[i].1.name@, entry(consumers[i].1.pinned_versions.list(), name)->0, subject.versions@[bound_version(consumers[i].1, name, subject)->0], new, subject.compatibility));
            } else {
                assert(p.contains(impact_on(consumers[i].1.name@, entry(consumers[i].1.pinned_versions.list(), name)->0, subject.versions@[bound_version(consumers[i].1, name, subject)->0], new, subject.compatibility)));
                let k = choose|k: int| 0 <= k < p.len() && p[k] == impact_on(consumers[i].1.name@, entry(consumers[i].1.pinned_versions.list(), name)->0, subject.versions@[bound_version(consumers[i].1, name, subject)->0], new, subject.compatibility);
                assert(r[k] == impact_on(consumers[i].1.name@, entry(consumers[i].1.pinned_versions.list(), name)->0, subject.versions@[bound_version(consumers[i].1, name, subject)->0], new, subject.compatibility));
            }
        }
        assert forall|x: Impact| #[trigger] r.contains(x) implies exists|i: int|
            #![trigger consumers[i]]
            0 <= i < n && bound_version(consumers[i].1, name, subject) is Some && x == impact_on(consumers[i].1.name@, entry(consumers[i].1.pinned_versions.list(), name)->0, subject.versions@[bound_version(consumers[i].1, name, subject)->0], new, subject.compatibility) by {
            let j = choose|j: int| 0 <= j < r.len() && r[j] == x;
            if j < p.len() {
                assert(r[j] == p[j]);
                assert(p.contains(x));
                let i = choose|i: int|
                    #![trigger consumers[i]]
                    0 <= i < n - 1 && bound_version(consumers[i].1, name, subject) is Some && x == impact_on(consumers[i].1.name@, entry(consumers[i].1.pinned_versions.list(), name)->0, subject.versions@[bound_version(consumers[i].1, name, subject)->0], new, subject.compatibility);
                assert(bound_version(consumers[i].1, name, subject) is Some && x == impact_on(consumers[i].1.name@, entry(consumers[i].1.pinned_versions.list(), name)->0, subject.versions@[bound_version(consumers[i].1, name, subject)->0], new, subject.compatibility));
            } else {
                let i = n - 1;
                assert(bound_version(consumers[i].1, name, subject) is Some && x == impact_on(consumers[i].1.name@, entry(consumers[i].1.pinned_versions.list(), name)->0, subject.versions@[bound_version(consumers[i].1, name, subject)->0], new, subject.compatibility));
            }
        }
    }
}

/// A judgement is that of the version that the consumer is bound to, against the
/// new definition under the policy of the subject.
pub proof fn law_judgement_is_of_the_bound_version(
    c: Consumer,
    name: Seq<char>,
    subject: SchemaSubject,
    new: Doc,
)
    requires
        bound_version(c, name, subject) is Some,
    ensures
        ({
            let k = bound_version(c, name, subject)->0;
            let pin = entry(c.pinned_versions.list(), name)->0;
            let j = impact_on(c.name@, pin, subject.versions@[k], new, subject.compatibility);
            &&& 0 <= k < subject.versions@.len() && subject.versions@[k].version == pin
            &&& j.consumer == c.name@ && j.pinned_version == pin
            &&& j.compatible == is_compatible(
                subject.versions@[k].definition@,
                new,
                subject.compatibility,
            )
            &&& j.issues == issues_between(
                subject.versions@[k].definition@,
                new,
                subject.compatibility,
            )
        }),
{
    lemma_numbered(subject.versions@, entry(c.pinned_versions.list(), name)->0, 0);
}

proof fn lemma_bound_to_nothing(
    consumers: Seq<(Seq<char>, Consumer)>,
    name: Seq<char>,
    subject: SchemaSubject,
    n: int,
)
    requires
        0 <= n <= consumers.len(),
    ensures
        bound_to_nothing(consumers, name, subject, n) <==> exists|i: int|
            0 <= i < n && entry((#[trigger] consumers[i]).1.pinned_versions.list(), name) is Some
                && bound_version(consumers[i].1, name, subject) is None,
    decreases n,
{
    if n > 0 {
        lemma_bound_to_nothing(consumers, name, subject, n - 1);
        if bound_to_nothing(consumers, name, subject, n) && !bound_to_nothing(
            consumers,
            name,
            subject,
            n - 1,
        ) {
            assert(entry(consumers[n - 1].1.pinned_versions.list(), name) is Some);
        }
    }
}

/// Some consumer is bound to a version of the subject that the new definition
/// breaks.
pub open spec fn breaks_a_consumer(
    s: RegistrySnapshot,
    name: Seq<char>,
    subject: SchemaSubject,
    new: Doc,
) -> bool {
    exists|i: int|
        0 <= i < s.consumers.list().len() && bound_version(
            (#[trigger] s.consumers.list()[i]).1,
            name,
            subject,
        ) is Some && !is_compatible(
            subject.versions@[bound_version(
                s.consumers.list()[i].1,
                name,
                subject,
            )->0].definition@,
            new,
            subject.compatibility,
        )
}

/// When a definition is taken: the subject is there, no consumer is bound to a
/// version of it that is not, and either nothing is wrong with the definition or
/// an override with the given name holds for the subject. Nothing is wrong where
/// the last approved version has no objection and no bound consumer is broken.
pub proof fn law_when_a_definition_is_taken(
    s: RegistrySnapshot,
    name: Seq<char>,
    new: Doc,
    override_id: Option<&str>,
)
    ensures
        ({
            let subject = s.subjects.at(name)->0;
            let at = latest(subject.versions@);
            let lost = exists|i: int|
                0 <= i < s.consumers.list().len() && entry(
                    (#[trigger] s.consumers.list()[i]).1.pinned_versions.list(),
                    name,
                ) is Some && bound_version(s.consumers.list()[i].1, name, subject) is None;
            let objected = at is Some && issues_between(
                subject.versions@[at->0].definition@,
                new,
                subject.compatibility,
            ).len() > 0;
            let wrong = objected || breaks_a_consumer(s, name, subject, new);
            let excused = override_id is Some && exists|j: int|
                0 <= j < s.overrides@.len() && (#[trigger] s.overrides@[j]).id@ == override_id->0@
                    && holds_for(s.overrides@[j], name);
            let v = verdict_on(s, name, new, override_id);
            &&& v is Accepted <==> s.subjects.at(name) is Some && !lost && (!wrong || excused)
            &&& v is Accepted && !wrong ==> v->Accepted_used is None
            &&& v is Accepted && wrong ==> v->Accepted_used is Some
        }),
{
    if s.subjects.at(name) is Some {
        let subject = s.subjects.at(name)->0;
        let all = s.consumers.list();
        let n = all.len() as int;
        lemma_bound_to_nothing(all, name, subject, n);
        law_bound_consumers_are_judged(all, name, subject, new, n);
        let judged = all_impacts(s, name, subject, new);
        if breaks_someone(judged) {
            let k = choose|k: int| 0 <= k < judged.len() && !(#[trigger] judged[k]).compatible;
            assert(judged.contains(judged[k]));
            assert(breaks_a_consumer(s, name, subject, new));
        }
        if breaks_a_consumer(s, name, subject, new) {
            let i = choose|i: int|
                0 <= i < all.len() && bound_version((#[trigger] all[i]).1, name, subject) is Some
                    && !is_compatible(
                    subject.versions@[bound_version(all[i].1, name, subject)->0].definition@,
                    new,
                    subject.compatibility,
                );
            let x = impact_on(
                all[i].1.name@,
                entry(all[i].1.pinned_versions.list(), name)->0,
                subject.versions@[bound_version(all[i].1, name, subject)->0],
                new,
                subject.compatibility,
            );
            assert(judged.contains(x));
            let k = choose|k: int| 0 <= k < judged.len() && judged[k] == x;
            assert(!judged[k].compatible);
        }
        if let Some(id) = override_id {
            lemma_override(s.overrides@, id@, name, 0);
        }
    }
}

/// A search finds the subjects in whose name or namespace the text occurs, in
/// whatever case, and no other.
pub proof fn law_search_finds_by_name_and_namespace(s: Seq<(Seq<char>, SchemaSubject)>, q: Seq<char>, n: int)
    requires
        0 <= n <= s.len(),
    ensures
        forall|i: int|
            #![trigger s[i]]
            0 <= i < n && (has_text(lower_case(s[i].1.name@), q) || has_text(lower_case(s[i].1.namespace@), q)) ==> hits(s, q, n).contains(s[i].1),
        forall|x: SchemaSubject| #[trigger]
            hits(s, q, n).contains(x) ==> exists|i: int|
                #![trigger s[i]]
                0 <= i < n && (has_text(lower_case(s[i].1.name@), q) || has_text(lower_case(s[i].1.namespace@), q)) && x == s[i].1,
    decreases n,
{
    if n > 0 {
        law_search_finds_by_name_and_namespace(s, q, n - 1);
        let p = hits(s, q, n - 1);
        let r = hits(s, q, n);
        assert forall|i: int|
            #![trigger s[i]]
            0 <= i < n && (has_text(lower_case(s[i].1.name@), q) || has_text(lower_case(s[i].1.namespace@), q)) implies r.contains(s[i].1) by {
            if i == n - 1 {
                assert(r[p.len() as int] == s[i].1);
            } else {
                assert(p.contains(s[i].1));
                let k = choose|k: int| 0 <= k < p.len() && p[k] == s[i].1;
                assert(r[k] == s[i].1);
            }
        }
        assert forall|x: SchemaSubject| #[trigger] r.contains(x) implies exists|i: int|
            #![trigger s[i]]
            0 <= i < n && (has_text(lower_case(s[i].1.name@), q) || has_text(lower_case(s[i].1.namespace@), q)) && x == s[i].1 by {
            let j = choose|j: int| 0 <= j < r.len() && r[j] == x;
            if j < p.len() {
                assert(r[j] == p[j]);
                assert(p.contains(x));
                let i = choose|i: int|
                    #![trigger s[i]]
                    0 <= i < n - 1 && (has_text(lower_case(s[i].1.name@), q) || has_text(lower_case(s[i].1.namespace@), q)) && x == s[i].1;
                assert((has_text(lower_case(s[i].1.name@), q) || has_text(lower_case(s[i].1.namespace@), q)) && x == s[i].1);
            } else {
                let i = n - 1;
                assert((has_text(lower_case(s[i].1.name@), q) || has_text(lower_case(s[i].1.namespace@), q)) && x == s[i].1);
            }
        }
    }
}

/// A report goes from the last approved version to the number behind it, and is
/// breaking where that version or a bound consumer is broken.
pub proof fn law_report_tells_what_breaks(s: RegistrySnapshot, name: Seq<char>, new: Doc)
    ensures
        ({
            let subject = s.subjects.at(name)->0;
            let at = latest(subject.versions@);
            let r = impact_report(s, name, new);
            &&& r.subject == name && r.mode == subject.compatibility && r.override_id is None
            &&& at is Some ==> r.from_version == subject.versions@[at->0].version
            &&& at is None ==> r.from_version == 0
            &&& r.to_version == r.from_version + 1
            &&& r.breaking <==> (at is Some && !is_compatible(
                subject.versions@[at->0].definition@,
                new,
                subject.compatibility,
            )) || exists|k: int|
                0 <= k < r.consumers.len() && !(#[trigger] r.consumers[k]).compatible
        }),
{
    let subject = s.subjects.at(name)->0;
    let at = latest(subject.versions@);
    let r = impact_report(s, name, new);
    assert(r.consumers == all_impacts(s, name, subject, new));
    assert(breaks_someone(r.consumers) <==> exists|k: int|
        0 <= k < r.consumers.len() && !(#[trigger] r.consumers[k]).compatible);
    assert(r.breaking <==> (at is Some && !is_compatible(
        subject.versions@[at->0].definition@,
        new,
        subject.compatibility,
    )) || breaks_someone(r.consumers));
}

/// A version that was registered waits for its approval, under the next number,
/// with its definition, format and author; the versions before it, every other
/// subject and every consumer are as they were, and the registration is written
/// down.
pub proof fn law_registration_adds_one_version(
    s: RegistrySnapshot,
    t: RegistrySnapshot,
    r: Result<u32, String>,
    name: Seq<char>,
    new: Doc,
    format: SchemaFormat,
    author: Seq<char>,
    override_id: Option<&str>,
    created: u64,
    at: u64,
    other: Seq<char>,
    i: int,
)
    requires
        s.subjects.in_order(),
        has_number_left(s, name),
        registered(s, t, r, name, new, format, author, override_id, created, at),
        r is Ok,
    ensures
        ({
            let was = s.subjects.at(name)->0.versions@;
            let now = t.subjects.at(name)->0.versions@;
            &&& t.subjects.at(name) is Some && now.len() == was.len() + 1
            &&& now.last().version == r->Ok_0 && now.last().definition@ == new
            &&& now.last().format == format && now.last().author@ == author
            &&& now.last().approval_status == ApprovalStatus::Pending && !now.last().deprecated
            &&& now.last().created_at == created
            &&& 0 <= i < was.len() ==> now[i] == was[i] && was[i].version < r->Ok_0
            &&& other != name ==> t.subjects.at(other) == s.subjects.at(other)
            &&& t.consumers == s.consumers
            &&& t.audit@.len() == s.audit@.len() + 1
            &&& t.audit@.last().at == at && t.audit@.last().actor@ == author
                && t.audit@.last().subject@ == name && t.audit@.last().action@
                == "register_version"@
            &&& t.overrides@.len() == s.overrides@.len()
        }),
{
    let x = s.subjects.at(name)->0;
    let y = t.subjects.at(name)->0;
    lemma_read_after_write(s.subjects.list(), name, y, name);
    lemma_read_after_write(s.subjects.list(), name, y, other);
    lemma_largest(x.versions@, x.versions@.len() as int);
    if let Some(id) = override_id {
        lemma_override(s.overrides@, id@, name, 0);
    }
    if 0 <= i < x.versions@.len() {
        assert(y.versions@.drop_last()[i] == y.versions@[i]);
        assert(x.versions@[i].version < next_number(x.versions@));
    }
}

/// An approval is that of the approver, of the one version that was named; it is
/// written down, and changes nothing else.
pub proof fn law_approval_is_of_one_version(
    s: RegistrySnapshot,
    t: RegistrySnapshot,
    r: bool,
    name: Seq<char>,
    version: u32,
    approver: Seq<char>,
    now: u64,
    other: Seq<char>,
    j: int,
)
    requires
        s.subjects.in_order(),
        approved(s, t, r, name, version, approver, now),
    ensures
        !r ==> t == s && version_of(s, name, version) is None,
        r ==> {
            let i = version_of(s, name, version)->0;
            let was = s.subjects.at(name)->0.versions@;
            let is_now = t.subjects.at(name)->0.versions@;
            &&& version_of(s, name, version) is Some
            &&& is_now.len() == was.len()
            &&& is_now[i].approval_status == ApprovalStatus::Approved && is_now[i].version
                == version && is_now[i].definition == was[i].definition
            &&& is_now[i].approved_by is Some && is_now[i].approved_by->0@ == approver
            &&& 0 <= j < was.len() && j != i ==> is_now[j] == was[j]
            &&& other != name ==> t.subjects.at(other) == s.subjects.at(other)
            &&& t.consumers == s.consumers && t.overrides == s.overrides
            &&& t.audit@.len() == s.audit@.len() + 1 && t.audit@.last().actor@ == approver
                && t.audit@.last().action@ == "approve"@ && t.audit@.last().at == now
        },
{
    if r {
        let x = s.subjects.at(name)->0;
        lemma_numbered(x.versions@, version, 0);
        lemma_read_after_write(s.subjects.list(), name, t.subjects.at(name)->0, other);
    }
}

/// A use counts one more for its subject, at its time, and nothing for any other.
pub proof fn law_use_counts_for_its_subject(
    s: RegistrySnapshot,
    t: RegistrySnapshot,
    name: Seq<char>,
    now: u64,
    other: Seq<char>,
)
    requires
        s.subjects.in_order(),
        s.subjects.at(name) is Some,
        s.subjects.at(name)->0.usage_count < u64::MAX,
        used_once(s, t, name, now),
    ensures
        t.subjects.at(name) is Some,
        t.subjects.at(name)->0.usage_count == s.subjects.at(name)->0.usage_count + 1,
        t.subjects.at(name)->0.last_used_at == Some(now),
        t.subjects.at(name)->0.versions == s.subjects.at(name)->0.versions,
        t.subjects.at(name)->0.compatibility == s.subjects.at(name)->0.compatibility,
        other != name ==> t.subjects.at(other) == s.subjects.at(other),
{
    let x = s.subjects.at(name)->0;
    let y = SchemaSubject {
        usage_count: (x.usage_count + 1) as u64,
        last_used_at: Some(now),
        ..x
    };
    lemma_read_after_write(s.subjects.list(), name, y, name);
    lemma_read_after_write(s.subjects.list(), name, y, other);
}

} // verus!
