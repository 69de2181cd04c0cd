//! Where the data of stateful workloads may be.
//!
//! Rules are given per dataset and tenant. Scheduling and the placement of
//! volumes honour them through node affinity; what breaks them is refused with
//! a reason and noted in a signed event; and a report says which workloads are
//! covered.

use vstd::prelude::*;
use vstd::string::*;
use vstd::utf8::encode_utf8;
use crate::clock::Timestamp;
use crate::digest::{from_hex, hex_text, law_hex_is_injective, sha256, sha256_digest, to_hex};
use crate::json::{Doc, Json, docs, group_members};
use crate::json_text::{json_string, write_string};
use crate::str_map::{StrMap, with_entry};
use crate::text::{
    cat2, cat3, cat4, cat5, cat6, cat7, copy_texts, debug_text, has, has_text, join, joined, lists,
    occurs_at, same, views, write_debug,
};

verus! {

/// The label by which a node's region is found, if a rule names no other.
pub const DEFAULT_REGION_LABEL_KEY: &'static str = "topology.kubernetes.io/region";

/// What a rule says.
#[verifier::ext_equal]
pub ghost struct Terms {
    pub dataset: Seq<char>,
    pub tenant: Seq<char>,
    pub regions: Seq<Seq<char>>,
    pub label_key: Seq<char>,
}

/// A rule for a dataset of a tenant.
#[derive(Debug)]
pub struct ResidencyRule {
    pub dataset: String,
    pub tenant: String,
    /// The regions in which the data may be. A rule without any is a mistake,
    /// which `ResidencyPolicy::validate` tells.
    pub allowed_regions: Vec<String>,
    /// The label by which a node's region is found.
    pub label_key: String,
}

impl View for ResidencyRule {
    type V = Terms;

    open spec fn view(&self) -> Terms {
        Terms {
            dataset: self.dataset@,
            tenant: self.tenant@,
            regions: views(self.allowed_regions@),
            label_key: self.label_key@,
        }
    }
}

fn one(d: Json) -> (r: Json)
    ensures
        r@ == Doc::List(seq![d@]),
{
    let mut l: Vec<Json> = Vec::new();
    l.push(d);
    assert(docs(l@) =~= seq![d@]);
    Json::List(l)
}

impl Terms {
    /// A node of the region may hold the data.
    pub open spec fn allows(self, region: Seq<char>) -> bool {
        self.regions.contains(region)
    }

    /// The node affinity that the rule asks for.
    pub open spec fn affinity(self) -> Doc {
        let requirement = Doc::object().with("key"@, Doc::Text(self.label_key)).with(
            "operator"@,
            Doc::Text("In"@),
        ).with("values"@, Doc::texts(self.regions));
        let term = Doc::object().with("matchExpressions"@, Doc::List(seq![requirement]));
        Doc::object().with(
            "requiredDuringSchedulingIgnoredDuringExecution"@,
            Doc::object().with("nodeSelectorTerms"@, Doc::List(seq![term])),
        )
    }

    /// The rule, written for debugging.
    pub open spec fn debug(self) -> Seq<char> {
        "ResidencyRule { dataset: "@ + debug_text(self.dataset) + ", tenant: "@ + debug_text(
            self.tenant,
        ) + ", allowed_regions: ["@ + joined(debug_texts(self.regions), ", "@) + "], label_key: "@
            + debug_text(self.label_key) + " }"@
    }
}

/// Texts, each written for debugging.
pub open spec fn debug_texts(v: Seq<Seq<char>>) -> Seq<Seq<char>> {
    Seq::new(v.len(), |i: int| debug_text(v[i]))
}

fn write_debug_texts(v: &Vec<String>) -> (r: Vec<String>)
    ensures
        views(r@) == debug_texts(views(v@)),
{
    let mut r: Vec<String> = Vec::new();
    let mut i: usize = 0;
    while i < v.len()
        invariant
            i <= v.len(),
            r@.len() == i,
            forall|j: int| 0 <= j < i ==> (#[trigger] r@[j])@ == debug_text(v@[j]@),
        decreases v@.len() - i,
    {
        r.push(write_debug(&v[i]));
        i = i + 1;
    }
    assert(views(r@) =~= debug_texts(views(v@)));
    r
}

impl ResidencyRule {
    pub fn new(dataset: &str, tenant: &str, allowed_regions: Vec<String>) -> (r: Self)
        ensures
            r.dataset@ == dataset@,
            r.tenant@ == tenant@,
            r.allowed_regions == allowed_regions,
            r.label_key@ == DEFAULT_REGION_LABEL_KEY@,
    {
        ResidencyRule {
            dataset: dataset.to_string(),
            tenant: tenant.to_string(),
            allowed_regions,
            label_key: DEFAULT_REGION_LABEL_KEY.to_string(),
        }
    }

    /// The node affinity that the rule asks for. There is none where the rule
    /// allows no region: then nothing may be scheduled.
    pub fn node_affinity(&self) -> (r: Option<Json>)
        ensures
            (match r {
                Some(d) => self@.regions.len() > 0 && d@ == self@.affinity(),
                None => self@.regions.len() == 0,
            }),
    {
        if self.allowed_regions.len() == 0 {
            return None;
        }
        let requirement = Json::object().with("key", Json::text(&self.label_key)).with(
            "operator",
            Json::text("In"),
        ).with("values", Json::texts(&self.allowed_regions));
        let term = Json::object().with("matchExpressions", one(requirement));
        Some(
            Json::object().with(
                "requiredDuringSchedulingIgnoredDuringExecution",
                Json::object().with("nodeSelectorTerms", one(term)),
            ),
        )
    }

    /// The topologies in which a volume may be placed.
    pub fn pvc_allowed_topologies(&self) -> (r: Vec<StrMap<Vec<String>>>)
        ensures
            self@.regions.len() == 0 ==> r@.len() == 0,
            self@.regions.len() > 0 ==> r@.len() == 1 && exists|regions: Vec<String>|
                #[trigger] views(regions@) == self@.regions && r@[0].list() == with_entry(
                    Seq::empty(),
                    self@.label_key,
                    regions,
                ),
    {
        let mut r: Vec<StrMap<Vec<String>>> = Vec::new();
        if self.allowed_regions.len() == 0 {
            return r;
        }
        let mut topology: StrMap<Vec<String>> = StrMap::new();
        let regions = copy_texts(&self.allowed_regions);
        let ghost regions_entered = regions;
        topology.insert(self.label_key.clone(), regions);
        assert(views(regions_entered@) == self@.regions);
        r.push(topology);
        r
    }

    /// Whether a node of the region may hold the data.
    pub fn allows_region(&self, region: &str) -> (r: bool)
        ensures
            r == self@.allows(region@),
    {
        proof {
            lemma_lists(self.allowed_regions@, region@);
        }
        let r = has(&self.allowed_regions, region);
        r
    }

    fn write(&self) -> (r: String)
        ensures
            r@ == self@.debug(),
    {
        let regions = join(&write_debug_texts(&self.allowed_regions), ", ");
        let first = cat4(
            "ResidencyRule { dataset: ",
            &write_debug(&self.dataset),
            ", tenant: ",
            &write_debug(&self.tenant),
        );
        let second = cat5(
            ", allowed_regions: [",
            &regions,
            "], label_key: ",
            &write_debug(&self.label_key),
            " }",
        );
        let r = cat2(&first, &second);
        assert(r@ =~= self@.debug());
        r
    }
}

proof fn lemma_lists(v: Seq<String>, s: Seq<char>)
    ensures
        lists(v, s) == views(v).contains(s),
{
    if lists(v, s) {
        let i = choose|i: int| 0 <= i < v.len() && (#[trigger] v[i])@ == s;
        assert(views(v)[i] == s);
    }
    if views(v).contains(s) {
        let i = choose|i: int| 0 <= i < views(v).len() && views(v)[i] == s;
        assert(v[i]@ == s);
    }
}

/// What rules say.
pub open spec fn terms(v: Seq<ResidencyRule>) -> Seq<Terms> {
    Seq::new(v.len(), |i: int| v[i]@)
}

/// Whether the terms are for a dataset of a tenant.
pub open spec fn is_for(t: Terms, dataset: Seq<char>, tenant: Seq<char>) -> bool {
    t.dataset == dataset && t.tenant == tenant
}

/// The place from `i` on of the rule for a dataset of a tenant.
pub open spec fn place(v: Seq<Terms>, dataset: Seq<char>, tenant: Seq<char>, i: int) -> int
    decreases v.len() - i,
{
    if i < 0 || i >= v.len() || is_for(v[i], dataset, tenant) {
        i
    } else {
        place(v, dataset, tenant, i + 1)
    }
}

/// The rule for a dataset of a tenant.
pub open spec fn rule_of(v: Seq<Terms>, dataset: Seq<char>, tenant: Seq<char>) -> Option<Terms> {
    let p = place(v, dataset, tenant, 0);
    if p < v.len() {
        Some(v[p])
    } else {
        None
    }
}

/// The rules with one more, in place of the one for the same data.
pub open spec fn with_rule(v: Seq<Terms>, t: Terms) -> Seq<Terms> {
    let p = place(v, t.dataset, t.tenant, 0);
    if p < v.len() {
        v.update(p, t)
    } else {
        v.push(t)
    }
}

proof fn lemma_place(v: Seq<Terms>, dataset: Seq<char>, tenant: Seq<char>, i: int)
    requires
        0 <= i <= v.len(),
    ensures
        i <= place(v, dataset, tenant, i) <= v.len(),
        forall|j: int|
            i <= j < place(v, dataset, tenant, i) ==> !is_for(#[trigger] v[j], dataset, tenant),
        place(v, dataset, tenant, i) < v.len() ==> is_for(
            v[place(v, dataset, tenant, i)],
            dataset,
            tenant,
        ),
    decreases v.len() - i,
{
    if i < v.len() && !is_for(v[i], dataset, tenant) {
        lemma_place(v, dataset, tenant, i + 1);
    }
}

/// The rule that was entered last for some data is the one that holds for it,
/// and the others stay.
pub proof fn law_last_rule_holds(v: Seq<Terms>, t: Terms, dataset: Seq<char>, tenant: Seq<char>)
    ensures
        rule_of(with_rule(v, t), dataset, tenant) == if is_for(t, dataset, tenant) {
            Some(t)
        } else {
            rule_of(v, dataset, tenant)
        },
{
    let w = with_rule(v, t);
    let p = place(v, t.dataset, t.tenant, 0);
    let a = place(v, dataset, tenant, 0);
    let b = place(w, dataset, tenant, 0);
    lemma_place(v, t.dataset, t.tenant, 0);
    lemma_place(v, dataset, tenant, 0);
    lemma_place(w, dataset, tenant, 0);
    assert(w[p] == t);
    if is_for(t, dataset, tenant) {
        assert(b == p) by {
            if b < p {
                assert(w[b] == v[b]);
            }
        }
    } else {
        if a < v.len() {
            assert(w[a] == v[a]) by {
                assert(a != p);
            }
            assert(b == a) by {
                if b < a {
                    assert(b != p);
                    assert(w[b] == v[b]);
                }
            }
        } else {
            if b < w.len() {
                assert(b != p);
                assert(w[b] == v[b]);
            }
        }
    }
}

/// What is wrong with the first `n` rules.
pub open spec fn problems(v: Seq<Terms>, n: int) -> Seq<Seq<char>>
    decreases n,
{
    if n <= 0 {
        Seq::empty()
    } else {
        let t = v[n - 1];
        let before = problems(v, n - 1);
        let named = if t.dataset.len() == 0 || t.tenant.len() == 0 {
            before.push("rule has empty dataset/tenant: "@ + t.debug())
        } else {
            before
        };
        if t.regions.len() == 0 {
            named.push(
                "rule "@ + t.dataset + "/"@ + t.tenant
                    + " permits no regions; scheduling would deny everywhere"@,
            )
        } else {
            named
        }
    }
}

/// Why a workload may not run in a region, where it may not.
pub open spec fn refusal(
    v: Seq<Terms>,
    dataset: Seq<char>,
    tenant: Seq<char>,
    region: Seq<char>,
    workload: Seq<char>,
) -> Option<Seq<char>> {
    let who = "residency denied: workload "@ + workload + " dataset "@ + dataset + " tenant "@
        + tenant;
    match rule_of(v, dataset, tenant) {
        None => Some(who + " has no residency rule; default-deny (fail-safe)"@),
        Some(t) => if t.allows(region) {
            None
        } else {
            Some(
                who + " may only run in ["@ + joined(t.regions, ", "@) + "] (label "@ + t.label_key
                    + "), requested region "@ + region,
            )
        },
    }
}

/// Whether a workload may run on a node of a region.
pub open spec fn feasible(
    v: Seq<Terms>,
    dataset: Seq<char>,
    tenant: Seq<char>,
    region: Seq<char>,
) -> bool {
    match rule_of(v, dataset, tenant) {
        Some(t) => t.allows(region),
        None => false,
    }
}

/// A workload is admitted exactly where a node is feasible for it.
pub proof fn law_admitted_where_feasible(
    v: Seq<Terms>,
    dataset: Seq<char>,
    tenant: Seq<char>,
    region: Seq<char>,
    workload: Seq<char>,
)
    ensures
        refusal(v, dataset, tenant, region, workload) is None <==> feasible(
            v,
            dataset,
            tenant,
            region,
        ),
{
}

/// Data without a rule may be nowhere.
pub proof fn law_default_is_to_refuse(
    v: Seq<Terms>,
    dataset: Seq<char>,
    tenant: Seq<char>,
    region: Seq<char>,
    workload: Seq<char>,
)
    requires
        forall|i: int| 0 <= i < v.len() ==> !is_for(#[trigger] v[i], dataset, tenant),
    ensures
        refusal(v, dataset, tenant, region, workload) is Some,
        !feasible(v, dataset, tenant, region),
{
    lemma_place(v, dataset, tenant, 0);
}

/// The rules on where data may be, at most one for each dataset of a tenant.
#[derive(Debug)]
pub struct ResidencyPolicy {
    pub(crate) rules: Vec<ResidencyRule>,
}

/// No two rules are for the same data.
pub open spec fn distinct_rules(v: Seq<Terms>) -> bool {
    forall|i: int, j: int|
        0 <= i < j < v.len() ==> !((#[trigger] v[i]).dataset == (#[trigger] v[j]).dataset
            && v[i].tenant == v[j].tenant)
}

impl View for ResidencyPolicy {
    type V = Seq<Terms>;

    open(crate) spec fn view(&self) -> Seq<Terms> {
        terms(self.rules@)
    }
}

impl ResidencyPolicy {
    #[verifier::type_invariant]
    pub open(crate) spec fn valid(&self) -> bool {
        distinct_rules(self@)
    }

    pub fn new() -> (r: Self)
        ensures
            r@ == Seq::<Terms>::empty(),
    {
        let rules: Vec<ResidencyRule> = Vec::new();
        assert(terms(rules@) =~= Seq::<Terms>::empty());
        ResidencyPolicy { rules }
    }

    fn find(&self, dataset: &str, tenant: &str) -> (r: usize)
        ensures
            r == place(self@, dataset@, tenant@, 0),
            r <= self.rules@.len(),
    {
        let mut i: usize = 0;
        while i < self.rules.len() && !(same(&self.rules[i].dataset, dataset) && same(
            &self.rules[i].tenant,
            tenant,
        ))
            invariant
                i <= self.rules.len(),
                place(self@, dataset@, tenant@, 0) == place(self@, dataset@, tenant@, i as int),
            decreases self.rules@.len() - i,
        {
            assert(self@[i as int] == self.rules@[i as int]@);
            i = i + 1;
        }
        proof {
            if i < self.rules@.len() {
                assert(self@[i as int] == self.rules@[i as int]@);
            }
        }
        i
    }

    /// Enters a rule, in place of the one for the same data.
    pub fn insert(&mut self, rule: ResidencyRule)
        ensures
            final(self)@ == with_rule(old(self)@, rule@),
    {
        proof {
            use_type_invariant(&*self);
            lemma_place(self@, rule@.dataset, rule@.tenant, 0);
        }
        let ghost t = rule@;
        let ghost before = self.rules@;
        let p = self.find(&rule.dataset, &rule.tenant);
        let mut rules: Vec<ResidencyRule> = Vec::new();
        assert(terms(rules@) =~= Seq::<Terms>::empty());
        std::mem::swap(&mut rules, &mut self.rules);
        if p < rules.len() {
            rules.set(p, rule);
            assert(terms(rules@) =~= terms(before).update(p as int, t));
        } else {
            rules.push(rule);
            assert(terms(rules@) =~= terms(before).push(t));
        }
        self.rules = rules;
    }

    /// The rule for a dataset of a tenant.
    pub fn rule_for(&self, dataset: &str, tenant: &str) -> (r: Option<&ResidencyRule>)
        ensures
            (match r {
                Some(rule) => rule_of(self@, dataset@, tenant@) == Some(rule@),
                None => rule_of(self@, dataset@, tenant@) is None,
            }),
    {
        let p = self.find(dataset, tenant);
        if p < self.rules.len() {
            assert(self@[p as int] == self.rules@[p as int]@);
            Some(&self.rules[p])
        } else {
            None
        }
    }

    /// What is wrong with the rules, for people to read; nothing where they are
    /// in order.
    pub fn validate(&self) -> (r: Vec<String>)
        ensures
            views(r@) == problems(self@, self@.len() as int),
    {
        let mut r: Vec<String> = Vec::new();
        assert(views(r@) =~= Seq::<Seq<char>>::empty());
        let mut i: usize = 0;
        while i < self.rules.len()
            invariant
                i <= self.rules.len(),
                views(r@) == problems(self@, i as int),
            decreases self.rules@.len() - i,
        {
            let rule = &self.rules[i];
            assert(self@[i as int] == rule@);
            if rule.dataset.as_str().is_empty() || rule.tenant.as_str().is_empty() {
                let ghost before = views(r@);
                let problem = cat2("rule has empty dataset/tenant: ", &rule.write());
                r.push(problem);
                assert(views(r@) =~= before.push(problem@));
            }
            if rule.allowed_regions.len() == 0 {
                let ghost before = views(r@);
                let problem = cat5(
                    "rule ",
                    &rule.dataset,
                    "/",
                    &rule.tenant,
                    " permits no regions; scheduling would deny everywhere",
                );
                r.push(problem);
                assert(views(r@) =~= before.push(problem@));
            }
            i = i + 1;
        }
        r
    }

    /// Whether a workload may run on a node of a region. Without a rule it may
    /// not.
    pub fn node_feasible(&self, dataset: &str, tenant: &str, region: &str) -> (r: bool)
        ensures
            r == feasible(self@, dataset@, tenant@, region@),
    {
        match self.rule_for(dataset, tenant) {
            Some(rule) => rule.allows_region(region),
            None => false,
        }
    }

    /// Admits a workload to a region, or says why not.
    pub fn admit_workload(&self, dataset: &str, tenant: &str, region: &str, workload: &str) -> (r: Result<
        (),
        String,
    >)
        ensures
            (match refusal(self@, dataset@, tenant@, region@, workload@) {
                Some(reason) => r is Err && r->Err_0@ == reason,
                None => r is Ok,
            }),
    {
        let who = cat6(
            "residency denied: workload ",
            workload,
            " dataset ",
            dataset,
            " tenant ",
            tenant,
        );
        match self.rule_for(dataset, tenant) {
            None => Err(cat2(&who, " has no residency rule; default-deny (fail-safe)")),
            Some(rule) => {
                if rule.allows_region(region) {
                    Ok(())
                } else {
                    Err(
                        cat7(
                            &who,
                            " may only run in [",
                            &join(&rule.allowed_regions, ", "),
                            "] (label ",
                            &rule.label_key,
                            "), requested region ",
                            region,
                        ),
                    )
                }
            },
        }
    }

    /// Says of each workload whether there is a rule for its data, now.
    pub fn coverage_report(&self, workloads: &[(String, String, String)]) -> (r: CoverageReport)
        ensures
            rows(r.entries@) == coverage(self@, workloads@),
    {
        let now = Timestamp::now();
        self.coverage_report_at(workloads, now)
    }

    /// Says of each workload whether there is a rule for its data.
    pub fn coverage_report_at(
        &self,
        workloads: &[(String, String, String)],
        now: Timestamp,
    ) -> (r: CoverageReport)
        ensures
            rows(r.entries@) == coverage(self@, workloads@),
            r.generated_at == now,
    {
        let mut entries: Vec<CoverageEntry> = Vec::new();
        let mut i: usize = 0;
        while i < workloads.len()
            invariant
                i <= workloads.len(),
                entries@.len() == i,
                forall|j: int|
                    0 <= j < i ==> (#[trigger] entries@[j])@ == coverage_row(
                        self@,
                        workloads@[j].0@,
                        workloads@[j].1@,
                        workloads@[j].2@,
                    ),
            decreases workloads@.len() - i,
        {
            let w = &workloads[i];
            let (covered, allowed_regions) = match self.rule_for(&w.1, &w.2) {
                Some(rule) => (true, copy_texts(&rule.allowed_regions)),
                None => {
                    let none: Vec<String> = Vec::new();
                    assert(views(none@) =~= Seq::<Seq<char>>::empty());
                    (false, none)
                },
            };
            let row = CoverageEntry {
                workload: w.0.clone(),
                dataset: w.1.clone(),
                tenant: w.2.clone(),
                covered,
                allowed_regions,
            };
            entries.push(row);
            i = i + 1;
        }
        assert(rows(entries@) =~= coverage(self@, workloads@));
        CoverageReport { generated_at: now, entries }
    }
}

impl Default for ResidencyPolicy {
    fn default() -> (r: Self)
        ensures
            r@ == Seq::<Terms>::empty(),
    {
        ResidencyPolicy::new()
    }
}

/// A row of a coverage report.
#[verifier::ext_equal]
pub ghost struct Row {
    pub workload: Seq<char>,
    pub dataset: Seq<char>,
    pub tenant: Seq<char>,
    pub covered: bool,
    pub regions: Seq<Seq<char>>,
}

/// A row of a coverage report.
#[derive(Debug)]
pub struct CoverageEntry {
    pub workload: String,
    pub dataset: String,
    pub tenant: String,
    pub covered: bool,
    pub allowed_regions: Vec<String>,
}

impl View for CoverageEntry {
    type V = Row;

    open spec fn view(&self) -> Row {
        Row {
            workload: self.workload@,
            dataset: self.dataset@,
            tenant: self.tenant@,
            covered: self.covered,
            regions: views(self.allowed_regions@),
        }
    }
}

/// Which workloads have a rule for their data.
#[derive(Debug)]
pub struct CoverageReport {
    pub generated_at: Timestamp,
    pub entries: Vec<CoverageEntry>,
}

/// The rows that entries hold.
pub open spec fn rows(v: Seq<CoverageEntry>) -> Seq<Row> {
    Seq::new(v.len(), |i: int| v[i]@)
}

/// What a report says of a workload.
pub open spec fn coverage_row(
    v: Seq<Terms>,
    workload: Seq<char>,
    dataset: Seq<char>,
    tenant: Seq<char>,
) -> Row {
    let rule = rule_of(v, dataset, tenant);
    Row {
        workload,
        dataset,
        tenant,
        covered: rule is Some,
        regions: match rule {
            Some(t) => t.regions,
            None => Seq::empty(),
        },
    }
}

/// What a report says of workloads, one by one.
pub open spec fn coverage(v: Seq<Terms>, workloads: Seq<(String, String, String)>) -> Seq<Row> {
    Seq::new(
        workloads.len(),
        |i: int| coverage_row(v, workloads[i].0@, workloads[i].1@, workloads[i].2@),
    )
}

/// The rows without a rule among the first `n`.
pub open spec fn uncovered_rows(v: Seq<Row>, n: int) -> Seq<Row>
    decreases n,
{
    if n <= 0 {
        Seq::empty()
    } else if v[n - 1].covered {
        uncovered_rows(v, n - 1)
    } else {
        uncovered_rows(v, n - 1).push(v[n - 1])
    }
}

impl CoverageReport {
    /// The workloads without a rule for their data.
    pub fn uncovered(&self) -> (r: Vec<&CoverageEntry>)
        ensures
            Seq::new(r@.len(), |i: int| r@[i]@) == uncovered_rows(
                rows(self.entries@),
                self.entries@.len() as int,
            ),
    {
        let mut r: Vec<&CoverageEntry> = Vec::new();
        let mut i: usize = 0;
        let ghost mut listed: Seq<Row> = Seq::empty();
        while i < self.entries.len()
            invariant
                i <= self.entries.len(),
                listed == uncovered_rows(rows(self.entries@), i as int),
                r@.len() == listed.len(),
                forall|j: int| 0 <= j < listed.len() ==> (#[trigger] r@[j])@ == listed[j],
            decreases self.entries@.len() - i,
        {
            let e = &self.entries[i];
            assert(rows(self.entries@)[i as int] == e@);
            if !e.covered {
                r.push(e);
                proof {
                    listed = listed.push(e@);
                }
            }
            i = i + 1;
        }
        assert(Seq::new(r@.len(), |i: int| r@[i]@) =~= listed);
        r
    }
}

/// A workload was refused.
#[derive(Debug)]
pub struct ResidencyViolationEvent {
    pub at: Timestamp,
    pub workload: String,
    pub dataset: String,
    pub tenant: String,
    pub requested_region: String,
    pub allowed_regions: Vec<String>,
    pub reason: String,
}

/// An event with the signature of its digest.
#[derive(Debug)]
pub struct SignedResidencyEvent {
    pub payload: ResidencyViolationEvent,
    /// Digest of the event as JSON, in hexadecimal.
    pub sha256: String,
    /// Signature of the digest, in hexadecimal.
    pub signature: String,
    /// The key that the signature is checked with, in hexadecimal.
    pub public_key: String,
}

/// Texts as JSON strings.
pub open spec fn json_strings(v: Seq<Seq<char>>) -> Seq<Seq<char>> {
    Seq::new(v.len(), |i: int| json_string(v[i]))
}

fn write_strings(v: &Vec<String>) -> (r: Vec<String>)
    ensures
        views(r@) == json_strings(views(v@)),
{
    let mut r: Vec<String> = Vec::new();
    let mut i: usize = 0;
    while i < v.len()
        invariant
            i <= v.len(),
            r@.len() == i,
            forall|j: int| 0 <= j < i ==> (#[trigger] r@[j])@ == json_string(v@[j]@),
        decreases v@.len() - i,
    {
        r.push(write_string(&v[i]));
        i = i + 1;
    }
    assert(views(r@) =~= json_strings(views(v@)));
    r
}

impl ResidencyViolationEvent {
    /// The event as JSON.
    pub open spec fn json(&self) -> Seq<char> {
        "{\"at\":"@ + json_string(self.at.z_text()) + ",\"workload\":"@ + json_string(
            self.workload@,
        ) + ",\"dataset\":"@ + json_string(self.dataset@) + ",\"tenant\":"@ + json_string(
            self.tenant@,
        ) + ",\"requested_region\":"@ + json_string(self.requested_region@)
            + ",\"allowed_regions\":["@ + joined(
            json_strings(views(self.allowed_regions@)),
            ","@,
        ) + "],\"reason\":"@ + json_string(self.reason@) + "}"@
    }

    /// The event as JSON.
    pub fn to_json(&self) -> (r: String)
        ensures
            r@ == self.json(),
    {
        let a = cat6(
            "{\"at\":",
            &write_string(&self.at.to_rfc3339_z()),
            ",\"workload\":",
            &write_string(&self.workload),
            ",\"dataset\":",
            &write_string(&self.dataset),
        );
        let b = cat4(
            ",\"tenant\":",
            &write_string(&self.tenant),
            ",\"requested_region\":",
            &write_string(&self.requested_region),
        );
        let c = cat5(
            ",\"allowed_regions\":[",
            &join(&write_strings(&self.allowed_regions), ","),
            "],\"reason\":",
            &write_string(&self.reason),
            "}",
        );
        let r = cat3(&a, &b, &c);
        assert(r@ =~= self.json());
        r
    }
}

/// Whether `ed25519_dalek::VerifyingKey::verify` finds a signature of a message
/// good with a key, of which `ed25519_dalek::VerifyingKey::from_bytes` makes one.
pub uninterp spec fn ed25519_verifies(key: Seq<u8>, message: Seq<u8>, signature: Seq<u8>) -> bool;

/// Signs a message with `ed25519_dalek::SigningKey::sign`, with a key that
/// `ed25519_dalek::SigningKey::generate` makes from `rand::rngs::OsRng`. Gives
/// the signature of 64 bytes and the public key of 32 bytes, with which the
/// signature of the message is good. The key is another one each time.
#[verifier::external_body]
fn sign_with_new_key(message: &[u8]) -> (r: (Vec<u8>, Vec<u8>))
    ensures
        r.0@.len() == 64,
        r.1@.len() == 32,
        ed25519_verifies(r.1@, message@, r.0@),
{
    let key = ed25519_dalek::SigningKey::generate(&mut rand::rngs::OsRng);
    let signature = ed25519_dalek::Signer::sign(&key, message);
    (signature.to_bytes().to_vec(), key.verifying_key().to_bytes().to_vec())
}

/// Checks the signature of a message with `ed25519_dalek::VerifyingKey::verify`.
/// No signature is good with bytes that
/// `ed25519_dalek::VerifyingKey::from_bytes` makes no key of.
#[verifier::external_body]
fn verify_signature(key: &[u8], message: &[u8], signature: &[u8]) -> (r: bool)
    requires
        key@.len() == 32,
        signature@.len() == 64,
    ensures
        r == ed25519_verifies(key@, message@, signature@),
{
    let signature = ed25519_dalek::Signature::from_bytes(signature.try_into().unwrap());
    match ed25519_dalek::VerifyingKey::from_bytes(key.try_into().unwrap()) {
        Ok(key) => ed25519_dalek::Verifier::verify(&key, message, &signature).is_ok(),
        Err(_) => false,
    }
}

/// An event carries a good signature of its digest.
pub open spec fn well_signed(e: SignedResidencyEvent) -> bool {
    let digest = sha256_digest(encode_utf8(e.payload.json()));
    e.sha256@ == hex_text(digest) && exists|signature: Seq<u8>, key: Seq<u8>|
        #[trigger] ed25519_verifies(key, digest, signature) && signature.len() == 64 && key.len()
            == 32 && e.signature@ == hex_text(signature) && e.public_key@ == hex_text(key)
}

/// Notes a refusal, now, in a signed event.
pub fn sign_violation(
    workload: &str,
    dataset: &str,
    tenant: &str,
    requested_region: &str,
    allowed_regions: &[String],
    reason: &str,
) -> (r: SignedResidencyEvent)
    ensures
        r.payload.workload@ == workload@,
        r.payload.dataset@ == dataset@,
        r.payload.tenant@ == tenant@,
        r.payload.requested_region@ == requested_region@,
        views(r.payload.allowed_regions@) == views(allowed_regions@),
        r.payload.reason@ == reason@,
        well_signed(r),
        r.sha256@.len() == 64,
{
    let mut regions: Vec<String> = Vec::new();
    let mut i: usize = 0;
    while i < allowed_regions.len()
        invariant
            i <= allowed_regions.len(),
            regions@.len() == i,
            forall|j: int| 0 <= j < i ==> (#[trigger] regions@[j])@ == allowed_regions@[j]@,
        decreases allowed_regions@.len() - i,
    {
        regions.push(allowed_regions[i].clone());
        i = i + 1;
    }
    assert(views(regions@) =~= views(allowed_regions@));
    sign_event(
        ResidencyViolationEvent {
            at: Timestamp::now(),
            workload: workload.to_string(),
            dataset: dataset.to_string(),
            tenant: tenant.to_string(),
            requested_region: requested_region.to_string(),
            allowed_regions: regions,
            reason: reason.to_string(),
        },
    )
}

/// Signs an event.
pub fn sign_event(payload: ResidencyViolationEvent) -> (r: SignedResidencyEvent)
    ensures
        r.payload == payload,
        well_signed(r),
        r.sha256@.len() == 64,
{
    let text = payload.to_json();
    let digest = sha256(text.as_str().as_bytes());
    let (signature, key) = sign_with_new_key(digest.as_slice());
    let r = SignedResidencyEvent {
        payload,
        sha256: to_hex(&digest),
        signature: to_hex(&signature),
        public_key: to_hex(&key),
    };
    assert(digest@ == sha256_digest(encode_utf8(r.payload.json())));
    assert(ed25519_verifies(key@, digest@, signature@));
    r
}

impl SignedResidencyEvent {
    /// Whether the event carries a good signature of its digest.
    pub fn is_authentic(&self) -> (r: bool)
        ensures
            r == well_signed(*self),
    {
        let text = self.payload.to_json();
        let digest = sha256(text.as_str().as_bytes());
        if !same(&self.sha256, &to_hex(&digest)) {
            return false;
        }
        match (from_hex(&self.signature), from_hex(&self.public_key)) {
            (Some(signature), Some(key)) => {
                proof {
                    assert forall|s: Seq<u8>, k: Seq<u8>|
                        #[trigger] ed25519_verifies(k, digest@, s) && self.signature@ == hex_text(s)
                            && self.public_key@ == hex_text(k) implies s == signature@ && k
                        == key@ by {
                        law_hex_is_injective(s, signature@);
                        law_hex_is_injective(k, key@);
                    }
                }
                if signature.len() != 64 || key.len() != 32 {
                    return false;
                }
                verify_signature(key.as_slice(), digest.as_slice(), signature.as_slice())
            },
            _ => false,
        }
    }
}

/// What is handed out to show that data is where it may be.
#[derive(Debug)]
pub struct ResidencyEvidence {
    pub exported_at: Timestamp,
    pub operator_version: String,
    pub coverage: CoverageReport,
    pub violations: Vec<SignedResidencyEvent>,
    pub zero_violations_30d: bool,
}

/// The evidence, now, of a report and of the refusals of the last 30 days.
pub fn export_evidence(
    coverage: CoverageReport,
    violations: Vec<SignedResidencyEvent>,
    operator_version: &str,
) -> (r: ResidencyEvidence)
    ensures
        r.operator_version@ == operator_version@,
        r.coverage == coverage,
        r.violations == violations,
        r.zero_violations_30d == (violations@.len() == 0),
{
    let zero = violations.len() == 0;
    ResidencyEvidence {
        exported_at: Timestamp::now(),
        operator_version: operator_version.to_string(),
        coverage,
        violations,
        zero_violations_30d: zero,
    }
}

/// Where a rule is entered for a dataset of a tenant, a workload is admitted in
/// each of its regions, whichever place that has in the rule, and a node there
/// can hold the data; in any other region both are refused.
pub proof fn law_every_listed_region_is_allowed(
    v: Seq<Terms>,
    t: Terms,
    region: Seq<char>,
    workload: Seq<char>,
)
    ensures
        ({
            let w = with_rule(v, t);
            &&& forall|i: int|
                0 <= i < t.regions.len() ==> refusal(
                    w,
                    t.dataset,
                    t.tenant,
                    #[trigger] t.regions[i],
                    workload,
                ) is None && feasible(w, t.dataset, t.tenant, t.regions[i])
            &&& (forall|i: int| 0 <= i < t.regions.len() ==> #[trigger] t.regions[i] != region)
                ==> refusal(w, t.dataset, t.tenant, region, workload) is Some && !feasible(
                w,
                t.dataset,
                t.tenant,
                region,
            )
        }),
{
    law_last_rule_holds(v, t, t.dataset, t.tenant);
}

/// The rule for a dataset of a tenant is one of those that were entered and is
/// for just that data; where there is none, none was entered for it.
pub proof fn law_rule_is_for_the_data(v: Seq<Terms>, dataset: Seq<char>, tenant: Seq<char>)
    ensures
        (match rule_of(v, dataset, tenant) {
            Some(t) => t.dataset == dataset && t.tenant == tenant && v.contains(t),
            None => forall|i: int|
                0 <= i < v.len() ==> (#[trigger] v[i]).dataset != dataset || v[i].tenant != tenant,
        }),
        distinct_rules(v) ==> forall|i: int|
            0 <= i < v.len() && (#[trigger] v[i]).dataset == dataset && v[i].tenant == tenant
                ==> rule_of(v, dataset, tenant) == Some(v[i]),
{
    lemma_place(v, dataset, tenant, 0);
    let p = place(v, dataset, tenant, 0);
    if p < v.len() {
        assert(v[p] == rule_of(v, dataset, tenant)->0);
    }
    if distinct_rules(v) {
        assert forall|i: int|
            0 <= i < v.len() && (#[trigger] v[i]).dataset == dataset && v[i].tenant
                == tenant implies rule_of(v, dataset, tenant) == Some(v[i]) by {
            assert(is_for(v[i], dataset, tenant));
            if p < i {
                assert(!(v[p].dataset == v[i].dataset && v[p].tenant == v[i].tenant));
            }
        }
    }
}

/// A refusal says who asked, and which regions are allowed.
pub proof fn law_refusal_names_what_is_allowed(
    v: Seq<Terms>,
    dataset: Seq<char>,
    tenant: Seq<char>,
    region: Seq<char>,
    workload: Seq<char>,
)
    requires
        refusal(v, dataset, tenant, region, workload) is Some,
    ensures
        ({
            let reason = refusal(v, dataset, tenant, region, workload)->0;
            &&& has_text(reason, "residency denied"@)
            &&& has_text(reason, workload)
            &&& rule_of(v, dataset, tenant) is Some ==> has_text(
                reason,
                joined(rule_of(v, dataset, tenant)->0.regions, ", "@),
            ) && has_text(reason, region)
        }),
{
    let reason = refusal(v, dataset, tenant, region, workload)->0;
    let a = "residency denied: workload "@;
    reveal_strlit("residency denied: workload ");
    reveal_strlit("residency denied");
    let who = a + workload + " dataset "@ + dataset + " tenant "@ + tenant;
    assert(reason.subrange(0, 16) =~= "residency denied"@);
    assert(occurs_at(reason, "residency denied"@, 0));
    assert(reason.subrange(a.len() as int, (a.len() + workload.len()) as int) =~= workload);
    assert(occurs_at(reason, workload, a.len() as int));
    if rule_of(v, dataset, tenant) is Some {
        let t = rule_of(v, dataset, tenant)->0;
        let list = joined(t.regions, ", "@);
        let n = (who + " may only run in ["@).len() as int;
        assert(reason.subrange(n, n + list.len()) =~= list);
        assert(occurs_at(reason, list, n));
        let m = reason.len() - region.len();
        assert(reason.subrange(m, m + region.len()) =~= region);
        assert(occurs_at(reason, region, m));
    }
}

/// The node affinity of a rule asks for the label to have one of the regions,
/// all of them and in their order.
pub proof fn law_affinity_asks_for_the_regions(t: Terms)
    ensures
        ({
            let required = t.affinity().member("requiredDuringSchedulingIgnoredDuringExecution"@);
            let terms = required->0.member("nodeSelectorTerms"@);
            let asked = terms->0->List_0[0].member("matchExpressions"@);
            let e = asked->0->List_0[0];
            &&& required is Some && terms is Some && asked is Some
            &&& terms->0 is List && terms->0->List_0.len() == 1
            &&& asked->0 is List && asked->0->List_0.len() == 1
            &&& e.member("key"@) == Some(Doc::Text(t.label_key))
            &&& e.member("operator"@) == Some(Doc::Text("In"@))
            &&& e.member("values"@) is Some
            &&& e.member("values"@)->0 is List
            &&& e.member("values"@)->0->List_0.len() == t.regions.len()
            &&& forall|i: int|
                0 <= i < t.regions.len() ==> #[trigger] e.member("values"@)->0->List_0[i]
                    == Doc::Text(t.regions[i])
        }),
{
    broadcast use group_members;

    reveal_strlit("key");
    reveal_strlit("operator");
    reveal_strlit("values");
}

proof fn lemma_problems_grow(v: Seq<Terms>, n: int)
    requires
        0 <= n,
    ensures
        n > 0 ==> problems(v, n - 1).len() <= problems(v, n).len(),
{
}

/// No problem is told just where every rule names its data and allows a region.
pub proof fn law_valid_rules_have_no_problems(v: Seq<Terms>, n: int)
    requires
        0 <= n <= v.len(),
    ensures
        problems(v, n).len() == 0 <==> forall|i: int|
            0 <= i < n ==> (#[trigger] v[i]).dataset.len() > 0 && v[i].tenant.len() > 0
                && v[i].regions.len() > 0,
    decreases n,
{
    if n > 0 {
        law_valid_rules_have_no_problems(v, n - 1);
        lemma_problems_grow(v, n);
        if problems(v, n).len() == 0 {
            assert(v[n - 1].dataset.len() > 0);
        }
    }
}

/// A report has a row for each workload, in their order: it says whether a rule
/// holds for the workload's data, and which regions that allows.
pub proof fn law_coverage_tells_of_each_workload(
    v: Seq<Terms>,
    workloads: Seq<(String, String, String)>,
    i: int,
)
    requires
        0 <= i < workloads.len(),
    ensures
        ({
            let row = coverage(v, workloads)[i];
            let (w, d, t) = (workloads[i].0@, workloads[i].1@, workloads[i].2@);
            &&& coverage(v, workloads).len() == workloads.len()
            &&& row.workload == w && row.dataset == d && row.tenant == t
            &&& row.covered <==> exists|j: int|
                0 <= j < v.len() && (#[trigger] v[j]).dataset == d && v[j].tenant == t
            &&& forall|region: Seq<char>|
                row.regions.contains(region) <==> #[trigger] feasible(v, d, t, region)
        }),
{
    let (d, t) = (workloads[i].1@, workloads[i].2@);
    law_rule_is_for_the_data(v, d, t);
    if rule_of(v, d, t) is Some {
        let p = place(v, d, t, 0);
        lemma_place(v, d, t, 0);
        assert(v[p].dataset == d);
    }
}

/// Just the rows that are not covered are listed as such.
pub proof fn law_uncovered_are_all_listed(v: Seq<Row>, n: int, row: Row)
    requires
        0 <= n <= v.len(),
    ensures
        uncovered_rows(v, n).contains(row) <==> !row.covered && exists|i: int|
            0 <= i < n && #[trigger] v[i] == row,
    decreases n,
{
    if n > 0 {
        law_uncovered_are_all_listed(v, n - 1, row);
        let before = uncovered_rows(v, n - 1);
        let after = uncovered_rows(v, n);
        if before.contains(row) {
            let i = choose|i: int| 0 <= i < before.len() && before[i] == row;
            assert(after[i] == row);
        }
        if !v[n - 1].covered {
            assert(after[before.len() as int] == v[n - 1]);
            if after.contains(row) && !before.contains(row) {
                let i = choose|i: int| 0 <= i < after.len() && after[i] == row;
                if i < before.len() {
                    assert(before[i] == row);
                }
            }
        }
    }
}

/// An event that shows a signature and a key is well signed just where it also
/// shows the digest of its own payload and the key verifies the signature of that
/// digest: no other signature, and no other key, will do.
pub proof fn law_signature_is_of_the_shown_key(
    e: SignedResidencyEvent,
    signature: Seq<u8>,
    key: Seq<u8>,
)
    requires
        signature.len() == 64,
        key.len() == 32,
        e.signature@ == hex_text(signature),
        e.public_key@ == hex_text(key),
    ensures
        ({
            let digest = sha256_digest(encode_utf8(e.payload.json()));
            well_signed(e) <==> e.sha256@ == hex_text(digest) && ed25519_verifies(
                key,
                digest,
                signature,
            )
        }),
{
    let digest = sha256_digest(encode_utf8(e.payload.json()));
    if well_signed(e) {
        let (s, k) = choose|s: Seq<u8>, k: Seq<u8>|
            #[trigger] ed25519_verifies(k, digest, s) && s.len() == 64 && k.len() == 32
                && e.signature@ == hex_text(s) && e.public_key@ == hex_text(k);
        law_hex_is_injective(s, signature);
        law_hex_is_injective(k, key);
    }
}

/// A well signed event shows the digest of its payload, a signature of its length
/// and a key of its length; with the digest of another payload it is not.
pub proof fn law_signed_event_shows_its_digest(e: SignedResidencyEvent, f: SignedResidencyEvent)
    requires
        well_signed(e),
    ensures
        e.sha256@ == hex_text(sha256_digest(encode_utf8(e.payload.json()))),
        e.signature@.len() == 128,
        e.public_key@.len() == 64,
        f.sha256@ == e.sha256@ && sha256_digest(encode_utf8(f.payload.json())) != sha256_digest(
            encode_utf8(e.payload.json()),
        ) ==> !well_signed(f),
{
    let digest = sha256_digest(encode_utf8(e.payload.json()));
    let (s, k) = choose|s: Seq<u8>, k: Seq<u8>|
        #[trigger] ed25519_verifies(k, digest, s) && s.len() == 64 && k.len() == 32
            && e.signature@ == hex_text(s) && e.public_key@ == hex_text(k);
    assert(hex_text(s).len() == 2 * s.len());
    assert(hex_text(k).len() == 2 * k.len());
    if f.sha256@ == e.sha256@ && well_signed(f) {
        law_hex_is_injective(digest, sha256_digest(encode_utf8(f.payload.json())));
    }
}

} // verus!
