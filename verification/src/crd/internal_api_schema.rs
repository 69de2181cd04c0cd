//! Which schema a service is built for, and which clients may be deployed.

use vstd::prelude::*;
use vstd::string::*;
use crate::schema_registry::registry::{floats, is_floating};
use crate::text::{blank, cat3, is_blank};

verus! {

pub struct InternalApiSchemaSpec {
    /// Name of the subject in the registry.
    pub subject: String,
    /// Version in the registry.
    pub schema_version: u32,
    /// Where the registry is mounted.
    pub registry_path: String,
    /// Consumers whose deployment is checked.
    pub consumers: Vec<ConsumerDeploymentPolicy>,
    /// Refuse a deployment that breaks a consumer without leave.
    pub enforce_compatibility: bool,
}

pub struct ConsumerDeploymentPolicy {
    pub name: String,
    /// The generated client, which has to be bound to a version.
    pub client_reference: String,
}

#[derive(Clone, Copy, Debug, PartialEq, Eq, Structural)]
pub enum SchemaDeploymentPhase {
    Pending,
    Verified,
    Rejected,
}

impl Default for SchemaDeploymentPhase {
    fn default() -> (r: Self)
        ensures
            r == SchemaDeploymentPhase::Pending,
    {
        SchemaDeploymentPhase::Pending
    }
}

pub struct InternalApiSchemaStatus {
    pub phase: SchemaDeploymentPhase,
    pub compatibility_verified: bool,
    /// Report on the consumers, as JSON.
    pub impact_report: Option<String>,
}

impl Default for InternalApiSchemaStatus {
    fn default() -> (r: Self)
        ensures
            r.phase == SchemaDeploymentPhase::Pending,
            !r.compatibility_verified,
            r.impact_report is None,
    {
        InternalApiSchemaStatus {
            phase: SchemaDeploymentPhase::Pending,
            compatibility_verified: false,
            impact_report: None,
        }
    }
}

/// The first consumer from `i` on whose client is not bound to a version.
pub open spec fn floating_consumer(v: Seq<ConsumerDeploymentPolicy>, i: int) -> Option<Seq<char>>
    decreases v.len() - i,
{
    if i < 0 || i >= v.len() {
        None
    } else if is_floating(v[i].client_reference@) {
        Some(v[i].name@)
    } else {
        floating_consumer(v, i + 1)
    }
}

/// What is wrong with a specification.
pub open spec fn api_schema_error(s: InternalApiSchemaSpec) -> Option<Seq<char>> {
    if blank(s.subject@) || s.schema_version == 0 {
        Some("subject and non-zero schemaVersion are required"@)
    } else if blank(s.registry_path@) {
        Some("registryPath is required"@)
    } else {
        match floating_consumer(s.consumers@, 0) {
            Some(name) => Some("clientReference for "@ + name + " must be pinned"@),
            None => None,
        }
    }
}

impl InternalApiSchemaSpec {
    /// Checks the specification.
    pub fn validate(&self) -> (r: Result<(), String>)
        ensures
            (match api_schema_error(*self) {
                Some(e) => r is Err && r->Err_0@ == e,
                None => r is Ok,
            }),
    {
        if is_blank(&self.subject) || self.schema_version == 0 {
            return Err("subject and non-zero schemaVersion are required".to_string());
        }
        if is_blank(&self.registry_path) {
            return Err("registryPath is required".to_string());
        }
        let mut i: usize = 0;
        while i < self.consumers.len()
            invariant
                i <= self.consumers.len(),
                !blank(self.subject@) && self.schema_version != 0 && !blank(self.registry_path@),
                floating_consumer(self.consumers@, 0) == floating_consumer(
                    self.consumers@,
                    i as int,
                ),
            decreases self.consumers@.len() - i,
        {
            let c = &self.consumers[i];
            if floats(&c.client_reference) {
                return Err(cat3("clientReference for ", &c.name, " must be pinned"));
            }
            i = i + 1;
        }
        Ok(())
    }
}

proof fn lemma_floating_consumer(v: Seq<ConsumerDeploymentPolicy>, i: int)
    requires
        0 <= i,
    ensures
        floating_consumer(v, i) is None <==> forall|j: int|
            i <= j < v.len() ==> !is_floating((#[trigger] v[j]).client_reference@),
    decreases v.len() - i,
{
    if i < v.len() {
        lemma_floating_consumer(v, i + 1);
    }
}

/// A schema is taken where it names a subject, a version and where it is
/// registered, and the client of every consumer is bound to a version.
pub proof fn law_when_a_schema_is_taken(s: InternalApiSchemaSpec)
    ensures
        api_schema_error(s) is None <==> {
            &&& !blank(s.subject@)
            &&& s.schema_version > 0
            &&& !blank(s.registry_path@)
            &&& forall|j: int|
                0 <= j < s.consumers@.len() ==> !is_floating(
                    (#[trigger] s.consumers@[j]).client_reference@,
                )
        },
{
    lemma_floating_consumer(s.consumers@, 0);
}

} // verus!
