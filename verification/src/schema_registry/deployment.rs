//! The gates that a deployment passes.

use vstd::prelude::*;
use vstd::string::*;
use crate::schema_registry::model::{RegistrySnapshot, holds_for, lemma_numbered};
use crate::schema_registry::registry::{
    SchemaRegistry, floats, is_floating, lemma_override, override_from, version_of,
};
use crate::text::{
    cat2, cat3, cat4, cat5, cat6, decimal, decimal_text, same,
};

verus! {

/// The contracts that the registry has to hold.
pub const INTERNAL_SCHEMA_SUBJECTS: [&'static str; 2] = [
    "stellar.scp.message",
    "stellar.ledger.events",
];

/// The contracts that are missing, as the message lists them.
pub open spec fn missing_text(scp: bool, ledger: bool) -> Seq<char> {
    if scp && ledger {
        "[\"stellar.scp.message\", \"stellar.ledger.events\"]"@
    } else if scp {
        "[\"stellar.scp.message\"]"@
    } else {
        "[\"stellar.ledger.events\"]"@
    }
}

/// Checks that the registry holds every internal contract.
pub fn verify_internal_coverage(registry: &SchemaRegistry) -> (r: Result<(), String>)
    ensures
        ({
            let scp = registry.state().subjects.at("stellar.scp.message"@) is None;
            let ledger = registry.state().subjects.at("stellar.ledger.events"@) is None;
            &&& r is Ok <==> !scp && !ledger
            &&& r is Err ==> r->Err_0@ == "internal schemas not registered: "@ + missing_text(
                scp,
                ledger,
            )
        }),
{
    let scp = registry.subject("stellar.scp.message").is_none();
    let ledger = registry.subject("stellar.ledger.events").is_none();
    if !scp && !ledger {
        return Ok(());
    }
    let missing = if scp && ledger {
        "[\"stellar.scp.message\", \"stellar.ledger.events\"]"
    } else if scp {
        "[\"stellar.scp.message\"]"
    } else {
        "[\"stellar.ledger.events\"]"
    };
    Err(cat2("internal schemas not registered: ", missing))
}

/// Why a deployment that is bound to a version is refused.
pub open spec fn pin_error(
    s: RegistrySnapshot,
    subject: Seq<char>,
    version: u32,
    override_id: Option<&str>,
) -> Option<Seq<char>> {
    if version_of(s, subject, version) is None {
        Some(
            "pinned subject/version "@ + subject + "/v"@ + decimal(version as int)
                + " is not registered"@,
        )
    } else if version == 0 {
        Some("schema version zero is invalid"@)
    } else {
        match override_id {
            Some(id) => if override_from(s.overrides@, id@, subject, 0) is None {
                Some("override "@ + id@ + " is not authorized for "@ + subject)
            } else {
                None
            },
            None => None,
        }
    }
}

/// Checks the version that a deployment is bound to, and the override that it
/// names.
pub fn validate_deployment_pin(
    registry: &SchemaRegistry,
    subject: &str,
    version: u32,
    override_id: Option<&str>,
) -> (r: Result<(), String>)
    ensures
        (match pin_error(registry.state(), subject@, version, override_id) {
            Some(e) => r is Err && r->Err_0@ == e,
            None => r is Ok,
        }),
{
    if registry.get_version(subject, version).is_none() {
        return Err(
            cat5(
                "pinned subject/version ",
                subject,
                "/v",
                &decimal_text(version as u64),
                " is not registered",
            ),
        );
    }
    if version == 0 {
        return Err("schema version zero is invalid".to_string());
    }
    if let Some(id) = override_id {
        if !registry.has_override(id, subject) {
            return Err(cat4("override ", id, " is not authorized for ", subject));
        }
    }
    Ok(())
}

/// Why the deployment of a consumer is refused.
pub open spec fn consumer_deployment_error(
    s: RegistrySnapshot,
    consumer_name: Seq<char>,
    subject: Seq<char>,
    version: u32,
    generated_client: Seq<char>,
) -> Option<Seq<char>> {
    if is_floating(generated_client) {
        Some("generated client reference must be pinned"@)
    } else {
        match s.consumers.at(consumer_name) {
            None => Some("consumer "@ + consumer_name + " is not registered"@),
            Some(c) => if c.pinned_versions.at(subject) != Some(version) {
                Some(
                    "consumer "@ + consumer_name + " pin does not match "@ + subject + "/v"@
                        + decimal(version as int),
                )
            } else if !(c.generated_client is Some && c.generated_client->0@ == generated_client) {
                Some("generated client does not match the registered pin"@)
            } else {
                None
            },
        }
    }
}

/// Checks the deployment of a consumer against what it is bound to.
pub fn validate_consumer_deployment(
    registry: &SchemaRegistry,
    consumer_name: &str,
    subject: &str,
    version: u32,
    generated_client: &str,
) -> (r: Result<(), String>)
    ensures
        (match consumer_deployment_error(
            registry.state(),
            consumer_name@,
            subject@,
            version,
            generated_client@,
        ) {
            Some(e) => r is Err && r->Err_0@ == e,
            None => r is Ok,
        }),
{
    if floats(generated_client) {
        return Err("generated client reference must be pinned".to_string());
    }
    let consumer = match registry.consumers().get(consumer_name) {
        Some(c) => c,
        None => {
            return Err(cat3("consumer ", consumer_name, " is not registered"));
        },
    };
    let bound = match consumer.pinned_versions.get(subject) {
        Some(v) => *v == version,
        None => false,
    };
    if !bound {
        return Err(
            cat6(
                "consumer ",
                consumer_name,
                " pin does not match ",
                subject,
                "/v",
                &decimal_text(version as u64),
            ),
        );
    }
    let matches = match &consumer.generated_client {
        Some(c) => same(c, generated_client),
        None => false,
    };
    if !matches {
        return Err("generated client does not match the registered pin".to_string());
    }
    Ok(())
}

/// A consumer that may be deployed is registered, bound to just that version
/// and deployed with the client that it registered, which is bound to a version.
pub proof fn law_gate_is_exact(
    s: RegistrySnapshot,
    consumer_name: Seq<char>,
    subject: Seq<char>,
    version: u32,
    client: Seq<char>,
)
    ensures
        consumer_deployment_error(s, consumer_name, subject, version, client) is None <==> {
            &&& !is_floating(client)
            &&& s.consumers.at(consumer_name) is Some
            &&& s.consumers.at(consumer_name)->0.pinned_versions.at(subject) == Some(version)
            &&& s.consumers.at(consumer_name)->0.generated_client is Some
            &&& s.consumers.at(consumer_name)->0.generated_client->0@ == client
        },
{
}

/// A deployment may be bound to a version where it is registered and not zero,
/// and the override that it names, if any, holds for the subject.
pub proof fn law_when_a_deployment_is_bound(
    s: RegistrySnapshot,
    subject: Seq<char>,
    version: u32,
    override_id: Option<&str>,
)
    ensures
        pin_error(s, subject, version, override_id) is None <==> {
            &&& s.subjects.at(subject) is Some
            &&& exists|k: int|
                0 <= k < s.subjects.at(subject)->0.versions@.len() && (#[trigger] s.subjects.at(
                    subject,
                )->0.versions@[k]).version == version
            &&& version != 0
            &&& override_id is Some ==> exists|j: int|
                0 <= j < s.overrides@.len() && (#[trigger] s.overrides@[j]).id@ == override_id->0@
                    && holds_for(s.overrides@[j], subject)
        },
{
    if s.subjects.at(subject) is Some {
        lemma_numbered(s.subjects.at(subject)->0.versions@, version, 0);
    }
    if let Some(id) = override_id {
        lemma_override(s.overrides@, id@, subject, 0);
    }
}

/// The contracts that are missing are listed by their names, and those alone: a
/// list that names the first begins with it, and one that names the second ends
/// with it.
pub proof fn law_missing_contracts_are_named(other: bool)
    ensures
        missing_text(true, other).subrange(2, 21) == "stellar.scp.message"@,
        ({
            let s = missing_text(other, true);
            s.subrange(s.len() - 23, s.len() - 2) == "stellar.ledger.events"@
        }),
        missing_text(true, false).len() == 23,
        missing_text(false, true).len() == 25,
        missing_text(true, true).len() == 48,
{
    reveal_strlit("[\"stellar.scp.message\", \"stellar.ledger.events\"]");
    reveal_strlit("[\"stellar.scp.message\"]");
    reveal_strlit("[\"stellar.ledger.events\"]");
    reveal_strlit("stellar.scp.message");
    reveal_strlit("stellar.ledger.events");
    assert(missing_text(true, true).subrange(2, 21) =~= "stellar.scp.message"@);
    assert(missing_text(true, false).subrange(2, 21) =~= "stellar.scp.message"@);
    assert(missing_text(true, true).subrange(25, 46) =~= "stellar.ledger.events"@);
    assert(missing_text(false, true).subrange(2, 23) =~= "stellar.ledger.events"@);
}

} // verus!
