//! The decisions of the loop that watches the control plane.

use vstd::prelude::*;
use vstd::string::*;
use crate::controller::resources::helpers::{none, push};
use crate::crd::control_plane_health::{
    ComponentState, ControlPlaneHealthSpec, DegradationLevel, LevelTransition, WebhookMode,
};
use crate::json::{Doc, Json, docs, group_members};
use crate::text::{same, views};

verus! {

/// Name of the `ControlPlaneHealth` resource; there is one in a cluster.
pub const RESOURCE_NAME: &'static str = "cluster";

pub const FIELD_MANAGER: &'static str = "stellar-degradation-monitor";

/// How long a probe may take, in seconds.
pub fn probe_timeout(spec: &ControlPlaneHealthSpec) -> (r: u64)
    ensures
        r == if spec.probe_timeout_seconds < 1 {
            1
        } else {
            spec.probe_timeout_seconds as int
        },
{
    if spec.probe_timeout_seconds < 1 {
        1
    } else {
        spec.probe_timeout_seconds as u64
    }
}

/// How long to wait between rounds, in seconds.
pub fn probe_interval(spec: &ControlPlaneHealthSpec) -> (r: u64)
    ensures
        r == if spec.probe_interval_seconds < 1 {
            1
        } else {
            spec.probe_interval_seconds as int
        },
{
    if spec.probe_interval_seconds < 1 {
        1
    } else {
        spec.probe_interval_seconds as u64
    }
}

/// What the loop writes at the end of a round.
#[derive(Clone, Copy, Debug, PartialEq, Eq, Structural)]
pub struct RoundWrites {
    /// Keep the webhooks at `failurePolicy: Ignore`.
    pub enforce_permissive: bool,
    /// Publish the status.
    pub publish_status: bool,
}

/// What the loop writes: every replica probes, but only the leader writes,
/// and only while the level permits it.
pub fn round_writes(is_leader: bool, level: DegradationLevel, mode: WebhookMode) -> (r: RoundWrites)
    ensures
        r.publish_status == (is_leader && level.allows().writes),
        r.enforce_permissive == (r.publish_status && mode == WebhookMode::Permissive),
{
    let writes = is_leader && level.permitted().writes;
    RoundWrites {
        enforce_permissive: writes && mode == WebhookMode::Permissive,
        publish_status: writes,
    }
}

/// The answer to a look at the specification.
#[derive(Clone, Copy, Debug, PartialEq, Eq, Structural)]
pub enum SpecReply {
    Found,
    Missing,
    Error,
}

/// What to do about the specification.
#[derive(Clone, Copy, Debug, PartialEq, Eq, Structural)]
pub enum SpecAction {
    /// Take over the one that was found.
    Use,
    /// Create the default one, and keep the last known one.
    Create,
    /// Keep the last known one.
    Keep,
}

/// What to do about the specification. Only the leader creates one.
pub fn on_spec_reply(reply: SpecReply, is_leader: bool) -> (r: SpecAction)
    ensures
        r == match reply {
            SpecReply::Found => SpecAction::Use,
            SpecReply::Missing => if is_leader {
                SpecAction::Create
            } else {
                SpecAction::Keep
            },
            SpecReply::Error => SpecAction::Keep,
        },
{
    match reply {
        SpecReply::Found => SpecAction::Use,
        SpecReply::Missing => if is_leader {
            SpecAction::Create
        } else {
            SpecAction::Keep
        },
        SpecReply::Error => SpecAction::Keep,
    }
}

/// Whether a change of the level is for the worse.
pub fn is_raise(t: &LevelTransition) -> (r: bool)
    ensures
        r == (t.to.severity() > t.from.severity()),
{
    t.to.as_index() > t.from.as_index()
}

/// The state of a component as a metric.
pub fn state_metric(s: ComponentState) -> (r: i64)
    ensures
        r == match s {
            ComponentState::Healthy => 1int,
            ComponentState::Unhealthy => 0int,
            ComponentState::Unknown => -1int,
        },
{
    match s {
        ComponentState::Healthy => 1,
        ComponentState::Unhealthy => 0,
        ComponentState::Unknown => -1,
    }
}

/// Whether a webhook's failures are not ignored.
pub open spec fn blocks(policy: Option<String>) -> bool {
    !(policy is Some && policy->0@ == "Ignore"@)
}

/// The names of those of the first `n` webhooks whose failures are not ignored.
pub open spec fn blocking(v: Seq<(String, Option<String>)>, n: int) -> Seq<Seq<char>>
    decreases n,
{
    if n <= 0 {
        Seq::empty()
    } else if blocks(v[n - 1].1) {
        blocking(v, n - 1).push(v[n - 1].0@)
    } else {
        blocking(v, n - 1)
    }
}

/// The names of the webhooks, given with their failure policies, whose
/// failures are not ignored.
pub fn not_ignoring(webhooks: &[(String, Option<String>)]) -> (r: Vec<String>)
    ensures
        views(r@) == blocking(webhooks@, webhooks@.len() as int),
{
    let mut r: Vec<String> = Vec::new();
    assert(views(r@) =~= blocking(webhooks@, 0));
    let n = webhooks.len();
    let mut i: usize = 0;
    while i < n
        invariant
            i <= n,
            n == webhooks@.len(),
            views(r@) == blocking(webhooks@, i as int),
        decreases n - i,
    {
        let ignored = match &webhooks[i].1 {
            Some(p) => same(p, "Ignore"),
            None => false,
        };
        if !ignored {
            let ghost before = views(r@);
            r.push(webhooks[i].0.clone());
            assert(views(r@) =~= before.push(webhooks@[i as int].0@));
        }
        i = i + 1;
    }
    r
}

/// What makes one webhook ignore its failures.
pub open spec fn ignoring_doc(name: Seq<char>) -> Doc {
    Doc::object().with("name"@, Doc::text(name)).with("failurePolicy"@, Doc::text("Ignore"@))
}

/// The patch that makes the given webhooks ignore their failures, where there
/// are any.
pub open spec fn fail_open_doc(names: Seq<Seq<char>>) -> Option<Doc> {
    if names.len() == 0 {
        None
    } else {
        Some(
            Doc::object().with(
                "webhooks"@,
                Doc::List(Seq::new(names.len(), |i: int| ignoring_doc(names[i]))),
            ),
        )
    }
}

/// The patch that makes the given webhooks ignore their failures, where there
/// are any. Webhooks merge by name.
pub fn fail_open_patch(names: &Vec<String>) -> (r: Option<Json>)
    ensures
        (match r {
            Some(p) => fail_open_doc(views(names@)) == Some(p@),
            None => fail_open_doc(views(names@)) is None,
        }),
{
    if names.len() == 0 {
        return None;
    }
    let ghost all = Seq::new(names@.len(), |i: int| ignoring_doc(views(names@)[i]));
    let mut items = none();
    let mut i: usize = 0;
    while i < names.len()
        invariant
            i <= names.len(),
            all == Seq::new(names@.len(), |i: int| ignoring_doc(views(names@)[i])),
            docs(items@) == all.subrange(0, i as int),
        decreases names@.len() - i,
    {
        push(
            &mut items,
            Json::object().with("name", Json::text(&names[i])).with(
                "failurePolicy",
                Json::text("Ignore"),
            ),
        );
        i = i + 1;
        assert(docs(items@) =~= all.subrange(0, i as int));
    }
    assert(docs(items@) =~= all);
    Some(Json::object().with("webhooks", Json::List(items)))
}

/// The place of a webhook's name among those that are made to ignore failures.
proof fn lemma_blocking(v: Seq<(String, Option<String>)>, n: int, i: int)
    requires
        0 <= i < n <= v.len(),
        blocks(v[i].1),
    ensures
        blocking(v, n).contains(v[i].0@),
    decreases n,
{
    if i == n - 1 {
        let all = blocking(v, n);
        assert(all[all.len() - 1] == v[i].0@);
    } else {
        lemma_blocking(v, n - 1, i);
        let before = blocking(v, n - 1);
        let j = choose|j: int| 0 <= j < before.len() && before[j] == v[i].0@;
        assert(blocking(v, n)[j] == v[i].0@);
    }
}

/// In permissive mode no webhook is left that blocks pods when it fails: each
/// one ignores its failures already or is made to.
pub proof fn law_permissive_leaves_no_webhook_blocking(v: Seq<(String, Option<String>)>)
    ensures
        forall|i: int|
            0 <= i < v.len() && blocks((#[trigger] v[i]).1) ==> blocking(
                v,
                v.len() as int,
            ).contains(v[i].0@),
        fail_open_doc(blocking(v, v.len() as int)) is None ==> forall|i: int|
            0 <= i < v.len() ==> !blocks((#[trigger] v[i]).1),
{
    assert forall|i: int| 0 <= i < v.len() && blocks((#[trigger] v[i]).1) implies blocking(
        v,
        v.len() as int,
    ).contains(v[i].0@) by {
        lemma_blocking(v, v.len() as int, i);
    }
}

/// The webhooks that block are those that do not ignore failures, and no other.
pub proof fn law_blocking_webhooks_are_found(v: Seq<(String, Option<String>)>, n: int)
    requires
        0 <= n <= v.len(),
    ensures
        forall|i: int|
            #![trigger v[i]]
            0 <= i < n && (v[i].1 is None || v[i].1->0@ != "Ignore"@) ==> blocking(v, n).contains(v[i].0@),
        forall|x: Seq<char>| #[trigger]
            blocking(v, n).contains(x) ==> exists|i: int|
                #![trigger v[i]]
                0 <= i < n && (v[i].1 is None || v[i].1->0@ != "Ignore"@) && x == v[i].0@,
    decreases n,
{
    if n > 0 {
        law_blocking_webhooks_are_found(v, n - 1);
        let p = blocking(v, n - 1);
        let r = blocking(v, n);
        assert forall|i: int|
            #![trigger v[i]]
            0 <= i < n && (v[i].1 is None || v[i].1->0@ != "Ignore"@) implies r.contains(v[i].0@) by {
            if i == n - 1 {
                assert(r[p.len() as int] == v[i].0@);
            } else {
                assert(p.contains(v[i].0@));
                let k = choose|k: int| 0 <= k < p.len() && p[k] == v[i].0@;
                assert(r[k] == v[i].0@);
            }
        }
        assert forall|x: Seq<char>| #[trigger] r.contains(x) implies exists|i: int|
            #![trigger v[i]]
            0 <= i < n && (v[i].1 is None || v[i].1->0@ != "Ignore"@) && x == v[i].0@ by {
            let j = choose|j: int| 0 <= j < r.len() && r[j] == x;
            if j < p.len() {
                assert(r[j] == p[j]);
                assert(p.contains(x));
                let i = choose|i: int|
                    #![trigger v[i]]
                    0 <= i < n - 1 && (v[i].1 is None || v[i].1->0@ != "Ignore"@) && x == v[i].0@;
                assert((v[i].1 is None || v[i].1->0@ != "Ignore"@) && x == v[i].0@);
            } else {
                let i = n - 1;
                assert((v[i].1 is None || v[i].1->0@ != "Ignore"@) && x == v[i].0@);
            }
        }
    }
}

/// A patch to fail open tells every webhook that it names to ignore failures,
/// and there is one where there is a webhook to name.
pub proof fn law_patch_ignores_failures(names: Seq<Seq<char>>, i: int)
    requires
        0 <= i < names.len(),
    ensures
        fail_open_doc(names) is Some,
        ({
            let l = fail_open_doc(names)->0.member("webhooks"@);
            &&& l is Some && l->0 is List && l->0->List_0.len() == names.len()
            &&& l->0->List_0[i].member("name"@) == Some(Doc::Text(names[i]))
            &&& l->0->List_0[i].member("failurePolicy"@) == Some(Doc::Text("Ignore"@))
        }),
{
    broadcast use group_members;

    reveal_strlit("name");
    reveal_strlit("failurePolicy");
    reveal_strlit("webhooks");
}

} // verus!
