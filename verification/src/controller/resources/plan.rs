//! What is to be done in the cluster for a node.

use vstd::prelude::*;
use vstd::string::*;
use crate::json::{Doc, Json};

verus! {

/// The kinds of resources that the operator manages.
#[derive(Clone, Copy, Debug, PartialEq, Eq, Structural)]
pub enum Kind {
    ConfigMap,
    Deployment,
    StatefulSet,
    Service,
    Ingress,
    NetworkPolicy,
    PodDisruptionBudget,
    PersistentVolumeClaim,
    HorizontalPodAutoscaler,
    Cluster,
    Pooler,
    ServiceMonitor,
    VirtualService,
}

/// Which failures of a step are passed over.
#[derive(Clone, Copy, Debug, PartialEq, Eq, Structural)]
pub enum Tolerance {
    /// None: the step has to succeed.
    Nothing,
    /// That the resource is not there.
    Missing,
    /// Every failure.
    Everything,
}

/// Where the metadata of a node's `resourceMeta` is laid over a manifest.
#[derive(Clone, Copy, Debug, PartialEq, Eq, Structural)]
pub enum Overlay {
    /// Nowhere.
    Nothing,
    /// Over the metadata of the resource.
    Resource,
    /// Over the metadata of the pods that the resource makes.
    Pods,
}

impl Kind {
    /// Where the metadata of a node's `resourceMeta` goes in most resources of
    /// a kind.
    pub open spec fn overlaid(self) -> Overlay {
        match self {
            Kind::Deployment | Kind::StatefulSet => Overlay::Pods,
            Kind::Ingress | Kind::NetworkPolicy | Kind::HorizontalPodAutoscaler => {
                Overlay::Resource
            },
            _ => Overlay::Nothing,
        }
    }

    pub fn overlay(self) -> (r: Overlay)
        ensures
            r == self.overlaid(),
    {
        match self {
            Kind::Deployment | Kind::StatefulSet => Overlay::Pods,
            Kind::Ingress | Kind::NetworkPolicy | Kind::HorizontalPodAutoscaler => {
                Overlay::Resource
            },
            _ => Overlay::Nothing,
        }
    }
}

/// A step to take in the cluster.
pub enum Step {
    /// Applies a manifest, as the owner of all of its fields.
    Apply {
        kind: Kind,
        namespace: String,
        name: String,
        manifest: Json,
        overlay: Overlay,
        tolerance: Tolerance,
        dry_run: bool,
    },
    /// Creates a resource.
    Create { kind: Kind, namespace: String, name: String, manifest: Json, dry_run: bool },
    /// Deletes a resource.
    Delete { kind: Kind, namespace: String, name: String, tolerance: Tolerance, dry_run: bool },
}

/// What a step does.
pub ghost enum Act {
    Apply {
        kind: Kind,
        namespace: Seq<char>,
        name: Seq<char>,
        manifest: Doc,
        overlay: Overlay,
        tolerance: Tolerance,
        dry_run: bool,
    },
    Create { kind: Kind, namespace: Seq<char>, name: Seq<char>, manifest: Doc, dry_run: bool },
    Delete {
        kind: Kind,
        namespace: Seq<char>,
        name: Seq<char>,
        tolerance: Tolerance,
        dry_run: bool,
    },
}

impl View for Step {
    type V = Act;

    open spec fn view(&self) -> Act {
        match *self {
            Step::Apply { kind, namespace, name, manifest, overlay, tolerance, dry_run } => Act::Apply {
                kind,
                namespace: namespace@,
                name: name@,
                manifest: manifest@,
                overlay,
                tolerance,
                dry_run,
            },
            Step::Create { kind, namespace, name, manifest, dry_run } => Act::Create {
                kind,
                namespace: namespace@,
                name: name@,
                manifest: manifest@,
                dry_run,
            },
            Step::Delete { kind, namespace, name, tolerance, dry_run } => Act::Delete {
                kind,
                namespace: namespace@,
                name: name@,
                tolerance,
                dry_run,
            },
        }
    }
}

/// What the steps do, one after the other.
pub open spec fn acts(v: Seq<Step>) -> Seq<Act> {
    Seq::new(v.len(), |i: int| v[i]@)
}

/// A manifest that has to be applied.
pub open spec fn apply_act(
    kind: Kind,
    namespace: Seq<char>,
    name: Seq<char>,
    manifest: Doc,
    dry_run: bool,
) -> Act {
    Act::Apply {
        kind,
        namespace,
        name,
        manifest,
        overlay: kind.overlaid(),
        tolerance: Tolerance::Nothing,
        dry_run,
    }
}

pub fn apply(kind: Kind, namespace: &str, name: &str, manifest: Json, dry_run: bool) -> (r: Step)
    ensures
        r@ == apply_act(kind, namespace@, name@, manifest@, dry_run),
{
    Step::Apply {
        kind,
        namespace: namespace.to_string(),
        name: name.to_string(),
        manifest,
        overlay: kind.overlay(),
        tolerance: Tolerance::Nothing,
        dry_run,
    }
}

/// A resource that has to go, if it is there.
pub open spec fn delete_act(
    kind: Kind,
    namespace: Seq<char>,
    name: Seq<char>,
    tolerance: Tolerance,
    dry_run: bool,
) -> Act {
    Act::Delete { kind, namespace, name, tolerance, dry_run }
}

pub fn delete(
    kind: Kind,
    namespace: &str,
    name: &str,
    tolerance: Tolerance,
    dry_run: bool,
) -> (r: Step)
    ensures
        r@ == delete_act(kind, namespace@, name@, tolerance, dry_run),
{
    Step::Delete {
        kind,
        namespace: namespace.to_string(),
        name: name.to_string(),
        tolerance,
        dry_run,
    }
}

/// No step.
pub open spec fn no_acts() -> Seq<Act> {
    Seq::empty()
}

pub fn no_steps() -> (r: Vec<Step>)
    ensures
        acts(r@) == no_acts(),
{
    let r: Vec<Step> = Vec::new();
    assert(acts(r@) =~= no_acts());
    r
}

/// One step.
pub open spec fn one_act(a: Act) -> Seq<Act> {
    Seq::empty().push(a)
}

pub fn one_step(s: Step) -> (r: Vec<Step>)
    ensures
        acts(r@) == one_act(s@),
{
    let mut r = no_steps();
    push_step(&mut r, s);
    r
}

/// Appends a step.
pub fn push_step(v: &mut Vec<Step>, s: Step)
    ensures
        acts(final(v)@) == acts(old(v)@).push(s@),
{
    v.push(s);
    assert(acts(v@) =~= acts(old(v)@).push(s@));
}

/// What is applied or deleted is what was named, in its namespace; only the
/// users' changes to pods, and to what leads to them, are laid over a manifest.
pub proof fn law_acts_are_what_was_named(
    kind: Kind,
    namespace: Seq<char>,
    name: Seq<char>,
    manifest: Doc,
    tolerance: Tolerance,
    dry_run: bool,
)
    ensures
        ({
            let a = apply_act(kind, namespace, name, manifest, dry_run);
            &&& a is Apply && a->Apply_kind == kind && a->Apply_namespace == namespace
                && a->Apply_name == name && a->Apply_manifest == manifest && a->Apply_dry_run
                == dry_run && a->Apply_tolerance == Tolerance::Nothing
            &&& a->Apply_overlay == Overlay::Pods <==> kind == Kind::Deployment || kind
                == Kind::StatefulSet
            &&& a->Apply_overlay == Overlay::Resource <==> kind == Kind::Ingress || kind
                == Kind::NetworkPolicy || kind == Kind::HorizontalPodAutoscaler
        }),
        ({
            let a = delete_act(kind, namespace, name, tolerance, dry_run);
            a is Delete && a->Delete_kind == kind && a->Delete_namespace == namespace
                && a->Delete_name == name && a->Delete_tolerance == tolerance && a->Delete_dry_run
                == dry_run
        }),
        no_acts().len() == 0,
        one_act(delete_act(kind, namespace, name, tolerance, dry_run)).len() == 1,
        one_act(delete_act(kind, namespace, name, tolerance, dry_run))[0] == delete_act(
            kind,
            namespace,
            name,
            tolerance,
            dry_run,
        ),
{
}

} // verus!
