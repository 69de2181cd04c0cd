//! Which actions of the operator a degradation level lets through.

use vstd::prelude::*;
use crate::crd::control_plane_health::DegradationLevel;

verus! {

/// Classes of actions that the degradation level governs.
#[derive(Clone, Copy, Debug, PartialEq, Eq, Structural)]
pub enum OperatorAction {
    /// Any write to the Kubernetes API.
    Write,
    /// An action that interrupts serving pods: restart, delete, evict.
    Disruptive,
}

/// The current degradation level, and how many actions it has withheld. There is
/// one for all parts of the operator, so it cannot be copied: they share it
/// behind a lock.
#[derive(Debug)]
pub struct DegradationGate {
    level: DegradationLevel,
    suppressed: u64,
}

/// Whether an action is permitted at a level.
pub open spec fn lets_through(level: DegradationLevel, action: OperatorAction) -> bool {
    match action {
        OperatorAction::Write => level.allows().writes,
        OperatorAction::Disruptive => level.allows().disruptive_actions,
    }
}

impl Default for DegradationGate {
    /// A gate at the normal level, so that the operator is unrestricted when
    /// nothing watches the control plane.
    fn default() -> (r: Self)
        ensures
            r.current() == DegradationLevel::Normal,
            r.withheld() == 0,
    {
        DegradationGate { level: DegradationLevel::Normal, suppressed: 0 }
    }
}

impl DegradationGate {
    pub closed spec fn current(self) -> DegradationLevel {
        self.level
    }

    pub closed spec fn withheld(self) -> int {
        self.suppressed as int
    }

    pub fn level(&self) -> (r: DegradationLevel)
        ensures
            r == self.current(),
    {
        self.level
    }

    pub fn set_level(&mut self, level: DegradationLevel)
        ensures
            final(self).current() == level,
            final(self).withheld() == old(self).withheld(),
    {
        self.level = level;
    }

    /// `Ok` if the action is allowed; else counts it as withheld and returns
    /// the level that withheld it. The count starts again after its largest
    /// value.
    pub fn check(&mut self, action: OperatorAction) -> (r: Result<(), DegradationLevel>)
        ensures
            final(self).current() == old(self).current(),
            r == (if lets_through(old(self).current(), action) {
                Ok::<(), DegradationLevel>(())
            } else {
                Err::<(), DegradationLevel>(old(self).current())
            }),
            final(self).withheld() == if lets_through(old(self).current(), action) {
                old(self).withheld()
            } else if old(self).withheld() == u64::MAX {
                0
            } else {
                old(self).withheld() + 1
            },
    {
        let permitted = self.level.permitted();
        let allowed = match action {
            OperatorAction::Write => permitted.writes,
            OperatorAction::Disruptive => permitted.disruptive_actions,
        };
        if allowed {
            return Ok(());
        }
        self.suppressed = self.suppressed.wrapping_add(1);
        Err(self.level)
    }

    /// How many actions have been withheld.
    pub fn suppressed_total(&self) -> (r: u64)
        ensures
            r == self.withheld(),
    {
        self.suppressed
    }
}

/// Away from the normal level no disruptive action is let through, and
/// at the frozen level no write.
pub proof fn law_gate_protects(level: DegradationLevel)
    ensures
        level != DegradationLevel::Normal ==> !lets_through(level, OperatorAction::Disruptive),
        level == DegradationLevel::Frozen ==> !lets_through(level, OperatorAction::Write),
{
}

/// What is let through: a disruptive action only when all is normal, a write
/// unless all is frozen.
pub proof fn law_what_is_let_through(level: DegradationLevel)
    ensures
        lets_through(level, OperatorAction::Disruptive) <==> level == DegradationLevel::Normal,
        lets_through(level, OperatorAction::Write) <==> level != DegradationLevel::Frozen,
{
}

} // verus!
