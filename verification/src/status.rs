//! The shared health status, its single writer, and the ready barrier.
//!
//! Readers only ever see a status that some prefix of the applied
//! changes produces: the writer applies each three-operation change as
//! one unit, so the per-flag rule here is the whole story of what a
//! reader can observe.

use vstd::prelude::*;

use crate::config::Configuration;

verus! {

/// The three health flags served over HTTP.
#[derive(Clone, Copy, Debug, PartialEq, Eq, Structural)]
pub struct Status {
    pub healthz: bool,
    pub livez: bool,
    pub readyz: bool,
}

/// How one status change treats one flag: leave it alone, or force a
/// value.
#[derive(Clone, Copy, Debug, PartialEq, Eq, Structural)]
pub enum ChangeOperation {
    Keep,
    Assign(bool),
}

/// One atomic status mutation: one operation per flag.
#[derive(Clone, Copy, Debug, PartialEq, Eq, Structural)]
pub struct Change {
    pub healthz: ChangeOperation,
    pub livez: ChangeOperation,
    pub readyz: ChangeOperation,
}

/// What one operation leaves in a flag: `Keep` is the previous value,
/// `Assign(v)` is `v`.
pub open spec fn apply_operation_spec(op: ChangeOperation, current: bool) -> bool {
    match op {
        ChangeOperation::Keep => current,
        ChangeOperation::Assign(v) => v,
    }
}

/// The status a change produces from a previous status.
pub open spec fn apply_change_spec(s: Status, c: Change) -> Status {
    Status {
        healthz: apply_operation_spec(c.healthz, s.healthz),
        livez: apply_operation_spec(c.livez, s.livez),
        readyz: apply_operation_spec(c.readyz, s.readyz),
    }
}

/// The status a sequence of changes produces, applied in order.
pub open spec fn apply_changes_spec(s: Status, cs: Seq<Change>) -> Status
    decreases cs.len(),
{
    if cs.len() == 0 {
        s
    } else {
        apply_changes_spec(apply_change_spec(s, cs[0]), cs.skip(1))
    }
}

impl Status {
    /// The status the adapter starts with: `healthz` false until the
    /// ready barrier fires, the other two flags as configured.
    pub fn from_config(config: &Configuration) -> (r: Status)
        ensures
            !r.healthz,
            r.livez == config.initial_livez,
            r.readyz == config.initial_readyz,
    {
        Status {
            healthz: false,
            livez: config.initial_livez,
            readyz: config.initial_readyz,
        }
    }

    /// Applies one change as a unit. Each flag ends up either at its
    /// previous value (under `Keep`) or at the written value (under
    /// `Assign`), which is everything a reader can ever observe.
    pub fn apply(&mut self, change: &Change)
        ensures
            *final(self) == apply_change_spec(*old(self), *change),
    {
        self.healthz = apply_operation(&change.healthz, self.healthz);
        self.livez = apply_operation(&change.livez, self.livez);
        self.readyz = apply_operation(&change.readyz, self.readyz);
    }
}

/// Applies one operation to one flag.
pub fn apply_operation(op: &ChangeOperation, current: bool) -> (r: bool)
    ensures
        r == apply_operation_spec(*op, current),
{
    match op {
        ChangeOperation::Keep => current,
        ChangeOperation::Assign(v) => *v,
    }
}

/// Counts the ready acknowledgements of the long-lived tasks and
/// releases the one `healthz := true` change when the last acknowledgement
/// arrives.
#[derive(Clone, Copy, Debug, PartialEq, Eq, Structural)]
pub struct ReadyBarrier {
    pub pending: usize,
}

impl ReadyBarrier {
    /// The single change the barrier releases.
    pub open spec fn ready_change_spec() -> Change {
        Change {
            healthz: ChangeOperation::Assign(true),
            livez: ChangeOperation::Keep,
            readyz: ChangeOperation::Keep,
        }
    }

    /// A barrier waiting for `tasks` acknowledgements.
    pub fn new(tasks: usize) -> (r: ReadyBarrier)
        ensures
            r.pending == tasks,
    {
        ReadyBarrier { pending: tasks }
    }

    /// Records one task's ready acknowledgement. The `healthz := true`
    /// change is returned exactly on the last expected acknowledgement,
    /// never before.
    pub fn task_ready(&mut self) -> (r: Option<Change>)
        requires
            old(self).pending > 0,
        ensures
            final(self).pending == old(self).pending - 1,
            r == (if final(self).pending == 0 {
                Some(ReadyBarrier::ready_change_spec())
            } else {
                None::<Change>
            }),
    {
        self.pending = self.pending - 1;
        if self.pending == 0 {
            Some(Change {
                healthz: ChangeOperation::Assign(true),
                livez: ChangeOperation::Keep,
                readyz: ChangeOperation::Keep,
            })
        } else {
            None
        }
    }
}

/// `healthz` stays false under every change that keeps it: as long as
/// only changes with `healthz: Keep` are applied — and the event
/// listener produces no others — a status that starts with `healthz`
/// false keeps it false. Only the ready barrier's own change, released
/// after every task has acknowledged, can raise it.
pub proof fn lemma_healthz_latched(s: Status, cs: Seq<Change>)
    requires
        !s.healthz,
        forall|i: int| 0 <= i < cs.len() ==> (#[trigger] cs[i]).healthz == ChangeOperation::Keep,
    ensures
        !apply_changes_spec(s, cs).healthz,
    decreases cs.len(),
{
    if cs.len() != 0 {
        lemma_healthz_latched(apply_change_spec(s, cs[0]), cs.skip(1));
    }
}

} // verus!
