//! Launching a benchmark unit of work into the cluster's single benchmark slot.
//!
//! A launch removes the old configuration resource, creates the new one,
//! clears the slot (asks for the old unit of work and its pods to be deleted,
//! and lists what bears the benchmark label), waits until the slot is seen
//! empty, and only then submits the new unit of work. A watch that ends
//! before the old unit of work is seen deleted is opened again.
use vstd::prelude::*;

verus! {

/// Why a launch was abandoned.
#[derive(Clone, Copy, Debug, PartialEq, Eq, Structural)]
pub enum LaunchError {
    /// The new configuration resource could not be created.
    ConfigRejected,
    /// The new unit of work could not be submitted.
    SubmitRejected,
    /// An event came that the current phase does not expect.
    OutOfOrder,
}

#[derive(Clone, Copy, Debug, PartialEq, Eq, Structural)]
pub enum LaunchPhase {
    /// No launch under way.
    Idle,
    /// The old configuration resource is being deleted.
    RemovingConfig,
    /// The new configuration resource is being created.
    CreatingConfig,
    /// The old unit of work is being deleted and the slot listed.
    ListingSlot,
    /// Watching for the old unit of work to be deleted.
    WatchingSlot,
    /// The new unit of work is being submitted.
    Submitting,
    /// The new unit of work was submitted.
    Launched,
    /// The launch was abandoned.
    Failed(LaunchError),
}

#[derive(Clone, Copy, Debug, PartialEq, Eq, Structural)]
pub enum LaunchEvent {
    /// A new launch is asked for.
    Begin,
    /// The old configuration resource is gone (or was never there).
    ConfigDeleted,
    /// The new configuration resource was created, or not.
    ConfigCreated(bool),
    /// The number of units of work bearing the benchmark label, where the
    /// listing succeeded.
    SlotListed(Option<usize>),
    /// A unit of work bearing the benchmark label was deleted.
    JobDeleted,
    /// The watch on the slot ended.
    WatchEnded,
    /// The new unit of work was submitted, or not.
    JobSubmitted(bool),
}

#[derive(Clone, Copy, Debug, PartialEq, Eq, Structural)]
pub enum LaunchAction {
    /// Nothing: wait for the next event.
    Wait,
    /// Delete the configuration resource, ignoring that it may be missing.
    DeleteConfig,
    /// Create the new configuration resource.
    CreateConfig,
    /// Ask for the old unit of work and its pods to be deleted, and list the
    /// units of work bearing the benchmark label.
    ClearSlot,
    /// Watch for the deletion of a unit of work bearing the benchmark label.
    WatchSlot,
    /// Submit the new unit of work.
    SubmitJob,
    /// The launch is complete.
    Launched,
    /// Abandon the invocation.
    Abort(LaunchError),
}

impl LaunchPhase {
    /// The launch protocol: the phase and action that follow `self` on `e`.
    pub open spec fn next(self, e: LaunchEvent) -> (LaunchPhase, LaunchAction) {
        match (self, e) {
            (LaunchPhase::Failed(err), _) => (self, LaunchAction::Abort(err)),
            (LaunchPhase::Idle, LaunchEvent::Begin) | (LaunchPhase::Launched, LaunchEvent::Begin) => (
                LaunchPhase::RemovingConfig,
                LaunchAction::DeleteConfig,
            ),
            (LaunchPhase::RemovingConfig, LaunchEvent::ConfigDeleted) => (
                LaunchPhase::CreatingConfig,
                LaunchAction::CreateConfig,
            ),
            (LaunchPhase::CreatingConfig, LaunchEvent::ConfigCreated(ok)) => if ok {
                (LaunchPhase::ListingSlot, LaunchAction::ClearSlot)
            } else {
                (
                    LaunchPhase::Failed(LaunchError::ConfigRejected),
                    LaunchAction::Abort(LaunchError::ConfigRejected),
                )
            },
            (LaunchPhase::ListingSlot, LaunchEvent::SlotListed(count)) => if count == Some(0usize) {
                (LaunchPhase::Submitting, LaunchAction::SubmitJob)
            } else {
                (LaunchPhase::WatchingSlot, LaunchAction::WatchSlot)
            },
            (LaunchPhase::WatchingSlot, LaunchEvent::JobDeleted) => (
                LaunchPhase::Submitting,
                LaunchAction::SubmitJob,
            ),
            (LaunchPhase::WatchingSlot, LaunchEvent::WatchEnded) => (
                LaunchPhase::WatchingSlot,
                LaunchAction::WatchSlot,
            ),
            (LaunchPhase::Submitting, LaunchEvent::JobSubmitted(ok)) => if ok {
                (LaunchPhase::Launched, LaunchAction::Launched)
            } else {
                (
                    LaunchPhase::Failed(LaunchError::SubmitRejected),
                    LaunchAction::Abort(LaunchError::SubmitRejected),
                )
            },
            // deletions seen outside the watch change nothing
            (_, LaunchEvent::JobDeleted) => (self, LaunchAction::Wait),
            _ => (LaunchPhase::Failed(LaunchError::OutOfOrder), LaunchAction::Abort(LaunchError::OutOfOrder)),
        }
    }
}

/// The launcher of benchmark units of work.
pub struct Launcher {
    pub phase: LaunchPhase,
}

impl Launcher {
    pub fn new() -> (l: Launcher)
        ensures
            l.phase == LaunchPhase::Idle,
    {
        Launcher { phase: LaunchPhase::Idle }
    }

    /// Takes one event and returns the action to perform, as the launch
    /// protocol [`LaunchPhase::next`] says.
    pub fn step(&mut self, e: LaunchEvent) -> (a: LaunchAction)
        ensures
            (final(self).phase, a) == old(self).phase.next(e),
    {
        let (p, a) = match (self.phase, e) {
            (LaunchPhase::Failed(err), _) => (self.phase, LaunchAction::Abort(err)),
            (LaunchPhase::Idle, LaunchEvent::Begin) | (LaunchPhase::Launched, LaunchEvent::Begin) => (
                LaunchPhase::RemovingConfig,
                LaunchAction::DeleteConfig,
            ),
            (LaunchPhase::RemovingConfig, LaunchEvent::ConfigDeleted) => (
                LaunchPhase::CreatingConfig,
                LaunchAction::CreateConfig,
            ),
            (LaunchPhase::CreatingConfig, LaunchEvent::ConfigCreated(ok)) => if ok {
                (LaunchPhase::ListingSlot, LaunchAction::ClearSlot)
            } else {
                (
                    LaunchPhase::Failed(LaunchError::ConfigRejected),
                    LaunchAction::Abort(LaunchError::ConfigRejected),
                )
            },
            (LaunchPhase::ListingSlot, LaunchEvent::SlotListed(count)) => {
                let empty = match count {
                    Some(c) => c == 0,
                    None => false,
                };
                if empty {
                    (LaunchPhase::Submitting, LaunchAction::SubmitJob)
                } else {
                    (LaunchPhase::WatchingSlot, LaunchAction::WatchSlot)
                }
            },
            (LaunchPhase::WatchingSlot, LaunchEvent::JobDeleted) => (
                LaunchPhase::Submitting,
                LaunchAction::SubmitJob,
            ),
            (LaunchPhase::WatchingSlot, LaunchEvent::WatchEnded) => (
                LaunchPhase::WatchingSlot,
                LaunchAction::WatchSlot,
            ),
            (LaunchPhase::Submitting, LaunchEvent::JobSubmitted(ok)) => if ok {
                (LaunchPhase::Launched, LaunchAction::Launched)
            } else {
                (
                    LaunchPhase::Failed(LaunchError::SubmitRejected),
                    LaunchAction::Abort(LaunchError::SubmitRejected),
                )
            },
            (_, LaunchEvent::JobDeleted) => (self.phase, LaunchAction::Wait),
            _ => (LaunchPhase::Failed(LaunchError::OutOfOrder), LaunchAction::Abort(LaunchError::OutOfOrder)),
        };
        self.phase = p;
        a
    }
}

/// An event is truthful for a cluster where `live` units of work bear the
/// benchmark label: a listing reports that number, and a deletion is of one
/// that exists.
pub open spec fn truthful(live: nat, e: LaunchEvent) -> bool {
    match e {
        LaunchEvent::SlotListed(Some(c)) => c == live,
        LaunchEvent::JobDeleted => live > 0,
        _ => true,
    }
}

/// The units of work bearing the benchmark label after event `e`, and then
/// the action it leads to, were performed.
pub open spec fn live_after(p: LaunchPhase, live: nat, e: LaunchEvent) -> nat {
    let live1: nat = if e == LaunchEvent::JobDeleted && live > 0 { (live - 1) as nat } else { live };
    if p.next(e).1 == LaunchAction::SubmitJob {
        live1 + 1
    } else {
        live1
    }
}

/// The number of units of work bearing the benchmark label after each of
/// `events`, from phase `p` with `live` of them.
pub open spec fn live_trace(p: LaunchPhase, live: nat, events: Seq<LaunchEvent>) -> Seq<nat>
    decreases events.len(),
{
    if events.len() == 0 {
        Seq::empty()
    } else {
        let l1 = live_after(p, live, events[0]);
        seq![l1] + live_trace(p.next(events[0]).0, l1, events.drop_first())
    }
}

/// Every one of `events` is truthful when it comes.
pub open spec fn truthful_run(p: LaunchPhase, live: nat, events: Seq<LaunchEvent>) -> bool
    decreases events.len(),
{
    events.len() == 0 || (truthful(live, events[0]) && truthful_run(
        p.next(events[0]).0,
        live_after(p, live, events[0]),
        events.drop_first(),
    ))
}

/// Whatever the launches and events, as long as the events are truthful, no
/// two units of work bearing the benchmark label ever exist at once: a new one
/// is submitted only once the slot was listed empty or its one occupant was
/// seen deleted.
pub proof fn lemma_single_benchmark_job(p: LaunchPhase, live: nat, events: Seq<LaunchEvent>)
    requires
        live <= 1,
        truthful_run(p, live, events),
    ensures
        live_trace(p, live, events).len() == events.len(),
        forall|i: int| 0 <= i < events.len() ==> #[trigger] live_trace(p, live, events)[i] <= 1,
    decreases events.len(),
{
    if events.len() > 0 {
        let e = events[0];
        let l1 = live_after(p, live, e);
        assert(l1 <= 1);
        lemma_single_benchmark_job(p.next(e).0, l1, events.drop_first());
        let rest = live_trace(p.next(e).0, l1, events.drop_first());
        assert forall|i: int| 0 <= i < events.len() implies #[trigger] live_trace(p, live, events)[i] <= 1 by {
            if i > 0 {
                assert(live_trace(p, live, events)[i] == rest[i - 1]);
            }
        }
    }
}

} // verus!
