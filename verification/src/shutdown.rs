//! Graceful-shutdown coordinator.
//!
//! A single coordinator owns the one-shot, fan-out shutdown notification.
//! It is initialized once, before any session is created; sessions
//! subscribe at construction time, so a receiver observes any initiation,
//! whether it happened before or after the subscription. Initiation is
//! idempotent: repeated triggers neither double-broadcast nor fail.

use vstd::prelude::*;
use crate::registry::{count_after, is_session_interleaving, lemma_registry_balanced, RegistryOp};
use crate::session::{step_spec, ExitReason, Session, SessionAction, SessionEvent, SessionState};

verus! {

/// The bounded time, in seconds, allowed for in-flight session loops to
/// observe the shutdown notification before the host process terminates.
pub const GRACE_WINDOW_SECS: u64 = 1;

/// Coordinates cooperative shutdown across every live session.
///
/// `initiated` records whether the shutdown notification has fired;
/// `receivers` counts the subscriptions handed out so far.
pub struct ShutdownCoordinator {
    pub initiated: bool,
    pub receivers: u64,
}

/// The coordinator state after one call of `initiate`, with the flag that
/// the call reports: whether this trigger was the first.
pub open spec fn initiate_spec(c: ShutdownCoordinator) -> (ShutdownCoordinator, bool) {
    (
        ShutdownCoordinator { initiated: true, receivers: c.receivers },
        !c.initiated,
    )
}

impl ShutdownCoordinator {
    /// A fresh coordinator: not yet initiated, no subscribers.
    pub fn new() -> (c: ShutdownCoordinator)
        ensures
            !c.initiated,
            c.receivers == 0,
    {
        ShutdownCoordinator { initiated: false, receivers: 0 }
    }

    /// Trigger the shutdown notification. Returns whether this call was
    /// the first trigger; repeated calls leave the state unchanged and
    /// report `false`, so no caller can double-broadcast.
    pub fn initiate(&mut self) -> (fresh: bool)
        ensures
            (*final(self), fresh) == initiate_spec(*old(self)),
    {
        let fresh = !self.initiated;
        self.initiated = true;
        fresh
    }

    /// Record one more subscription. Every session obtains its receiver
    /// through this call at construction time, never lazily.
    pub fn subscribe(&mut self)
        requires
            old(self).receivers < u64::MAX,
        ensures
            final(self).receivers == old(self).receivers + 1,
            final(self).initiated == old(self).initiated,
    {
        self.receivers = self.receivers + 1;
    }

    /// Whether the shutdown notification has fired.
    pub fn is_initiated(&self) -> (r: bool)
        ensures
            r == self.initiated,
    {
        self.initiated
    }

    /// Whether an accepting listener may still take new connections:
    /// it must stop as soon as shutdown has been initiated.
    pub fn should_accept(&self) -> (r: bool)
        ensures
            r == !self.initiated,
    {
        !self.initiated
    }
}

/// Initiation is idempotent: triggering an already-initiated coordinator
/// changes nothing and reports that the trigger was not the first.
pub proof fn lemma_initiate_idempotent(c: ShutdownCoordinator)
    ensures
        initiate_spec(initiate_spec(c).0).0 == initiate_spec(c).0,
        !initiate_spec(initiate_spec(c).0).1,
{
}

/// Shutdown propagation: when the notification fires while any number of
/// sessions are live, every one of them, whatever its role, reacts by
/// terminating with `ShutdownRequested`; and since each live session has
/// incremented the registry once and decrements it once on exit, the
/// count is back to zero once all of them have exited.
pub proof fn lemma_shutdown_propagation(sessions: Seq<Session>, ops: Seq<RegistryOp>)
    requires
        forall|i: int| 0 <= i < sessions.len() ==> (#[trigger] sessions[i].state) is Running,
        is_session_interleaving(ops, sessions.len() as int),
    ensures
        forall|i: int|
            0 <= i < sessions.len() ==> step_spec(
                (#[trigger] sessions[i]).role,
                SessionEvent::Shutdown,
            ) == (
                SessionState::Terminated(ExitReason::ShutdownRequested),
                SessionAction::Exit(ExitReason::ShutdownRequested),
            ),
        count_after(ops) == 0,
{
    lemma_registry_balanced(ops, sessions.len() as int);
}

} // verus!
