//! The per-connection session loop.
//!
//! A session owns one transport handle's read-half and write-half and
//! multiplexes three event sources: inbound frames, outbound queue
//! entries, and the shutdown notification. The host program waits on
//! whichever source becomes ready first and hands the event here; the
//! session decides what to do and whether the loop goes on. Exactly one
//! reaction happens per event, and every exit path reports the reason so
//! the host can release the transport halves and decrement the registry
//! on each of them alike.

use vstd::prelude::*;
use crate::queue::{OutboundQueue, QueueEntry};

verus! {

/// Which side of the connection this session plays.
#[derive(Clone, Copy, Debug, PartialEq, Eq)]
pub enum Role {
    /// Initiated the connection; surfaces inbound frames to its caller
    /// and writes what its outbound queue yields.
    Initiator,
    /// Accepted the connection; echoes each inbound frame back on the
    /// same connection.
    Acceptor,
}

/// Why a session loop stopped. Only a protocol error is an error; the
/// other reasons are normal terminations.
#[derive(Clone, Copy, Debug, PartialEq, Eq)]
pub enum ExitReason {
    /// The peer closed the read side.
    PeerClosed,
    /// A read or write failed mid-session; fatal to this session only.
    ProtocolError,
    /// The outbound queue yielded the termination sentinel.
    LocalTerminate,
    /// The shutdown notification fired.
    ShutdownRequested,
}

/// One event from the three multiplexed sources, or the host's report
/// that a requested write failed.
#[derive(Clone, Debug, PartialEq, Eq)]
pub enum SessionEvent {
    /// An inbound frame arrived with this payload.
    Inbound(String),
    /// Reading an inbound frame failed.
    InboundError,
    /// The inbound stream ended: the peer closed.
    InboundClosed,
    /// The outbound queue yielded an entry.
    Outbound(QueueEntry),
    /// A write requested by an earlier reaction failed.
    WriteFailed,
    /// The shutdown notification fired.
    Shutdown,
}

/// What the host must do in reaction to one event.
#[derive(Clone, Debug, PartialEq, Eq)]
pub enum SessionAction {
    /// Write this payload to the transport's write-half.
    WriteFrame(String),
    /// Surface this inbound payload to the session's caller.
    DeliverFrame(String),
    /// Stop the loop, release both transport halves, and decrement the
    /// connection registry.
    Exit(ExitReason),
}

/// Whether a session loop is still running or has stopped, and why.
#[derive(Clone, Copy, Debug, PartialEq, Eq)]
pub enum SessionState {
    Running,
    Terminated(ExitReason),
}

/// One logical connection's lifecycle.
pub struct Session {
    pub role: Role,
    pub state: SessionState,
}

/// The session loop's reaction to one event: the state after it and the
/// action the host must take. Exactly one reaction per event; an inbound
/// frame is echoed by an acceptor and surfaced by an initiator, an
/// outbound message is written, and every terminal event carries its
/// reason into the exit.
pub open spec fn step_spec(role: Role, event: SessionEvent) -> (SessionState, SessionAction) {
    match event {
        SessionEvent::Inbound(payload) => (
            SessionState::Running,
            match role {
                Role::Acceptor => SessionAction::WriteFrame(payload),
                Role::Initiator => SessionAction::DeliverFrame(payload),
            },
        ),
        SessionEvent::InboundError => (
            SessionState::Terminated(ExitReason::ProtocolError),
            SessionAction::Exit(ExitReason::ProtocolError),
        ),
        SessionEvent::InboundClosed => (
            SessionState::Terminated(ExitReason::PeerClosed),
            SessionAction::Exit(ExitReason::PeerClosed),
        ),
        SessionEvent::Outbound(QueueEntry::Message(payload)) => (
            SessionState::Running,
            SessionAction::WriteFrame(payload),
        ),
        SessionEvent::Outbound(QueueEntry::Terminate) => (
            SessionState::Terminated(ExitReason::LocalTerminate),
            SessionAction::Exit(ExitReason::LocalTerminate),
        ),
        SessionEvent::WriteFailed => (
            SessionState::Terminated(ExitReason::ProtocolError),
            SessionAction::Exit(ExitReason::ProtocolError),
        ),
        SessionEvent::Shutdown => (
            SessionState::Terminated(ExitReason::ShutdownRequested),
            SessionAction::Exit(ExitReason::ShutdownRequested),
        ),
    }
}

/// The payloads a session writes to the transport while reacting to a
/// run of events, in order, up to its termination: echoed inbound frames
/// (acceptor role) and outbound messages.
pub open spec fn session_writes(role: Role, events: Seq<SessionEvent>) -> Seq<String>
    decreases events.len(),
{
    if events.len() == 0 {
        Seq::empty()
    } else {
        let (state, action) = step_spec(role, events[0]);
        match state {
            SessionState::Terminated(_) => Seq::empty(),
            SessionState::Running => match action {
                SessionAction::WriteFrame(payload) => seq![payload] + session_writes(
                    role,
                    events.skip(1),
                ),
                _ => session_writes(role, events.skip(1)),
            },
        }
    }
}

/// Why a session terminates on a run of events, or `None` if it is still
/// running after all of them.
pub open spec fn session_exit(role: Role, events: Seq<SessionEvent>) -> Option<ExitReason>
    decreases events.len(),
{
    if events.len() == 0 {
        None
    } else {
        match step_spec(role, events[0]).0 {
            SessionState::Terminated(reason) => Some(reason),
            SessionState::Running => session_exit(role, events.skip(1)),
        }
    }
}

/// The events a session sees when it consumes a queue's entries, front
/// first.
pub open spec fn outbound_events(entries: Seq<QueueEntry>) -> Seq<SessionEvent> {
    entries.map_values(|e: QueueEntry| SessionEvent::Outbound(e))
}

/// How many entries of an outbound queue a session consumes: everything
/// up to and including the first termination sentinel, or everything if
/// there is none.
pub open spec fn consumed_until(entries: Seq<QueueEntry>) -> int
    decreases entries.len(),
{
    if entries.len() == 0 {
        0
    } else if entries[0] is Terminate {
        1
    } else {
        1 + consumed_until(entries.skip(1))
    }
}

impl Session {
    /// A fresh, running session. Created only once a transport handle is
    /// available; the host subscribes it to the shutdown notification and
    /// increments the connection registry at the same moment.
    pub fn new(role: Role) -> (s: Session)
        ensures
            s.role == role,
            s.state is Running,
    {
        Session { role, state: SessionState::Running }
    }

    /// React to one event. The session must still be running; the state
    /// after the call and the returned action are exactly the reaction
    /// `step_spec` gives.
    pub fn step(&mut self, event: SessionEvent) -> (action: SessionAction)
        requires
            old(self).state is Running,
        ensures
            final(self).role == old(self).role,
            (final(self).state, action) == step_spec(old(self).role, event),
    {
        let (state, action) = match event {
            SessionEvent::Inbound(payload) => (
                SessionState::Running,
                match self.role {
                    Role::Acceptor => SessionAction::WriteFrame(payload),
                    Role::Initiator => SessionAction::DeliverFrame(payload),
                },
            ),
            SessionEvent::InboundError => (
                SessionState::Terminated(ExitReason::ProtocolError),
                SessionAction::Exit(ExitReason::ProtocolError),
            ),
            SessionEvent::InboundClosed => (
                SessionState::Terminated(ExitReason::PeerClosed),
                SessionAction::Exit(ExitReason::PeerClosed),
            ),
            SessionEvent::Outbound(QueueEntry::Message(payload)) => (
                SessionState::Running,
                SessionAction::WriteFrame(payload),
            ),
            SessionEvent::Outbound(QueueEntry::Terminate) => (
                SessionState::Terminated(ExitReason::LocalTerminate),
                SessionAction::Exit(ExitReason::LocalTerminate),
            ),
            SessionEvent::WriteFailed => (
                SessionState::Terminated(ExitReason::ProtocolError),
                SessionAction::Exit(ExitReason::ProtocolError),
            ),
            SessionEvent::Shutdown => (
                SessionState::Terminated(ExitReason::ShutdownRequested),
                SessionAction::Exit(ExitReason::ShutdownRequested),
            ),
        };
        self.state = state;
        action
    }

    /// Run the loop over a given run of events, reacting to each in
    /// order until one terminates the session or the run ends. Returns
    /// the payloads written to the transport, in order, and the exit
    /// reason, if the session terminated.
    #[verifier::loop_isolation(false)]
    pub fn run_to_end(&mut self, events: Vec<SessionEvent>) -> (r: (Vec<String>, Option<ExitReason>))
        requires
            old(self).state is Running,
        ensures
            final(self).role == old(self).role,
            r.0@ == session_writes(old(self).role, events@),
            r.1 == session_exit(old(self).role, events@),
            match r.1 {
                Some(reason) => final(self).state == SessionState::Terminated(reason),
                None => final(self).state is Running,
            },
    {
        let ghost role = self.role;
        let ghost all = events@;
        let mut remaining = events;
        let mut writes: Vec<String> = Vec::new();
        loop
            invariant
                self.role == role,
                self.state is Running,
                session_writes(role, all) == writes@ + session_writes(role, remaining@),
                session_exit(role, all) == session_exit(role, remaining@),
            decreases remaining@.len(),
        {
            if remaining.len() == 0 {
                assert(session_writes(role, remaining@) =~= Seq::<String>::empty());
                assert(writes@ + Seq::<String>::empty() =~= writes@);
                return (writes, None);
            }
            let ghost before = remaining@;
            let event = remaining.remove(0);
            assert(remaining@ =~= before.skip(1));
            let action = self.step(event);
            match action {
                SessionAction::WriteFrame(payload) => {
                    writes.push(payload);
                    assert(writes@ + session_writes(role, remaining@) =~= session_writes(role, all));
                },
                SessionAction::DeliverFrame(_) => {
                },
                SessionAction::Exit(reason) => {
                    assert(writes@ + Seq::<String>::empty() =~= writes@);
                    return (writes, Some(reason));
                },
            }
        }
    }

    /// Feed this session the outbound queue's entries, front first, until
    /// the queue is empty or an entry terminates the session. The writes
    /// and the exit are exactly those of the session loop run on the
    /// queued entries; entries behind a termination sentinel stay queued.
    #[verifier::loop_isolation(false)]
    pub fn pump_outbound(&mut self, queue: &mut OutboundQueue) -> (r: (
        Vec<String>,
        Option<ExitReason>,
    ))
        requires
            old(self).state is Running,
            old(queue).wf(),
        ensures
            final(self).role == old(self).role,
            final(queue).wf(),
            final(queue).spec_capacity() == old(queue).spec_capacity(),
            r.0@ == session_writes(old(self).role, outbound_events(old(queue).entries())),
            r.1 == session_exit(old(self).role, outbound_events(old(queue).entries())),
            final(queue).entries() == old(queue).entries().skip(
                consumed_until(old(queue).entries()),
            ),
            match r.1 {
                Some(reason) => final(self).state == SessionState::Terminated(reason),
                None => final(self).state is Running,
            },
    {
        let ghost role = self.role;
        let ghost all = queue.entries();
        let mut writes: Vec<String> = Vec::new();
        loop
            invariant
                self.role == role,
                self.state is Running,
                queue.wf(),
                queue.spec_capacity() == old(queue).spec_capacity(),
                queue.entries().len() <= all.len(),
                queue.entries() == all.skip(all.len() - queue.entries().len()),
                session_writes(role, outbound_events(all)) == writes@ + session_writes(
                    role,
                    outbound_events(queue.entries()),
                ),
                session_exit(role, outbound_events(all)) == session_exit(
                    role,
                    outbound_events(queue.entries()),
                ),
                consumed_until(all) == (all.len() - queue.entries().len()) + consumed_until(
                    queue.entries(),
                ),
            decreases queue.entries().len(),
        {
            let ghost entries = queue.entries();
            let next = queue.dequeue();
            match next {
                None => {
                    assert(outbound_events(entries).len() == 0);
                    assert(writes@ + session_writes(role, outbound_events(entries)) =~= writes@);
                    assert(all.skip(consumed_until(all)) =~= entries);
                    return (writes, None);
                },
                Some(entry) => {
                    assert(queue.entries() =~= entries.skip(1));
                    assert(outbound_events(entries)[0] == SessionEvent::Outbound(entries[0]));
                    assert(outbound_events(entries).skip(1) =~= outbound_events(entries.skip(1)));
                    let action = self.step(SessionEvent::Outbound(entry));
                    match action {
                        SessionAction::WriteFrame(payload) => {
                            writes.push(payload);
                            assert(queue.entries() =~= all.skip(
                                all.len() - queue.entries().len(),
                            ));
                            assert(writes@ + session_writes(role, outbound_events(queue.entries()))
                                =~= session_writes(role, outbound_events(all)));
                        },
                        SessionAction::DeliverFrame(_) => {
                            // a queue entry is never delivered inbound
                            assert(false);
                        },
                        SessionAction::Exit(reason) => {
                            assert(writes@ + Seq::<String>::empty() =~= writes@);
                            assert(all.skip(consumed_until(all)) =~= entries.skip(1));
                            return (writes, Some(reason));
                        },
                    }
                },
            }
        }
    }
}

/// Outbound FIFO ordering: a session that consumes any run of outbound
/// message entries writes exactly those payloads, in their order, with
/// no reordering and no duplication, and does not terminate on them.
pub proof fn lemma_outbound_fifo(role: Role, payloads: Seq<String>)
    ensures
        session_writes(
            role,
            payloads.map_values(|p: String| SessionEvent::Outbound(QueueEntry::Message(p))),
        ) == payloads,
        session_exit(
            role,
            payloads.map_values(|p: String| SessionEvent::Outbound(QueueEntry::Message(p))),
        ) is None,
    decreases payloads.len(),
{
    let events = payloads.map_values(|p: String| SessionEvent::Outbound(QueueEntry::Message(p)));
    if payloads.len() == 0 {
        assert(session_writes(role, events) =~= payloads);
    } else {
        lemma_outbound_fifo(role, payloads.skip(1));
        assert(events.skip(1) =~= payloads.skip(1).map_values(
            |p: String| SessionEvent::Outbound(QueueEntry::Message(p)),
        ));
        assert(session_writes(role, events) =~= payloads);
    }
}

} // verus!
