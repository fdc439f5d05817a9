use session_engine::{
    ExitReason, OutboundQueue, QueueEntry, Role, Session, SessionAction, SessionEvent,
};

fn inbound(s: &str) -> SessionEvent {
    SessionEvent::Inbound(String::from(s))
}

fn outbound(s: &str) -> SessionEvent {
    SessionEvent::Outbound(QueueEntry::Message(String::from(s)))
}

#[test]
fn acceptor_echoes_ping_before_any_further_inbound_frame() {
    // the reaction to "ping" is writing "ping" back, in the same iteration
    let mut s = Session::new(Role::Acceptor);
    let action = s.step(inbound("ping"));
    assert_eq!(action, SessionAction::WriteFrame(String::from("ping")));
    // the echo precedes the next frame's processing in the write order
    let mut s = Session::new(Role::Acceptor);
    let (writes, exit) = s.run_to_end(vec![inbound("ping"), inbound("pong")]);
    assert_eq!(writes, vec![String::from("ping"), String::from("pong")]);
    assert_eq!(exit, None);
}

#[test]
fn initiator_surfaces_inbound_frames_instead_of_echoing() {
    let mut s = Session::new(Role::Initiator);
    let action = s.step(inbound("greetings"));
    assert_eq!(action, SessionAction::DeliverFrame(String::from("greetings")));
    let (writes, exit) = s.run_to_end(vec![inbound("a"), inbound("b")]);
    assert_eq!(writes, Vec::<String>::new());
    assert_eq!(exit, None);
}

#[test]
fn outbound_messages_are_written_in_enqueue_order() {
    // A, B, C from one producer reach the transport as A, B, C:
    // no reordering, no duplication.
    let mut s = Session::new(Role::Initiator);
    let (writes, exit) = s.run_to_end(vec![outbound("A"), outbound("B"), outbound("C")]);
    assert_eq!(
        writes,
        vec![String::from("A"), String::from("B"), String::from("C")]
    );
    assert_eq!(exit, None);
}

#[test]
fn enqueued_messages_reach_the_transport_in_order_through_the_pump() {
    let mut q = OutboundQueue::new(8);
    assert!(q.enqueue(QueueEntry::Message(String::from("A"))));
    assert!(q.enqueue(QueueEntry::Message(String::from("B"))));
    assert!(q.enqueue(QueueEntry::Message(String::from("C"))));
    let mut s = Session::new(Role::Initiator);
    let (writes, exit) = s.pump_outbound(&mut q);
    assert_eq!(
        writes,
        vec![String::from("A"), String::from("B"), String::from("C")]
    );
    assert_eq!(exit, None);
    assert_eq!(q.len(), 0);
}

#[test]
fn pump_stops_at_the_sentinel_and_leaves_the_rest_queued() {
    let mut q = OutboundQueue::new(8);
    assert!(q.enqueue(QueueEntry::Message(String::from("A"))));
    assert!(q.enqueue(QueueEntry::Terminate));
    assert!(q.enqueue(QueueEntry::Message(String::from("B"))));
    let mut s = Session::new(Role::Acceptor);
    let (writes, exit) = s.pump_outbound(&mut q);
    assert_eq!(writes, vec![String::from("A")]);
    assert_eq!(exit, Some(ExitReason::LocalTerminate));
    assert_eq!(q.len(), 1);
    assert_eq!(q.dequeue(), Some(QueueEntry::Message(String::from("B"))));
}

#[test]
fn read_error_terminates_with_protocol_error() {
    let mut s = Session::new(Role::Acceptor);
    let (writes, exit) = s.run_to_end(vec![inbound("x"), SessionEvent::InboundError, inbound("y")]);
    assert_eq!(writes, vec![String::from("x")]);
    assert_eq!(exit, Some(ExitReason::ProtocolError));
}

#[test]
fn write_failure_terminates_with_protocol_error() {
    let mut s = Session::new(Role::Initiator);
    let action = s.step(SessionEvent::WriteFailed);
    assert_eq!(action, SessionAction::Exit(ExitReason::ProtocolError));
}

#[test]
fn peer_close_terminates_normally() {
    let mut s = Session::new(Role::Initiator);
    let (_, exit) = s.run_to_end(vec![SessionEvent::InboundClosed]);
    assert_eq!(exit, Some(ExitReason::PeerClosed));
}

#[test]
fn terminate_sentinel_ends_the_loop_distinct_from_peer_close() {
    let mut s = Session::new(Role::Initiator);
    let (writes, exit) = s.run_to_end(vec![
        outbound("farewell"),
        SessionEvent::Outbound(QueueEntry::Terminate),
        outbound("never written"),
    ]);
    assert_eq!(writes, vec![String::from("farewell")]);
    assert_eq!(exit, Some(ExitReason::LocalTerminate));
}

#[test]
fn shutdown_notification_ends_the_loop_whatever_is_pending() {
    let mut s = Session::new(Role::Acceptor);
    let (writes, exit) = s.run_to_end(vec![
        outbound("sent"),
        SessionEvent::Shutdown,
        inbound("pending"),
        outbound("pending too"),
    ]);
    assert_eq!(writes, vec![String::from("sent")]);
    assert_eq!(exit, Some(ExitReason::ShutdownRequested));
}
