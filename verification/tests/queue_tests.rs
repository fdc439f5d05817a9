use session_engine::{OutboundQueue, QueueEntry};

fn msg(s: &str) -> QueueEntry {
    QueueEntry::Message(String::from(s))
}

#[test]
fn entries_come_out_in_insertion_order() {
    let mut q = OutboundQueue::new(8);
    assert!(q.enqueue(msg("A")));
    assert!(q.enqueue(msg("B")));
    assert!(q.enqueue(msg("C")));
    assert_eq!(q.len(), 3);
    assert_eq!(q.dequeue(), Some(msg("A")));
    assert_eq!(q.dequeue(), Some(msg("B")));
    assert_eq!(q.dequeue(), Some(msg("C")));
    assert_eq!(q.dequeue(), None);
    assert_eq!(q.len(), 0);
}

#[test]
fn full_queue_rejects_the_producer() {
    let mut q = OutboundQueue::new(2);
    assert!(q.enqueue(msg("A")));
    assert!(q.enqueue(msg("B")));
    assert!(!q.enqueue(msg("C")));
    assert_eq!(q.len(), 2);
    assert_eq!(q.capacity(), 2);
    // the rejected entry was not inserted and order is untouched
    assert_eq!(q.dequeue(), Some(msg("A")));
    assert!(q.enqueue(msg("D")));
    assert_eq!(q.dequeue(), Some(msg("B")));
    assert_eq!(q.dequeue(), Some(msg("D")));
}

#[test]
fn zero_capacity_queue_accepts_nothing() {
    let mut q = OutboundQueue::new(0);
    assert!(!q.enqueue(msg("A")));
    assert_eq!(q.dequeue(), None);
}

#[test]
fn terminate_is_a_distinct_entry() {
    let mut q = OutboundQueue::new(4);
    assert!(q.enqueue(msg("last words")));
    assert!(q.enqueue(QueueEntry::Terminate));
    assert_eq!(q.dequeue(), Some(msg("last words")));
    assert_eq!(q.dequeue(), Some(QueueEntry::Terminate));
}
