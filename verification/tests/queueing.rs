use toolbridge::queue::PacketQueue;

#[test]
fn empty_queue_yields_nothing_immediately() {
    let mut q = PacketQueue::new();
    assert!(q.is_empty());
    assert_eq!(q.next_packet(), None);
    // Still empty, still nothing: the pull never waits for a producer.
    assert_eq!(q.next_packet(), None);
    assert_eq!(q.len(), 0);
}

#[test]
fn lines_come_out_oldest_first() {
    let mut q = PacketQueue::new();
    q.push_line(String::from("one"));
    q.push_line(String::from("two"));
    q.push_line(String::from("three"));
    assert_eq!(q.len(), 3);
    assert_eq!(q.next_packet(), Some(String::from("one")));
    assert_eq!(q.next_packet(), Some(String::from("two")));
    assert_eq!(q.next_packet(), Some(String::from("three")));
    assert_eq!(q.next_packet(), None);
}

#[test]
fn pulls_interleave_with_pushes() {
    let mut q = PacketQueue::new();
    q.push_line(String::from("a"));
    assert_eq!(q.next_packet(), Some(String::from("a")));
    assert_eq!(q.next_packet(), None);
    q.push_line(String::from("b"));
    q.push_line(String::from("c"));
    assert_eq!(q.next_packet(), Some(String::from("b")));
    q.push_line(String::from("d"));
    assert_eq!(q.next_packet(), Some(String::from("c")));
    assert_eq!(q.next_packet(), Some(String::from("d")));
    assert_eq!(q.next_packet(), None);
}
