use baseline::queue::{JobQueue, RecvError, SendError};

#[test]
fn a_fresh_queue_is_open_and_empty() {
    let mut queue: JobQueue<u8> = JobQueue::open();
    assert!(queue.accepts());
    assert!(queue.is_empty());
    assert_eq!(queue.len(), 0);
    assert_eq!(queue.recv(), Err(RecvError::Empty));
    assert!(queue.accepts());
}

#[test]
fn items_are_received_first_in_first_out() {
    let mut queue: JobQueue<&'static str> = JobQueue::open();
    assert_eq!(queue.send("a"), Ok(()));
    assert_eq!(queue.send("b"), Ok(()));
    assert_eq!(queue.send("c"), Ok(()));
    assert_eq!(queue.len(), 3);
    assert!(!queue.is_empty());
    assert_eq!(queue.recv(), Ok("a"));
    assert_eq!(queue.send("d"), Ok(()));
    assert_eq!(queue.recv(), Ok("b"));
    assert_eq!(queue.recv(), Ok("c"));
    assert_eq!(queue.recv(), Ok("d"));
    assert_eq!(queue.recv(), Err(RecvError::Empty));
}

#[test]
fn a_closed_queue_drains_and_then_reports_the_closure() {
    let mut queue: JobQueue<u32> = JobQueue::open();
    assert_eq!(queue.send(1), Ok(()));
    assert_eq!(queue.send(2), Ok(()));
    queue.close();
    assert!(!queue.accepts());
    assert_eq!(queue.len(), 2);
    assert_eq!(queue.recv(), Ok(1));
    assert_eq!(queue.recv(), Ok(2));
    assert_eq!(queue.recv(), Err(RecvError::Closed));
    assert_eq!(queue.recv(), Err(RecvError::Closed));
}

#[test]
fn a_closed_queue_hands_the_item_back() {
    let mut queue: JobQueue<String> = JobQueue::open();
    queue.close();
    queue.close();
    assert_eq!(queue.send(String::from("late")), Err(SendError(String::from("late"))));
    assert!(queue.is_empty());
    assert_eq!(queue.recv(), Err(RecvError::Closed));
}
