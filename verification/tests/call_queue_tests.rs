use pool_price_feed::call_queue::{CallQueue, Grant};

#[test]
fn free_connection_grants_the_turn_at_once() {
    let mut queue = CallQueue::new();
    assert_eq!(queue.in_progress(), None);
    assert_eq!(queue.waiting(), 0);
    assert_eq!(queue.request(4), Grant::Proceed);
    assert_eq!(queue.in_progress(), Some(4));
    assert_eq!(queue.waiting(), 0);
}

#[test]
fn busy_connection_makes_the_next_pool_wait() {
    let mut queue = CallQueue::new();
    assert_eq!(queue.request(0), Grant::Proceed);
    assert_eq!(queue.request(3), Grant::Wait);
    assert_eq!(queue.request(6), Grant::Wait);
    assert_eq!(queue.in_progress(), Some(0));
    assert_eq!(queue.waiting(), 2);
}

#[test]
fn shared_connection_serves_calls_in_request_order() {
    let mut queue = CallQueue::new();
    queue.request(0);
    queue.request(3);
    queue.request(6);
    assert_eq!(queue.complete(0), Some(3));
    assert_eq!(queue.request(0), Grant::Wait);
    assert_eq!(queue.complete(3), Some(6));
    assert_eq!(queue.complete(6), Some(0));
    assert_eq!(queue.complete(0), None);
    assert_eq!(queue.in_progress(), None);
    assert_eq!(queue.request(3), Grant::Proceed);
}

#[test]
fn report_from_a_waiting_pool_is_ignored() {
    let mut queue = CallQueue::new();
    queue.request(0);
    queue.request(3);
    assert_eq!(queue.complete(3), None);
    assert_eq!(queue.complete(9), None);
    assert_eq!(queue.in_progress(), Some(0));
    assert_eq!(queue.waiting(), 1);
    assert_eq!(queue.complete(0), Some(3));
}

#[test]
fn report_on_a_free_connection_is_ignored() {
    let mut queue = CallQueue::new();
    assert_eq!(queue.complete(0), None);
    assert_eq!(queue.in_progress(), None);
}
