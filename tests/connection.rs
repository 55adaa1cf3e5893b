use crabbysoccer::connection::{
    after_read, backoff_delay_ms, request_shutdown, ConnectBackoff, FrameBuffer, ReadOutcome,
    RetryDecision, ShutdownState, WorkerAction, CONNECT_MAX_TRIES,
};
use crabbysoccer::request_queue::RequestQueue;
use crabbysoccer::requests::REQUEST_TERMINATOR;

#[test]
fn backoff_delays() {
    assert_eq!(backoff_delay_ms(0), 1000);
    assert_eq!(backoff_delay_ms(1), 1100);
    assert_eq!(backoff_delay_ms(2), 1210);
    assert_eq!(backoff_delay_ms(3), 1331);
    assert_eq!(backoff_delay_ms(4), 1464);
    assert_eq!(backoff_delay_ms(10), 2593);
}

#[test]
fn connect_fails_three_times_then_succeeds() {
    let mut b = ConnectBackoff::new();
    assert_eq!(b.on_failure(), RetryDecision::RetryAfterMs(1100));
    assert_eq!(b.on_failure(), RetryDecision::RetryAfterMs(1210));
    assert_eq!(b.on_failure(), RetryDecision::RetryAfterMs(1331));
    assert_eq!(b.attempts, 3);
    assert!(b.attempts <= CONNECT_MAX_TRIES);
}

#[test]
fn connect_gives_up_after_bound() {
    let mut b = ConnectBackoff::new();
    for k in 1..CONNECT_MAX_TRIES {
        match b.on_failure() {
            RetryDecision::RetryAfterMs(ms) => assert!(ms <= 5000),
            RetryDecision::GiveUp => panic!("gave up at attempt {}", k),
        }
    }
    assert_eq!(b.attempts, CONNECT_MAX_TRIES - 1);
    // the N-th failed attempt is the last one
    assert_eq!(b.on_failure(), RetryDecision::GiveUp);
    assert_eq!(b.attempts, CONNECT_MAX_TRIES);
    assert_eq!(b.on_failure(), RetryDecision::GiveUp);
}

#[test]
fn shutdown_request_is_idempotent() {
    let once = request_shutdown(ShutdownState::Running);
    assert_eq!(once, ShutdownState::ShutdownRequested);
    assert_eq!(request_shutdown(once), once);
    assert_eq!(request_shutdown(ShutdownState::Terminated), ShutdownState::Terminated);
}

#[test]
fn peer_close_ends_worker_normally() {
    assert_eq!(
        after_read(ShutdownState::Running, ReadOutcome::Closed),
        (ShutdownState::Terminated, WorkerAction::Exit)
    );
    assert_eq!(
        after_read(ShutdownState::Running, ReadOutcome::WouldBlock),
        (ShutdownState::Running, WorkerAction::Continue)
    );
    assert_eq!(
        after_read(ShutdownState::ShutdownRequested, ReadOutcome::WouldBlock),
        (ShutdownState::Terminated, WorkerAction::Exit)
    );
    assert_eq!(
        after_read(ShutdownState::Running, ReadOutcome::Failed),
        (ShutdownState::Terminated, WorkerAction::Fail)
    );
}

#[test]
fn frames_split_at_terminator() {
    let mut f = FrameBuffer::new();
    f.push_bytes(b"ab");
    assert_eq!(f.next_frame(), None);
    f.push_bytes(&[b'c', REQUEST_TERMINATOR, b'd', REQUEST_TERMINATOR, b'e']);
    assert_eq!(f.next_frame(), Some(b"abc".to_vec()));
    assert_eq!(f.next_frame(), Some(b"d".to_vec()));
    assert_eq!(f.next_frame(), None);
    assert_eq!(f.pending, b"e".to_vec());
    f.push_bytes(&[REQUEST_TERMINATOR]);
    assert_eq!(f.next_frame(), Some(b"e".to_vec()));
    f.push_bytes(&[REQUEST_TERMINATOR]);
    assert_eq!(f.next_frame(), Some(vec![]));
}

#[test]
fn queue_is_first_in_first_out() {
    let mut q = RequestQueue::new();
    assert!(q.is_empty());
    q.enqueue("R1".to_string());
    q.enqueue("R2".to_string());
    q.enqueue("R3".to_string());
    assert_eq!(q.len(), 3);
    assert_eq!(q.drain(), vec!["R1".to_string(), "R2".to_string(), "R3".to_string()]);
    assert!(q.is_empty());
    assert_eq!(q.dequeue(), None);
    q.enqueue("R4".to_string());
    q.enqueue("R5".to_string());
    assert_eq!(q.dequeue(), Some("R4".to_string()));
    assert_eq!(q.len(), 1);
}
