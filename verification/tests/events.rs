use exonum::channel::{BoundedQueue, NodeChannel};
use exonum::consensus::{PeerAddr, TimeSpec};
use exonum::crypto::{gen_keypair, hash};
use exonum::events::{
    Event, EventsAggregator, ExternalMessage, NetworkEvent, NetworkRequest, NodeTimeout,
    PollOutcome, SourcePoll,
};

#[test]
fn test_aggregator_priority() {
    // Timeout and network both ready: the timeout is emitted.
    let mut agg = EventsAggregator::new();
    let addr = PeerAddr::new(127, 0, 0, 1, 8000);
    let outcome = agg.poll(
        SourcePoll::Ready(NodeTimeout(11)),
        SourcePoll::Ready(NetworkEvent::PeerConnected(addr)),
        SourcePoll::Ready(ExternalMessage(5)),
    );
    assert!(matches!(outcome, PollOutcome::Next(Event::Timeout(NodeTimeout(11)))));

    // Only network and API ready: the network event is emitted.
    let outcome = agg.poll(
        SourcePoll::Pending,
        SourcePoll::Ready(NetworkEvent::PeerDisconnected(addr)),
        SourcePoll::Ready(ExternalMessage(5)),
    );
    assert!(matches!(
        outcome,
        PollOutcome::Next(Event::Network(NetworkEvent::PeerDisconnected(_)))
    ));

    // Only API ready.
    let outcome =
        agg.poll(SourcePoll::Pending, SourcePoll::Pending, SourcePoll::Ready(ExternalMessage(5)));
    assert!(matches!(outcome, PollOutcome::Next(Event::Api(ExternalMessage(5)))));
}

#[test]
fn test_aggregator_termination() {
    // The combined stream ends exactly when all three sources have ended,
    // whatever the order in which they end.
    let mut agg = EventsAggregator::new();
    let outcome = agg.poll(SourcePoll::Closed, SourcePoll::Pending, SourcePoll::Pending);
    assert!(matches!(outcome, PollOutcome::Pending));
    let outcome = agg.poll(SourcePoll::Closed, SourcePoll::Pending, SourcePoll::Closed);
    assert!(matches!(outcome, PollOutcome::Pending));
    let outcome = agg.poll(SourcePoll::Closed, SourcePoll::Closed, SourcePoll::Closed);
    assert!(matches!(outcome, PollOutcome::Finished));

    let mut agg2 = EventsAggregator::new();
    let outcome = agg2.poll(SourcePoll::Pending, SourcePoll::Closed, SourcePoll::Pending);
    assert!(matches!(outcome, PollOutcome::Pending));
    // An exhausted source is skipped; a live one still yields.
    let outcome = agg2.poll(
        SourcePoll::Pending,
        SourcePoll::Closed,
        SourcePoll::Ready(ExternalMessage(9)),
    );
    assert!(matches!(outcome, PollOutcome::Next(Event::Api(ExternalMessage(9)))));
    let outcome = agg2.poll(SourcePoll::Closed, SourcePoll::Closed, SourcePoll::Closed);
    assert!(matches!(outcome, PollOutcome::Finished));
}

#[test]
fn test_bounded_queue_fifo() {
    let mut q: BoundedQueue<u64> = BoundedQueue::new(2);
    assert!(q.is_empty());
    assert!(q.enqueue(10));
    assert!(q.enqueue(20));
    // Full: the third item is refused, the queue keeps its contents.
    assert!(!q.enqueue(30));
    assert_eq!(q.len(), 2);
    assert_eq!(q.dequeue(), Some(10));
    assert_eq!(q.dequeue(), Some(20));
    assert_eq!(q.dequeue(), None);
}

#[test]
fn test_node_channel() {
    let (_, secret_key) = gen_keypair();
    let status = exonum::consensus::Status::new(1, 2, &hash(&[]), &secret_key);
    let addr = PeerAddr::new(10, 1, 2, 3, 9000);

    let mut channel = NodeChannel::new(1);
    assert!(channel.send_to(addr, status.raw().clone()));
    // The network queue is full now: the send is dropped, not an error.
    assert!(!channel.send_to(addr, status.raw().clone()));
    assert!(channel.add_timeout(NodeTimeout(3), TimeSpec::new(100, 0)));

    assert_eq!(channel.network.len(), 1);
    match channel.network.dequeue() {
        Some(NetworkRequest::SendMessage(a, m)) => {
            assert!(a == addr);
            assert!(&m == status.raw());
        },
        _ => panic!("expected the queued send request"),
    }
    match channel.timeout.dequeue() {
        Some(request) => {
            assert!(request.0 == TimeSpec::new(100, 0));
            assert!(request.1 == NodeTimeout(3));
        },
        None => panic!("expected the queued timeout"),
    }
    assert!(channel.external.is_empty());
}
