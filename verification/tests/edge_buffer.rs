use argononed::edge_stream::{EdgeEventBuffer, EdgeKind, RawEdgeEvent};

fn edge(kind: EdgeKind, timestamp_nanos: u64) -> RawEdgeEvent {
    RawEdgeEvent { kind, timestamp_nanos }
}

#[test]
fn burst_is_kept_whole_and_in_order() {
    // A burst of transitions drained in one readiness wake comes back out
    // complete and in arrival order, not just its first event.
    let burst = vec![
        edge(EdgeKind::Rising, 10),
        edge(EdgeKind::Falling, 20),
        edge(EdgeKind::Rising, 30),
        edge(EdgeKind::Falling, 40),
        edge(EdgeKind::Rising, 50),
    ];
    let mut buffer = EdgeEventBuffer::new();
    buffer.push_batch(burst.clone());
    assert_eq!(buffer.len(), burst.len());
    for expected in &burst {
        assert_eq!(buffer.next_event(), Some(*expected));
    }
    assert_eq!(buffer.next_event(), None);
    assert_eq!(buffer.len(), 0);
}

#[test]
fn later_bursts_queue_behind_earlier_ones() {
    let mut buffer = EdgeEventBuffer::new();
    buffer.push_batch(vec![edge(EdgeKind::Rising, 1), edge(EdgeKind::Falling, 2)]);
    buffer.push_batch(vec![edge(EdgeKind::Rising, 3)]);
    assert_eq!(buffer.next_event(), Some(edge(EdgeKind::Rising, 1)));
    assert_eq!(buffer.next_event(), Some(edge(EdgeKind::Falling, 2)));
    assert_eq!(buffer.next_event(), Some(edge(EdgeKind::Rising, 3)));
    assert_eq!(buffer.next_event(), None);
}

#[test]
fn empty_buffer_yields_nothing() {
    let mut buffer = EdgeEventBuffer::new();
    assert_eq!(buffer.next_event(), None);
    buffer.push_batch(Vec::new());
    assert_eq!(buffer.len(), 0);
    assert_eq!(buffer.next_event(), None);
}
