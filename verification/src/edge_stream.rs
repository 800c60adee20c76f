//! Buffering of raw edge events drained from the hardware queue.
//!
//! The button line is edge-triggered: when the descriptor signals readiness
//! the daemon drains every pending event from the kernel queue in one pass,
//! then hands the events downstream one at a time, in arrival order, before
//! suspending again. This module holds the buffer that carries one such
//! drained burst; the descriptor polling itself is the binary's job.

use vstd::prelude::*;

verus! {

/// Direction of one hardware-reported transition of the button line.
#[derive(Clone, Copy, Debug, PartialEq, Eq, Structural)]
pub enum EdgeKind {
    Rising,
    Falling,
}

/// One edge event as the driver reports it: a direction and a monotonic
/// timestamp, in nanoseconds since an arbitrary epoch.
#[derive(Clone, Copy, Debug, PartialEq, Eq, Structural)]
pub struct RawEdgeEvent {
    pub kind: EdgeKind,
    pub timestamp_nanos: u64,
}

/// A first-in-first-out buffer of edge events. Bursts drained from the
/// hardware queue are appended whole, and events leave one at a time in
/// exactly the order they arrived, so no event of a burst is lost and no
/// pair of edges is reordered.
pub struct EdgeEventBuffer {
    events: Vec<RawEdgeEvent>,
}

impl View for EdgeEventBuffer {
    type V = Seq<RawEdgeEvent>;

    /// The buffered events, oldest first.
    closed spec fn view(&self) -> Seq<RawEdgeEvent> {
        self.events@
    }
}

impl EdgeEventBuffer {
    /// An empty buffer.
    pub fn new() -> (buffer: EdgeEventBuffer)
        ensures
            buffer@ == Seq::<RawEdgeEvent>::empty(),
    {
        EdgeEventBuffer { events: Vec::new() }
    }

    /// How many events are waiting.
    pub fn len(&self) -> (n: usize)
        ensures
            n == self@.len(),
    {
        self.events.len()
    }

    /// Append one drained burst behind whatever is still waiting: every
    /// event of the burst is kept, in arrival order.
    pub fn push_batch(&mut self, batch: Vec<RawEdgeEvent>)
        ensures
            final(self)@ == old(self)@ + batch@,
    {
        let mut batch = batch;
        self.events.append(&mut batch);
    }

    /// Take the oldest waiting event, if any.
    pub fn next_event(&mut self) -> (event: Option<RawEdgeEvent>)
        ensures
            old(self)@.len() == 0 ==> event is None && final(self)@ == old(self)@,
            old(self)@.len() > 0 ==> event == Some(old(self)@[0]) && final(self)@ == old(
                self,
            )@.drop_first(),
    {
        if self.events.len() == 0 {
            None
        } else {
            let first = self.events.remove(0);
            proof {
                assert(self.events@ =~= old(self)@.drop_first());
            }
            Some(first)
        }
    }
}

} // verus!
