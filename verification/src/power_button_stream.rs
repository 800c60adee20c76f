//! Classification of button pulses into semantic power-button actions.
//!
//! A press of the momentary power button reaches the daemon as a rising edge
//! followed by a falling edge on the button line. The width of that pulse
//! encodes the request: a short pulse asks for a reboot, a longer one for a
//! poweroff, and anything else is surfaced as an unknown action.

use vstd::prelude::*;

use crate::edge_stream::{EdgeKind, RawEdgeEvent};

verus! {

/// Nanoseconds per millisecond; edge timestamps arrive in nanoseconds and
/// the pulse-width buckets are defined in milliseconds.
pub const NANOS_PER_MILLI: u64 = 1_000_000;

/// A pulse of at least this many milliseconds requests a reboot ...
pub const REBOOT_MIN_MILLIS: u64 = 20;

/// ... up to, but not including, this many milliseconds.
pub const REBOOT_LIMIT_MILLIS: u64 = 30;

/// A pulse of at least this many milliseconds requests a poweroff ...
pub const POWEROFF_MIN_MILLIS: u64 = 40;

/// ... up to, but not including, this many milliseconds.
pub const POWEROFF_LIMIT_MILLIS: u64 = 50;

/// The semantic action encoded by one complete button pulse. A width that
/// falls in no recognised bucket is carried along unchanged, in nanoseconds,
/// so the caller can report it.
#[derive(Clone, Copy, Debug, PartialEq, Eq, Structural)]
pub enum PowerButtonEvent {
    Reboot,
    Poweroff,
    Unknown(u64),
}

/// The whole milliseconds a pulse of `pulse_nanos` nanoseconds lasted.
pub open spec fn pulse_millis(pulse_nanos: u64) -> int {
    pulse_nanos as int / NANOS_PER_MILLI as int
}

/// Which action a pulse of `pulse_nanos` nanoseconds encodes: the bucket
/// boundaries are half-open, so a pulse of exactly 30ms or 50ms is unknown.
pub open spec fn classify_pulse(pulse_nanos: u64) -> PowerButtonEvent {
    let millis = pulse_millis(pulse_nanos);
    if REBOOT_MIN_MILLIS as int <= millis && millis < REBOOT_LIMIT_MILLIS as int {
        PowerButtonEvent::Reboot
    } else if POWEROFF_MIN_MILLIS as int <= millis && millis < POWEROFF_LIMIT_MILLIS as int {
        PowerButtonEvent::Poweroff
    } else {
        PowerButtonEvent::Unknown(pulse_nanos)
    }
}

impl PowerButtonEvent {
    /// Classify one pulse width, given in nanoseconds.
    pub fn new(pulse_nanos: u64) -> (event: PowerButtonEvent)
        ensures
            event == classify_pulse(pulse_nanos),
    {
        let millis: u64 = pulse_nanos / NANOS_PER_MILLI;
        if REBOOT_MIN_MILLIS <= millis && millis < REBOOT_LIMIT_MILLIS {
            PowerButtonEvent::Reboot
        } else if POWEROFF_MIN_MILLIS <= millis && millis < POWEROFF_LIMIT_MILLIS {
            PowerButtonEvent::Poweroff
        } else {
            PowerButtonEvent::Unknown(pulse_nanos)
        }
    }
}

/// How the classifier can fail: the driver handed over a falling edge while
/// no rising edge was pending. Under correct hardware behaviour this never
/// happens, so it marks an unrecoverable desynchronisation and the pipeline
/// that sees it must stop rather than guess.
#[derive(Clone, Copy, Debug, PartialEq, Eq, Structural)]
pub enum Error {
    FallingWithoutRising,
}

/// Classifier state: the timestamp, in nanoseconds, of a rising edge whose
/// falling edge has not arrived yet. Exactly one instance lives per button
/// pipeline and is owned by it alone.
pub struct ClassifierState {
    pub pending_rise: Option<u64>,
}

/// Whether one step of the classifier succeeds: a falling edge is only
/// acceptable while a rising edge is pending.
pub open spec fn step_ok(pending: Option<u64>, event: RawEdgeEvent) -> bool {
    !(event.kind is Falling && pending is None)
}

/// The input is in order for one step: a falling edge never carries a
/// timestamp earlier than the pending rising edge it closes. The driver
/// guarantees this, since events of one line arrive in timestamp order.
pub open spec fn in_order(pending: Option<u64>, event: RawEdgeEvent) -> bool {
    match (event.kind, pending) {
        (EdgeKind::Falling, Some(rise_nanos)) => rise_nanos <= event.timestamp_nanos,
        _ => true,
    }
}

/// The pending rising edge after one step: a rising edge is stored, a
/// falling edge consumes whatever was stored.
pub open spec fn step_pending(pending: Option<u64>, event: RawEdgeEvent) -> Option<u64> {
    match event.kind {
        EdgeKind::Rising => Some(event.timestamp_nanos),
        EdgeKind::Falling => None,
    }
}

/// The action one step emits: exactly one per falling edge that closes a
/// pending rising edge, classified by the width of the pulse; nothing
/// otherwise.
pub open spec fn step_action(pending: Option<u64>, event: RawEdgeEvent) -> Option<
    PowerButtonEvent,
> {
    match (event.kind, pending) {
        (EdgeKind::Falling, Some(rise_nanos)) => Some(
            classify_pulse((event.timestamp_nanos - rise_nanos) as u64),
        ),
        _ => None,
    }
}

/// Events are sorted by timestamp, as the driver delivers them.
pub open spec fn edges_sorted(events: Seq<RawEdgeEvent>) -> bool {
    forall|i: int, j: int|
        0 <= i <= j < events.len() ==> events[i].timestamp_nanos <= events[j].timestamp_nanos
}

/// The actions a whole edge sequence classifies to, starting from a given
/// pending rising edge; or the error, if some falling edge arrives while no
/// rising edge is pending.
pub open spec fn classify_edges(pending: Option<u64>, events: Seq<RawEdgeEvent>) -> Result<
    Seq<PowerButtonEvent>,
    Error,
>
    decreases events.len(),
{
    if events.len() == 0 {
        Ok(Seq::empty())
    } else if !step_ok(pending, events[0]) {
        Err(Error::FallingWithoutRising)
    } else {
        match classify_edges(step_pending(pending, events[0]), events.drop_first()) {
            Ok(actions) => Ok(
                match step_action(pending, events[0]) {
                    Some(action) => seq![action] + actions,
                    None => actions,
                },
            ),
            Err(e) => Err(e),
        }
    }
}

/// How many rising→falling pairs a sequence completes, starting from a given
/// pending rising edge.
pub open spec fn completed_pairs(pending: Option<u64>, events: Seq<RawEdgeEvent>) -> nat
    decreases events.len(),
{
    if events.len() == 0 {
        0
    } else {
        (if step_action(pending, events[0]) is Some {
            1nat
        } else {
            0nat
        }) + completed_pairs(step_pending(pending, events[0]), events.drop_first())
    }
}

impl ClassifierState {
    /// A fresh classifier with no pending rising edge.
    pub fn new() -> (state: ClassifierState)
        ensures
            state.pending_rise is None,
    {
        ClassifierState { pending_rise: None }
    }

    /// Feed one edge event through the classifier. A rising edge is stored
    /// and emits nothing; a falling edge closes the pending rising edge and
    /// emits exactly one action; a falling edge with nothing pending is the
    /// fatal protocol violation.
    pub fn on_edge(&mut self, event: RawEdgeEvent) -> (action: Result<
        Option<PowerButtonEvent>,
        Error,
    >)
        requires
            in_order(old(self).pending_rise, event),
        ensures
            step_ok(old(self).pending_rise, event) ==> {
                &&& action == Ok::<Option<PowerButtonEvent>, Error>(
                    step_action(old(self).pending_rise, event),
                )
                &&& final(self).pending_rise == step_pending(old(self).pending_rise, event)
            },
            !step_ok(old(self).pending_rise, event) ==> {
                &&& action == Err::<Option<PowerButtonEvent>, Error>(Error::FallingWithoutRising)
                &&& final(self).pending_rise == old(self).pending_rise
            },
    {
        match event.kind {
            EdgeKind::Rising => {
                self.pending_rise = Some(event.timestamp_nanos);
                Ok(None)
            },
            EdgeKind::Falling => {
                match self.pending_rise {
                    Some(rise_nanos) => {
                        self.pending_rise = None;
                        Ok(Some(PowerButtonEvent::new(event.timestamp_nanos - rise_nanos)))
                    },
                    None => Err(Error::FallingWithoutRising),
                }
            },
        }
    }
}

/// Classify a whole sequence of edge events, starting from a fresh
/// classifier: the actions of every completed pulse in order, or the
/// protocol-violation error if a falling edge arrives with nothing pending.
pub fn classify(events: &Vec<RawEdgeEvent>) -> (actions: Result<Vec<PowerButtonEvent>, Error>)
    requires
        edges_sorted(events@),
    ensures
        (match actions {
            Ok(list) => classify_edges(Option::<u64>::None, events@) == Ok::<
                Seq<PowerButtonEvent>,
                Error,
            >(list@),
            Err(e) => classify_edges(Option::<u64>::None, events@) == Err::<
                Seq<PowerButtonEvent>,
                Error,
            >(e),
        }),
{
    let mut state = ClassifierState::new();
    let mut actions: Vec<PowerButtonEvent> = Vec::new();
    let mut i: usize = 0;
    proof {
        assert(events@.skip(0) =~= events@);
        match classify_edges(Option::<u64>::None, events@) {
            Ok(rest) => {
                assert(Seq::<PowerButtonEvent>::empty() + rest =~= rest);
            },
            Err(_) => {},
        }
    }
    while i < events.len()
        invariant
            i <= events.len(),
            edges_sorted(events@),
            (match state.pending_rise {
                Some(rise_nanos) => forall|j: int|
                    i <= j < events@.len() ==> rise_nanos <= events@[j].timestamp_nanos,
                None => true,
            }),
            classify_edges(Option::<u64>::None, events@) == (match classify_edges(
                state.pending_rise,
                events@.skip(i as int),
            ) {
                Ok(rest) => Ok::<Seq<PowerButtonEvent>, Error>(actions@ + rest),
                Err(e) => Err::<Seq<PowerButtonEvent>, Error>(e),
            }),
        decreases events.len() - i,
    {
        let ghost pending0 = state.pending_rise;
        let ghost suffix0 = events@.skip(i as int);
        let event = events[i];
        proof {
            assert(suffix0[0] == events@[i as int]);
            assert(suffix0.drop_first() =~= events@.skip(i as int + 1));
        }
        let ghost actions0 = actions@;
        match state.on_edge(event) {
            Ok(Some(action)) => {
                actions.push(action);
                proof {
                    match classify_edges(step_pending(pending0, event), suffix0.drop_first()) {
                        Ok(rest) => {
                            assert(actions0 + (seq![action] + rest) =~= actions@ + rest);
                        },
                        Err(_) => {},
                    }
                }
            },
            Ok(None) => {},
            Err(e) => {
                return Err(e);
            },
        }
        i = i + 1;
    }
    proof {
        assert(events@.skip(events@.len() as int) =~= Seq::<RawEdgeEvent>::empty());
        assert(actions@ + Seq::<PowerButtonEvent>::empty() =~= actions@);
    }
    Ok(actions)
}

/// Law: classification emits exactly one button action per completed
/// rising→falling pair of the input — no pair is dropped and none is
/// double-reported.
pub proof fn lemma_one_action_per_completed_pair(pending: Option<u64>, events: Seq<RawEdgeEvent>)
    ensures
        (match classify_edges(pending, events) {
            Ok(actions) => actions.len() == completed_pairs(pending, events),
            Err(_) => true,
        }),
    decreases events.len(),
{
    if events.len() == 0 {
    } else if step_ok(pending, events[0]) {
        lemma_one_action_per_completed_pair(step_pending(pending, events[0]), events.drop_first());
    }
}

/// Law: a lone rising edge completes no pair and so emits no action.
pub proof fn lemma_lone_rising_emits_nothing(pending: Option<u64>, event: RawEdgeEvent)
    requires
        event.kind is Rising,
    ensures
        classify_edges(pending, seq![event]) == Ok::<Seq<PowerButtonEvent>, Error>(
            Seq::<PowerButtonEvent>::empty(),
        ),
{
    reveal_with_fuel(classify_edges, 2);
    assert(seq![event].drop_first() =~= Seq::<RawEdgeEvent>::empty());
}

} // verus!
