use argononed::edge_stream::{EdgeKind, RawEdgeEvent};
use argononed::power_button_stream::{classify, ClassifierState, Error, PowerButtonEvent};

const MILLI: u64 = 1_000_000;

fn rising(at_millis: u64) -> RawEdgeEvent {
    RawEdgeEvent { kind: EdgeKind::Rising, timestamp_nanos: at_millis * MILLI }
}

fn falling(at_millis: u64) -> RawEdgeEvent {
    RawEdgeEvent { kind: EdgeKind::Falling, timestamp_nanos: at_millis * MILLI }
}

#[test]
fn pulse_buckets_are_half_open() {
    assert_eq!(PowerButtonEvent::new(19 * MILLI), PowerButtonEvent::Unknown(19 * MILLI));
    assert_eq!(PowerButtonEvent::new(20 * MILLI), PowerButtonEvent::Reboot);
    assert_eq!(PowerButtonEvent::new(25 * MILLI), PowerButtonEvent::Reboot);
    assert_eq!(PowerButtonEvent::new(29 * MILLI), PowerButtonEvent::Reboot);
    assert_eq!(PowerButtonEvent::new(30 * MILLI), PowerButtonEvent::Unknown(30 * MILLI));
    assert_eq!(PowerButtonEvent::new(39 * MILLI), PowerButtonEvent::Unknown(39 * MILLI));
    assert_eq!(PowerButtonEvent::new(40 * MILLI), PowerButtonEvent::Poweroff);
    assert_eq!(PowerButtonEvent::new(49 * MILLI), PowerButtonEvent::Poweroff);
    assert_eq!(PowerButtonEvent::new(50 * MILLI), PowerButtonEvent::Unknown(50 * MILLI));
    assert_eq!(PowerButtonEvent::new(0), PowerButtonEvent::Unknown(0));
}

#[test]
fn sub_millisecond_remainder_is_truncated() {
    // 29.999..ms is still inside the reboot bucket; 19.999..ms is not.
    assert_eq!(PowerButtonEvent::new(30 * MILLI - 1), PowerButtonEvent::Reboot);
    let just_short = 20 * MILLI - 1;
    assert_eq!(PowerButtonEvent::new(just_short), PowerButtonEvent::Unknown(just_short));
}

#[test]
fn end_to_end_reboot_then_poweroff() {
    // Rising at t=0ms, falling at t=25ms, rising at t=100ms, falling at
    // t=145ms: one reboot, then one poweroff.
    let events = vec![rising(0), falling(25), rising(100), falling(145)];
    let actions = classify(&events).unwrap();
    assert_eq!(actions, vec![PowerButtonEvent::Reboot, PowerButtonEvent::Poweroff]);
}

#[test]
fn one_action_per_completed_pair() {
    // Three completed pairs and one trailing lone rising edge: exactly
    // three actions.
    let events = vec![
        rising(0),
        falling(25),
        rising(100),
        falling(145),
        rising(200),
        falling(260),
        rising(300),
    ];
    let actions = classify(&events).unwrap();
    assert_eq!(actions.len(), 3);
    assert_eq!(
        actions,
        vec![
            PowerButtonEvent::Reboot,
            PowerButtonEvent::Poweroff,
            PowerButtonEvent::Unknown(60 * MILLI)
        ]
    );
}

#[test]
fn lone_rising_emits_nothing() {
    let events = vec![rising(7)];
    let actions = classify(&events).unwrap();
    assert!(actions.is_empty());
}

#[test]
fn falling_without_rising_is_fatal() {
    let events = vec![falling(10)];
    assert_eq!(classify(&events), Err(Error::FallingWithoutRising));
    // The same violation after a completed pair is just as fatal.
    let events = vec![rising(0), falling(25), falling(30)];
    assert_eq!(classify(&events), Err(Error::FallingWithoutRising));
}

#[test]
fn stateful_classifier_pairs_edges() {
    let mut state = ClassifierState::new();
    assert_eq!(state.on_edge(rising(0)), Ok(None));
    assert_eq!(state.on_edge(falling(25)), Ok(Some(PowerButtonEvent::Reboot)));
    assert_eq!(state.on_edge(rising(100)), Ok(None));
    assert_eq!(state.on_edge(falling(145)), Ok(Some(PowerButtonEvent::Poweroff)));
    assert_eq!(state.on_edge(falling(150)), Err(Error::FallingWithoutRising));
}
