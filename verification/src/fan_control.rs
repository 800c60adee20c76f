//! The hysteresis state machine that picks fan speeds.
//!
//! Each temperature sample suggests a fan tier. A suggestion above the
//! current speed is applied at once — escalation is never delayed, the
//! hardware must not overheat. A suggestion at or below the current speed is
//! only applied after a second consecutive sample confirms that the fan may
//! drop, so a single noisy reading near a threshold never makes the speed
//! flap back and forth. The actual byte written to the bus is the binary's
//! job; this module decides whether and what to write.

use vstd::prelude::*;

use crate::temperature_stream::Temperatures;

verus! {

/// Fan stopped.
pub const FAN_SPEED_OFF: u8 = 0x00;

/// The lowest running tier.
pub const FAN_SPEED_LOW: u8 = 0x1e;

/// The middle tier.
pub const FAN_SPEED_MEDIUM: u8 = 0x37;

/// Full speed.
pub const FAN_SPEED_FULL: u8 = 0x64;

/// At or above this temperature the lowest running tier is suggested ...
pub const LOW_TEMP_MILLIDEGREES: i64 = 55_000;

/// ... at or above this one the middle tier ...
pub const MEDIUM_TEMP_MILLIDEGREES: i64 = 60_000;

/// ... and at or above this one full speed.
pub const HIGH_TEMP_MILLIDEGREES: i64 = 65_000;

/// The fan tier a temperature alone suggests: the highest matching
/// threshold wins, anything below every threshold suggests a stopped fan.
pub open spec fn fan_speed_for(cpu_temp_millidegrees: i64) -> u8 {
    if cpu_temp_millidegrees >= HIGH_TEMP_MILLIDEGREES {
        FAN_SPEED_FULL
    } else if cpu_temp_millidegrees >= MEDIUM_TEMP_MILLIDEGREES {
        FAN_SPEED_MEDIUM
    } else if cpu_temp_millidegrees >= LOW_TEMP_MILLIDEGREES {
        FAN_SPEED_LOW
    } else {
        FAN_SPEED_OFF
    }
}

/// Map one temperature to the fan tier it suggests. The result is always a
/// byte the actuator accepts as a speed.
pub fn get_fan_speed(cpu_temp_millidegrees: i64) -> (speed: u8)
    ensures
        speed == fan_speed_for(cpu_temp_millidegrees),
        speed <= FAN_SPEED_FULL,
{
    if cpu_temp_millidegrees >= HIGH_TEMP_MILLIDEGREES {
        FAN_SPEED_FULL
    } else if cpu_temp_millidegrees >= MEDIUM_TEMP_MILLIDEGREES {
        FAN_SPEED_MEDIUM
    } else if cpu_temp_millidegrees >= LOW_TEMP_MILLIDEGREES {
        FAN_SPEED_LOW
    } else {
        FAN_SPEED_OFF
    }
}

/// Controller state: `current` is the speed last written to the actuator
/// (the fan starts stopped), `next` remembers the tier the previous sample
/// suggested while a de-escalation waits for confirmation. Exactly one
/// instance lives per fan pipeline and is owned by it alone.
#[derive(Clone, Copy, Debug, PartialEq, Eq, Structural)]
pub struct FanControllerState {
    pub current: u8,
    pub next: Option<u8>,
}

/// The state the controller starts in: fan off, no suggestion pending.
pub open spec fn initial_controller_state() -> FanControllerState {
    FanControllerState { current: FAN_SPEED_OFF, next: None }
}

/// One decision of the controller, given the tier the newest sample
/// suggests: the state afterwards and the byte to write to the actuator, if
/// any. A higher suggestion is written at once; a lower or equal one is
/// first remembered, and written only when it was already remembered by the
/// previous sample, differs from the current speed, and the newest sample
/// still agrees the fan may drop that far.
pub open spec fn controller_step(state: FanControllerState, suggested: u8) -> (
    FanControllerState,
    Option<u8>,
) {
    if suggested > state.current {
        (FanControllerState { current: suggested, next: None }, Some(suggested))
    } else {
        match state.next {
            None => (FanControllerState { current: state.current, next: Some(suggested) }, None),
            Some(prev_suggestion) => {
                if prev_suggestion != state.current && prev_suggestion >= suggested {
                    (
                        FanControllerState { current: prev_suggestion, next: Some(suggested) },
                        Some(prev_suggestion),
                    )
                } else {
                    (FanControllerState { current: state.current, next: Some(suggested) }, None)
                }
            },
        }
    }
}

/// The controller run over a whole sequence of temperatures: the state it
/// ends in and every byte it writes, in order.
pub open spec fn controller_run(state: FanControllerState, temps: Seq<i64>) -> (
    FanControllerState,
    Seq<u8>,
)
    decreases temps.len(),
{
    if temps.len() == 0 {
        (state, Seq::empty())
    } else {
        let stepped = controller_step(state, fan_speed_for(temps[0]));
        let rest = controller_run(stepped.0, temps.drop_first());
        (
            rest.0,
            match stepped.1 {
                Some(write) => seq![write] + rest.1,
                None => rest.1,
            },
        )
    }
}

impl FanControllerState {
    /// Feed one temperature sample to the controller; the result is the
    /// byte to write to the fan actuator, if this sample calls for a write.
    pub fn accept(&mut self, temps: Temperatures) -> (write: Option<u8>)
        ensures
            (*final(self), write) == controller_step(
                *old(self),
                fan_speed_for(temps.cpu_temp_millidegrees),
            ),
    {
        let suggested = get_fan_speed(temps.cpu_temp_millidegrees);
        if suggested > self.current {
            self.current = suggested;
            self.next = None;
            Some(suggested)
        } else {
            match self.next {
                None => {
                    self.next = Some(suggested);
                    None
                },
                Some(prev_suggestion) => {
                    if prev_suggestion != self.current && prev_suggestion >= suggested {
                        self.current = prev_suggestion;
                        self.next = Some(suggested);
                        Some(prev_suggestion)
                    } else {
                        self.next = Some(suggested);
                        None
                    }
                },
            }
        }
    }
}

/// A fresh fan-control sink, ready to consume temperature samples: the fan
/// is stopped and no suggestion is pending.
pub fn temp_sink() -> (state: FanControllerState)
    ensures
        state == initial_controller_state(),
{
    FanControllerState { current: FAN_SPEED_OFF, next: None }
}

/// Run a fresh controller over a finite sequence of temperature samples and
/// collect the actuator writes it decides on, in order.
pub fn temp_pipeline(samples: &Vec<Temperatures>) -> (writes: Vec<u8>)
    ensures
        writes@ == controller_run(
            initial_controller_state(),
            samples@.map_values(|t: Temperatures| t.cpu_temp_millidegrees),
        ).1,
{
    let ghost temps = samples@.map_values(|t: Temperatures| t.cpu_temp_millidegrees);
    let mut state = temp_sink();
    let mut writes: Vec<u8> = Vec::new();
    let mut i: usize = 0;
    proof {
        assert(temps.skip(0) =~= temps);
        assert(Seq::<u8>::empty() + controller_run(state, temps).1 =~= controller_run(
            state,
            temps,
        ).1);
    }
    while i < samples.len()
        invariant
            i <= samples.len(),
            temps == samples@.map_values(|t: Temperatures| t.cpu_temp_millidegrees),
            controller_run(initial_controller_state(), temps).1 == writes@ + controller_run(
                state,
                temps.skip(i as int),
            ).1,
        decreases samples.len() - i,
    {
        let ghost suffix0 = temps.skip(i as int);
        let ghost writes0 = writes@;
        let sample = samples[i];
        proof {
            assert(suffix0[0] == temps[i as int]);
            assert(suffix0.drop_first() =~= temps.skip(i as int + 1));
        }
        let write = state.accept(sample);
        match write {
            Some(w) => {
                writes.push(w);
                proof {
                    let rest = controller_run(state, temps.skip(i as int + 1)).1;
                    assert(writes0 + (seq![w] + rest) =~= writes@ + rest);
                }
            },
            None => {},
        }
        i = i + 1;
    }
    proof {
        assert(temps.skip(samples@.len() as int) =~= Seq::<i64>::empty());
        assert(writes@ + Seq::<u8>::empty() =~= writes@);
    }
    writes
}

/// Law: escalation is never delayed. Whenever a sample suggests a tier
/// above the current speed, the controller writes that tier at once and the
/// current speed becomes it.
pub proof fn lemma_escalation_is_immediate(state: FanControllerState, cpu_temp_millidegrees: i64)
    requires
        fan_speed_for(cpu_temp_millidegrees) > state.current,
    ensures
        ({
            let stepped = controller_step(state, fan_speed_for(cpu_temp_millidegrees));
            stepped.1 == Some(fan_speed_for(cpu_temp_millidegrees)) && stepped.0.current
                == fan_speed_for(cpu_temp_millidegrees)
        }),
{
}

/// Law: a single sample never drops the fan. When a sample suggests a tier
/// at or below the current speed and no suggestion is pending yet, nothing
/// is written; the suggestion is only remembered.
pub proof fn lemma_no_drop_without_confirmation(
    state: FanControllerState,
    cpu_temp_millidegrees: i64,
)
    requires
        fan_speed_for(cpu_temp_millidegrees) <= state.current,
        state.next is None,
    ensures
        ({
            let stepped = controller_step(state, fan_speed_for(cpu_temp_millidegrees));
            stepped.1 is None && stepped.0.current == state.current && stepped.0.next == Some(
                fan_speed_for(cpu_temp_millidegrees),
            )
        }),
{
}

/// Law: every write is justified. A byte reaches the actuator only as an
/// immediate escalation to the suggested tier, or as a de-escalation to the
/// tier the previous sample suggested, which differs from the current speed
/// and which the newest sample confirms is still enough.
pub proof fn lemma_write_is_justified(state: FanControllerState, cpu_temp_millidegrees: i64)
    ensures
        ({
            let suggested = fan_speed_for(cpu_temp_millidegrees);
            match controller_step(state, suggested).1 {
                Some(write) => (write == suggested && suggested > state.current) || (state.next
                    == Some(write) && write != state.current && write >= suggested && suggested
                    <= state.current),
                None => true,
            }
        }),
{
}

/// A sequence of `n` samples all reading the same temperature.
pub open spec fn constant_samples(cpu_temp_millidegrees: i64, n: nat) -> Seq<i64> {
    Seq::new(n, |i: int| cpu_temp_millidegrees)
}

/// Once the current speed and the pending suggestion both equal the tier a
/// constant temperature suggests, further samples of that temperature
/// change nothing and write nothing.
proof fn lemma_settled_controller_never_writes(
    state: FanControllerState,
    cpu_temp_millidegrees: i64,
    n: nat,
)
    requires
        state.current == fan_speed_for(cpu_temp_millidegrees),
        state.next == Some(fan_speed_for(cpu_temp_millidegrees)),
    ensures
        controller_run(state, constant_samples(cpu_temp_millidegrees, n)) == (
            state,
            Seq::<u8>::empty(),
        ),
    decreases n,
{
    if n > 0 {
        assert(constant_samples(cpu_temp_millidegrees, n).drop_first() =~= constant_samples(
            cpu_temp_millidegrees,
            (n - 1) as nat,
        ));
        lemma_settled_controller_never_writes(state, cpu_temp_millidegrees, (n - 1) as nat);
    }
}

/// Law: repeated samples of one constant temperature produce at most the
/// single initial write for that temperature's tier — exactly one write
/// when the tier is above the initial stopped fan and at least one sample
/// arrives, and none at all when the tier is the stopped fan itself.
pub proof fn lemma_constant_temperature_writes_at_most_once(cpu_temp_millidegrees: i64, n: nat)
    ensures
        ({
            let writes = controller_run(
                initial_controller_state(),
                constant_samples(cpu_temp_millidegrees, n),
            ).1;
            if n == 0 || fan_speed_for(cpu_temp_millidegrees) == FAN_SPEED_OFF {
                writes == Seq::<u8>::empty()
            } else {
                writes == seq![fan_speed_for(cpu_temp_millidegrees)]
            }
        }),
    decreases n,
{
    let suggested = fan_speed_for(cpu_temp_millidegrees);
    let samples = constant_samples(cpu_temp_millidegrees, n);
    if n > 0 {
        assert(samples.drop_first() =~= constant_samples(cpu_temp_millidegrees, (n - 1) as nat));
        if suggested == FAN_SPEED_OFF {
            let after_first = FanControllerState { current: FAN_SPEED_OFF, next: Some(suggested) };
            lemma_settled_controller_never_writes(
                after_first,
                cpu_temp_millidegrees,
                (n - 1) as nat,
            );
            assert(Seq::<u8>::empty() + Seq::<u8>::empty() =~= Seq::<u8>::empty());
        } else {
            let after_first = FanControllerState { current: suggested, next: None };
            let rest = constant_samples(cpu_temp_millidegrees, (n - 1) as nat);
            if n == 1 {
                assert(controller_run(after_first, rest) == (after_first, Seq::<u8>::empty()));
            } else {
                assert(rest.drop_first() =~= constant_samples(
                    cpu_temp_millidegrees,
                    (n - 2) as nat,
                ));
                let settled = FanControllerState { current: suggested, next: Some(suggested) };
                lemma_settled_controller_never_writes(
                    settled,
                    cpu_temp_millidegrees,
                    (n - 2) as nat,
                );
            }
            assert(controller_run(after_first, rest).1 =~= Seq::<u8>::empty());
            assert(seq![suggested] + Seq::<u8>::empty() =~= seq![suggested]);
        }
    }
}

} // verus!
