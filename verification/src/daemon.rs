//! The orchestrator's decisions: which system power transition a classified
//! button action calls for. Performing the transition, running the two
//! pipelines and waiting on the interrupt signal are the binary's job.

use vstd::prelude::*;

use crate::power_button_stream::PowerButtonEvent;

verus! {

/// The byte written to the add-on board's microcontroller, instead of a fan
/// speed, to announce imminent power loss. Distinct from every fan speed
/// byte, which never exceeds `FAN_SPEED_FULL`.
pub const POWEROFF_SENTINEL: u8 = 0xff;

/// A system power-state transition the daemon can trigger.
#[derive(Clone, Copy, Debug, PartialEq, Eq, Structural)]
pub enum PowerTransition {
    Reboot,
    Shutdown,
}

/// A button action that names no transition: the pulse width, in
/// nanoseconds, that could not be classified. Surfaced as a data error and
/// not acted upon.
#[derive(Clone, Copy, Debug, PartialEq, Eq, Structural)]
pub struct UnknownAction {
    pub pulse_nanos: u64,
}

/// Decide the system power transition for one classified button action: a
/// reboot action triggers a reboot, a poweroff action a shutdown, and an
/// unknown action is reported as a data error, never acted upon.
pub fn handle_event(event: PowerButtonEvent) -> (transition: Result<PowerTransition, UnknownAction>)
    ensures
        (match event {
            PowerButtonEvent::Reboot => transition == Ok::<PowerTransition, UnknownAction>(
                PowerTransition::Reboot,
            ),
            PowerButtonEvent::Poweroff => transition == Ok::<PowerTransition, UnknownAction>(
                PowerTransition::Shutdown,
            ),
            PowerButtonEvent::Unknown(pulse_nanos) => transition == Err::<
                PowerTransition,
                UnknownAction,
            >(UnknownAction { pulse_nanos }),
        }),
{
    match event {
        PowerButtonEvent::Reboot => Ok(PowerTransition::Reboot),
        PowerButtonEvent::Poweroff => Ok(PowerTransition::Shutdown),
        PowerButtonEvent::Unknown(pulse_nanos) => Err(UnknownAction { pulse_nanos }),
    }
}

} // verus!
