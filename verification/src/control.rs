use vstd::prelude::*;

use crate::mapper::joystick_map;
use crate::mapper::map_joystick;
use crate::mapper::map_pin;
use crate::sample::CalibratedSample;
use crate::sample::JoystickReport;

verus! {

/// Outcome of one blocking read of the controller session. The driver gives
/// failures no further classification, so neither does the loop.
#[derive(Clone, Copy, Debug, PartialEq, Eq, Structural)]
pub enum ReadOutcome {
    Success(CalibratedSample),
    Failure,
}

/// Outcome of one non-blocking write to the USB joystick sink: accepted,
/// rejected as backpressure (the host has not drained the previous report),
/// or failed in any other way.
#[derive(Clone, Copy, Debug, PartialEq, Eq, Structural)]
pub enum SinkOutcome {
    Delivered,
    WouldBlock,
    Failed,
}

/// The action the loop asks its surroundings to take in one iteration of the
/// joystick variant.
#[derive(Clone, Copy, Debug, PartialEq, Eq, Structural)]
pub enum JoystickCommand {
    Emit(JoystickReport),
    Reinitialize,
}

/// The action the loop asks its surroundings to take in one iteration of the
/// pin variant.
#[derive(Clone, Copy, Debug, PartialEq, Eq, Structural)]
pub enum PinCommand {
    SetLevel(bool),
    Reinitialize,
}

/// The control loop's own state. It polls forever; the only transition is to
/// `halted` on an unrecoverable sink failure, after which it commands no
/// further output activity.
#[derive(Clone, Copy, Debug, PartialEq, Eq, Structural)]
pub struct ControlLoop {
    pub halted: bool,
}

impl ControlLoop {
    /// A fresh loop in its polling state.
    pub fn new() -> (c: Self)
        ensures
            !c.halted,
    {
        ControlLoop { halted: false }
    }

    /// Decide this iteration's action from the read outcome, joystick
    /// variant: map and emit on success, reinitialize the session on failure,
    /// nothing once halted. A read failure is never fatal.
    pub fn plan_joystick(&self, outcome: &ReadOutcome) -> (cmd: Option<JoystickCommand>)
        requires
            (*outcome matches ReadOutcome::Success(s) ==> s.joystick_left_y != i8::MIN),
        ensures
            self.halted ==> cmd is None,
            !self.halted ==> cmd == (match *outcome {
                ReadOutcome::Success(s) => Some(JoystickCommand::Emit(joystick_map(s))),
                ReadOutcome::Failure => Some(JoystickCommand::Reinitialize),
            }),
    {
        if self.halted {
            None
        } else {
            match outcome {
                ReadOutcome::Success(s) => Some(JoystickCommand::Emit(map_joystick(s))),
                ReadOutcome::Failure => Some(JoystickCommand::Reinitialize),
            }
        }
    }

    /// Decide this iteration's action from the read outcome, pin variant:
    /// set the level to the B-button flag on success, reinitialize the
    /// session on failure, nothing once halted.
    pub fn plan_pin(&self, outcome: &ReadOutcome) -> (cmd: Option<PinCommand>)
        ensures
            self.halted ==> cmd is None,
            !self.halted ==> cmd == (match *outcome {
                ReadOutcome::Success(s) => Some(PinCommand::SetLevel(s.button_b)),
                ReadOutcome::Failure => Some(PinCommand::Reinitialize),
            }),
    {
        if self.halted {
            None
        } else {
            match outcome {
                ReadOutcome::Success(s) => Some(PinCommand::SetLevel(map_pin(s))),
                ReadOutcome::Failure => Some(PinCommand::Reinitialize),
            }
        }
    }

    /// Record the USB sink's answer to an emitted report: would-block is
    /// benign backpressure and changes nothing; any other failure halts
    /// output activity permanently.
    pub fn note_sink(&mut self, outcome: &SinkOutcome)
        ensures
            final(self).halted == (old(self).halted || *outcome is Failed),
    {
        match outcome {
            SinkOutcome::Failed => {
                self.halted = true;
            },
            _ => {
            },
        }
    }

    /// Record the pin write's answer: the write is expected to be infallible,
    /// so any reported failure halts output activity permanently.
    pub fn note_pin_write(&mut self, ok: bool)
        ensures
            final(self).halted == (old(self).halted || !ok),
    {
        if !ok {
            self.halted = true;
        }
    }
}

} // verus!
