use vstd::prelude::*;

verus! {

/// The decoded, calibrated state of the controller at one sampling instant:
/// the eight tracked button flags and the left stick's two signed deflections
/// relative to the calibrated center.
#[derive(Clone, Copy, Debug, PartialEq, Eq, Structural)]
pub struct CalibratedSample {
    pub button_b: bool,
    pub button_a: bool,
    pub button_y: bool,
    pub button_x: bool,
    pub button_trigger_l: bool,
    pub button_trigger_r: bool,
    pub button_minus: bool,
    pub button_plus: bool,
    pub joystick_left_x: i8,
    pub joystick_left_y: i8,
}

/// The fixed-layout joystick report the USB sink accepts: one bit per tracked
/// button (assignment in `mapper`) and two signed axes. Bit positions are
/// stable across all reports, so a host-side mapping never drifts.
#[derive(Clone, Copy, Debug, PartialEq, Eq, Structural)]
pub struct JoystickReport {
    pub buttons: u8,
    pub x: i8,
    pub y: i8,
}

} // verus!
