//! Verified core of a game-controller firmware: the pure mapping from a
//! calibrated controller sample to a USB joystick report or a digital pin
//! level, and the control loop's recovery and backpressure policy.
//!
//! Hardware access (the two-wire bus, the USB endpoint, the pin, the pacing
//! delay) lives outside this crate; the loop's decisions live here.

pub mod control;
pub mod mapper;
pub mod sample;
pub mod script;
