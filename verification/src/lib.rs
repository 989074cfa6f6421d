//! Core of a tilt-telemetry viewer: decoding of line-oriented sensor
//! records, an orientation integrator fed by angular-velocity samples,
//! a recorded (playback) source and a live (streaming) source behind a
//! common polling interface.
//!
//! Everything numeric that the logic itself computes with is kept in
//! exact decimal form ([`num::Num`]); the floating-point quaternion
//! composition is left to the caller, which receives the exact rotation
//! increments to apply.

pub mod num;
pub mod record;
pub mod decode;
pub mod quat;
pub mod intg;
pub mod fmt;
pub mod recorded;
pub mod live;
pub mod source;
