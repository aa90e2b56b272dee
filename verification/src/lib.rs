//! Temperature-driven fan control for spinning hard drives.
//!
//! The library holds the decision logic of a small daemon that polls
//! drive temperatures through a SMART diagnostics tool, aggregates them
//! into one representative value, and maps that value to a PWM duty
//! cycle for a cooling fan.  Process invocation, file I/O and the
//! polling loop itself live in the surrounding binary; everything that
//! decides or computes is here, with its behaviour stated in contracts.

pub mod cli;
pub mod config;
pub mod fan;
pub mod temperature;
pub mod text;
