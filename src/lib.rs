//! Telemetry collector core for environmental-sensor beacons: payload decoding,
//! the device connection lifecycle, the fixed-rate poll schedule and the export
//! of readings as sink points.

pub mod address;
mod bits;
pub mod export;
pub mod discovery;
pub mod poll;
pub mod registry;
pub mod schedule;
pub mod decode;
