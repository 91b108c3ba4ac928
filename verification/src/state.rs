//! Per-device views over the inbound event stream: the generic edge-triggered
//! aggregator and the thin adapters that feed it.

pub mod gamepad;
pub mod input;
pub mod keyboard;
pub mod window;
