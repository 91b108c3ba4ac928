//! Scaffolding for an application main loop: a fixed-step update scheduler
//! with interpolation, a periodic performance reporter, and edge-triggered
//! input-state aggregation over a stream of device events.
//!
//! Durations and points in time are accounted in whole nanoseconds; the
//! platform clock is read through the `clock` module and everything computed
//! from a reading is ordinary verified arithmetic.

use vstd::prelude::*;

pub mod clock;
pub mod event;
pub mod report;
pub mod state;
pub mod update;

verus! {

/// True exactly for the end-of-frame signal: the moment at which a frame
/// should be drawn and after which per-frame input state may be cleared.
pub fn should_draw(event: &event::Event) -> (r: bool)
    ensures
        r == (event is RedrawEventsCleared),
{
    matches!(event, event::Event::RedrawEventsCleared)
}

} // verus!
