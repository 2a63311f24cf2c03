//! Burndown time-series computation.
//!
//! Two parallel collections of event instants — the moments items were
//! opened and the moments they were closed — are bucketed into fixed-width,
//! contiguous, half-open time windows, and the per-window open/close counts
//! are folded into either a per-window net-delta series or a running
//! cumulative step function.

pub mod burndown;
pub mod laws;
pub mod model;
pub mod time_text;
