//! Study-day planning: splits a budget of minutes over weighted subjects,
//! places the resulting blocks on the clock, and governs the optional
//! delegation of plan generation to a remote text-generation service.

pub mod text;
pub mod clock;
pub mod sums;
pub mod model;
pub mod budget;
pub mod allot;
pub mod schedule;
pub mod placement;
pub mod prompt;
pub mod envelope;
pub mod remote;
pub mod orchestrator;
