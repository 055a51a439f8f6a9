//! Interactive test-session logger core.
//!
//! An operator's free-form input lines are classified into typed log entries,
//! accumulated in an append-only session log together with a per-tag tally,
//! and on session end rendered into a human-readable text report and a
//! machine-readable tabular report that stay consistent with each other.

pub mod classify;
pub mod clock;
pub mod names;
pub mod report;
pub mod session;
