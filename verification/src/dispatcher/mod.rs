//! Dispatch: trip conflict detection and the trip lifecycle.
pub mod conflicts;
pub mod lifecycle;
