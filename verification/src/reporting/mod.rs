//! Reporting: metric helpers, request checks and the scheduled-report
//! runner.
pub mod metrics;
pub mod scheduler;
