//! Operations: routes, trips, configuration versions with staged rollout,
//! and paging of lists.
pub mod config;
pub mod diff;
pub mod models;
pub mod rollout;
