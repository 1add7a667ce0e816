//! Notifications: subscription rules, fan-out decisions, do-not-disturb
//! windows and channel message formatting.
pub mod adapters;
pub mod bus;
pub mod models;
pub mod rules;
