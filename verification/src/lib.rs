//! TransitOps back-office domain library: access control, masking, payment
//! signatures, reconciliation, notification rules, dispatch conflicts and
//! reporting schedules.
pub mod alerting;
pub mod audit;
pub mod auth;
pub mod config;
pub mod crypto;
pub mod error;
pub mod rbac;
pub mod table;
pub mod text;
pub mod utf8;
pub mod date;
pub mod dispatcher;
pub mod json;
pub mod money;
pub mod notifications;
pub mod ops;
pub mod payments;
pub mod reconciliation;
pub mod reporting;
