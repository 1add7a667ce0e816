//! Statement reconciliation: strict statement import, duplicate detection,
//! amount classification and the matching engine.
pub mod discrepancy;
pub mod engine;
pub mod importer;
pub mod models;
pub mod workflow;
