//! Payments: gateway callbacks with signature and anti-replay checks,
//! payment-result file import, refunds and compensation sweeps.
pub mod gateway;
pub mod import;
pub mod policy;
pub mod signature;
