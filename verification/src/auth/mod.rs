//! Authentication: password checks, the login decision with lockout,
//! session validation, re-authentication and bearer tokens.
pub mod models;
pub mod password;
pub mod session;
