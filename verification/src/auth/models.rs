//! Authentication request and response types and the stored records the
//! decisions read.  Identifiers are the 128-bit values of the UUIDs; times
//! are Unix microseconds.
use vstd::prelude::*;

verus! {

/// `POST /auth/login` body.
pub struct LoginRequest {
    pub username: String,
    pub password: String,
}

/// `POST /auth/reauth` body.
pub struct ReauthRequest {
    pub password: String,
}

/// `POST /auth/logout` answer.
pub struct LogoutResponse {
    pub message: &'static str,
}

/// A user as the login reads it.
pub struct UserRecord {
    pub id: u128,
    pub username: String,
    pub password_hash: String,
    pub role_name: String,
    pub is_active: bool,
    pub failed_login_attempts: i32,
    pub locked_until: Option<i64>,
}

/// A session as its validation reads it.
pub struct SessionRecord {
    pub id: u128,
    pub user_id: u128,
    pub expires_at: i64,
    pub revoked_at: Option<i64>,
    pub last_activity_at: i64,
    pub last_reauth_at: Option<i64>,
    pub username: String,
    pub role_name: String,
}

} // verus!
