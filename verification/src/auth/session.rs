//! The decisions of authentication: login with lockout, session validity,
//! re-authentication, bearer tokens and permission checks.  Times are Unix
//! microseconds, the resolution at which sessions and locks are stored.
use vstd::prelude::*;

use crate::date::{EARLIEST_DATETIME_MICROS, LATEST_DATETIME_MICROS};
use crate::text::text;

use crate::auth::models::{SessionRecord, UserRecord};
use crate::auth::password::{argon2_accepts, phc_string_valid, verify_password};
use crate::crypto::digest::{sha256, sha256_of};
use crate::crypto::hex::{hex_encode, hex_lower};
use crate::error::{password_processing_error, AppError};
use crate::rbac::permissions::{has_permission, permission_name, role_grants, Permission};
use crate::text::{chars_of, push_str, str_eq, string_of};

verus! {

broadcast use {vstd::string::group_string_axioms, vstd::slice::group_slice_axioms};


/// Microseconds in a minute.
pub const MICROS_PER_MINUTE: i64 = 60_000_000;

/// The RFC 3339 text of a Unix time in microseconds (UTC), as `chrono`
/// writes it.
pub uninterp spec fn rfc3339_of(micros: i64) -> Seq<char>;

/// `DateTime::<Utc>::from_timestamp_micros(micros)` written with
/// `to_rfc3339`.  Claims only that the text is the named one; `micros` must
/// lie within `chrono`'s range, where `from_timestamp_micros` gives a time.
#[verifier::external_body]
fn rfc3339_text(micros: i64) -> (r: String)
    requires
        EARLIEST_DATETIME_MICROS <= micros <= LATEST_DATETIME_MICROS,
    ensures
        r@ == rfc3339_of(micros),
{
    chrono::DateTime::from_timestamp_micros(micros).unwrap().to_rfc3339()
}

/// How a login attempt ends.
pub enum LoginOutcome {
    /// The attempt is refused without counting as a failed password.
    Refused(AppError),
    /// The password is wrong: record a failed attempt, then answer with the
    /// error carried, the same as for an unknown user.
    WrongPassword(AppError),
    /// The password is right: reset the counters and open a session.
    Accepted,
}

/// Decide a login attempt for `user` (absent when unknown) at `now`, in
/// order: unknown user, locked account, inactive account, password.
pub fn login_outcome(user: Option<&UserRecord>, password: &str, now: i64) -> (r: LoginOutcome)
    requires
        user matches Some(u) ==> (u.locked_until matches Some(l) ==> EARLIEST_DATETIME_MICROS <= l
            <= LATEST_DATETIME_MICROS),
    ensures
        match user {
            None => r matches LoginOutcome::Refused(AppError::Unauthorized(m)) && m@ == "Invalid credentials"@,
            Some(u) => if (u.locked_until matches Some(l) && l > now) {
                r matches LoginOutcome::Refused(AppError::AccountLocked(m)) && m@ == rfc3339_of(u.locked_until.unwrap())
            } else if !u.is_active {
                r matches LoginOutcome::Refused(AppError::Unauthorized(m)) && m@ == "Account is inactive"@
            } else if !phc_string_valid(u.password_hash@) {
                r matches LoginOutcome::Refused(AppError::Internal(m)) && m@ == "Password processing error"@
            } else if argon2_accepts(password@, u.password_hash@) {
                r is Accepted
            } else {
                r matches LoginOutcome::WrongPassword(AppError::Unauthorized(m)) && m@ == "Invalid credentials"@
            },
        },
{
    let u = match user {
        None => return LoginOutcome::Refused(AppError::Unauthorized(text("Invalid credentials"))),
        Some(u) => u,
    };
    match u.locked_until {
        Some(l) => if l > now {
            return LoginOutcome::Refused(AppError::AccountLocked(rfc3339_text(l)));
        },
        None => {},
    }
    if !u.is_active {
        return LoginOutcome::Refused(AppError::Unauthorized(text("Account is inactive")));
    }
    match verify_password(password, u.password_hash.as_str()) {
        Err(_) => LoginOutcome::Refused(password_processing_error()),
        Ok(true) => LoginOutcome::Accepted,
        Ok(false) => LoginOutcome::WrongPassword(AppError::Unauthorized(text("Invalid credentials"))),
    }
}

/// Failed-attempt count and lock after one more failed attempt: the count
/// grows by one, and the account locks until `now + lock_minutes` once the
/// count reaches `threshold`; otherwise the lock is unchanged.
pub fn after_failed_attempt(failed_attempts: i32, locked_until: Option<i64>, threshold: i32, now: i64, lock_minutes: i64) -> (r: (
    i32,
    Option<i64>,
))
    requires
        failed_attempts < i32::MAX,
        i64::MIN <= lock_minutes * MICROS_PER_MINUTE <= i64::MAX,
        now + lock_minutes * MICROS_PER_MINUTE <= i64::MAX,
        now + lock_minutes * MICROS_PER_MINUTE >= i64::MIN,
    ensures
        (r.0 as int, r.1) == after_failure(
            (failed_attempts as int, locked_until),
            threshold as int,
            (now + lock_minutes * MICROS_PER_MINUTE) as i64,
        ),
{
    let attempts = failed_attempts + 1;
    if attempts >= threshold {
        (attempts, Some(now + lock_minutes * MICROS_PER_MINUTE))
    } else {
        (attempts, locked_until)
    }
}

/// The failed-attempt count and lock after one more failed attempt.
pub open spec fn after_failure(state: (int, Option<i64>), threshold: int, lock_end: i64) -> (int, Option<i64>) {
    (state.0 + 1, if state.0 + 1 >= threshold { Some(lock_end) } else { state.1 })
}

/// The count and lock after `n` failed attempts in a row from `state`, each
/// locking until `lock_end`.
pub open spec fn after_failures(n: nat, state: (int, Option<i64>), threshold: int, lock_end: i64) -> (int, Option<i64>)
    decreases n,
{
    if n == 0 {
        state
    } else {
        after_failure(after_failures((n - 1) as nat, state, threshold, lock_end), threshold, lock_end)
    }
}

/// From an unlocked account with no failed attempt, `n` failed attempts in a
/// row lock it exactly when `n` reaches the threshold (at least one), and the
/// count is then `n`.
pub proof fn law_lockout_at_threshold(n: nat, threshold: int, lock_end: i64)
    requires
        threshold >= 1,
    ensures
        after_failures(n, (0, None), threshold, lock_end).0 == n,
        after_failures(n, (0, None), threshold, lock_end).1 is Some <==> n >= threshold,
        n >= threshold ==> after_failures(n, (0, None), threshold, lock_end).1 == Some(lock_end),
    decreases n,
{
    if n > 0 {
        law_lockout_at_threshold((n - 1) as nat, threshold, lock_end);
    }
}

/// A validated session.
pub struct AuthSession {
    pub session_id: u128,
    pub user_id: u128,
    pub username: String,
    pub role: String,
    pub expires_at: i64,
    pub last_activity_at: i64,
    pub last_reauth_at: Option<i64>,
}

/// What validating a session's token gives.
pub enum SessionCheck {
    /// Valid; its activity time is now.
    Valid(AuthSession),
    /// Idle too long: revoke it and answer with the error.
    RevokeIdle(AppError),
    /// Refused with the error.
    Refused(AppError),
}

/// Validate the session found for a token (absent when none matches), in
/// order: unknown token, revoked, expired, idle longer than
/// `inactivity_minutes`.
pub fn validate_session(row: Option<SessionRecord>, now: i64, inactivity_minutes: i64) -> (r: SessionCheck)
    requires
        row matches Some(s) ==> (i64::MIN <= now - s.last_activity_at <= i64::MAX),
        inactivity_minutes * MICROS_PER_MINUTE <= i64::MAX,
        inactivity_minutes * MICROS_PER_MINUTE >= i64::MIN,
    ensures
        match row {
            None => r matches SessionCheck::Refused(AppError::Unauthorized(m)) && m@ == "Invalid or expired token"@,
            Some(s) => if s.revoked_at is Some {
                r matches SessionCheck::Refused(AppError::Unauthorized(m)) && m@ == "Session has been revoked"@
            } else if s.expires_at < now {
                r matches SessionCheck::Refused(AppError::Unauthorized(m)) && m@ == "Session has expired"@
            } else if now - s.last_activity_at > inactivity_minutes * MICROS_PER_MINUTE {
                r matches SessionCheck::RevokeIdle(AppError::Unauthorized(m))
                    && m@ == "Session expired due to inactivity. Please log in again."@
            } else {
                r matches SessionCheck::Valid(a) && a.session_id == s.id && a.user_id == s.user_id
                    && a.username == s.username && a.role == s.role_name && a.expires_at == s.expires_at
                    && a.last_activity_at == now && a.last_reauth_at == s.last_reauth_at
            },
        },
{
    let s = match row {
        None => return SessionCheck::Refused(AppError::Unauthorized(text("Invalid or expired token"))),
        Some(s) => s,
    };
    if s.revoked_at.is_some() {
        return SessionCheck::Refused(AppError::Unauthorized(text("Session has been revoked")));
    }
    if s.expires_at < now {
        return SessionCheck::Refused(AppError::Unauthorized(text("Session has expired")));
    }
    if now - s.last_activity_at > inactivity_minutes * MICROS_PER_MINUTE {
        return SessionCheck::RevokeIdle(AppError::Unauthorized(text(
            "Session expired due to inactivity. Please log in again.",
        )));
    }
    SessionCheck::Valid(AuthSession {
        session_id: s.id,
        user_id: s.user_id,
        username: s.username,
        role: s.role_name,
        expires_at: s.expires_at,
        last_activity_at: now,
        last_reauth_at: s.last_reauth_at,
    })
}

/// Whether the last re-authentication lies within the window.
pub open spec fn reauth_fresh(last_reauth_at: Option<i64>, now: i64, window_minutes: i64) -> bool {
    match last_reauth_at {
        Some(t) => now - t <= window_minutes * MICROS_PER_MINUTE,
        None => false,
    }
}

/// Admit an action that needs a recent re-authentication.
pub fn check_reauth(last_reauth_at: Option<i64>, now: i64, window_minutes: i64) -> (r: Result<(), AppError>)
    requires
        last_reauth_at matches Some(t) ==> (i64::MIN <= now - t <= i64::MAX),
        i64::MIN <= window_minutes * MICROS_PER_MINUTE <= i64::MAX,
    ensures
        reauth_fresh(last_reauth_at, now, window_minutes) ==> r is Ok,
        !reauth_fresh(last_reauth_at, now, window_minutes) ==> (r matches Err(AppError::Forbidden(m)) && m@
            == "This action requires re-authentication within the last 10 minutes. POST /auth/reauth to continue."@),
{
    let fresh = match last_reauth_at {
        Some(t) => now - t <= window_minutes * MICROS_PER_MINUTE,
        None => false,
    };
    if fresh {
        Ok(())
    } else {
        Err(AppError::Forbidden(text(
            "This action requires re-authentication within the last 10 minutes. POST /auth/reauth to continue.",
        )))
    }
}

/// Whether the session should be asked to re-authenticate.
pub fn reauth_required(last_reauth_at: Option<i64>, now: i64, window_minutes: i64) -> (r: bool)
    requires
        last_reauth_at matches Some(t) ==> (i64::MIN <= now - t <= i64::MAX),
        i64::MIN <= window_minutes * MICROS_PER_MINUTE <= i64::MAX,
    ensures
        r == !reauth_fresh(last_reauth_at, now, window_minutes),
{
    match last_reauth_at {
        Some(t) => now - t > window_minutes * MICROS_PER_MINUTE,
        None => true,
    }
}

/// Whether a header byte is visible ASCII (or a tab), as the HTTP header
/// type accepts for text.
pub open spec fn visible_ascii(b: u8) -> bool {
    (32 <= b && b < 127) || b == 9
}

/// Every byte is visible ASCII.
pub open spec fn all_visible(bytes: Seq<u8>) -> bool {
    forall|i: int| 0 <= i < bytes.len() ==> visible_ascii(#[trigger] bytes[i])
}

/// The bearer token of an `Authorization` header value (absent when there is
/// no header).
pub open spec fn bearer_of(header: Option<Seq<u8>>) -> Result<Seq<char>, Seq<char>> {
    match header {
        None => Err("Missing Authorization header"@),
        Some(bytes) => if !all_visible(bytes) {
            Err("Invalid Authorization header encoding"@)
        } else {
            let text = Seq::new(bytes.len(), |i: int| bytes[i] as char);
            if crate::text::is_prefix("Bearer "@, text) {
                Ok(text.skip(7))
            } else {
                Err("Authorization scheme must be Bearer"@)
            }
        },
    }
}

/// Read the bearer token of an `Authorization` header.
pub fn extract_bearer_token(header: Option<&[u8]>) -> (r: Result<String, AppError>)
    ensures
        match bearer_of(match header { Some(h) => Some(h@), None => None }) {
            Ok(t) => r matches Ok(s) && s@ == t,
            Err(m) => r matches Err(AppError::Unauthorized(e)) && e@ == m,
        },
{
    let bytes = match header {
        None => return Err(AppError::Unauthorized(text("Missing Authorization header"))),
        Some(b) => b,
    };
    let mut chars: Vec<char> = Vec::new();
    let mut i: usize = 0;
    while i < bytes.len()
        invariant
            i <= bytes@.len(),
            header == Some(bytes),
            forall|j: int| 0 <= j < i ==> visible_ascii(#[trigger] bytes@[j]),
            chars@ == Seq::new(i as nat, |j: int| bytes@[j] as char),
        decreases bytes.len() - i,
    {
        let b = bytes[i];
        if !((32 <= b && b < 127) || b == 9) {
            assert(!visible_ascii(bytes@[i as int]));
            return Err(AppError::Unauthorized(text("Invalid Authorization header encoding")));
        }
        chars.push(b as char);
        i = i + 1;
        assert(chars@ =~= Seq::new(i as nat, |j: int| bytes@[j] as char));
    }
    let prefix = chars_of("Bearer ");
    proof {
        reveal_strlit("Bearer ");
    }
    if crate::text::starts_with(chars.as_slice(), prefix.as_slice()) {
        let t = crate::text::slice_chars(chars.as_slice(), 7, chars.len());
        assert(t@ =~= chars@.skip(7));
        Ok(string_of(t.as_slice()))
    } else {
        Err(AppError::Unauthorized(text("Authorization scheme must be Bearer")))
    }
}

/// SHA-256 of a session token, lower-case hex: the stored form of tokens.
pub fn hash_token(token: &str) -> (r: String)
    ensures
        r@ == hex_lower(sha256_of(vstd::utf8::encode_utf8(token@))),
{
    let d = sha256(token.as_bytes());
    hex_encode(d.as_slice())
}

impl AuthSession {
    /// Admit the session's role for `permission`, or refuse it.
    pub fn require(&self, permission: Permission) -> (r: Result<(), AppError>)
        ensures
            role_grants(self.role@, permission) ==> r is Ok,
            !role_grants(self.role@, permission) ==> (r matches Err(AppError::Forbidden(m)) && m@ == "Role '"@ + self.role@
                + "' does not have permission '"@ + permission_name(permission) + "'"@),
    {
        if has_permission(self.role.as_str(), permission) {
            Ok(())
        } else {
            let mut m: Vec<char> = Vec::new();
            push_str(&mut m, "Role '");
            push_str(&mut m, self.role.as_str());
            push_str(&mut m, "' does not have permission '");
            push_str(&mut m, permission.as_str());
            push_str(&mut m, "'");
            Err(AppError::Forbidden(string_of(m.as_slice())))
        }
    }
}

} // verus!
