use transitops_backend::auth::models::{LoginRequest, LogoutResponse, ReauthRequest, SessionRecord, UserRecord};
use transitops_backend::auth::password::{hash_password, stored_password_hash, verify_password};
use transitops_backend::auth::session::{
    after_failed_attempt, check_reauth, extract_bearer_token, hash_token, login_outcome, reauth_required,
    validate_session, AuthSession, LoginOutcome, SessionCheck,
};
use transitops_backend::error::AppError;
use transitops_backend::rbac::permissions::Permission;

use argon2::password_hash::{PasswordHasher, SaltString};

/// Microseconds in a second.
const SEC: i64 = 1_000_000;

fn phc(password: &str) -> String {
    let salt = SaltString::encode_b64(b"0123456789abcdef").unwrap();
    argon2::Argon2::default().hash_password(password.as_bytes(), &salt).unwrap().to_string()
}

fn user(hash: &str, active: bool, locked_until: Option<i64>) -> UserRecord {
    UserRecord {
        id: 1,
        username: "ana".into(),
        password_hash: hash.into(),
        role_name: "dispatcher".into(),
        is_active: active,
        failed_login_attempts: 0,
        locked_until,
    }
}

#[test]
fn password_verification() {
    let h = phc("s3cret");
    assert_eq!(verify_password("s3cret", &h).unwrap(), true);
    assert_eq!(verify_password("wrong", &h).unwrap(), false);
    assert!(verify_password("x", "not a phc string").is_err());
}

#[test]
fn login_decisions() {
    let h = phc("s3cret");
    assert!(matches!(login_outcome(None, "x", 0), LoginOutcome::Refused(AppError::Unauthorized(ref m)) if m == "Invalid credentials"));
    match login_outcome(Some(&user(&h, true, Some(1_700_000_600 * SEC))), "s3cret", 1_700_000_000 * SEC) {
        LoginOutcome::Refused(AppError::AccountLocked(m)) => assert_eq!(m, "2023-11-14T22:23:20+00:00"),
        _ => panic!("expected a locked account"),
    }
    // a lock that ends a fraction of a second from now still holds, and its
    // end is written with the fraction
    match login_outcome(Some(&user(&h, true, Some(1_700_000_600 * SEC + 250_000))), "s3cret", 1_700_000_600 * SEC) {
        LoginOutcome::Refused(AppError::AccountLocked(m)) => assert_eq!(m, "2023-11-14T22:23:20.250+00:00"),
        _ => panic!("expected a locked account"),
    }
    assert!(matches!(login_outcome(Some(&user(&h, false, None)), "s3cret", 0), LoginOutcome::Refused(AppError::Unauthorized(_))));
    assert!(matches!(login_outcome(Some(&user(&h, true, Some(10))), "s3cret", 20), LoginOutcome::Accepted));
    match login_outcome(Some(&user(&h, true, None)), "nope", 20) {
        LoginOutcome::WrongPassword(e) => assert_eq!(e, AppError::Unauthorized("Invalid credentials".to_string())),
        _ => panic!("expected a wrong password"),
    }
    assert!(matches!(
        login_outcome(Some(&user("garbage", true, None)), "nope", 20),
        LoginOutcome::Refused(AppError::Internal(_))
    ));
}

#[test]
fn lockout_after_threshold() {
    assert_eq!(after_failed_attempt(3, None, 5, 1000, 15), (4, None));
    assert_eq!(after_failed_attempt(4, None, 5, 1000, 15), (5, Some(1000 + 900 * SEC)));
}

fn session(revoked: bool, expires_at: i64, last_activity_at: i64) -> SessionRecord {
    SessionRecord {
        id: 10,
        user_id: 1,
        expires_at,
        revoked_at: if revoked { Some(0) } else { None },
        last_activity_at,
        last_reauth_at: None,
        username: "ana".into(),
        role_name: "dispatcher".into(),
    }
}

#[test]
fn session_validation() {
    assert!(matches!(validate_session(None, 0, 30), SessionCheck::Refused(_)));
    assert!(matches!(validate_session(Some(session(true, 10_000 * SEC, 0)), 100, 30), SessionCheck::Refused(_)));
    assert!(matches!(validate_session(Some(session(false, 50, 0)), 100, 30), SessionCheck::Refused(_)));
    assert!(matches!(validate_session(Some(session(false, 10_000 * SEC, 0)), 1800 * SEC + 1, 30), SessionCheck::RevokeIdle(_)));
    match validate_session(Some(session(false, 10_000 * SEC, 0)), 1800 * SEC, 30) {
        SessionCheck::Valid(s) => assert_eq!(s.last_activity_at, 1800 * SEC),
        _ => panic!("expected a valid session"),
    }
}

#[test]
fn reauth_and_tokens() {
    assert!(check_reauth(Some(1000), 1000 + 600 * SEC, 10).is_ok());
    assert!(matches!(check_reauth(Some(1000), 1001 + 600 * SEC, 10), Err(AppError::Forbidden(_))));
    assert!(!reauth_required(Some(1000), 1000 + 600 * SEC, 10));
    assert!(reauth_required(Some(1000), 1001 + 600 * SEC, 10));
    assert!(check_reauth(None, 0, 10).is_err());
    assert!(reauth_required(None, 0, 10));
    assert_eq!(extract_bearer_token(Some(b"Bearer abc")).unwrap(), "abc");
    assert!(matches!(extract_bearer_token(None), Err(AppError::Unauthorized(ref m)) if m == "Missing Authorization header"));
    assert!(matches!(extract_bearer_token(Some(b"Basic abc")), Err(AppError::Unauthorized(ref m)) if m == "Authorization scheme must be Bearer"));
    assert!(matches!(extract_bearer_token(Some(b"Bearer \x01")), Err(AppError::Unauthorized(ref m)) if m == "Invalid Authorization header encoding"));
    assert_eq!(hash_token("abc"), "ba7816bf8f01cfea414140de5dae2223b00361a396177a9cb410ff61f20015ad");
}

#[test]
fn permission_checks() {
    let s = AuthSession {
        session_id: 1,
        user_id: 2,
        username: "u".into(),
        role: "staff_user".into(),
        expires_at: 0,
        last_activity_at: 0,
        last_reauth_at: None,
    };
    assert!(s.require(Permission::ReportingRead).is_ok());
    match s.require(Permission::UsersWrite) {
        Err(AppError::Forbidden(m)) => assert_eq!(m, "Role 'staff_user' does not have permission 'users:users:write'"),
        _ => panic!("expected forbidden"),
    }
    let _ = LoginRequest { username: "a".into(), password: "b".into() };
    let _ = ReauthRequest { password: "b".into() };
    let _ = LogoutResponse { message: "Logged out successfully" };
}

#[test]
fn hashed_password_verifies_only_itself() {
    let h = hash_password("s3cret!").expect("hash");
    assert!(h.starts_with("$argon2id$"));
    assert_eq!(verify_password("s3cret!", &h), Ok(true));
    assert_eq!(verify_password("other", &h), Ok(false));
    let stored = stored_password_hash("pw").expect("hash");
    assert_ne!(stored, h);
    assert_eq!(verify_password("pw", &stored), Ok(true));
}
