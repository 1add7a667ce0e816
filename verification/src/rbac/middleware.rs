//! Scope-level permission guard configuration.
use vstd::prelude::*;

use std::rc::Rc;

use crate::auth::session::{bearer_of, extract_bearer_token};
use crate::error::AppError;
use crate::rbac::permissions::{permission_name, role_grants, has_permission, Permission};
use crate::text::text;

verus! {

/// Guard that admits a request only when the caller's role holds `permission`.
pub struct ScopeGuard {
    pub permission: Permission,
}

impl ScopeGuard {
    /// A guard requiring `permission`.
    pub fn require(permission: Permission) -> (g: Self)
        ensures
            g.permission == permission,
    {
        ScopeGuard { permission }
    }

    /// Whether a caller with `role` passes this guard.
    pub fn admits(&self, role: &str) -> (r: bool)
        ensures
            r == role_grants(role@, self.permission),
    {
        has_permission(role, self.permission)
    }

    /// The guard placed in front of `service`.
    pub fn new_transform<S>(&self, service: S) -> (m: ScopeGuardMiddleware<S>)
        ensures
            m.permission == self.permission,
            *m.service == service,
    {
        ScopeGuardMiddleware { service: Rc::new(service), permission: self.permission }
    }
}

/// A service behind a scope guard: each request must carry a bearer token
/// whose session role holds `permission`.
pub struct ScopeGuardMiddleware<S> {
    pub service: Rc<S>,
    pub permission: Permission,
}

impl<S> ScopeGuardMiddleware<S> {
    /// The bearer token of a request's `Authorization` header. Any header that
    /// is absent, not visible ASCII or not of the `Bearer` scheme is answered
    /// as a missing one.
    pub fn bearer_token(&self, header: Option<&[u8]>) -> (r: Result<String, AppError>)
        ensures
            match bearer_of(match header { Some(h) => Some(h@), None => None }) {
                Ok(t) => r matches Ok(s) && s@ == t,
                Err(_) => r matches Err(AppError::Unauthorized(m)) && m@ == "Missing Authorization header"@,
            },
    {
        match extract_bearer_token(header) {
            Ok(t) => Ok(t),
            Err(_) => Err(AppError::Unauthorized(text("Missing Authorization header"))),
        }
    }

    /// Admit a validated session's `role`, or refuse it as forbidden.
    pub fn authorize(&self, role: &str) -> (r: Result<(), AppError>)
        ensures
            role_grants(role@, self.permission) ==> r is Ok,
            !role_grants(role@, self.permission) ==> (r matches Err(AppError::Forbidden(m)) && m@ == "Role '"@ + role@
                + "' does not have permission '"@ + permission_name(self.permission) + "'"@),
    {
        let s = crate::auth::session::AuthSession {
            session_id: 0,
            user_id: 0,
            username: text(""),
            role: text(role),
            expires_at: 0,
            last_activity_at: 0,
            last_reauth_at: None,
        };
        s.require(self.permission)
    }
}

} // verus!
