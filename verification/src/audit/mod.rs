//! The audit trail: action names and the records an authenticated request
//! or a login writes.  Records are only ever appended.
use vstd::prelude::*;

use crate::auth::session::AuthSession;
use crate::json::Json;
use crate::text::{chars_of, string_of};

verus! {

pub const ACTION_LOGIN: &'static str = "LOGIN";
pub const ACTION_LOGOUT: &'static str = "LOGOUT";
pub const ACTION_CONFIG_PUBLISH: &'static str = "CONFIG_PUBLISH";
pub const ACTION_CONFIG_UNPUBLISH: &'static str = "CONFIG_UNPUBLISH";
pub const ACTION_RECON_RUN: &'static str = "RECONCILIATION_RUN";
pub const ACTION_EXPORT: &'static str = "EXPORT";
pub const ACTION_METRIC_CREATE: &'static str = "METRIC_CREATE";
pub const ACTION_METRIC_UPDATE: &'static str = "METRIC_UPDATE";
pub const ACTION_METRIC_DELETE: &'static str = "METRIC_DELETE";

/// An auditable event of an authenticated request.
pub struct AuditEntry {
    pub action: String,
    pub domain: String,
    pub entity_type: String,
    pub entity_id: String,
    pub before_state: Option<Json>,
    pub after_state: Option<Json>,
    pub metadata: Json,
}

/// One row of the audit log.
pub struct AuditRecord {
    pub actor_id: Option<u128>,
    pub actor_username: String,
    pub actor_role: String,
    pub session_id: Option<u128>,
    pub action: String,
    pub domain: String,
    pub entity_type: String,
    pub entity_id: String,
    pub before_state: Option<Json>,
    pub after_state: Option<Json>,
    pub ip_address: Option<String>,
    pub user_agent: Option<String>,
    pub metadata: Json,
}

/// The record of `entry` by the session's user.
pub fn record_for_session(session: &AuthSession, entry: AuditEntry) -> (r: AuditRecord)
    ensures
        r.actor_id == Some(session.user_id),
        r.actor_username@ == session.username@,
        r.actor_role@ == session.role@,
        r.session_id == Some(session.session_id),
        r.action == entry.action,
        r.domain == entry.domain,
        r.entity_type == entry.entity_type,
        r.entity_id == entry.entity_id,
        r.before_state == entry.before_state,
        r.after_state == entry.after_state,
        r.ip_address is None,
        r.user_agent is None,
        r.metadata == entry.metadata,
{
    AuditRecord {
        actor_id: Some(session.user_id),
        actor_username: string_of(chars_of(session.username.as_str()).as_slice()),
        actor_role: string_of(chars_of(session.role.as_str()).as_slice()),
        session_id: Some(session.session_id),
        action: entry.action,
        domain: entry.domain,
        entity_type: entry.entity_type,
        entity_id: entry.entity_id,
        before_state: entry.before_state,
        after_state: entry.after_state,
        ip_address: None,
        user_agent: None,
        metadata: entry.metadata,
    }
}

/// The record of a login or logout: domain `auth`, entity the session.
pub fn record_for_auth(
    user_id: u128,
    username: &str,
    role: &str,
    session_id: u128,
    session_text: String,
    action: &str,
    ip_address: Option<String>,
    metadata: Json,
) -> (r: AuditRecord)
    ensures
        r.actor_id == Some(user_id),
        r.actor_username@ == username@,
        r.actor_role@ == role@,
        r.session_id == Some(session_id),
        r.action@ == action@,
        r.domain@ == "auth"@,
        r.entity_type@ == "session"@,
        r.entity_id == session_text,
        r.before_state is None,
        r.after_state is None,
        r.ip_address == ip_address,
        r.user_agent is None,
        r.metadata == metadata,
{
    AuditRecord {
        actor_id: Some(user_id),
        actor_username: string_of(chars_of(username).as_slice()),
        actor_role: string_of(chars_of(role).as_slice()),
        session_id: Some(session_id),
        action: string_of(chars_of(action).as_slice()),
        domain: string_of(chars_of("auth").as_slice()),
        entity_type: string_of(chars_of("session").as_slice()),
        entity_id: session_text,
        before_state: None,
        after_state: None,
        ip_address,
        user_agent: None,
        metadata,
    }
}

} // verus!
