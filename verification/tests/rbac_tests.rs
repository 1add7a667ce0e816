use transitops_backend::error::AppError;
use transitops_backend::rbac::middleware::ScopeGuard;
use transitops_backend::rbac::permissions::{
    has_permission, role_permissions, Permission, ROLE_DISPATCHER, ROLE_FINANCE_ANALYST,
    ROLE_OPERATIONS_ADMIN, ROLE_STAFF_USER,
};

#[test]
fn ops_admin_has_full_ops() {
    for perm in [
        Permission::OpsRoutesRead, Permission::OpsRoutesWrite, Permission::OpsRoutesDelete,
        Permission::OpsStopsRead, Permission::OpsStopsWrite, Permission::OpsStopsDelete,
        Permission::OpsTripsRead, Permission::OpsTripsWrite, Permission::OpsTripsDelete,
        Permission::OpsConfigRead, Permission::OpsConfigWrite, Permission::OpsConfigPublish,
    ] {
        assert!(has_permission(ROLE_OPERATIONS_ADMIN, perm), "ops_admin missing {:?}", perm);
    }
}

#[test]
fn dispatcher_cannot_delete_or_publish() {
    assert!(!has_permission(ROLE_DISPATCHER, Permission::OpsRoutesDelete));
    assert!(!has_permission(ROLE_DISPATCHER, Permission::OpsTripsDelete));
    assert!(!has_permission(ROLE_DISPATCHER, Permission::OpsConfigPublish));
    assert!(!has_permission(ROLE_DISPATCHER, Permission::OpsConfigWrite));
}

#[test]
fn staff_user_is_read_only() {
    let write_perms = [
        Permission::OpsRoutesWrite, Permission::OpsTripsWrite,
        Permission::PaymentsTransactionsWrite, Permission::UsersWrite,
    ];
    for p in write_perms {
        assert!(!has_permission(ROLE_STAFF_USER, p), "staff_user should not have {:?}", p);
    }
}

#[test]
fn finance_analyst_cannot_access_ops_write() {
    assert!(!has_permission(ROLE_FINANCE_ANALYST, Permission::OpsRoutesWrite));
    assert!(!has_permission(ROLE_FINANCE_ANALYST, Permission::OpsTripsWrite));
    assert!(!has_permission(ROLE_FINANCE_ANALYST, Permission::AuditRead));
}

#[test]
fn no_role_has_roles_write() {
    for role in [ROLE_OPERATIONS_ADMIN, ROLE_DISPATCHER, ROLE_FINANCE_ANALYST, ROLE_STAFF_USER] {
        assert!(!has_permission(role, Permission::RolesWrite), "{} should not have RolesWrite", role);
    }
}

#[test]
fn unknown_role_denied() {
    assert!(!has_permission("unknown_role", Permission::ReportingRead));
}

#[test]
fn permission_names_are_dotted() {
    assert_eq!(Permission::OpsRoutesRead.as_str(), "ops:routes:read");
    assert_eq!(Permission::RolesWrite.as_str(), "users:roles:write");
}

#[test]
fn role_table_lists_the_four_roles() {
    let m = role_permissions();
    assert_eq!(m.len(), 4);
    for g in &m {
        for p in &g.permissions {
            assert!(has_permission(g.role, *p));
        }
    }
}

#[test]
fn scope_guard_admits_by_role() {
    let g = ScopeGuard::require(Permission::OpsConfigPublish);
    assert!(g.admits(ROLE_OPERATIONS_ADMIN));
    assert!(!g.admits(ROLE_DISPATCHER));
}

#[test]
fn scope_guard_middleware_reads_bearer_and_checks_role() {
    let m = ScopeGuard::require(Permission::UsersWrite).new_transform(5u8);
    assert_eq!(*m.service, 5u8);
    match m.bearer_token(Some(b"Bearer abc123")) {
        Ok(t) => assert_eq!(t, "abc123"),
        _ => panic!("token expected"),
    }
    for bad in [None, Some(&b"Basic xyz"[..]), Some(&b"Bearer \xff"[..])] {
        match m.bearer_token(bad) {
            Err(AppError::Unauthorized(msg)) => assert_eq!(msg, "Missing Authorization header"),
            _ => panic!("unauthorized expected"),
        }
    }
    match m.authorize(ROLE_STAFF_USER) {
        Err(AppError::Forbidden(msg)) => assert_eq!(msg, "Role 'staff_user' does not have permission 'users:users:write'"),
        _ => panic!("forbidden expected"),
    }
    let r = ScopeGuard::require(Permission::OpsRoutesRead).new_transform(());
    assert!(r.authorize(ROLE_OPERATIONS_ADMIN).is_ok());
}

#[test]
fn permission_names_are_distinct_triples() {
    let perms = [
        Permission::OpsRoutesRead,
        Permission::OpsStopsRead,
        Permission::OpsTripsRead,
        Permission::NotificationsReadAll,
        Permission::PaymentsRefundsApprove,
        Permission::ReportingExport,
        Permission::AuditRead,
        Permission::RolesWrite,
    ];
    let names: Vec<&str> = perms.iter().map(|p| p.as_str()).collect();
    for (i, n) in names.iter().enumerate() {
        let parts: Vec<&str> = n.split(':').collect();
        assert_eq!(parts.len(), 3, "{}", n);
        assert!(parts.iter().all(|w| !w.is_empty() && w.chars().all(|c| c.is_ascii_lowercase())), "{}", n);
        assert!(names[i + 1..].iter().all(|m| m != n));
    }
}
