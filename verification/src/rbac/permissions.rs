//! The permission catalogue and the static role-to-permission policy.
//!
//! Every permission maps to one canonical name of the form
//! `{domain}:{resource}:{action}`.  The role policy is defined here in code;
//! unknown role names hold no permission.
use vstd::prelude::*;

use crate::text::str_eq;

verus! {

pub const ROLE_OPERATIONS_ADMIN: &'static str = "operations_admin";
pub const ROLE_DISPATCHER: &'static str = "dispatcher";
pub const ROLE_FINANCE_ANALYST: &'static str = "finance_analyst";
pub const ROLE_STAFF_USER: &'static str = "staff_user";

/// One fine-grained permission.
#[derive(Debug, Clone, Copy, PartialEq, Eq, Structural, Hash)]
pub enum Permission {
    OpsRoutesRead,
    OpsRoutesWrite,
    OpsRoutesDelete,
    OpsStopsRead,
    OpsStopsWrite,
    OpsStopsDelete,
    OpsTripsRead,
    OpsTripsWrite,
    OpsTripsDelete,
    OpsConfigRead,
    OpsConfigWrite,
    OpsConfigPublish,
    NotificationsInboxRead,
    NotificationsReadAll,
    NotificationsSubscriptionsManage,
    NotificationsDndManage,
    SysAnnouncementWrite,
    PaymentsTransactionsRead,
    PaymentsTransactionsWrite,
    PaymentsRefundsRead,
    PaymentsRefundsWrite,
    PaymentsRefundsApprove,
    PaymentsReconciliationRead,
    PaymentsReconciliationRun,
    PaymentsStatementsRead,
    PaymentsStatementsImport,
    ReportingRead,
    ReportingExport,
    ReportingMetricsManage,
    AlertsRead,
    AlertsManage,
    AuditRead,
    UsersRead,
    UsersWrite,
    UsersDelete,
    RolesRead,
    RolesWrite,
}

/// Canonical name of a permission.
pub open spec fn permission_name(p: Permission) -> Seq<char> {
    match p {
        Permission::OpsRoutesRead => "ops:routes:read"@,
        Permission::OpsRoutesWrite => "ops:routes:write"@,
        Permission::OpsRoutesDelete => "ops:routes:delete"@,
        Permission::OpsStopsRead => "ops:stops:read"@,
        Permission::OpsStopsWrite => "ops:stops:write"@,
        Permission::OpsStopsDelete => "ops:stops:delete"@,
        Permission::OpsTripsRead => "ops:trips:read"@,
        Permission::OpsTripsWrite => "ops:trips:write"@,
        Permission::OpsTripsDelete => "ops:trips:delete"@,
        Permission::OpsConfigRead => "ops:config:read"@,
        Permission::OpsConfigWrite => "ops:config:write"@,
        Permission::OpsConfigPublish => "ops:config:publish"@,
        Permission::NotificationsInboxRead => "notifications:inbox:read"@,
        Permission::NotificationsReadAll => "notifications:all:read"@,
        Permission::NotificationsSubscriptionsManage => "notifications:subscriptions:manage"@,
        Permission::NotificationsDndManage => "notifications:dnd:manage"@,
        Permission::SysAnnouncementWrite => "sys:announcements:write"@,
        Permission::PaymentsTransactionsRead => "payments:transactions:read"@,
        Permission::PaymentsTransactionsWrite => "payments:transactions:write"@,
        Permission::PaymentsRefundsRead => "payments:refunds:read"@,
        Permission::PaymentsRefundsWrite => "payments:refunds:write"@,
        Permission::PaymentsRefundsApprove => "payments:refunds:approve"@,
        Permission::PaymentsReconciliationRead => "payments:reconciliation:read"@,
        Permission::PaymentsReconciliationRun => "payments:reconciliation:run"@,
        Permission::PaymentsStatementsRead => "payments:statements:read"@,
        Permission::PaymentsStatementsImport => "payments:statements:import"@,
        Permission::ReportingRead => "reporting:reports:read"@,
        Permission::ReportingExport => "reporting:reports:export"@,
        Permission::ReportingMetricsManage => "reporting:metrics:manage"@,
        Permission::AlertsRead => "alerts:alerts:read"@,
        Permission::AlertsManage => "alerts:alerts:manage"@,
        Permission::AuditRead => "audit:log:read"@,
        Permission::UsersRead => "users:users:read"@,
        Permission::UsersWrite => "users:users:write"@,
        Permission::UsersDelete => "users:users:delete"@,
        Permission::RolesRead => "users:roles:read"@,
        Permission::RolesWrite => "users:roles:write"@,
    }
}

impl Permission {
    /// Canonical string representation, `domain:resource:action`.
    pub fn as_str(self) -> (r: &'static str)
        ensures
            r@ == permission_name(self),
    {
        match self {
            Permission::OpsRoutesRead => "ops:routes:read",
            Permission::OpsRoutesWrite => "ops:routes:write",
            Permission::OpsRoutesDelete => "ops:routes:delete",
            Permission::OpsStopsRead => "ops:stops:read",
            Permission::OpsStopsWrite => "ops:stops:write",
            Permission::OpsStopsDelete => "ops:stops:delete",
            Permission::OpsTripsRead => "ops:trips:read",
            Permission::OpsTripsWrite => "ops:trips:write",
            Permission::OpsTripsDelete => "ops:trips:delete",
            Permission::OpsConfigRead => "ops:config:read",
            Permission::OpsConfigWrite => "ops:config:write",
            Permission::OpsConfigPublish => "ops:config:publish",
            Permission::NotificationsInboxRead => "notifications:inbox:read",
            Permission::NotificationsReadAll => "notifications:all:read",
            Permission::NotificationsSubscriptionsManage => "notifications:subscriptions:manage",
            Permission::NotificationsDndManage => "notifications:dnd:manage",
            Permission::SysAnnouncementWrite => "sys:announcements:write",
            Permission::PaymentsTransactionsRead => "payments:transactions:read",
            Permission::PaymentsTransactionsWrite => "payments:transactions:write",
            Permission::PaymentsRefundsRead => "payments:refunds:read",
            Permission::PaymentsRefundsWrite => "payments:refunds:write",
            Permission::PaymentsRefundsApprove => "payments:refunds:approve",
            Permission::PaymentsReconciliationRead => "payments:reconciliation:read",
            Permission::PaymentsReconciliationRun => "payments:reconciliation:run",
            Permission::PaymentsStatementsRead => "payments:statements:read",
            Permission::PaymentsStatementsImport => "payments:statements:import",
            Permission::ReportingRead => "reporting:reports:read",
            Permission::ReportingExport => "reporting:reports:export",
            Permission::ReportingMetricsManage => "reporting:metrics:manage",
            Permission::AlertsRead => "alerts:alerts:read",
            Permission::AlertsManage => "alerts:alerts:manage",
            Permission::AuditRead => "audit:log:read",
            Permission::UsersRead => "users:users:read",
            Permission::UsersWrite => "users:users:write",
            Permission::UsersDelete => "users:users:delete",
            Permission::RolesRead => "users:roles:read",
            Permission::RolesWrite => "users:roles:write",
        }
    }
}

/// Operations admin: full ops domain, payment visibility with refund approval, reporting, alerts, audit and user management (no role-schema changes).
pub open spec fn operations_admin_grants(p: Permission) -> bool {
    matches!(p,
        Permission::OpsRoutesRead |
        Permission::OpsRoutesWrite |
        Permission::OpsRoutesDelete |
        Permission::OpsStopsRead |
        Permission::OpsStopsWrite |
        Permission::OpsStopsDelete |
        Permission::OpsTripsRead |
        Permission::OpsTripsWrite |
        Permission::OpsTripsDelete |
        Permission::OpsConfigRead |
        Permission::OpsConfigWrite |
        Permission::OpsConfigPublish |
        Permission::NotificationsInboxRead |
        Permission::NotificationsReadAll |
        Permission::NotificationsSubscriptionsManage |
        Permission::NotificationsDndManage |
        Permission::SysAnnouncementWrite |
        Permission::PaymentsTransactionsRead |
        Permission::PaymentsRefundsRead |
        Permission::PaymentsRefundsApprove |
        Permission::PaymentsReconciliationRead |
        Permission::ReportingRead |
        Permission::ReportingExport |
        Permission::ReportingMetricsManage |
        Permission::AlertsRead |
        Permission::AlertsManage |
        Permission::AuditRead |
        Permission::UsersRead |
        Permission::UsersWrite |
        Permission::UsersDelete |
        Permission::RolesRead)
}

/// Dispatcher: ops read/write without delete or config write/publish, own notifications, reports and alerts read-only.
pub open spec fn dispatcher_grants(p: Permission) -> bool {
    matches!(p,
        Permission::OpsRoutesRead |
        Permission::OpsRoutesWrite |
        Permission::OpsStopsRead |
        Permission::OpsStopsWrite |
        Permission::OpsTripsRead |
        Permission::OpsTripsWrite |
        Permission::OpsConfigRead |
        Permission::NotificationsInboxRead |
        Permission::NotificationsSubscriptionsManage |
        Permission::NotificationsDndManage |
        Permission::ReportingRead |
        Permission::AlertsRead)
}

/// Finance analyst: ops read, own notifications, the full payments domain, reporting with export, alerts.
pub open spec fn finance_analyst_grants(p: Permission) -> bool {
    matches!(p,
        Permission::OpsRoutesRead |
        Permission::OpsTripsRead |
        Permission::NotificationsInboxRead |
        Permission::NotificationsSubscriptionsManage |
        Permission::NotificationsDndManage |
        Permission::PaymentsTransactionsRead |
        Permission::PaymentsTransactionsWrite |
        Permission::PaymentsRefundsRead |
        Permission::PaymentsRefundsWrite |
        Permission::PaymentsRefundsApprove |
        Permission::PaymentsReconciliationRead |
        Permission::PaymentsReconciliationRun |
        Permission::PaymentsStatementsRead |
        Permission::PaymentsStatementsImport |
        Permission::ReportingRead |
        Permission::ReportingExport |
        Permission::ReportingMetricsManage |
        Permission::AlertsRead |
        Permission::AlertsManage)
}

/// Staff user: read-only ops, own inbox, DND and subscriptions, basic reporting.
pub open spec fn staff_user_grants(p: Permission) -> bool {
    matches!(p,
        Permission::OpsRoutesRead |
        Permission::OpsTripsRead |
        Permission::NotificationsInboxRead |
        Permission::NotificationsDndManage |
        Permission::NotificationsSubscriptionsManage |
        Permission::ReportingRead)
}

/// The static policy: whether `role` holds `p`.  Unknown roles hold nothing.
pub open spec fn role_grants(role: Seq<char>, p: Permission) -> bool {
    if role == ROLE_OPERATIONS_ADMIN@ {
        operations_admin_grants(p)
    } else if role == ROLE_DISPATCHER@ {
        dispatcher_grants(p)
    } else if role == ROLE_FINANCE_ANALYST@ {
        finance_analyst_grants(p)
    } else if role == ROLE_STAFF_USER@ {
        staff_user_grants(p)
    } else {
        false
    }
}

/// The four predefined role names are pairwise distinct.
pub proof fn lemma_roles_distinct()
    ensures
        ROLE_OPERATIONS_ADMIN@ != ROLE_DISPATCHER@,
        ROLE_OPERATIONS_ADMIN@ != ROLE_FINANCE_ANALYST@,
        ROLE_OPERATIONS_ADMIN@ != ROLE_STAFF_USER@,
        ROLE_DISPATCHER@ != ROLE_FINANCE_ANALYST@,
        ROLE_DISPATCHER@ != ROLE_STAFF_USER@,
        ROLE_FINANCE_ANALYST@ != ROLE_STAFF_USER@,
{
    reveal_strlit("operations_admin");
    reveal_strlit("dispatcher");
    reveal_strlit("finance_analyst");
    reveal_strlit("staff_user");
    assert(ROLE_OPERATIONS_ADMIN@.len() != ROLE_DISPATCHER@.len());
    assert(ROLE_OPERATIONS_ADMIN@.len() != ROLE_FINANCE_ANALYST@.len());
    assert(ROLE_OPERATIONS_ADMIN@.len() != ROLE_STAFF_USER@.len());
    assert(ROLE_DISPATCHER@.len() != ROLE_FINANCE_ANALYST@.len());
    assert(ROLE_DISPATCHER@[0] != ROLE_STAFF_USER@[0]);
    assert(ROLE_FINANCE_ANALYST@.len() != ROLE_STAFF_USER@.len());
}

/// The predefined roles, in policy order.
pub open spec fn predefined_roles() -> Seq<Seq<char>> {
    seq![ROLE_OPERATIONS_ADMIN@, ROLE_DISPATCHER@, ROLE_FINANCE_ANALYST@, ROLE_STAFF_USER@]
}

/// Fail-closed: a role name outside the predefined four holds no
/// permission at all.
pub proof fn law_unknown_roles_hold_nothing(role: Seq<char>, p: Permission)
    requires
        !predefined_roles().contains(role),
    ensures
        !role_grants(role, p),
{
    if role == ROLE_OPERATIONS_ADMIN@ {
        assert(predefined_roles()[0] == role);
    } else if role == ROLE_DISPATCHER@ {
        assert(predefined_roles()[1] == role);
    } else if role == ROLE_FINANCE_ANALYST@ {
        assert(predefined_roles()[2] == role);
    } else if role == ROLE_STAFF_USER@ {
        assert(predefined_roles()[3] == role);
    }
}

/// No role, predefined or not, may change the role schema.
pub proof fn law_no_role_writes_roles(role: Seq<char>)
    ensures
        !role_grants(role, Permission::RolesWrite),
{
}

fn operations_admin_has(p: Permission) -> (r: bool)
    ensures
        r == operations_admin_grants(p),
{
    match p {
        Permission::OpsRoutesRead | Permission::OpsRoutesWrite | Permission::OpsRoutesDelete | Permission::OpsStopsRead | Permission::OpsStopsWrite | Permission::OpsStopsDelete | Permission::OpsTripsRead | Permission::OpsTripsWrite | Permission::OpsTripsDelete | Permission::OpsConfigRead | Permission::OpsConfigWrite | Permission::OpsConfigPublish | Permission::NotificationsInboxRead | Permission::NotificationsReadAll | Permission::NotificationsSubscriptionsManage | Permission::NotificationsDndManage | Permission::SysAnnouncementWrite | Permission::PaymentsTransactionsRead | Permission::PaymentsRefundsRead | Permission::PaymentsRefundsApprove | Permission::PaymentsReconciliationRead | Permission::ReportingRead | Permission::ReportingExport | Permission::ReportingMetricsManage | Permission::AlertsRead | Permission::AlertsManage | Permission::AuditRead | Permission::UsersRead | Permission::UsersWrite | Permission::UsersDelete | Permission::RolesRead => true,
        _ => false,
    }
}

fn dispatcher_has(p: Permission) -> (r: bool)
    ensures
        r == dispatcher_grants(p),
{
    match p {
        Permission::OpsRoutesRead | Permission::OpsRoutesWrite | Permission::OpsStopsRead | Permission::OpsStopsWrite | Permission::OpsTripsRead | Permission::OpsTripsWrite | Permission::OpsConfigRead | Permission::NotificationsInboxRead | Permission::NotificationsSubscriptionsManage | Permission::NotificationsDndManage | Permission::ReportingRead | Permission::AlertsRead => true,
        _ => false,
    }
}

fn finance_analyst_has(p: Permission) -> (r: bool)
    ensures
        r == finance_analyst_grants(p),
{
    match p {
        Permission::OpsRoutesRead | Permission::OpsTripsRead | Permission::NotificationsInboxRead | Permission::NotificationsSubscriptionsManage | Permission::NotificationsDndManage | Permission::PaymentsTransactionsRead | Permission::PaymentsTransactionsWrite | Permission::PaymentsRefundsRead | Permission::PaymentsRefundsWrite | Permission::PaymentsRefundsApprove | Permission::PaymentsReconciliationRead | Permission::PaymentsReconciliationRun | Permission::PaymentsStatementsRead | Permission::PaymentsStatementsImport | Permission::ReportingRead | Permission::ReportingExport | Permission::ReportingMetricsManage | Permission::AlertsRead | Permission::AlertsManage => true,
        _ => false,
    }
}

fn staff_user_has(p: Permission) -> (r: bool)
    ensures
        r == staff_user_grants(p),
{
    match p {
        Permission::OpsRoutesRead | Permission::OpsTripsRead | Permission::NotificationsInboxRead | Permission::NotificationsDndManage | Permission::NotificationsSubscriptionsManage | Permission::ReportingRead => true,
        _ => false,
    }
}

/// Returns `true` if `role` holds `permission` per the static policy.
/// Unknown role names always return `false` (fail-closed).
pub fn has_permission(role: &str, permission: Permission) -> (r: bool)
    ensures
        r == role_grants(role@, permission),
{
    if str_eq(role, ROLE_OPERATIONS_ADMIN) {
        operations_admin_has(permission)
    } else if str_eq(role, ROLE_DISPATCHER) {
        dispatcher_has(permission)
    } else if str_eq(role, ROLE_FINANCE_ANALYST) {
        finance_analyst_has(permission)
    } else if str_eq(role, ROLE_STAFF_USER) {
        staff_user_has(permission)
    } else {
        false
    }
}

/// The permissions one role holds.
pub struct RoleGrant {
    pub role: &'static str,
    pub permissions: Vec<Permission>,
}

fn operations_admin_list() -> (v: Vec<Permission>)
    ensures
        forall|p: Permission| operations_admin_grants(p) <==> v@.contains(p),
        v@.no_duplicates(),
{
    let mut v: Vec<Permission> = Vec::new();
    v.push(Permission::OpsRoutesRead);
    v.push(Permission::OpsRoutesWrite);
    v.push(Permission::OpsRoutesDelete);
    v.push(Permission::OpsStopsRead);
    v.push(Permission::OpsStopsWrite);
    v.push(Permission::OpsStopsDelete);
    v.push(Permission::OpsTripsRead);
    v.push(Permission::OpsTripsWrite);
    v.push(Permission::OpsTripsDelete);
    v.push(Permission::OpsConfigRead);
    v.push(Permission::OpsConfigWrite);
    v.push(Permission::OpsConfigPublish);
    v.push(Permission::NotificationsInboxRead);
    v.push(Permission::NotificationsReadAll);
    v.push(Permission::NotificationsSubscriptionsManage);
    v.push(Permission::NotificationsDndManage);
    v.push(Permission::SysAnnouncementWrite);
    v.push(Permission::PaymentsTransactionsRead);
    v.push(Permission::PaymentsRefundsRead);
    v.push(Permission::PaymentsRefundsApprove);
    v.push(Permission::PaymentsReconciliationRead);
    v.push(Permission::ReportingRead);
    v.push(Permission::ReportingExport);
    v.push(Permission::ReportingMetricsManage);
    v.push(Permission::AlertsRead);
    v.push(Permission::AlertsManage);
    v.push(Permission::AuditRead);
    v.push(Permission::UsersRead);
    v.push(Permission::UsersWrite);
    v.push(Permission::UsersDelete);
    v.push(Permission::RolesRead);
    proof {
        assert forall|p: Permission| operations_admin_grants(p) <==> v@.contains(p) by {
            if operations_admin_grants(p) {
                match p {
                    Permission::OpsRoutesRead => assert(v@[0] == p),
                    Permission::OpsRoutesWrite => assert(v@[1] == p),
                    Permission::OpsRoutesDelete => assert(v@[2] == p),
                    Permission::OpsStopsRead => assert(v@[3] == p),
                    Permission::OpsStopsWrite => assert(v@[4] == p),
                    Permission::OpsStopsDelete => assert(v@[5] == p),
                    Permission::OpsTripsRead => assert(v@[6] == p),
                    Permission::OpsTripsWrite => assert(v@[7] == p),
                    Permission::OpsTripsDelete => assert(v@[8] == p),
                    Permission::OpsConfigRead => assert(v@[9] == p),
                    Permission::OpsConfigWrite => assert(v@[10] == p),
                    Permission::OpsConfigPublish => assert(v@[11] == p),
                    Permission::NotificationsInboxRead => assert(v@[12] == p),
                    Permission::NotificationsReadAll => assert(v@[13] == p),
                    Permission::NotificationsSubscriptionsManage => assert(v@[14] == p),
                    Permission::NotificationsDndManage => assert(v@[15] == p),
                    Permission::SysAnnouncementWrite => assert(v@[16] == p),
                    Permission::PaymentsTransactionsRead => assert(v@[17] == p),
                    Permission::PaymentsRefundsRead => assert(v@[18] == p),
                    Permission::PaymentsRefundsApprove => assert(v@[19] == p),
                    Permission::PaymentsReconciliationRead => assert(v@[20] == p),
                    Permission::ReportingRead => assert(v@[21] == p),
                    Permission::ReportingExport => assert(v@[22] == p),
                    Permission::ReportingMetricsManage => assert(v@[23] == p),
                    Permission::AlertsRead => assert(v@[24] == p),
                    Permission::AlertsManage => assert(v@[25] == p),
                    Permission::AuditRead => assert(v@[26] == p),
                    Permission::UsersRead => assert(v@[27] == p),
                    Permission::UsersWrite => assert(v@[28] == p),
                    Permission::UsersDelete => assert(v@[29] == p),
                    Permission::RolesRead => assert(v@[30] == p),
                    _ => {},
                }
            }
        }
    }
    v
}

fn dispatcher_list() -> (v: Vec<Permission>)
    ensures
        forall|p: Permission| dispatcher_grants(p) <==> v@.contains(p),
        v@.no_duplicates(),
{
    let mut v: Vec<Permission> = Vec::new();
    v.push(Permission::OpsRoutesRead);
    v.push(Permission::OpsRoutesWrite);
    v.push(Permission::OpsStopsRead);
    v.push(Permission::OpsStopsWrite);
    v.push(Permission::OpsTripsRead);
    v.push(Permission::OpsTripsWrite);
    v.push(Permission::OpsConfigRead);
    v.push(Permission::NotificationsInboxRead);
    v.push(Permission::NotificationsSubscriptionsManage);
    v.push(Permission::NotificationsDndManage);
    v.push(Permission::ReportingRead);
    v.push(Permission::AlertsRead);
    proof {
        assert forall|p: Permission| dispatcher_grants(p) <==> v@.contains(p) by {
            if dispatcher_grants(p) {
                match p {
                    Permission::OpsRoutesRead => assert(v@[0] == p),
                    Permission::OpsRoutesWrite => assert(v@[1] == p),
                    Permission::OpsStopsRead => assert(v@[2] == p),
                    Permission::OpsStopsWrite => assert(v@[3] == p),
                    Permission::OpsTripsRead => assert(v@[4] == p),
                    Permission::OpsTripsWrite => assert(v@[5] == p),
                    Permission::OpsConfigRead => assert(v@[6] == p),
                    Permission::NotificationsInboxRead => assert(v@[7] == p),
                    Permission::NotificationsSubscriptionsManage => assert(v@[8] == p),
                    Permission::NotificationsDndManage => assert(v@[9] == p),
                    Permission::ReportingRead => assert(v@[10] == p),
                    Permission::AlertsRead => assert(v@[11] == p),
                    _ => {},
                }
            }
        }
    }
    v
}

fn finance_analyst_list() -> (v: Vec<Permission>)
    ensures
        forall|p: Permission| finance_analyst_grants(p) <==> v@.contains(p),
        v@.no_duplicates(),
{
    let mut v: Vec<Permission> = Vec::new();
    v.push(Permission::OpsRoutesRead);
    v.push(Permission::OpsTripsRead);
    v.push(Permission::NotificationsInboxRead);
    v.push(Permission::NotificationsSubscriptionsManage);
    v.push(Permission::NotificationsDndManage);
    v.push(Permission::PaymentsTransactionsRead);
    v.push(Permission::PaymentsTransactionsWrite);
    v.push(Permission::PaymentsRefundsRead);
    v.push(Permission::PaymentsRefundsWrite);
    v.push(Permission::PaymentsRefundsApprove);
    v.push(Permission::PaymentsReconciliationRead);
    v.push(Permission::PaymentsReconciliationRun);
    v.push(Permission::PaymentsStatementsRead);
    v.push(Permission::PaymentsStatementsImport);
    v.push(Permission::ReportingRead);
    v.push(Permission::ReportingExport);
    v.push(Permission::ReportingMetricsManage);
    v.push(Permission::AlertsRead);
    v.push(Permission::AlertsManage);
    proof {
        assert forall|p: Permission| finance_analyst_grants(p) <==> v@.contains(p) by {
            if finance_analyst_grants(p) {
                match p {
                    Permission::OpsRoutesRead => assert(v@[0] == p),
                    Permission::OpsTripsRead => assert(v@[1] == p),
                    Permission::NotificationsInboxRead => assert(v@[2] == p),
                    Permission::NotificationsSubscriptionsManage => assert(v@[3] == p),
                    Permission::NotificationsDndManage => assert(v@[4] == p),
                    Permission::PaymentsTransactionsRead => assert(v@[5] == p),
                    Permission::PaymentsTransactionsWrite => assert(v@[6] == p),
                    Permission::PaymentsRefundsRead => assert(v@[7] == p),
                    Permission::PaymentsRefundsWrite => assert(v@[8] == p),
                    Permission::PaymentsRefundsApprove => assert(v@[9] == p),
                    Permission::PaymentsReconciliationRead => assert(v@[10] == p),
                    Permission::PaymentsReconciliationRun => assert(v@[11] == p),
                    Permission::PaymentsStatementsRead => assert(v@[12] == p),
                    Permission::PaymentsStatementsImport => assert(v@[13] == p),
                    Permission::ReportingRead => assert(v@[14] == p),
                    Permission::ReportingExport => assert(v@[15] == p),
                    Permission::ReportingMetricsManage => assert(v@[16] == p),
                    Permission::AlertsRead => assert(v@[17] == p),
                    Permission::AlertsManage => assert(v@[18] == p),
                    _ => {},
                }
            }
        }
    }
    v
}

fn staff_user_list() -> (v: Vec<Permission>)
    ensures
        forall|p: Permission| staff_user_grants(p) <==> v@.contains(p),
        v@.no_duplicates(),
{
    let mut v: Vec<Permission> = Vec::new();
    v.push(Permission::OpsRoutesRead);
    v.push(Permission::OpsTripsRead);
    v.push(Permission::NotificationsInboxRead);
    v.push(Permission::NotificationsDndManage);
    v.push(Permission::NotificationsSubscriptionsManage);
    v.push(Permission::ReportingRead);
    proof {
        assert forall|p: Permission| staff_user_grants(p) <==> v@.contains(p) by {
            if staff_user_grants(p) {
                match p {
                    Permission::OpsRoutesRead => assert(v@[0] == p),
                    Permission::OpsTripsRead => assert(v@[1] == p),
                    Permission::NotificationsInboxRead => assert(v@[2] == p),
                    Permission::NotificationsDndManage => assert(v@[3] == p),
                    Permission::NotificationsSubscriptionsManage => assert(v@[4] == p),
                    Permission::ReportingRead => assert(v@[5] == p),
                    _ => {},
                }
            }
        }
    }
    v
}

/// The role-permission table: one entry per predefined role, listing exactly
/// the permissions that role holds, each once.
pub fn build_map() -> (m: Vec<RoleGrant>)
    ensures
        m@.len() == 4,
        forall|i: int| 0 <= i < 4 ==> #[trigger] m@[i].role@ == predefined_roles()[i],
        forall|i: int, p: Permission| 0 <= i < 4 ==>
            (#[trigger] role_grants(m@[i].role@, p) <==> m@[i].permissions@.contains(p)),
        forall|i: int| 0 <= i < 4 ==> (#[trigger] m@[i]).permissions@.no_duplicates(),
{
    let mut m: Vec<RoleGrant> = Vec::new();
    m.push(RoleGrant { role: ROLE_OPERATIONS_ADMIN, permissions: operations_admin_list() });
    m.push(RoleGrant { role: ROLE_DISPATCHER, permissions: dispatcher_list() });
    m.push(RoleGrant { role: ROLE_FINANCE_ANALYST, permissions: finance_analyst_list() });
    m.push(RoleGrant { role: ROLE_STAFF_USER, permissions: staff_user_list() });
    proof {
        lemma_roles_distinct();
    }
    m
}

/// The static role-permission table (see [`build_map`]).
pub fn role_permissions() -> (m: Vec<RoleGrant>)
    ensures
        m@.len() == 4,
        forall|i: int| 0 <= i < 4 ==> #[trigger] m@[i].role@ == predefined_roles()[i],
        forall|i: int, p: Permission| 0 <= i < 4 ==>
            (#[trigger] role_grants(m@[i].role@, p) <==> m@[i].permissions@.contains(p)),
        forall|i: int| 0 <= i < 4 ==> (#[trigger] m@[i]).permissions@.no_duplicates(),
{
    build_map()
}

/// Length and two characters, which together tell the permission names apart.
spec fn name_key(s: Seq<char>) -> (nat, char, char) {
    (s.len(), s[6], s[14])
}

/// Distinct permissions have distinct names.
#[verifier::rlimit(100)]
pub proof fn law_permission_names_distinct(p: Permission, q: Permission)
    requires
        p != q,
    ensures
        permission_name(p) != permission_name(q),
{
    reveal_strlit("ops:routes:read");
    reveal_strlit("ops:routes:write");
    reveal_strlit("ops:routes:delete");
    reveal_strlit("ops:stops:read");
    reveal_strlit("ops:stops:write");
    reveal_strlit("ops:stops:delete");
    reveal_strlit("ops:trips:read");
    reveal_strlit("ops:trips:write");
    reveal_strlit("ops:trips:delete");
    reveal_strlit("ops:config:read");
    reveal_strlit("ops:config:write");
    reveal_strlit("ops:config:publish");
    reveal_strlit("notifications:inbox:read");
    reveal_strlit("notifications:all:read");
    reveal_strlit("notifications:subscriptions:manage");
    reveal_strlit("notifications:dnd:manage");
    reveal_strlit("sys:announcements:write");
    reveal_strlit("payments:transactions:read");
    reveal_strlit("payments:transactions:write");
    reveal_strlit("payments:refunds:read");
    reveal_strlit("payments:refunds:write");
    reveal_strlit("payments:refunds:approve");
    reveal_strlit("payments:reconciliation:read");
    reveal_strlit("payments:reconciliation:run");
    reveal_strlit("payments:statements:read");
    reveal_strlit("payments:statements:import");
    reveal_strlit("reporting:reports:read");
    reveal_strlit("reporting:reports:export");
    reveal_strlit("reporting:metrics:manage");
    reveal_strlit("alerts:alerts:read");
    reveal_strlit("alerts:alerts:manage");
    reveal_strlit("audit:log:read");
    reveal_strlit("users:users:read");
    reveal_strlit("users:users:write");
    reveal_strlit("users:users:delete");
    reveal_strlit("users:roles:read");
    reveal_strlit("users:roles:write");
    assert(name_key(permission_name(p)) != name_key(permission_name(q)));
}

/// A non-empty run of lower-case ASCII letters.
pub open spec fn is_lower_word(s: Seq<char>) -> bool {
    s.len() > 0 && forall|i: int| 0 <= i < s.len() ==> 'a' <= #[trigger] s[i] <= 'z'
}

/// The domain, resource and action of a permission.
pub open spec fn permission_parts(p: Permission) -> (Seq<char>, Seq<char>, Seq<char>) {
    match p {
        Permission::OpsRoutesRead => ("ops"@, "routes"@, "read"@),
        Permission::OpsRoutesWrite => ("ops"@, "routes"@, "write"@),
        Permission::OpsRoutesDelete => ("ops"@, "routes"@, "delete"@),
        Permission::OpsStopsRead => ("ops"@, "stops"@, "read"@),
        Permission::OpsStopsWrite => ("ops"@, "stops"@, "write"@),
        Permission::OpsStopsDelete => ("ops"@, "stops"@, "delete"@),
        Permission::OpsTripsRead => ("ops"@, "trips"@, "read"@),
        Permission::OpsTripsWrite => ("ops"@, "trips"@, "write"@),
        Permission::OpsTripsDelete => ("ops"@, "trips"@, "delete"@),
        Permission::OpsConfigRead => ("ops"@, "config"@, "read"@),
        Permission::OpsConfigWrite => ("ops"@, "config"@, "write"@),
        Permission::OpsConfigPublish => ("ops"@, "config"@, "publish"@),
        Permission::NotificationsInboxRead => ("notifications"@, "inbox"@, "read"@),
        Permission::NotificationsReadAll => ("notifications"@, "all"@, "read"@),
        Permission::NotificationsSubscriptionsManage => ("notifications"@, "subscriptions"@, "manage"@),
        Permission::NotificationsDndManage => ("notifications"@, "dnd"@, "manage"@),
        Permission::SysAnnouncementWrite => ("sys"@, "announcements"@, "write"@),
        Permission::PaymentsTransactionsRead => ("payments"@, "transactions"@, "read"@),
        Permission::PaymentsTransactionsWrite => ("payments"@, "transactions"@, "write"@),
        Permission::PaymentsRefundsRead => ("payments"@, "refunds"@, "read"@),
        Permission::PaymentsRefundsWrite => ("payments"@, "refunds"@, "write"@),
        Permission::PaymentsRefundsApprove => ("payments"@, "refunds"@, "approve"@),
        Permission::PaymentsReconciliationRead => ("payments"@, "reconciliation"@, "read"@),
        Permission::PaymentsReconciliationRun => ("payments"@, "reconciliation"@, "run"@),
        Permission::PaymentsStatementsRead => ("payments"@, "statements"@, "read"@),
        Permission::PaymentsStatementsImport => ("payments"@, "statements"@, "import"@),
        Permission::ReportingRead => ("reporting"@, "reports"@, "read"@),
        Permission::ReportingExport => ("reporting"@, "reports"@, "export"@),
        Permission::ReportingMetricsManage => ("reporting"@, "metrics"@, "manage"@),
        Permission::AlertsRead => ("alerts"@, "alerts"@, "read"@),
        Permission::AlertsManage => ("alerts"@, "alerts"@, "manage"@),
        Permission::AuditRead => ("audit"@, "log"@, "read"@),
        Permission::UsersRead => ("users"@, "users"@, "read"@),
        Permission::UsersWrite => ("users"@, "users"@, "write"@),
        Permission::UsersDelete => ("users"@, "users"@, "delete"@),
        Permission::RolesRead => ("users"@, "roles"@, "read"@),
        Permission::RolesWrite => ("users"@, "roles"@, "write"@),
    }
}

/// Every permission name has the form `domain:resource:action`: three
/// non-empty lower-case words joined by two colons.
#[verifier::rlimit(100)]
pub proof fn law_permission_names_are_triples(p: Permission)
    ensures
        is_lower_word(permission_parts(p).0),
        is_lower_word(permission_parts(p).1),
        is_lower_word(permission_parts(p).2),
        permission_name(p) == permission_parts(p).0 + ":"@ + permission_parts(p).1 + ":"@ + permission_parts(p).2,
{
    reveal_strlit("alerts");
    reveal_strlit("all");
    reveal_strlit("announcements");
    reveal_strlit("approve");
    reveal_strlit("audit");
    reveal_strlit("config");
    reveal_strlit("delete");
    reveal_strlit("dnd");
    reveal_strlit("export");
    reveal_strlit("import");
    reveal_strlit("inbox");
    reveal_strlit("log");
    reveal_strlit("manage");
    reveal_strlit("metrics");
    reveal_strlit("notifications");
    reveal_strlit("ops");
    reveal_strlit("payments");
    reveal_strlit("publish");
    reveal_strlit("read");
    reveal_strlit("reconciliation");
    reveal_strlit("refunds");
    reveal_strlit("reporting");
    reveal_strlit("reports");
    reveal_strlit("roles");
    reveal_strlit("routes");
    reveal_strlit("run");
    reveal_strlit("statements");
    reveal_strlit("stops");
    reveal_strlit("subscriptions");
    reveal_strlit("sys");
    reveal_strlit("transactions");
    reveal_strlit("trips");
    reveal_strlit("users");
    reveal_strlit("write");
    reveal_strlit(":");
    reveal_strlit("ops:routes:read");
    reveal_strlit("ops:routes:write");
    reveal_strlit("ops:routes:delete");
    reveal_strlit("ops:stops:read");
    reveal_strlit("ops:stops:write");
    reveal_strlit("ops:stops:delete");
    reveal_strlit("ops:trips:read");
    reveal_strlit("ops:trips:write");
    reveal_strlit("ops:trips:delete");
    reveal_strlit("ops:config:read");
    reveal_strlit("ops:config:write");
    reveal_strlit("ops:config:publish");
    reveal_strlit("notifications:inbox:read");
    reveal_strlit("notifications:all:read");
    reveal_strlit("notifications:subscriptions:manage");
    reveal_strlit("notifications:dnd:manage");
    reveal_strlit("sys:announcements:write");
    reveal_strlit("payments:transactions:read");
    reveal_strlit("payments:transactions:write");
    reveal_strlit("payments:refunds:read");
    reveal_strlit("payments:refunds:write");
    reveal_strlit("payments:refunds:approve");
    reveal_strlit("payments:reconciliation:read");
    reveal_strlit("payments:reconciliation:run");
    reveal_strlit("payments:statements:read");
    reveal_strlit("payments:statements:import");
    reveal_strlit("reporting:reports:read");
    reveal_strlit("reporting:reports:export");
    reveal_strlit("reporting:metrics:manage");
    reveal_strlit("alerts:alerts:read");
    reveal_strlit("alerts:alerts:manage");
    reveal_strlit("audit:log:read");
    reveal_strlit("users:users:read");
    reveal_strlit("users:users:write");
    reveal_strlit("users:users:delete");
    reveal_strlit("users:roles:read");
    reveal_strlit("users:roles:write");
    assert(permission_name(p) =~= permission_parts(p).0 + ":"@ + permission_parts(p).1 + ":"@ + permission_parts(p).2);
}

} // verus!
