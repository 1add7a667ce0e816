//! Role-based access control: the permission catalogue and the static
//! role-to-permission policy.
pub mod middleware;
pub mod permissions;
