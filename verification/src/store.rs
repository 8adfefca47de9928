//! In-memory image of the external user, role and menu stores.
//!
//! The real stores live outside the library (a relational database). The
//! resolver and the session issuer take this snapshot as an explicitly
//! constructed argument and are pure over it: they never reach for a hidden
//! global handle, and the caller decides where the rows come from.

use vstd::prelude::*;

verus! {

/// A user row. The password is held as a salted hash: `password_hash` is
/// the tag of the cleartext under `password_salt` (see `hash_password`),
/// never the cleartext itself.
pub struct SysUser {
    pub id: i64,
    pub mobile: String,
    pub user_name: String,
    pub password_salt: String,
    pub password_hash: String,
    pub status_id: i32,
    pub sort: i32,
    pub remark: String,
    pub create_time: String,
    pub update_time: String,
}

/// A role row.
pub struct SysRole {
    pub id: i64,
    pub role_name: String,
    pub status_id: i8,
    pub sort: i32,
    pub remark: String,
    pub create_time: String,
    pub update_time: String,
}

/// A menu row: a navigable unit. A node protects a backend route exactly
/// when its `api_url` is non-empty; grouping nodes leave it empty.
pub struct SysMenu {
    pub id: i64,
    pub menu_name: String,
    pub menu_type: i8,
    pub status_id: i8,
    pub sort: i32,
    pub parent_id: i64,
    pub menu_url: String,
    pub api_url: String,
    pub menu_icon: String,
    pub remark: String,
    pub create_time: String,
    pub update_time: String,
}

/// A user-to-role assignment.
pub struct SysUserRole {
    pub user_id: i64,
    pub role_id: i64,
}

/// A role-to-menu assignment.
pub struct SysRoleMenu {
    pub role_id: i64,
    pub menu_id: i64,
}

/// One snapshot of the external stores, read-only for this library.
pub struct Store {
    pub users: Vec<SysUser>,
    pub roles: Vec<SysRole>,
    pub user_roles: Vec<SysUserRole>,
    pub role_menus: Vec<SysRoleMenu>,
    pub menus: Vec<SysMenu>,
}

} // verus!
