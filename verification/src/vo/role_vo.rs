//! Request and response shapes of the role handlers.

use vstd::prelude::*;

verus! {

/// Lists roles by page, optionally filtered by name and state.
#[derive(Debug)]
pub struct RoleListReq {
    pub page_no: i64,
    pub page_size: i64,
    pub role_name: Option<String>,
    pub status_id: Option<i8>,
}

/// One listed role.
#[derive(Debug, Clone)]
pub struct RoleListData {
    pub id: i64,
    pub sort: i32,
    pub status_id: i8,
    pub role_name: String,
    pub remark: String,
    pub create_time: String,
    pub update_time: String,
}

/// Adds a role.
#[derive(Debug)]
pub struct RoleSaveReq {
    pub role_name: String,
    pub sort: i32,
    pub status_id: i8,
    pub remark: Option<String>,
}

/// Updates a role.
#[derive(Debug)]
pub struct RoleUpdateReq {
    pub id: i64,
    pub sort: i32,
    pub status_id: i8,
    pub role_name: String,
    pub remark: Option<String>,
}

/// Deletes roles.
#[derive(Debug)]
pub struct RoleDeleteReq {
    pub ids: Vec<i64>,
}

/// Asks which menus a role is assigned.
#[derive(Debug)]
pub struct QueryRoleMenuReq {
    pub role_id: i64,
}

/// The menus of a role: the assigned ids and the full menu tree.
#[derive(Debug)]
pub struct QueryRoleMenuData {
    pub role_menus: Vec<i64>,
    pub menu_list: Vec<MenuDataList>,
}

/// One menu node of the selection tree.
#[derive(Debug, Clone)]
pub struct MenuDataList {
    pub id: i64,
    pub parent_id: i64,
    pub title: String,
    pub key: String,
    pub label: String,
    pub is_penultimate: bool,
}

/// Replaces the menus assigned to a role.
#[derive(Debug)]
pub struct UpdateRoleMenuReq {
    pub menu_ids: Vec<i64>,
    pub role_id: i64,
}

} // verus!
