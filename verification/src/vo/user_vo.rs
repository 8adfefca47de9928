//! Request and response shapes of the user handlers.

use vstd::prelude::*;

verus! {

/// A login attempt.
#[derive(Debug)]
pub struct UserLoginReq {
    pub mobile: String,
    pub password: String,
}

/// Asks which roles a user holds.
#[derive(Debug)]
pub struct QueryUserRoleReq {
    pub user_id: i32,
}

/// The roles of a user: all roles, and the ids of those assigned.
#[derive(Debug)]
pub struct QueryUserRoleData {
    pub sys_role_list: Vec<UserRoleList>,
    pub user_role_ids: Vec<i64>,
}

/// One role in the assignment list.
#[derive(Debug, Clone)]
pub struct UserRoleList {
    pub id: i64,
    pub status_id: i8,
    pub sort: i32,
    pub role_name: String,
    pub remark: String,
    pub create_time: String,
    pub update_time: String,
}

/// Replaces the roles assigned to a user.
#[derive(Debug)]
pub struct UpdateUserRoleReq {
    pub user_id: i64,
    pub role_ids: Vec<i64>,
}

/// Asks for the calling user's menus, by its credential.
#[derive(Debug)]
pub struct QueryUserMenuReq {
    pub token: String,
}

/// The envelope of a user-menu query.
#[derive(Debug)]
pub struct QueryUserMenuResp {
    pub msg: String,
    pub code: i32,
    pub data: QueryUserMenuData,
    pub success: bool,
}

/// The menus a user may see and the routes it may invoke.
#[derive(Debug)]
pub struct QueryUserMenuData {
    pub sys_menu: Vec<MenuUserList>,
    pub btn_menu: Vec<String>,
    pub avatar: String,
    pub name: String,
}

/// One menu node shown to the user.
#[derive(Debug, Clone, PartialEq, Eq, Hash)]
pub struct MenuUserList {
    pub id: i64,
    pub parent_id: i64,
    pub name: String,
    pub path: String,
    pub api_url: String,
    pub menu_type: i8,
    pub icon: String,
}

/// Lists users by page, optionally filtered by mobile and state.
#[derive(Debug)]
pub struct UserListReq {
    pub page_no: u64,
    pub page_size: u64,
    pub mobile: Option<String>,
    pub status_id: Option<i8>,
}

/// The envelope of a user-list query.
#[derive(Debug)]
pub struct UserListResp {
    pub msg: String,
    pub code: i32,
    pub success: bool,
    pub total: u64,
    pub data: Option<Vec<UserListData>>,
}

/// One listed user.
#[derive(Debug, Clone)]
pub struct UserListData {
    pub id: i64,
    pub sort: i32,
    pub status_id: i32,
    pub mobile: String,
    pub user_name: String,
    pub remark: String,
    pub create_time: String,
    pub update_time: String,
}

/// Adds a user.
#[derive(Debug)]
pub struct UserSaveReq {
    pub mobile: String,
    pub user_name: String,
    pub status_id: i32,
    pub sort: i32,
    pub remark: Option<String>,
}

/// Updates a user.
#[derive(Debug)]
pub struct UserUpdateReq {
    pub id: i64,
    pub sort: i32,
    pub status_id: i32,
    pub mobile: String,
    pub user_name: String,
    pub remark: Option<String>,
}

/// Deletes users.
#[derive(Debug)]
pub struct UserDeleteReq {
    pub ids: Vec<i64>,
}

/// Changes the calling user's password.
#[derive(Debug)]
pub struct UpdateUserPwdReq {
    pub id: i64,
    pub pwd: String,
    pub re_pwd: String,
}

} // verus!
