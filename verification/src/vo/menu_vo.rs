//! Request and response shapes of the menu handlers.

use vstd::prelude::*;

verus! {

/// Lists menus, optionally only those in one state.
#[derive(Debug)]
pub struct MenuListReq {
    pub status_id: Option<i8>,
}

/// One listed menu.
#[derive(Debug, Clone)]
pub struct MenuListData {
    pub id: i64,
    pub sort: i32,
    pub status_id: i8,
    pub parent_id: i64,
    pub menu_name: String,
    pub label: String,
    pub menu_url: String,
    pub icon: String,
    pub api_url: String,
    pub remark: String,
    pub menu_type: i8,
    pub create_time: String,
    pub update_time: String,
}

/// Adds a menu.
#[derive(Debug)]
pub struct MenuSaveReq {
    pub sort: i32,
    pub status_id: i8,
    pub parent_id: Option<i64>,
    pub menu_name: String,
    pub menu_url: String,
    pub icon: Option<String>,
    pub api_url: String,
    pub remark: Option<String>,
    pub menu_type: i8,
}

/// Updates a menu.
#[derive(Debug)]
pub struct MenuUpdateReq {
    pub id: i64,
    pub sort: i32,
    pub status_id: i8,
    pub parent_id: i64,
    pub menu_name: String,
    pub menu_url: String,
    pub icon: Option<String>,
    pub api_url: String,
    pub remark: Option<String>,
    pub menu_type: i8,
}

/// Deletes a menu.
#[derive(Debug)]
pub struct MenuDeleteReq {
    pub id: i64,
}

} // verus!
