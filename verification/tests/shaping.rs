//! The pure handler cores: list shaping, guards, and formatting.

use admin_auth::decfmt::{i64_to_dec, u64_to_dec};
use admin_auth::handlers::{
    change_password, deletable_user_ids, menu_list_data, query_role_menu_data,
    query_user_role_data, role_list_data, update_user_role_allowed, user_list_data,
    user_menu_data, user_role_rows, role_menu_rows,
};
use admin_auth::response::{err_result_msg, err_result_page, handle_result, ok_result_data, ok_result_msg, ok_result_page};
use admin_auth::store::{SysMenu, SysRole, SysRoleMenu, SysUser, SysUserRole};
use admin_auth::token::hash_password;

fn menu(id: i64, parent_id: i64, status_id: i8, menu_type: i8, api_url: &str) -> SysMenu {
    SysMenu {
        id,
        menu_name: format!("m{}", id),
        menu_type,
        status_id,
        sort: id as i32,
        parent_id,
        menu_url: format!("/page/{}", id),
        api_url: api_url.to_string(),
        menu_icon: format!("icon{}", id),
        remark: "r".to_string(),
        create_time: "2024-01-01".to_string(),
        update_time: "2024-01-02".to_string(),
    }
}

fn role(id: i64, name: &str, status_id: i8) -> SysRole {
    SysRole {
        id,
        role_name: name.to_string(),
        status_id,
        sort: id as i32,
        remark: "r".to_string(),
        create_time: "2024-01-01".to_string(),
        update_time: "2024-01-02".to_string(),
    }
}

fn user(id: i64, mobile: &str, status_id: i32) -> SysUser {
    SysUser {
        id,
        mobile: mobile.to_string(),
        user_name: format!("u{}", id),
        password_salt: "s".to_string(),
        password_hash: hash_password("s", "pw"),
        status_id,
        sort: id as i32,
        remark: "r".to_string(),
        create_time: "2024-01-01".to_string(),
        update_time: "2024-01-02".to_string(),
    }
}

#[test]
fn decimal_formatting_is_exact() {
    assert_eq!(u64_to_dec(0), "0");
    assert_eq!(u64_to_dec(907), "907");
    assert_eq!(u64_to_dec(u64::MAX), "18446744073709551615");
    assert_eq!(i64_to_dec(42), "42");
    assert_eq!(i64_to_dec(-5), "-5");
    assert_eq!(i64_to_dec(i64::MIN), "-9223372036854775808");
}

#[test]
fn menu_list_maps_and_filters_by_state() {
    let menus = vec![menu(1, 0, 1, 1, "/a"), menu(2, 0, 2, 1, "/b")];
    let all = menu_list_data(&menus, None);
    assert_eq!(all.len(), 2);
    assert_eq!(all[0].id, 1);
    assert_eq!(all[0].menu_name, "m1");
    assert_eq!(all[0].label, "m1");
    assert_eq!(all[0].icon, "icon1");
    assert_eq!(all[0].api_url, "/a");
    assert_eq!(all[0].create_time, "2024-01-01");
    let enabled = menu_list_data(&menus, Some(1));
    assert_eq!(enabled.len(), 1);
    assert_eq!(enabled[0].id, 1);
}

#[test]
fn role_list_filters_by_name_and_state() {
    let roles = vec![role(1, "admin", 1), role(2, "clerk", 1), role(3, "clerk", 2)];
    let named = role_list_data(&roles, Some("clerk"), None);
    assert_eq!(named.len(), 2);
    assert_eq!(named[0].id, 2);
    let both = role_list_data(&roles, Some("clerk"), Some(2));
    assert_eq!(both.len(), 1);
    assert_eq!(both[0].id, 3);
    assert_eq!(both[0].role_name, "clerk");
}

#[test]
fn user_list_filters_by_mobile_and_state() {
    let users = vec![user(1, "111", 1), user(2, "222", 1), user(3, "222", 2)];
    let by_mobile = user_list_data(&users, Some("222"), None);
    assert_eq!(by_mobile.len(), 2);
    assert_eq!(by_mobile[0].id, 2);
    assert_eq!(by_mobile[0].user_name, "u2");
    let by_state = user_list_data(&users, None, Some(2));
    assert_eq!(by_state.len(), 1);
    assert_eq!(by_state[0].id, 3);
}

#[test]
fn role_menu_view_honors_the_superuser_role() {
    let menus = vec![menu(1, 0, 1, 1, "/a"), menu(2, 1, 1, 1, "/b"), menu(3, 2, 1, 1, "/c")];
    let role_menus = vec![
        SysRoleMenu { role_id: 9, menu_id: 1 },
        SysRoleMenu { role_id: 8, menu_id: 2 },
        SysRoleMenu { role_id: 9, menu_id: 3 },
    ];
    let su = query_role_menu_data(&menus, &role_menus, 1);
    assert_eq!(su.role_menus, vec![1, 2, 3]);
    assert_eq!(su.menu_list.len(), 3);
    assert_eq!(su.menu_list[0].key, "1");
    assert_eq!(su.menu_list[0].title, "m1");
    assert!(!su.menu_list[0].is_penultimate);
    assert!(su.menu_list[2].is_penultimate);
    let plain = query_role_menu_data(&menus, &role_menus, 9);
    assert_eq!(plain.role_menus, vec![1, 3]);
}

#[test]
fn user_role_view_lists_all_roles_and_the_assigned_ids() {
    let roles = vec![role(1, "admin", 1), role(2, "clerk", 1)];
    let assignments = vec![
        SysUserRole { user_id: 5, role_id: 2 },
        SysUserRole { user_id: 6, role_id: 1 },
    ];
    let got = query_user_role_data(&roles, &assignments, 5);
    assert_eq!(got.sys_role_list.len(), 2);
    assert_eq!(got.sys_role_list[0].role_name, "admin");
    assert_eq!(got.user_role_ids, vec![2]);
}

#[test]
fn user_menu_view_collects_buttons_and_shown_nodes() {
    // reachable: a visible section (id 1), a visible button (type 3) under
    // it, and a hidden node (state 0) that must contribute nothing
    let reachable = vec![
        menu(1, 0, 1, 1, "/a"),
        menu(9, 1, 1, 3, "/a/button"),
        menu(5, 0, 0, 1, "/hidden"),
    ];
    let all = vec![
        menu(1, 0, 1, 1, "/a"),   // shown: reachable itself
        menu(0, 0, 1, 1, ""),     // shown: menu 1 hangs under id 0
        menu(5, 0, 0, 1, "/hidden"), // its only reachable row is hidden
        menu(8, 0, 1, 1, "/y"),   // unrelated: not shown
    ];
    let got = user_menu_data("alice", &reachable, &all);
    assert_eq!(got.name, "alice");
    assert_eq!(got.btn_menu, vec!["/a".to_string(), "/a/button".to_string()]);
    let shown: Vec<i64> = got.sys_menu.iter().map(|d| d.id).collect();
    assert_eq!(shown, vec![1, 0]);
    assert_eq!(got.sys_menu[0].name, "m1");
    assert_eq!(got.sys_menu[0].path, "/page/1");
}

#[test]
fn reserved_user_cannot_be_deleted_or_reassigned() {
    assert_eq!(deletable_user_ids(&vec![1, 2, 1, 3]), vec![2, 3]);
    assert!(deletable_user_ids(&vec![1, 1]).is_empty());
    assert!(!update_user_role_allowed(1));
    assert!(update_user_role_allowed(2));
}

#[test]
fn assignment_rows_carry_the_requested_ids() {
    let ur = user_role_rows(5, &vec![7, 8]);
    assert_eq!(ur.len(), 2);
    assert_eq!((ur[0].user_id, ur[0].role_id), (5, 7));
    assert_eq!((ur[1].user_id, ur[1].role_id), (5, 8));
    let rm = role_menu_rows(9, &vec![3]);
    assert_eq!((rm[0].role_id, rm[0].menu_id), (9, 3));
}

#[test]
fn password_change_needs_the_old_password() {
    let u = user(4, "444", 1);
    assert!(change_password(&u, "wrong", "new-salt", "new-pw").is_none());
    let changed = change_password(&u, "pw", "new-salt", "new-pw").expect("old password matches");
    assert_eq!(changed.id, 4);
    assert_eq!(changed.password_salt, "new-salt");
    assert_eq!(changed.password_hash, hash_password("new-salt", "new-pw"));
    assert_eq!(changed.mobile, "444");
}

#[test]
fn envelopes_carry_the_uniform_codes() {
    let ok = ok_result_msg("done");
    assert_eq!((ok.code, ok.msg.as_str()), (0, "done"));
    assert_eq!(ok.data.as_deref(), Some("None"));
    let bare = admin_auth::response::ok_result();
    assert_eq!((bare.code, bare.msg.as_str()), (0, "操作成功"));
    assert_eq!(bare.data.as_deref(), Some("None"));
    let err = err_result_msg("bad");
    assert_eq!((err.code, err.msg.as_str()), (1, "bad"));
    assert_eq!(err.data.as_deref(), Some("None"));
    let with_data = ok_result_data(vec![1, 2, 3]);
    assert_eq!((with_data.code, with_data.msg.as_str()), (0, "操作成功"));
    assert_eq!(with_data.data, Some(vec![1, 2, 3]));
    let handled_ok = handle_result::<u64>(Ok(9));
    assert_eq!((handled_ok.code, handled_ok.msg.as_str()), (0, "操作成功"));
    let handled_err = handle_result::<u64>(Err("boom".to_string()));
    assert_eq!((handled_err.code, handled_err.msg.as_str()), (1, "boom"));
    let page = ok_result_page(vec!["x"], 17);
    assert!(page.success);
    assert_eq!((page.code, page.total), (0, 17));
    assert_eq!(page.msg, "操作成功");
    let bad_page = err_result_page(Vec::<String>::new(), "nope");
    assert!(!bad_page.success);
    assert_eq!((bad_page.code, bad_page.total, bad_page.msg.as_str()), (1, 0, "nope"));
}
