use admin_auth::perm::{is_superuser, reachable_menus, resolve_permissions};
use admin_auth::store::{Store, SysMenu, SysRoleMenu, SysUserRole};

fn menu(id: i64, api_url: &str) -> SysMenu {
    SysMenu {
        id,
        menu_name: format!("menu {}", id),
        menu_type: 1,
        status_id: 1,
        sort: id as i32,
        parent_id: 0,
        menu_url: String::new(),
        api_url: api_url.to_string(),
        menu_icon: String::new(),
        remark: String::new(),
        create_time: String::new(),
        update_time: String::new(),
    }
}

fn store(
    user_roles: Vec<SysUserRole>,
    role_menus: Vec<SysRoleMenu>,
    menus: Vec<SysMenu>,
) -> Store {
    Store {
        users: Vec::new(),
        roles: Vec::new(),
        user_roles,
        role_menus,
        menus,
    }
}

fn sorted(mut v: Vec<String>) -> Vec<String> {
    v.sort();
    v
}

#[test]
fn superuser_gets_every_nonempty_api_path() {
    let s = store(
        vec![SysUserRole {
            user_id: 1,
            role_id: 1,
        }],
        Vec::new(), // no explicit role-to-menu assignments at all
        vec![menu(10, "/user/add"), menu(11, "/user/del"), menu(12, "")],
    );
    assert!(is_superuser(&s, 1));
    let got = sorted(resolve_permissions(&s, 1));
    assert_eq!(got, vec!["/user/add".to_string(), "/user/del".to_string()]);
}

#[test]
fn principal_with_no_roles_resolves_to_the_empty_set() {
    let s = store(
        vec![SysUserRole {
            user_id: 1,
            role_id: 1,
        }],
        vec![SysRoleMenu {
            role_id: 1,
            menu_id: 10,
        }],
        vec![menu(10, "/user/add")],
    );
    assert!(!is_superuser(&s, 2));
    assert!(resolve_permissions(&s, 2).is_empty());
}

#[test]
fn ordinary_principal_gets_only_its_role_chain() {
    let s = store(
        vec![
            SysUserRole {
                user_id: 5,
                role_id: 20,
            },
            SysUserRole {
                user_id: 6,
                role_id: 21,
            },
        ],
        vec![
            SysRoleMenu {
                role_id: 20,
                menu_id: 10,
            },
            SysRoleMenu {
                role_id: 21,
                menu_id: 11,
            },
        ],
        vec![menu(10, "/user/add"), menu(11, "/user/del"), menu(12, "/role/add")],
    );
    assert_eq!(
        resolve_permissions(&s, 5),
        vec!["/user/add".to_string()]
    );
    assert_eq!(
        resolve_permissions(&s, 6),
        vec!["/user/del".to_string()]
    );
}

#[test]
fn duplicate_grants_appear_once() {
    // two roles of the same user both reach menu 10, and two menus carry
    // the same api path
    let s = store(
        vec![
            SysUserRole {
                user_id: 5,
                role_id: 20,
            },
            SysUserRole {
                user_id: 5,
                role_id: 21,
            },
        ],
        vec![
            SysRoleMenu {
                role_id: 20,
                menu_id: 10,
            },
            SysRoleMenu {
                role_id: 21,
                menu_id: 10,
            },
            SysRoleMenu {
                role_id: 21,
                menu_id: 11,
            },
        ],
        vec![menu(10, "/user/add"), menu(11, "/user/add")],
    );
    assert_eq!(
        resolve_permissions(&s, 5),
        vec!["/user/add".to_string()]
    );
}

#[test]
fn empty_api_paths_never_become_permissions() {
    let s = store(
        vec![SysUserRole {
            user_id: 5,
            role_id: 20,
        }],
        vec![SysRoleMenu {
            role_id: 20,
            menu_id: 12,
        }],
        vec![menu(12, "")],
    );
    assert!(resolve_permissions(&s, 5).is_empty());
}

#[test]
fn reachable_menus_follow_the_role_chain() {
    let s = store(
        vec![
            SysUserRole { user_id: 1, role_id: 1 },
            SysUserRole { user_id: 5, role_id: 20 },
        ],
        vec![SysRoleMenu { role_id: 20, menu_id: 11 }],
        vec![menu(10, "/user/add"), menu(11, "/user/del")],
    );
    let all: Vec<i64> = reachable_menus(&s, 1).iter().map(|m| m.id).collect();
    assert_eq!(all, vec![10, 11]);
    let some: Vec<i64> = reachable_menus(&s, 5).iter().map(|m| m.id).collect();
    assert_eq!(some, vec![11]);
    assert!(reachable_menus(&s, 6).is_empty());
}
