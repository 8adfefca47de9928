//! The whole chain: a superuser logs in, then its token gates requests.

use admin_auth::auth::{authorize, AuthDecision, DenyReason};
use admin_auth::session::{login, ClientAttrs};
use admin_auth::store::{Store, SysMenu, SysUser, SysUserRole};
use admin_auth::token::hash_password;

fn menu(id: i64, api_url: &str) -> SysMenu {
    SysMenu {
        id,
        menu_name: format!("menu {}", id),
        menu_type: 1,
        status_id: 1,
        sort: id as i32,
        parent_id: 0,
        menu_url: String::new(),
        api_url: api_url.to_string(),
        menu_icon: String::new(),
        remark: String::new(),
        create_time: String::new(),
        update_time: String::new(),
    }
}

fn attrs() -> ClientAttrs {
    ClientAttrs {
        ipaddr: "10.0.0.1".to_string(),
        login_location: "hq".to_string(),
        platform: "test".to_string(),
        browser: "cli".to_string(),
        version: "1".to_string(),
        os: "linux".to_string(),
        arch: "x86_64".to_string(),
        engine: "none".to_string(),
        engine_details: "".to_string(),
        extra: "".to_string(),
    }
}

#[test]
fn superuser_login_then_request_gating() {
    // principal id 1 is superuser; the system has three menus, one of
    // which is a grouping node without an api path
    let store = Store {
        users: vec![SysUser {
            id: 1,
            mobile: "13800000001".to_string(),
            user_name: "root".to_string(),
            password_hash: hash_password("s1", "root-pw"),
            password_salt: "s1".to_string(),
            status_id: 1,
            sort: 0,
            remark: String::new(),
            create_time: String::new(),
            update_time: String::new(),
        }],
        roles: Vec::new(),
        user_roles: vec![SysUserRole {
            user_id: 1,
            role_id: 1,
        }],
        role_menus: Vec::new(),
        menus: vec![menu(10, "/user/add"), menu(11, "/user/del"), menu(12, "")],
    };

    let out = login(&store, "13800000001", "root-pw", &attrs(), "secret", 3600, 1000);
    let session = out.result.expect("superuser login succeeds");
    let mut got = session.credential.permissions.clone();
    got.sort();
    assert_eq!(got, vec!["/user/add".to_string(), "/user/del".to_string()]);

    let header = format!("Bearer {}", session.token);
    let login_path = "/api/system/login";
    assert!(matches!(
        authorize("secret", login_path, "/user/add", Some(&header), 1001),
        AuthDecision::Forward(1)
    ));
    assert!(matches!(
        authorize("secret", login_path, "/role/add", Some(&header), 1001),
        AuthDecision::Deny(DenyReason::Forbidden)
    ));
}
