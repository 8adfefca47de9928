use admin_auth::session::{login, ClientAttrs, LoginError};
use admin_auth::store::{Store, SysMenu, SysRoleMenu, SysUser, SysUserRole};
use admin_auth::token::{hash_password, verify};

fn attrs() -> ClientAttrs {
    ClientAttrs {
        ipaddr: "127.0.0.1".to_string(),
        login_location: "local".to_string(),
        platform: "test".to_string(),
        browser: "none".to_string(),
        version: "1".to_string(),
        os: "linux".to_string(),
        arch: "x86_64".to_string(),
        engine: "none".to_string(),
        engine_details: "".to_string(),
        extra: "".to_string(),
    }
}

fn user(id: i64, mobile: &str, password: &str) -> SysUser {
    let salt = format!("salt-{}", id);
    SysUser {
        id,
        mobile: mobile.to_string(),
        user_name: format!("user {}", id),
        password_hash: hash_password(&salt, password),
        password_salt: salt,
        status_id: 1,
        sort: 0,
        remark: String::new(),
        create_time: String::new(),
        update_time: String::new(),
    }
}

fn menu(id: i64, api_url: &str) -> SysMenu {
    SysMenu {
        id,
        menu_name: format!("menu {}", id),
        menu_type: 1,
        status_id: 1,
        sort: id as i32,
        parent_id: 0,
        menu_url: String::new(),
        api_url: api_url.to_string(),
        menu_icon: String::new(),
        remark: String::new(),
        create_time: String::new(),
        update_time: String::new(),
    }
}

fn demo_store() -> Store {
    Store {
        users: vec![user(1, "13800000001", "pw-one"), user(2, "13800000002", "pw-two")],
        roles: Vec::new(),
        user_roles: vec![SysUserRole {
            user_id: 1,
            role_id: 1,
        }],
        role_menus: vec![SysRoleMenu {
            role_id: 1,
            menu_id: 10,
        }],
        menus: vec![menu(10, "/user/add"), menu(11, "/user/del")],
    }
}

#[test]
fn successful_login_mints_a_verifiable_token() {
    let s = demo_store();
    let out = login(&s, "13800000001", "pw-one", &attrs(), "secret", 3600, 1000);
    let session = out.result.expect("login succeeds");
    assert_eq!(session.credential.id, 1);
    assert_eq!(session.credential.user_name, "user 1");
    assert_eq!(session.credential.iat, 1000);
    assert_eq!(session.credential.exp, 4600);
    let mut got = session.credential.permissions.clone();
    got.sort();
    assert_eq!(got, vec!["/user/add".to_string(), "/user/del".to_string()]);
    let decoded = verify("secret", &session.token, 2000).expect("token verifies");
    assert_eq!(decoded.id, 1);
    assert_eq!(decoded.permissions, session.credential.permissions);
    assert_eq!(out.audit.status, 1);
    assert_eq!(out.audit.msg, "login ok");
    assert_eq!(out.audit.login_name, "13800000001");
    assert_eq!(out.audit.ipaddr, "127.0.0.1");
    let up = out.update.expect("last login is updated");
    assert_eq!(up.principal_id, 1);
    assert_eq!(up.login_os, "linux");
    assert_eq!(up.login_browser, "none");
    assert_eq!(up.login_time, 1000);
}

#[test]
fn unknown_account_is_refused_and_audited() {
    let s = demo_store();
    let out = login(&s, "000", "pw", &attrs(), "secret", 3600, 1000);
    assert!(matches!(out.result, Err(LoginError::AccountNotFound)));
    assert_eq!(out.audit.status, 0);
    assert_eq!(out.audit.msg, "account not found");
    assert_eq!(out.audit.login_name, "000");
    assert!(out.update.is_none());
}

#[test]
fn wrong_password_is_refused_and_audited() {
    let s = demo_store();
    let out = login(&s, "13800000001", "wrong", &attrs(), "secret", 3600, 1000);
    assert!(matches!(out.result, Err(LoginError::PasswordMismatch)));
    assert_eq!(out.audit.status, 0);
    assert_eq!(out.audit.msg, "password mismatch");
    assert!(out.update.is_none());
}

#[test]
fn correct_password_without_permissions_is_refused() {
    // user 2 has the right password but no role assignments at all
    let s = demo_store();
    let out = login(&s, "13800000002", "pw-two", &attrs(), "secret", 3600, 1000);
    assert!(matches!(out.result, Err(LoginError::NoPermissionsGranted)));
    assert_eq!(out.audit.status, 0);
    assert_eq!(out.audit.msg, "no permissions granted");
    assert!(out.update.is_none());
}

#[test]
fn stored_password_is_not_the_cleartext() {
    // the wrapper must really digest: the stored hash differs from the
    // cleartext and from the salt, and two salts give two hashes
    let h1 = hash_password("salt-a", "pw");
    let h2 = hash_password("salt-b", "pw");
    assert_ne!(h1, "pw");
    assert_ne!(h1, "salt-a");
    assert_ne!(h1, h2);
    assert_eq!(h1.len(), 64);
    assert_eq!(h1, hash_password("salt-a", "pw"));
}
