use admin_auth::auth::{authorize, AuthDecision, DenyReason};
use admin_auth::token::{mint, TokenError};

const LOGIN: &str = "/api/system/login";

fn perms(ps: &[&str]) -> Vec<String> {
    ps.iter().map(|p| p.to_string()).collect()
}

#[test]
fn login_route_is_forwarded_without_a_header() {
    assert!(matches!(
        authorize("secret", LOGIN, "/api/system/login", None, 100),
        AuthDecision::ForwardLogin
    ));
}

#[test]
fn login_route_is_forwarded_whatever_the_header_holds() {
    assert!(matches!(
        authorize("secret", LOGIN, "/api/system/login", Some("garbage"), 100),
        AuthDecision::ForwardLogin
    ));
}

#[test]
fn guarded_route_without_a_header_is_denied() {
    assert!(matches!(
        authorize("secret", LOGIN, "/user/add", None, 100),
        AuthDecision::Deny(DenyReason::MissingToken)
    ));
}

#[test]
fn guarded_route_with_an_empty_header_is_denied() {
    assert!(matches!(
        authorize("secret", LOGIN, "/user/add", Some(""), 100),
        AuthDecision::Deny(DenyReason::MissingToken)
    ));
}

#[test]
fn routes_merely_containing_login_are_still_guarded() {
    // only the one registered login path bypasses the credential check:
    // look-alike routes such as the login-audit CRUD fail closed
    assert!(matches!(
        authorize("secret", LOGIN, "/loginLog/queryLoginLogList", None, 100),
        AuthDecision::Deny(DenyReason::MissingToken)
    ));
    assert!(matches!(
        authorize("secret", LOGIN, "/prelogin", None, 100),
        AuthDecision::Deny(DenyReason::MissingToken)
    ));
    assert!(matches!(
        authorize("secret", LOGIN, "/api/system/login/", None, 100),
        AuthDecision::Deny(DenyReason::MissingToken)
    ));
}

#[test]
fn granted_path_is_forwarded_with_the_principal_id() {
    let token = mint("secret", 42, "alice", &perms(&["/user/add"]), 100, 50);
    let header = format!("Bearer {}", token);
    assert!(matches!(
        authorize("secret", LOGIN, "/user/add", Some(&header), 60),
        AuthDecision::Forward(42)
    ));
}

#[test]
fn header_without_scheme_prefix_is_accepted_too() {
    let token = mint("secret", 42, "alice", &perms(&["/user/add"]), 100, 50);
    assert!(matches!(
        authorize("secret", LOGIN, "/user/add", Some(&token), 60),
        AuthDecision::Forward(42)
    ));
}

#[test]
fn valid_token_without_the_path_is_forbidden() {
    let token = mint("secret", 42, "alice", &perms(&["/user/add"]), 100, 50);
    let header = format!("Bearer {}", token);
    assert!(matches!(
        authorize("secret", LOGIN, "/role/add", Some(&header), 60),
        AuthDecision::Deny(DenyReason::Forbidden)
    ));
}

#[test]
fn malformed_token_is_denied_as_invalid() {
    assert!(matches!(
        authorize("secret", LOGIN, "/user/add", Some("Bearer not-a-token"), 60),
        AuthDecision::Deny(DenyReason::Invalid(TokenError::Malformed))
    ));
}

#[test]
fn expired_token_is_denied_as_invalid() {
    let token = mint("secret", 42, "alice", &perms(&["/user/add"]), 100, 50);
    let header = format!("Bearer {}", token);
    assert!(matches!(
        authorize("secret", LOGIN, "/user/add", Some(&header), 150),
        AuthDecision::Deny(DenyReason::Invalid(TokenError::Expired))
    ));
}

#[test]
fn token_signed_under_another_secret_is_denied() {
    let token = mint("other", 42, "alice", &perms(&["/user/add"]), 100, 50);
    let header = format!("Bearer {}", token);
    assert!(matches!(
        authorize("secret", LOGIN, "/user/add", Some(&header), 60),
        AuthDecision::Deny(DenyReason::Invalid(TokenError::SignatureMismatch))
    ));
}
