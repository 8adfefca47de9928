use admin_auth::token::{mint, verify, TokenError};

fn perms(ps: &[&str]) -> Vec<String> {
    ps.iter().map(|p| p.to_string()).collect()
}

#[test]
fn mint_then_verify_returns_the_same_credential() {
    let ps = perms(&["/user/add", "/user/del"]);
    let token = mint("secret", 7, "alice", &ps, 3600, 1000);
    let c = verify("secret", &token, 1001).expect("fresh token verifies");
    assert_eq!(c.id, 7);
    assert_eq!(c.user_name, "alice");
    assert_eq!(c.permissions, ps);
    assert_eq!(c.iat, 1000);
    assert_eq!(c.exp, 1000 + 3600);
}

#[test]
fn round_trip_keeps_unicode_fields() {
    let ps = perms(&["/메뉴/追加", "/α/β"]);
    let token = mint("geheim", -3, "Ünïcødé 名前", &ps, 60, 5);
    let c = verify("geheim", &token, 6).expect("verifies");
    assert_eq!(c.id, -3);
    assert_eq!(c.user_name, "Ünïcødé 名前");
    assert_eq!(c.permissions, ps);
}

#[test]
fn round_trip_with_empty_permission_list() {
    let token = mint("s", 1, "", &Vec::new(), 10, 0);
    let c = verify("s", &token, 9).expect("verifies");
    assert_eq!(c.user_name, "");
    assert!(c.permissions.is_empty());
}

#[test]
fn every_single_character_mutation_is_rejected() {
    let ps = perms(&["/user/add"]);
    let token = mint("secret", 1, "bob", &ps, 100, 50);
    let chars: Vec<char> = token.chars().collect();
    let replacements = ['0', 'f', 'z', 'A', '.'];
    for i in 0..chars.len() {
        for r in replacements {
            if chars[i] == r {
                continue;
            }
            let mut mutated = chars.clone();
            mutated[i] = r;
            let mutated: String = mutated.into_iter().collect();
            assert!(
                verify("secret", &mutated, 60).is_err(),
                "mutation at {} accepted",
                i
            );
        }
    }
}

#[test]
fn truncated_and_garbage_tokens_are_malformed() {
    assert!(matches!(verify("s", "", 0), Err(TokenError::Malformed)));
    assert!(matches!(verify("s", "abc", 0), Err(TokenError::Malformed)));
    let long_garbage = "zz".repeat(80);
    assert!(matches!(verify("s", &long_garbage, 0), Err(TokenError::Malformed)));
    let token = mint("s", 1, "bob", &perms(&["/a"]), 100, 50);
    let truncated = &token[..token.len() - 2];
    assert!(verify("s", truncated, 60).is_err());
}

#[test]
fn wrong_secret_is_a_signature_mismatch() {
    let token = mint("secret-a", 1, "bob", &perms(&["/a"]), 100, 50);
    assert!(matches!(
        verify("secret-b", &token, 60),
        Err(TokenError::SignatureMismatch)
    ));
}

#[test]
fn tampered_tag_is_a_signature_mismatch() {
    let token = mint("secret", 1, "bob", &perms(&["/a"]), 100, 50);
    let n = token.len();
    let tail = &token[n - 1..];
    let flipped = if tail == "0" { "1" } else { "0" };
    let tampered = format!("{}{}", &token[..n - 1], flipped);
    assert!(matches!(
        verify("secret", &tampered, 60),
        Err(TokenError::SignatureMismatch)
    ));
}

#[test]
fn expiry_boundary_is_inclusive_exclusive() {
    let token = mint("secret", 1, "bob", &perms(&["/a"]), 100, 50);
    // expiry instant is 150: one second before it the token is good,
    // at the instant itself it is expired
    assert!(verify("secret", &token, 149).is_ok());
    assert!(matches!(verify("secret", &token, 150), Err(TokenError::Expired)));
    assert!(matches!(verify("secret", &token, 151), Err(TokenError::Expired)));
}

#[test]
fn expired_check_runs_after_signature_check() {
    let token = mint("secret", 1, "bob", &perms(&["/a"]), 100, 50);
    assert!(matches!(
        verify("other", &token, 9999),
        Err(TokenError::SignatureMismatch)
    ));
}

#[test]
fn minting_is_deterministic() {
    let ps = perms(&["/user/add"]);
    let a = mint("secret", 1, "bob", &ps, 100, 50);
    let b = mint("secret", 1, "bob", &ps, 100, 50);
    assert_eq!(a, b);
    let c = mint("secret", 1, "bob", &ps, 100, 51);
    assert_ne!(a, c);
}
