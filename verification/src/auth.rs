//! The access-control guard applied to every inbound request.
//!
//! The decision is pure: from the secret, the registered login path, the
//! request path, the `Authorization` header and the clock reading, it either
//! forwards the request (attaching the principal id), forwards a login
//! request without a credential, or denies. Only the one registered login
//! path bypasses the credential check, by exact comparison: every other
//! route fails closed. The host glue performs the forwarding itself and
//! turns every denial into the one uniform response envelope, so a caller
//! cannot tell the rejection causes apart by shape.

use vstd::prelude::*;

use crate::token::{spec_verify, verify, CredentialV, TokenError};

verus! {

/// The middleware factory: wraps a downstream service.
pub struct JwtAuth;

/// The wrapped service together with the check applied before it.
pub struct JwtAuthMiddleware<S> {
    pub service: S,
}

impl JwtAuth {
    /// Wraps the downstream service, capturing nothing else.
    pub fn create<S>(&self, service: S) -> (m: JwtAuthMiddleware<S>)
        ensures
            m.service == service,
    {
        JwtAuthMiddleware { service }
    }
}

/// Why a request was not forwarded.
#[derive(Debug, Clone, Copy, PartialEq, Eq, Structural)]
pub enum DenyReason {
    /// No `Authorization` header, or an empty one, on a guarded route.
    MissingToken,
    /// The credential failed verification, for the given reason.
    Invalid(TokenError),
    /// The credential is sound but does not grant the requested path.
    Forbidden,
}

/// What the guard decides for one request.
#[derive(Debug, Clone, Copy, PartialEq, Eq, Structural)]
pub enum AuthDecision {
    /// A login request: forwarded without any credential.
    ForwardLogin,
    /// Forwarded, with the calling principal's id attached.
    Forward(i64),
    /// Not forwarded.
    Deny(DenyReason),
}

/// Whether the characters of two strings are equal.
pub fn str_eq(a: &str, b: &str) -> (r: bool)
    ensures
        r == (a@ == b@),
{
    let na = a.unicode_len();
    let nb = b.unicode_len();
    if na != nb {
        proof {
            assert(a@ != b@);
        }
        return false;
    }
    let mut i: usize = 0;
    while i < na
        invariant
            i <= na,
            na == a@.len() && na == b@.len(),
            forall|j: int| 0 <= j < i ==> a@[j] == b@[j],
        decreases na - i,
    {
        if a.get_char(i) != b.get_char(i) {
            return false;
        }
        i = i + 1;
    }
    proof {
        assert(a@ =~= b@);
    }
    true
}

/// The header value with the bearer scheme prefix removed, if present.
pub open spec fn spec_strip_bearer(h: Seq<char>) -> Seq<char> {
    if h.len() >= 7 && h.take(7) == "Bearer "@ {
        h.skip(7)
    } else {
        h
    }
}

/// Strips the bearer scheme prefix from a header value, if present.
pub fn strip_bearer<'a>(h: &'a str) -> (r: &'a str)
    ensures
        r@ == spec_strip_bearer(h@),
{
    let n = h.unicode_len();
    proof {
        reveal_strlit("Bearer ");
    }
    if n >= 7 && str_eq(h.substring_char(0, 7), "Bearer ") {
        proof {
            assert(h@.subrange(0, 7) =~= h@.take(7));
        }
        h.substring_char(7, n)
    } else {
        proof {
            if n >= 7 {
                assert(h@.subrange(0, 7) =~= h@.take(7));
            }
        }
        h
    }
}

/// What the guard decides, for every request. The login path itself passes
/// untouched; any other path needs a non-empty `Authorization` header whose
/// credential verifies and grants exactly that path.
pub open spec fn spec_authorize(
    secret: Seq<char>,
    login_path: Seq<char>,
    path: Seq<char>,
    authorization: Option<Seq<char>>,
    now: u64,
) -> AuthDecision {
    if path == login_path {
        AuthDecision::ForwardLogin
    } else {
        match authorization {
            None => AuthDecision::Deny(DenyReason::MissingToken),
            Some(h) => if h.len() == 0 {
                AuthDecision::Deny(DenyReason::MissingToken)
            } else {
                match spec_verify(secret, spec_strip_bearer(h), now) {
                    Err(e) => AuthDecision::Deny(DenyReason::Invalid(e)),
                    Ok(c) => if c.permissions.contains(path) {
                        AuthDecision::Forward(c.id)
                    } else {
                        AuthDecision::Deny(DenyReason::Forbidden)
                    },
                }
            },
        }
    }
}

/// Decides one request: forward, forward-as-login, or deny.
pub fn authorize(
    secret: &str,
    login_path: &str,
    path: &str,
    authorization: Option<&str>,
    now: u64,
) -> (d: AuthDecision)
    ensures
        d == spec_authorize(
            secret@,
            login_path@,
            path@,
            match authorization {
                Some(h) => Some(h@),
                None => None,
            },
            now,
        ),
{
    if str_eq(path, login_path) {
        return AuthDecision::ForwardLogin;
    }
    let h = match authorization {
        None => {
            return AuthDecision::Deny(DenyReason::MissingToken);
        },
        Some(h) => h,
    };
    if h.unicode_len() == 0 {
        return AuthDecision::Deny(DenyReason::MissingToken);
    }
    let tok = strip_bearer(h);
    let cred = match verify(secret, tok, now) {
        Err(e) => {
            return AuthDecision::Deny(DenyReason::Invalid(e));
        },
        Ok(c) => c,
    };
    let ghost cv = cred@;
    let mut i: usize = 0;
    while i < cred.permissions.len()
        invariant
            i <= cred.permissions@.len(),
            cv == cred@,
            cv.permissions.len() == cred.permissions@.len(),
            path@ != login_path@,
            authorization == Some(h),
            h@.len() != 0,
            spec_verify(secret@, spec_strip_bearer(h@), now) == Ok::<CredentialV, TokenError>(cv),
            forall|a: int| 0 <= a < i ==> cv.permissions[a] != path@,
        decreases cred.permissions@.len() - i,
    {
        if str_eq(cred.permissions[i].as_str(), path) {
            assert(cv.permissions[i as int] == path@);
            return AuthDecision::Forward(cred.id);
        }
        i = i + 1;
    }
    assert(!cv.permissions.contains(path@));
    AuthDecision::Deny(DenyReason::Forbidden)
}

/// A request to the login route is forwarded whatever the header holds —
/// in particular with none at all.
pub proof fn lemma_login_path_forwarded(
    secret: Seq<char>,
    login_path: Seq<char>,
    authorization: Option<Seq<char>>,
    now: u64,
)
    ensures
        spec_authorize(secret, login_path, login_path, authorization, now)
            == AuthDecision::ForwardLogin,
{
}

/// A request to any route other than the login route, without an
/// `Authorization` header or with an empty one, is denied — never
/// forwarded.
pub proof fn lemma_missing_header_denied(
    secret: Seq<char>,
    login_path: Seq<char>,
    path: Seq<char>,
    now: u64,
)
    requires
        path != login_path,
    ensures
        spec_authorize(secret, login_path, path, None, now) == AuthDecision::Deny(
            DenyReason::MissingToken,
        ),
        spec_authorize(secret, login_path, path, Some(Seq::empty()), now) == AuthDecision::Deny(
            DenyReason::MissingToken,
        ),
{
}

/// With a verifying credential, a guarded request is forwarded exactly when
/// the credential's permission set holds the requested path; otherwise it
/// is denied as forbidden.
pub proof fn lemma_permission_check(
    secret: Seq<char>,
    login_path: Seq<char>,
    path: Seq<char>,
    h: Seq<char>,
    now: u64,
    c: CredentialV,
)
    requires
        path != login_path,
        h.len() > 0,
        spec_verify(secret, spec_strip_bearer(h), now) == Ok::<CredentialV, TokenError>(c),
    ensures
        c.permissions.contains(path) ==> spec_authorize(secret, login_path, path, Some(h), now)
            == AuthDecision::Forward(c.id),
        !c.permissions.contains(path) ==> spec_authorize(secret, login_path, path, Some(h), now)
            == AuthDecision::Deny(DenyReason::Forbidden),
{
}

} // verus!
