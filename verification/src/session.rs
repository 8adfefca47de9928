//! The session issuer: the login state machine.
//!
//! A login attempt ends in exactly one of four states: the account is
//! unknown, the secret does not match, the account resolves to no
//! permissions, or a credential is minted. Whatever the outcome, one audit
//! row is produced; on success the principal's last-login metadata is
//! updated. The issuer decides all of that purely over the injected store
//! snapshot and hands the side effects back as values — the caller writes
//! the audit row and applies the update, and an audit write that fails must
//! never change the caller-visible outcome.

use vstd::prelude::*;

use crate::perm::{resolve_permissions, spec_resolved_permissions};
use crate::store::{Store, SysUser};
use crate::token::{
    mint, spec_minted, spec_no_dups, spec_password_hash, spec_token, spec_wf_credential,
    hash_password, Credential,
};
use crate::auth::str_eq;

verus! {

/// Why a login attempt was refused.
#[derive(Debug, Clone, Copy, PartialEq, Eq, Structural)]
pub enum LoginError {
    /// No account carries the supplied login identifier.
    AccountNotFound,
    /// The supplied secret does not match the stored one.
    PasswordMismatch,
    /// The account is valid but resolves to an empty permission set, so no
    /// useful session can be granted.
    NoPermissionsGranted,
}

/// Client attributes recorded with a login attempt.
pub struct ClientAttrs {
    pub ipaddr: String,
    pub login_location: String,
    pub platform: String,
    pub browser: String,
    pub version: String,
    pub os: String,
    pub arch: String,
    pub engine: String,
    pub engine_details: String,
    pub extra: String,
}

/// One audit row, produced on every login attempt.
pub struct LoginLog {
    pub login_name: String,
    pub ipaddr: String,
    pub login_location: String,
    pub platform: String,
    pub browser: String,
    pub version: String,
    pub os: String,
    pub arch: String,
    pub engine: String,
    pub engine_details: String,
    pub extra: String,
    pub status: i8,
    pub msg: String,
}

/// The last-login metadata to write back on a successful login.
pub struct LastLoginUpdate {
    pub principal_id: i64,
    pub login_os: String,
    pub login_browser: String,
    pub login_time: u64,
}

/// A granted session: the minted token and its decoded content.
pub struct Session {
    pub token: String,
    pub credential: Credential,
}

/// Everything one login attempt decides: the result, the audit row to
/// append whatever happened, and the store update to apply on success.
pub struct LoginOutcome {
    pub result: Result<Session, LoginError>,
    pub audit: LoginLog,
    pub update: Option<LastLoginUpdate>,
}

/// The first user row carrying the login identifier, if any.
pub open spec fn spec_lookup_user(users: Seq<SysUser>, mobile: Seq<char>) -> Option<SysUser>
    decreases users.len(),
{
    if users.len() == 0 {
        None
    } else if users.first().mobile@ == mobile {
        Some(users.first())
    } else {
        spec_lookup_user(users.drop_first(), mobile)
    }
}

/// The audit row carries the supplied login identifier, the outcome code,
/// the reason, and the client attributes.
pub open spec fn spec_audit_row(
    log: LoginLog,
    mobile: Seq<char>,
    attrs: ClientAttrs,
    status: i8,
    msg: Seq<char>,
) -> bool {
    &&& log.login_name@ == mobile
    &&& log.status == status
    &&& log.msg@ == msg
    &&& log.ipaddr@ == attrs.ipaddr@
    &&& log.login_location@ == attrs.login_location@
    &&& log.platform@ == attrs.platform@
    &&& log.browser@ == attrs.browser@
    &&& log.version@ == attrs.version@
    &&& log.os@ == attrs.os@
    &&& log.arch@ == attrs.arch@
    &&& log.engine@ == attrs.engine@
    &&& log.engine_details@ == attrs.engine_details@
    &&& log.extra@ == attrs.extra@
}

/// Whether the supplied secret matches the stored salted hash.
pub open spec fn spec_password_matches(u: SysUser, password: Seq<char>) -> bool {
    u.password_hash@ == spec_password_hash(u.password_salt@, password)
}

/// The first user row carrying the login identifier, if any.
fn find_user<'a>(users: &'a Vec<SysUser>, mobile: &str) -> (r: Option<&'a SysUser>)
    ensures
        match r {
            Some(u) => spec_lookup_user(users@, mobile@) == Some(*u),
            None => spec_lookup_user(users@, mobile@) is None,
        },
{
    let mut i: usize = 0;
    proof {
        assert(users@.skip(0) =~= users@);
    }
    while i < users.len()
        invariant
            i <= users@.len(),
            spec_lookup_user(users@, mobile@) == spec_lookup_user(users@.skip(i as int), mobile@),
        decreases users@.len() - i,
    {
        if str_eq(users[i].mobile.as_str(), mobile) {
            proof {
                assert(users@.skip(i as int).first() == users@[i as int]);
            }
            return Some(&users[i]);
        }
        proof {
            assert(users@.skip(i as int).first() == users@[i as int]);
            assert(users@.skip(i as int).drop_first() =~= users@.skip(i + 1));
        }
        i = i + 1;
    }
    None
}

/// The first user row carrying the id, if any: the "user not found" branch
/// of the user-menu flow is decided here.
pub open spec fn spec_lookup_user_by_id(users: Seq<SysUser>, id: i64) -> Option<SysUser>
    decreases users.len(),
{
    if users.len() == 0 {
        None
    } else if users.first().id == id {
        Some(users.first())
    } else {
        spec_lookup_user_by_id(users.drop_first(), id)
    }
}

/// The first user row carrying the id, if any.
pub fn find_user_by_id<'a>(users: &'a Vec<SysUser>, id: i64) -> (r: Option<&'a SysUser>)
    ensures
        match r {
            Some(u) => spec_lookup_user_by_id(users@, id) == Some(*u),
            None => spec_lookup_user_by_id(users@, id) is None,
        },
{
    let mut i: usize = 0;
    proof {
        assert(users@.skip(0) =~= users@);
    }
    while i < users.len()
        invariant
            i <= users@.len(),
            spec_lookup_user_by_id(users@, id) == spec_lookup_user_by_id(
                users@.skip(i as int),
                id,
            ),
        decreases users@.len() - i,
    {
        if users[i].id == id {
            proof {
                assert(users@.skip(i as int).first() == users@[i as int]);
            }
            return Some(&users[i]);
        }
        proof {
            assert(users@.skip(i as int).first() == users@[i as int]);
            assert(users@.skip(i as int).drop_first() =~= users@.skip(i + 1));
        }
        i = i + 1;
    }
    None
}

/// One audit row for this attempt and outcome.
fn make_audit(mobile: &str, attrs: &ClientAttrs, status: i8, msg: &str) -> (log: LoginLog)
    ensures
        spec_audit_row(log, mobile@, *attrs, status, msg@),
{
    LoginLog {
        login_name: mobile.to_owned(),
        ipaddr: attrs.ipaddr.clone(),
        login_location: attrs.login_location.clone(),
        platform: attrs.platform.clone(),
        browser: attrs.browser.clone(),
        version: attrs.version.clone(),
        os: attrs.os.clone(),
        arch: attrs.arch.clone(),
        engine: attrs.engine.clone(),
        engine_details: attrs.engine_details.clone(),
        extra: attrs.extra.clone(),
        status,
        msg: msg.to_owned(),
    }
}

/// Turns a login attempt into a credential or a refusal, with the audit row
/// and, on success, the last-login update. Terminal on the first matching
/// state: unknown account, wrong secret, empty permission set, minted.
pub fn login(
    store: &Store,
    mobile: &str,
    password: &str,
    attrs: &ClientAttrs,
    secret: &str,
    ttl: u64,
    now: u64,
) -> (r: LoginOutcome)
    requires
        0 < ttl,
        now + ttl <= u64::MAX,
    ensures
        match spec_lookup_user(store.users@, mobile@) {
            None => {
                &&& r.result == Err::<Session, LoginError>(LoginError::AccountNotFound)
                &&& spec_audit_row(r.audit, mobile@, *attrs, 0, "account not found"@)
                &&& r.update is None
            },
            Some(u) => {
                &&& !spec_password_matches(u, password@) ==> {
                    &&& r.result == Err::<Session, LoginError>(LoginError::PasswordMismatch)
                    &&& spec_audit_row(r.audit, mobile@, *attrs, 0, "password mismatch"@)
                    &&& r.update is None
                }
                &&& spec_password_matches(u, password@) && spec_resolved_permissions(*store, u.id)
                    == Set::<Seq<char>>::empty() ==> {
                    &&& r.result == Err::<Session, LoginError>(LoginError::NoPermissionsGranted)
                    &&& spec_audit_row(r.audit, mobile@, *attrs, 0, "no permissions granted"@)
                    &&& r.update is None
                }
                &&& spec_password_matches(u, password@) && spec_resolved_permissions(*store, u.id)
                    != Set::<Seq<char>>::empty() ==> {
                    &&& r.result is Ok
                    &&& {
                        let s = r.result->Ok_0;
                        &&& s.credential@.id == u.id
                        &&& s.credential@.user_name == u.user_name@
                        &&& s.credential@.iat == now
                        &&& s.credential@.exp == now + ttl
                        &&& spec_no_dups(s.credential@.permissions)
                        &&& forall|a: int|
                            0 <= a < s.credential@.permissions.len() ==> spec_resolved_permissions(
                                *store,
                                u.id,
                            ).contains(#[trigger] s.credential@.permissions[a])
                        &&& forall|p: Seq<char>|
                            spec_resolved_permissions(*store, u.id).contains(p)
                                ==> s.credential@.permissions.contains(p)
                        &&& s.token@ == spec_token(secret@, s.credential@)
                        &&& spec_wf_credential(s.credential@)
                    }
                    &&& spec_audit_row(r.audit, mobile@, *attrs, 1, "login ok"@)
                    &&& {
                        let up = r.update->Some_0;
                        &&& r.update is Some
                        &&& up.principal_id == u.id
                        &&& up.login_os@ == attrs.os@
                        &&& up.login_browser@ == attrs.browser@
                        &&& up.login_time == now
                    }
                }
            },
        },
{
    let user = match find_user(&store.users, mobile) {
        None => {
            return LoginOutcome {
                result: Err(LoginError::AccountNotFound),
                audit: make_audit(mobile, attrs, 0, "account not found"),
                update: None,
            };
        },
        Some(u) => u,
    };
    let supplied = hash_password(user.password_salt.as_str(), password);
    if !str_eq(supplied.as_str(), user.password_hash.as_str()) {
        return LoginOutcome {
            result: Err(LoginError::PasswordMismatch),
            audit: make_audit(mobile, attrs, 0, "password mismatch"),
            update: None,
        };
    }
    let permissions = resolve_permissions(store, user.id);
    let ghost resolved = spec_resolved_permissions(*store, user.id);
    if permissions.len() == 0 {
        proof {
            assert forall|p: Seq<char>| !resolved.contains(p) by {
                if resolved.contains(p) {
                    assert(permissions.deep_view().contains(p));
                }
            }
            assert(resolved =~= Set::<Seq<char>>::empty());
        }
        return LoginOutcome {
            result: Err(LoginError::NoPermissionsGranted),
            audit: make_audit(mobile, attrs, 0, "no permissions granted"),
            update: None,
        };
    }
    proof {
        assert(permissions.deep_view().len() > 0);
        assert(resolved.contains(permissions.deep_view()[0]));
        assert(!Set::<Seq<char>>::empty().contains(permissions.deep_view()[0]));
    }
    let token = mint(secret, user.id, user.user_name.as_str(), &permissions, ttl, now);
    let credential = Credential {
        id: user.id,
        user_name: user.user_name.clone(),
        permissions,
        iat: now,
        exp: now + ttl,
    };
    proof {
        assert(credential@ == spec_minted(
            user.id,
            user.user_name@,
            credential.permissions.deep_view(),
            now,
            ttl,
        ));
    }
    LoginOutcome {
        result: Ok(Session { token, credential }),
        audit: make_audit(mobile, attrs, 1, "login ok"),
        update: Some(
            LastLoginUpdate {
                principal_id: user.id,
                login_os: attrs.os.clone(),
                login_browser: attrs.browser.clone(),
                login_time: now,
            },
        ),
    }
}

} // verus!
