//! The permission resolver: which backend routes a principal may invoke.
//!
//! A superuser — a principal holding the reserved superuser role — may
//! invoke the api-path of every menu node that has one. Any other principal
//! may invoke exactly the api-paths reachable through its role assignments,
//! without duplicates. The resolver is pure over the injected store
//! snapshot; callers treat an empty result as "no session can be granted".

use vstd::prelude::*;

use crate::store::{Store, SysMenu, SysRoleMenu, SysUserRole};
use crate::token::spec_no_dups;

verus! {

/// The reserved role whose holders bypass role-to-menu resolution.
pub const SUPERUSER_ROLE_ID: i64 = 1;

/// Whether the principal holds the reserved superuser role.
pub open spec fn spec_is_superuser(user_roles: Seq<SysUserRole>, principal_id: i64) -> bool {
    exists|i: int|
        0 <= i < user_roles.len() && (#[trigger] user_roles[i]).user_id == principal_id
            && user_roles[i].role_id == SUPERUSER_ROLE_ID
}

/// Whether some role of the principal is assigned the given menu.
pub open spec fn spec_menu_reachable(
    user_roles: Seq<SysUserRole>,
    role_menus: Seq<SysRoleMenu>,
    principal_id: i64,
    menu_id: i64,
) -> bool {
    exists|i: int, j: int|
        0 <= i < user_roles.len() && 0 <= j < role_menus.len() && (#[trigger] user_roles[i]).user_id
            == principal_id && (#[trigger] role_menus[j]).role_id == user_roles[i].role_id
            && role_menus[j].menu_id == menu_id
}

/// The api-paths of all menu nodes that have one.
pub open spec fn spec_all_api_paths(menus: Seq<SysMenu>) -> Set<Seq<char>> {
    Set::new(
        |p: Seq<char>|
            exists|k: int|
                0 <= k < menus.len() && (#[trigger] menus[k]).api_url@ == p && p.len() > 0,
    )
}

/// The api-paths reachable for the principal through its roles.
pub open spec fn spec_role_chain_paths(store: Store, principal_id: i64) -> Set<Seq<char>> {
    Set::new(
        |p: Seq<char>|
            exists|k: int|
                0 <= k < store.menus@.len() && (#[trigger] store.menus@[k]).api_url@ == p
                    && p.len() > 0 && spec_menu_reachable(
                    store.user_roles@,
                    store.role_menus@,
                    principal_id,
                    store.menus@[k].id,
                ),
    )
}

/// The authoritative permission set of a principal.
pub open spec fn spec_resolved_permissions(store: Store, principal_id: i64) -> Set<Seq<char>> {
    if spec_is_superuser(store.user_roles@, principal_id) {
        spec_all_api_paths(store.menus@)
    } else {
        spec_role_chain_paths(store, principal_id)
    }
}

/// Whether the principal holds the reserved superuser role.
pub fn is_superuser(store: &Store, principal_id: i64) -> (r: bool)
    ensures
        r == spec_is_superuser(store.user_roles@, principal_id),
{
    let mut i: usize = 0;
    while i < store.user_roles.len()
        invariant
            i <= store.user_roles@.len(),
            forall|a: int|
                0 <= a < i ==> !((#[trigger] store.user_roles@[a]).user_id == principal_id
                    && store.user_roles@[a].role_id == SUPERUSER_ROLE_ID),
        decreases store.user_roles@.len() - i,
    {
        if store.user_roles[i].user_id == principal_id && store.user_roles[i].role_id
            == SUPERUSER_ROLE_ID {
            return true;
        }
        i = i + 1;
    }
    false
}

/// Whether some role of the principal is assigned the given menu.
fn menu_reachable(store: &Store, principal_id: i64, menu_id: i64) -> (r: bool)
    ensures
        r == spec_menu_reachable(store.user_roles@, store.role_menus@, principal_id, menu_id),
{
    let mut i: usize = 0;
    while i < store.user_roles.len()
        invariant
            i <= store.user_roles@.len(),
            forall|a: int, b: int|
                0 <= a < i && 0 <= b < store.role_menus@.len() ==> !((
                #[trigger] store.user_roles@[a]).user_id == principal_id && (
                #[trigger] store.role_menus@[b]).role_id == store.user_roles@[a].role_id
                    && store.role_menus@[b].menu_id == menu_id),
        decreases store.user_roles@.len() - i,
    {
        if store.user_roles[i].user_id == principal_id {
            let rid = store.user_roles[i].role_id;
            let mut j: usize = 0;
            while j < store.role_menus.len()
                invariant
                    j <= store.role_menus@.len(),
                    rid == store.user_roles@[i as int].role_id,
                    i < store.user_roles@.len(),
                    store.user_roles@[i as int].user_id == principal_id,
                    forall|b: int|
                        0 <= b < j ==> !((#[trigger] store.role_menus@[b]).role_id == rid
                            && store.role_menus@[b].menu_id == menu_id),
                decreases store.role_menus@.len() - j,
            {
                if store.role_menus[j].role_id == rid && store.role_menus[j].menu_id == menu_id {
                    return true;
                }
                j = j + 1;
            }
        }
        i = i + 1;
    }
    false
}

/// Whether the vector holds this string.
pub fn contains_string(v: &Vec<String>, s: &str) -> (r: bool)
    ensures
        r == v.deep_view().contains(s@),
{
    let ghost dv = v.deep_view();
    let mut i: usize = 0;
    while i < v.len()
        invariant
            i <= v@.len(),
            dv == v.deep_view(),
            dv.len() == v@.len(),
            forall|a: int| 0 <= a < i ==> dv[a] != s@,
        decreases v@.len() - i,
    {
        if crate::auth::str_eq(v[i].as_str(), s) {
            assert(dv[i as int] == s@);
            return true;
        }
        i = i + 1;
    }
    false
}

/// Computes the permission set of a principal: every api-path the store
/// grants, each exactly once, superuser bypass honored.
pub fn resolve_permissions(store: &Store, principal_id: i64) -> (r: Vec<String>)
    ensures
        spec_no_dups(r.deep_view()),
        forall|a: int|
            0 <= a < r.deep_view().len() ==> spec_resolved_permissions(
                *store,
                principal_id,
            ).contains(#[trigger] r.deep_view()[a]),
        forall|p: Seq<char>|
            spec_resolved_permissions(*store, principal_id).contains(p) ==> r.deep_view().contains(
                p,
            ),
{
    let su = is_superuser(store, principal_id);
    let ghost resolved = spec_resolved_permissions(*store, principal_id);
    let mut out: Vec<String> = Vec::new();
    let mut k: usize = 0;
    while k < store.menus.len()
        invariant
            k <= store.menus@.len(),
            su == spec_is_superuser(store.user_roles@, principal_id),
            resolved == spec_resolved_permissions(*store, principal_id),
            spec_no_dups(out.deep_view()),
            forall|a: int|
                0 <= a < out.deep_view().len() ==> resolved.contains(#[trigger] out.deep_view()[a]),
            forall|kk: int|
                0 <= kk < k ==> ((#[trigger] store.menus@[kk]).api_url@.len() > 0 && (su
                    || spec_menu_reachable(
                    store.user_roles@,
                    store.role_menus@,
                    principal_id,
                    store.menus@[kk].id,
                )) ==> out.deep_view().contains(store.menus@[kk].api_url@)),
        decreases store.menus@.len() - k,
    {
        let granted = !store.menus[k].api_url.as_str().is_empty() && (su || menu_reachable(
            store,
            principal_id,
            store.menus[k].id,
        ));
        if granted {
            if !contains_string(&out, store.menus[k].api_url.as_str()) {
                let ghost old_out = out.deep_view();
                out.push(store.menus[k].api_url.clone());
                proof {
                    let dv = out.deep_view();
                    assert(dv =~= old_out.push(store.menus@[k as int].api_url@));
                    assert(resolved.contains(store.menus@[k as int].api_url@));
                    assert(dv[old_out.len() as int] == store.menus@[k as int].api_url@);
                    assert(dv.contains(store.menus@[k as int].api_url@));
                    assert forall|p: Seq<char>| old_out.contains(p) implies dv.contains(p) by {
                        let idx = choose|idx: int| 0 <= idx < old_out.len() && old_out[idx] == p;
                        assert(dv[idx] == p);
                    }
                }
            }
        }
        k = k + 1;
    }
    proof {
        assert forall|p: Seq<char>| resolved.contains(p) implies out.deep_view().contains(p) by {
            let kk = choose|kk: int|
                0 <= kk < store.menus@.len() && (#[trigger] store.menus@[kk]).api_url@ == p
                    && p.len() > 0 && (spec_is_superuser(store.user_roles@, principal_id)
                    || spec_menu_reachable(
                    store.user_roles@,
                    store.role_menus@,
                    principal_id,
                    store.menus@[kk].id,
                ));
            assert(store.menus@[kk].api_url@.len() > 0);
        }
    }
    out
}

/// The menu rows the principal reaches through its roles, in store order.
pub open spec fn spec_reachable_menus(store: Store, principal_id: i64) -> Seq<SysMenu> {
    spec_reachable_prefix(store, principal_id, store.menus@.len() as int)
}

/// The reachable menu rows among the first n of the store.
pub open spec fn spec_reachable_prefix(store: Store, principal_id: i64, n: int) -> Seq<SysMenu>
    decreases n,
{
    if n <= 0 {
        Seq::empty()
    } else {
        let front = spec_reachable_prefix(store, principal_id, n - 1);
        if spec_menu_reachable(
            store.user_roles@,
            store.role_menus@,
            principal_id,
            store.menus@[n - 1].id,
        ) {
            front.push(store.menus@[n - 1])
        } else {
            front
        }
    }
}

/// Selects the menu rows a principal may see: all of them for a superuser,
/// else those its role assignments reach, in store order.
pub fn reachable_menus(store: &Store, principal_id: i64) -> (r: Vec<SysMenu>)
    ensures
        spec_is_superuser(store.user_roles@, principal_id) ==> r@ == store.menus@,
        !spec_is_superuser(store.user_roles@, principal_id) ==> r@ == spec_reachable_menus(
            *store,
            principal_id,
        ),
{
    let mut out: Vec<SysMenu> = Vec::new();
    if is_superuser(store, principal_id) {
        let mut k: usize = 0;
        while k < store.menus.len()
            invariant
                k <= store.menus@.len(),
                out@ == store.menus@.take(k as int),
            decreases store.menus@.len() - k,
        {
            out.push(clone_menu(&store.menus[k]));
            proof {
                assert(out@ =~= store.menus@.take(k + 1));
            }
            k = k + 1;
        }
        proof {
            assert(store.menus@.take(store.menus@.len() as int) =~= store.menus@);
        }
    } else {
        let mut k: usize = 0;
        while k < store.menus.len()
            invariant
                k <= store.menus@.len(),
                out@ == spec_reachable_prefix(*store, principal_id, k as int),
            decreases store.menus@.len() - k,
        {
            if menu_reachable(store, principal_id, store.menus[k].id) {
                out.push(clone_menu(&store.menus[k]));
            }
            k = k + 1;
        }
    }
    out
}

/// A field-for-field copy of a menu row.
fn clone_menu(m: &SysMenu) -> (r: SysMenu)
    ensures
        r == *m,
{
    SysMenu {
        id: m.id,
        menu_name: m.menu_name.clone(),
        menu_type: m.menu_type,
        status_id: m.status_id,
        sort: m.sort,
        parent_id: m.parent_id,
        menu_url: m.menu_url.clone(),
        api_url: m.api_url.clone(),
        menu_icon: m.menu_icon.clone(),
        remark: m.remark.clone(),
        create_time: m.create_time.clone(),
        update_time: m.update_time.clone(),
    }
}

/// A superuser's permission set is exactly the api-paths of all menu nodes
/// with a non-empty api-path, whatever its explicit role assignments say.
pub proof fn lemma_superuser_all_paths(store: Store, principal_id: i64)
    requires
        spec_is_superuser(store.user_roles@, principal_id),
    ensures
        spec_resolved_permissions(store, principal_id) == spec_all_api_paths(store.menus@),
{
}

/// A principal with no role assignments resolves to the empty set.
pub proof fn lemma_no_roles_no_permissions(store: Store, principal_id: i64)
    requires
        forall|i: int|
            0 <= i < store.user_roles@.len() ==> (#[trigger] store.user_roles@[i]).user_id
                != principal_id,
    ensures
        spec_resolved_permissions(store, principal_id) == Set::<Seq<char>>::empty(),
{
    assert(!spec_is_superuser(store.user_roles@, principal_id));
    assert(spec_resolved_permissions(store, principal_id) =~= Set::<Seq<char>>::empty());
}

} // verus!
