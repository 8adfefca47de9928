//! Pure cores of the request handlers.
//!
//! Each handler of the host reads rows from the external stores, hands them
//! to one of these functions, and sends the result back in the uniform
//! envelope. Everything that decides or shapes data happens here; the host
//! glue only queries and transports. Row order follows the input: the store
//! query orders rows, these functions keep that order.

use vstd::prelude::*;

use crate::store::{SysMenu, SysRole, SysUser, SysUserRole, SysRoleMenu};
use crate::vo::menu_vo::MenuListData;
use crate::vo::role_vo::{MenuDataList, QueryRoleMenuData, RoleListData};
use crate::vo::user_vo::{MenuUserList, QueryUserMenuData, QueryUserRoleData, UserListData, UserRoleList};
use crate::auth::str_eq;
use crate::decfmt::{i64_to_dec, spec_i64_dec};
use crate::perm::SUPERUSER_ROLE_ID;
use crate::token::{hash_password, spec_password_hash};
use crate::session::spec_password_matches;

verus! {

/// The user row reserved for the system, which must never be deleted and
/// whose roles must never be edited.
pub const RESERVED_USER_ID: i64 = 1;

/// Whether a menu row passes the optional state filter.
pub open spec fn spec_menu_status_match(m: SysMenu, f: Option<i8>) -> bool {
    match f {
        None => true,
        Some(s) => m.status_id == s,
    }
}

/// The menu rows that pass the filter, in order.
pub open spec fn spec_filter_menus(menus: Seq<SysMenu>, f: Option<i8>) -> Seq<SysMenu>
    decreases menus.len(),
{
    if menus.len() == 0 {
        Seq::empty()
    } else {
        let front = spec_filter_menus(menus.drop_last(), f);
        if spec_menu_status_match(menus.last(), f) {
            front.push(menus.last())
        } else {
            front
        }
    }
}

/// How one listed menu reflects its row.
pub open spec fn spec_menu_row_matches(m: SysMenu, d: MenuListData) -> bool {
    &&& d.id == m.id
    &&& d.sort == m.sort
    &&& d.status_id == m.status_id
    &&& d.parent_id == m.parent_id
    &&& d.menu_name@ == m.menu_name@
    &&& d.label@ == m.menu_name@
    &&& d.menu_url@ == m.menu_url@
    &&& d.icon@ == m.menu_icon@
    &&& d.api_url@ == m.api_url@
    &&& d.remark@ == m.remark@
    &&& d.menu_type == m.menu_type
    &&& d.create_time@ == m.create_time@
    &&& d.update_time@ == m.update_time@
}

/// Shapes the menu list: every row that passes the state filter, in input
/// order, each reflected field by field.
pub fn menu_list_data(menus: &Vec<SysMenu>, status_id: Option<i8>) -> (r: Vec<MenuListData>)
    ensures
        r@.len() == spec_filter_menus(menus@, status_id).len(),
        forall|i: int|
            0 <= i < r@.len() ==> spec_menu_row_matches(
                spec_filter_menus(menus@, status_id)[i],
                #[trigger] r@[i],
            ),
{
    let mut out: Vec<MenuListData> = Vec::new();
    let mut k: usize = 0;
    proof {
        assert(menus@.take(0) =~= Seq::<SysMenu>::empty());
    }
    while k < menus.len()
        invariant
            k <= menus@.len(),
            out@.len() == spec_filter_menus(menus@.take(k as int), status_id).len(),
            forall|i: int|
                0 <= i < out@.len() ==> spec_menu_row_matches(
                    spec_filter_menus(menus@.take(k as int), status_id)[i],
                    #[trigger] out@[i],
                ),
        decreases menus@.len() - k,
    {
        let m = &menus[k];
        let keep = match status_id {
            None => true,
            Some(s) => m.status_id == s,
        };
        proof {
            assert(menus@.take(k + 1).drop_last() =~= menus@.take(k as int));
            assert(menus@.take(k + 1).last() == menus@[k as int]);
        }
        if keep {
            out.push(
                MenuListData {
                    id: m.id,
                    sort: m.sort,
                    status_id: m.status_id,
                    parent_id: m.parent_id,
                    menu_name: m.menu_name.clone(),
                    label: m.menu_name.clone(),
                    menu_url: m.menu_url.clone(),
                    icon: m.menu_icon.clone(),
                    api_url: m.api_url.clone(),
                    remark: m.remark.clone(),
                    menu_type: m.menu_type,
                    create_time: m.create_time.clone(),
                    update_time: m.update_time.clone(),
                },
            );
        }
        k = k + 1;
    }
    proof {
        assert(menus@.take(menus@.len() as int) =~= menus@);
    }
    out
}

/// Whether a role row passes the optional name and state filters.
pub open spec fn spec_role_match(r: SysRole, name: Option<Seq<char>>, f: Option<i8>) -> bool {
    &&& match name {
        None => true,
        Some(n) => r.role_name@ == n,
    }
    &&& match f {
        None => true,
        Some(s) => r.status_id == s,
    }
}

/// The role rows that pass the filters, in order.
pub open spec fn spec_filter_roles(
    roles: Seq<SysRole>,
    name: Option<Seq<char>>,
    f: Option<i8>,
) -> Seq<SysRole>
    decreases roles.len(),
{
    if roles.len() == 0 {
        Seq::empty()
    } else {
        let front = spec_filter_roles(roles.drop_last(), name, f);
        if spec_role_match(roles.last(), name, f) {
            front.push(roles.last())
        } else {
            front
        }
    }
}

/// How one listed role reflects its row.
pub open spec fn spec_role_row_matches(s: SysRole, d: RoleListData) -> bool {
    &&& d.id == s.id
    &&& d.sort == s.sort
    &&& d.status_id == s.status_id
    &&& d.role_name@ == s.role_name@
    &&& d.remark@ == s.remark@
    &&& d.create_time@ == s.create_time@
    &&& d.update_time@ == s.update_time@
}

/// Shapes the role list: every row that passes the filters, in input order.
pub fn role_list_data(
    roles: &Vec<SysRole>,
    role_name: Option<&str>,
    status_id: Option<i8>,
) -> (r: Vec<RoleListData>)
    ensures
        ({
            let name = match role_name {
                Some(n) => Some(n@),
                None => None,
            };
            &&& r@.len() == spec_filter_roles(roles@, name, status_id).len()
            &&& forall|i: int|
                0 <= i < r@.len() ==> spec_role_row_matches(
                    spec_filter_roles(roles@, name, status_id)[i],
                    #[trigger] r@[i],
                )
        }),
{
    let ghost name = match role_name {
        Some(n) => Some(n@),
        None => None,
    };
    let mut out: Vec<RoleListData> = Vec::new();
    let mut k: usize = 0;
    proof {
        assert(roles@.take(0) =~= Seq::<SysRole>::empty());
    }
    while k < roles.len()
        invariant
            k <= roles@.len(),
            name == (match role_name {
                Some(n) => Some(n@),
                None => None::<Seq<char>>,
            }),
            out@.len() == spec_filter_roles(roles@.take(k as int), name, status_id).len(),
            forall|i: int|
                0 <= i < out@.len() ==> spec_role_row_matches(
                    spec_filter_roles(roles@.take(k as int), name, status_id)[i],
                    #[trigger] out@[i],
                ),
        decreases roles@.len() - k,
    {
        let s = &roles[k];
        let name_ok = match role_name {
            None => true,
            Some(n) => str_eq(s.role_name.as_str(), n),
        };
        let status_ok = match status_id {
            None => true,
            Some(st) => s.status_id == st,
        };
        proof {
            assert(roles@.take(k + 1).drop_last() =~= roles@.take(k as int));
            assert(roles@.take(k + 1).last() == roles@[k as int]);
        }
        if name_ok && status_ok {
            out.push(
                RoleListData {
                    id: s.id,
                    sort: s.sort,
                    status_id: s.status_id,
                    role_name: s.role_name.clone(),
                    remark: s.remark.clone(),
                    create_time: s.create_time.clone(),
                    update_time: s.update_time.clone(),
                },
            );
        }
        k = k + 1;
    }
    proof {
        assert(roles@.take(roles@.len() as int) =~= roles@);
    }
    out
}

/// Whether a user row passes the optional mobile and state filters.
pub open spec fn spec_user_match(u: SysUser, mobile: Option<Seq<char>>, f: Option<i32>) -> bool {
    &&& match mobile {
        None => true,
        Some(m) => u.mobile@ == m,
    }
    &&& match f {
        None => true,
        Some(s) => u.status_id == s,
    }
}

/// The user rows that pass the filters, in order.
pub open spec fn spec_filter_users(
    users: Seq<SysUser>,
    mobile: Option<Seq<char>>,
    f: Option<i32>,
) -> Seq<SysUser>
    decreases users.len(),
{
    if users.len() == 0 {
        Seq::empty()
    } else {
        let front = spec_filter_users(users.drop_last(), mobile, f);
        if spec_user_match(users.last(), mobile, f) {
            front.push(users.last())
        } else {
            front
        }
    }
}

/// How one listed user reflects its row. The stored password never leaves
/// the store: no field of the response carries it.
pub open spec fn spec_user_row_matches(u: SysUser, d: UserListData) -> bool {
    &&& d.id == u.id
    &&& d.sort == u.sort
    &&& d.status_id == u.status_id
    &&& d.mobile@ == u.mobile@
    &&& d.user_name@ == u.user_name@
    &&& d.remark@ == u.remark@
    &&& d.create_time@ == u.create_time@
    &&& d.update_time@ == u.update_time@
}

/// Shapes the user list: every row that passes the filters, in input order.
pub fn user_list_data(
    users: &Vec<SysUser>,
    mobile: Option<&str>,
    status_id: Option<i32>,
) -> (r: Vec<UserListData>)
    ensures
        ({
            let m = match mobile {
                Some(n) => Some(n@),
                None => None,
            };
            &&& r@.len() == spec_filter_users(users@, m, status_id).len()
            &&& forall|i: int|
                0 <= i < r@.len() ==> spec_user_row_matches(
                    spec_filter_users(users@, m, status_id)[i],
                    #[trigger] r@[i],
                )
        }),
{
    let ghost mv = match mobile {
        Some(n) => Some(n@),
        None => None::<Seq<char>>,
    };
    let mut out: Vec<UserListData> = Vec::new();
    let mut k: usize = 0;
    proof {
        assert(users@.take(0) =~= Seq::<SysUser>::empty());
    }
    while k < users.len()
        invariant
            k <= users@.len(),
            mv == (match mobile {
                Some(n) => Some(n@),
                None => None::<Seq<char>>,
            }),
            out@.len() == spec_filter_users(users@.take(k as int), mv, status_id).len(),
            forall|i: int|
                0 <= i < out@.len() ==> spec_user_row_matches(
                    spec_filter_users(users@.take(k as int), mv, status_id)[i],
                    #[trigger] out@[i],
                ),
        decreases users@.len() - k,
    {
        let u = &users[k];
        let mobile_ok = match mobile {
            None => true,
            Some(n) => str_eq(u.mobile.as_str(), n),
        };
        let status_ok = match status_id {
            None => true,
            Some(st) => u.status_id == st,
        };
        proof {
            assert(users@.take(k + 1).drop_last() =~= users@.take(k as int));
            assert(users@.take(k + 1).last() == users@[k as int]);
        }
        if mobile_ok && status_ok {
            out.push(
                UserListData {
                    id: u.id,
                    sort: u.sort,
                    status_id: u.status_id,
                    mobile: u.mobile.clone(),
                    user_name: u.user_name.clone(),
                    remark: u.remark.clone(),
                    create_time: u.create_time.clone(),
                    update_time: u.update_time.clone(),
                },
            );
        }
        k = k + 1;
    }
    proof {
        assert(users@.take(users@.len() as int) =~= users@);
    }
    out
}

/// How one node of the role-assignment tree reflects its menu row: the key
/// is the decimal spelling of the id, and the penultimate mark follows the
/// tree convention that depth-two nodes hang under the node with id 2.
pub open spec fn spec_menu_node_matches(m: SysMenu, d: MenuDataList) -> bool {
    &&& d.id == m.id
    &&& d.parent_id == m.parent_id
    &&& d.title@ == m.menu_name@
    &&& d.key@ == spec_i64_dec(m.id)
    &&& d.label@ == m.menu_name@
    &&& d.is_penultimate == (m.parent_id == 2)
}

/// The ids of the menus assigned to a role.
pub open spec fn spec_role_menu_ids(role_menus: Seq<SysRoleMenu>, role_id: i64) -> Seq<i64>
    decreases role_menus.len(),
{
    if role_menus.len() == 0 {
        Seq::empty()
    } else {
        let front = spec_role_menu_ids(role_menus.drop_last(), role_id);
        if role_menus.last().role_id == role_id {
            front.push(role_menus.last().menu_id)
        } else {
            front
        }
    }
}

/// The ids of all menus, in order.
pub open spec fn spec_all_menu_ids(menus: Seq<SysMenu>) -> Seq<i64> {
    menus.map(|i: int, m: SysMenu| m.id)
}

/// Shapes the role-menu view: the whole menu tree, and the assigned menu
/// ids — all of them for the superuser role, the role's own assignments
/// otherwise.
pub fn query_role_menu_data(
    menus: &Vec<SysMenu>,
    role_menus: &Vec<SysRoleMenu>,
    role_id: i64,
) -> (r: QueryRoleMenuData)
    ensures
        r.menu_list@.len() == menus@.len(),
        forall|i: int|
            0 <= i < menus@.len() ==> spec_menu_node_matches(menus@[i], #[trigger] r.menu_list@[i]),
        role_id == SUPERUSER_ROLE_ID ==> r.role_menus@ == spec_all_menu_ids(menus@),
        role_id != SUPERUSER_ROLE_ID ==> r.role_menus@ == spec_role_menu_ids(role_menus@, role_id),
{
    let mut menu_list: Vec<MenuDataList> = Vec::new();
    let mut k: usize = 0;
    while k < menus.len()
        invariant
            k <= menus@.len(),
            menu_list@.len() == k,
            forall|i: int|
                0 <= i < k ==> spec_menu_node_matches(menus@[i], #[trigger] menu_list@[i]),
        decreases menus@.len() - k,
    {
        let m = &menus[k];
        menu_list.push(
            MenuDataList {
                id: m.id,
                parent_id: m.parent_id,
                title: m.menu_name.clone(),
                key: i64_to_dec(m.id),
                label: m.menu_name.clone(),
                is_penultimate: m.parent_id == 2,
            },
        );
        k = k + 1;
    }
    let mut ids: Vec<i64> = Vec::new();
    if role_id == SUPERUSER_ROLE_ID {
        let mut k: usize = 0;
        while k < menus.len()
            invariant
                k <= menus@.len(),
                ids@ == spec_all_menu_ids(menus@).take(k as int),
            decreases menus@.len() - k,
        {
            ids.push(menus[k].id);
            proof {
                assert(ids@ =~= spec_all_menu_ids(menus@).take(k + 1));
            }
            k = k + 1;
        }
        proof {
            assert(spec_all_menu_ids(menus@).take(menus@.len() as int) =~= spec_all_menu_ids(
                menus@,
            ));
        }
    } else {
        let mut k: usize = 0;
        proof {
            assert(role_menus@.take(0) =~= Seq::<SysRoleMenu>::empty());
        }
        while k < role_menus.len()
            invariant
                k <= role_menus@.len(),
                ids@ == spec_role_menu_ids(role_menus@.take(k as int), role_id),
            decreases role_menus@.len() - k,
        {
            proof {
                assert(role_menus@.take(k + 1).drop_last() =~= role_menus@.take(k as int));
                assert(role_menus@.take(k + 1).last() == role_menus@[k as int]);
            }
            if role_menus[k].role_id == role_id {
                ids.push(role_menus[k].menu_id);
            }
            k = k + 1;
        }
        proof {
            assert(role_menus@.take(role_menus@.len() as int) =~= role_menus@);
        }
    }
    QueryRoleMenuData { role_menus: ids, menu_list }
}

/// How one row of the role-assignment list reflects its role row.
pub open spec fn spec_user_role_row_matches(s: SysRole, d: UserRoleList) -> bool {
    &&& d.id == s.id
    &&& d.status_id == s.status_id
    &&& d.sort == s.sort
    &&& d.role_name@ == s.role_name@
    &&& d.remark@ == s.remark@
    &&& d.create_time@ == s.create_time@
    &&& d.update_time@ == s.update_time@
}

/// The ids of the roles assigned to a user.
pub open spec fn spec_user_role_ids(user_roles: Seq<SysUserRole>, user_id: i64) -> Seq<i64>
    decreases user_roles.len(),
{
    if user_roles.len() == 0 {
        Seq::empty()
    } else {
        let front = spec_user_role_ids(user_roles.drop_last(), user_id);
        if user_roles.last().user_id == user_id {
            front.push(user_roles.last().role_id)
        } else {
            front
        }
    }
}

/// Shapes the user-role view: every role, and the ids of those the user
/// holds.
pub fn query_user_role_data(
    roles: &Vec<SysRole>,
    user_roles: &Vec<SysUserRole>,
    user_id: i64,
) -> (r: QueryUserRoleData)
    ensures
        r.sys_role_list@.len() == roles@.len(),
        forall|i: int|
            0 <= i < roles@.len() ==> spec_user_role_row_matches(
                roles@[i],
                #[trigger] r.sys_role_list@[i],
            ),
        r.user_role_ids@ == spec_user_role_ids(user_roles@, user_id),
{
    let mut list: Vec<UserRoleList> = Vec::new();
    let mut k: usize = 0;
    while k < roles.len()
        invariant
            k <= roles@.len(),
            list@.len() == k,
            forall|i: int|
                0 <= i < k ==> spec_user_role_row_matches(roles@[i], #[trigger] list@[i]),
        decreases roles@.len() - k,
    {
        let s = &roles[k];
        list.push(
            UserRoleList {
                id: s.id,
                status_id: s.status_id,
                sort: s.sort,
                role_name: s.role_name.clone(),
                remark: s.remark.clone(),
                create_time: s.create_time.clone(),
                update_time: s.update_time.clone(),
            },
        );
        k = k + 1;
    }
    let mut ids: Vec<i64> = Vec::new();
    let mut k: usize = 0;
    proof {
        assert(user_roles@.take(0) =~= Seq::<SysUserRole>::empty());
    }
    while k < user_roles.len()
        invariant
            k <= user_roles@.len(),
            ids@ == spec_user_role_ids(user_roles@.take(k as int), user_id),
        decreases user_roles@.len() - k,
    {
        proof {
            assert(user_roles@.take(k + 1).drop_last() =~= user_roles@.take(k as int));
            assert(user_roles@.take(k + 1).last() == user_roles@[k as int]);
        }
        if user_roles[k].user_id == user_id {
            ids.push(user_roles[k].role_id);
        }
        k = k + 1;
    }
    proof {
        assert(user_roles@.take(user_roles@.len() as int) =~= user_roles@);
    }
    QueryUserRoleData { sys_role_list: list, user_role_ids: ids }
}

/// A menu row counts for the user-menu view only while it is visible:
/// state 0 hides it from both the button list and the node collection.
pub open spec fn spec_menu_visible(m: SysMenu) -> bool {
    m.status_id != 0
}

/// The routes a user may invoke, read off its reachable menus: the
/// non-empty api-paths of the visible rows, in order.
pub open spec fn spec_btn_menu(menus: Seq<SysMenu>) -> Seq<Seq<char>>
    decreases menus.len(),
{
    if menus.len() == 0 {
        Seq::empty()
    } else {
        let front = spec_btn_menu(menus.drop_last());
        if spec_menu_visible(menus.last()) && menus.last().api_url@.len() > 0 {
            front.push(menus.last().api_url@)
        } else {
            front
        }
    }
}

/// Whether a menu row is shown to the user: some visible reachable
/// non-button node is it or hangs under it.
pub open spec fn spec_menu_shown(reachable: Seq<SysMenu>, m: SysMenu) -> bool {
    exists|i: int|
        0 <= i < reachable.len() && spec_menu_visible(#[trigger] reachable[i])
            && reachable[i].menu_type != 3 && (reachable[i].id == m.id || reachable[i].parent_id
            == m.id)
}

/// The menu rows shown to the user, in order.
pub open spec fn spec_shown_menus(all: Seq<SysMenu>, reachable: Seq<SysMenu>) -> Seq<SysMenu>
    decreases all.len(),
{
    if all.len() == 0 {
        Seq::empty()
    } else {
        let front = spec_shown_menus(all.drop_last(), reachable);
        if spec_menu_shown(reachable, all.last()) {
            front.push(all.last())
        } else {
            front
        }
    }
}

/// How one shown menu node reflects its row.
pub open spec fn spec_shown_menu_matches(m: SysMenu, d: MenuUserList) -> bool {
    &&& d.id == m.id
    &&& d.parent_id == m.parent_id
    &&& d.name@ == m.menu_name@
    &&& d.icon@ == m.menu_icon@
    &&& d.api_url@ == m.api_url@
    &&& d.menu_type == m.menu_type
    &&& d.path@ == m.menu_url@
}

/// Whether a menu row is shown to the user.
fn menu_shown(reachable: &Vec<SysMenu>, m: &SysMenu) -> (r: bool)
    ensures
        r == spec_menu_shown(reachable@, *m),
{
    let mut i: usize = 0;
    while i < reachable.len()
        invariant
            i <= reachable@.len(),
            forall|a: int|
                0 <= a < i ==> !(spec_menu_visible(#[trigger] reachable@[a])
                    && reachable@[a].menu_type != 3 && (reachable@[a].id == m.id
                    || reachable@[a].parent_id == m.id)),
        decreases reachable@.len() - i,
    {
        if reachable[i].status_id != 0 && reachable[i].menu_type != 3 && (reachable[i].id == m.id
            || reachable[i].parent_id == m.id) {
            return true;
        }
        i = i + 1;
    }
    false
}

/// Every id in the shown list is the id of some input row.
pub proof fn lemma_shown_ids_members(all: Seq<SysMenu>, reachable: Seq<SysMenu>)
    ensures
        forall|i: int|
            0 <= i < spec_shown_menus(all, reachable).len() ==> exists|j: int|
                0 <= j < all.len() && all[j].id == #[trigger] spec_shown_menus(
                    all,
                    reachable,
                )[i].id,
    decreases all.len(),
{
    if all.len() > 0 {
        let front_all = all.drop_last();
        lemma_shown_ids_members(front_all, reachable);
        let shown = spec_shown_menus(all, reachable);
        let front = spec_shown_menus(front_all, reachable);
        assert forall|i: int|
            0 <= i < shown.len() implies exists|j: int|
            0 <= j < all.len() && all[j].id == #[trigger] shown[i].id by {
            if i < front.len() {
                let j = choose|j: int| 0 <= j < front_all.len() && front_all[j].id == front[i].id;
                assert(all[j].id == shown[i].id);
            } else {
                assert(all[all.len() - 1].id == shown[i].id);
            }
        }
    }
}

/// When the input rows carry pairwise distinct ids, so does the shown list.
pub proof fn lemma_shown_ids_distinct(all: Seq<SysMenu>, reachable: Seq<SysMenu>)
    requires
        forall|a: int, b: int| 0 <= a < b < all.len() ==> all[a].id != all[b].id,
    ensures
        forall|i: int, j: int|
            0 <= i < j < spec_shown_menus(all, reachable).len() ==> spec_shown_menus(
                all,
                reachable,
            )[i].id != spec_shown_menus(all, reachable)[j].id,
    decreases all.len(),
{
    if all.len() > 0 {
        let front_all = all.drop_last();
        lemma_shown_ids_distinct(front_all, reachable);
        lemma_shown_ids_members(front_all, reachable);
        let shown = spec_shown_menus(all, reachable);
        let front = spec_shown_menus(front_all, reachable);
        assert forall|i: int, j: int|
            0 <= i < j < shown.len() implies shown[i].id != shown[j].id by {
            if j < front.len() {
            } else if shown.len() > front.len() {
                // the last input row was appended: its id differs from the id
                // of every earlier row, and every earlier shown id is one of
                // those
                assert(shown[j] == all.last());
                if i < front.len() {
                    let a = choose|a: int|
                        0 <= a < front_all.len() && front_all[a].id == front[i].id;
                    assert(all[a].id == front[i].id);
                    assert(all[a].id != all[all.len() - 1].id);
                }
            }
        }
    }
}

/// Shapes the user-menu view: the user's display name, the routes it may
/// invoke (from visible reachable rows), and the menu nodes shown to it,
/// all in input order. Rows are keyed by id, so with the store's ids unique
/// no node appears twice.
pub fn user_menu_data(
    user_name: &str,
    reachable: &Vec<SysMenu>,
    all_menus: &Vec<SysMenu>,
) -> (r: QueryUserMenuData)
    requires
        forall|a: int, b: int|
            0 <= a < b < all_menus@.len() ==> all_menus@[a].id != all_menus@[b].id,
    ensures
        r.name@ == user_name@,
        r.btn_menu.deep_view() == spec_btn_menu(reachable@),
        r.sys_menu@.len() == spec_shown_menus(all_menus@, reachable@).len(),
        forall|i: int|
            0 <= i < r.sys_menu@.len() ==> spec_shown_menu_matches(
                spec_shown_menus(all_menus@, reachable@)[i],
                #[trigger] r.sys_menu@[i],
            ),
        forall|i: int, j: int|
            0 <= i < j < r.sys_menu@.len() ==> (#[trigger] r.sys_menu@[i]).id != (
            #[trigger] r.sys_menu@[j]).id,
{
    proof {
        lemma_shown_ids_distinct(all_menus@, reachable@);
    }
    let mut btn: Vec<String> = Vec::new();
    let mut k: usize = 0;
    proof {
        assert(reachable@.take(0) =~= Seq::<SysMenu>::empty());
        assert(btn.deep_view() =~= spec_btn_menu(reachable@.take(0)));
    }
    while k < reachable.len()
        invariant
            k <= reachable@.len(),
            btn.deep_view() == spec_btn_menu(reachable@.take(k as int)),
        decreases reachable@.len() - k,
    {
        proof {
            assert(reachable@.take(k + 1).drop_last() =~= reachable@.take(k as int));
            assert(reachable@.take(k + 1).last() == reachable@[k as int]);
        }
        if reachable[k].status_id != 0 && !reachable[k].api_url.as_str().is_empty() {
            let ghost old_btn = btn.deep_view();
            btn.push(reachable[k].api_url.clone());
            proof {
                assert(btn.deep_view() =~= old_btn.push(reachable@[k as int].api_url@));
            }
        }
        k = k + 1;
    }
    proof {
        assert(reachable@.take(reachable@.len() as int) =~= reachable@);
    }
    let mut shown: Vec<MenuUserList> = Vec::new();
    let mut k: usize = 0;
    proof {
        assert(all_menus@.take(0) =~= Seq::<SysMenu>::empty());
    }
    while k < all_menus.len()
        invariant
            k <= all_menus@.len(),
            shown@.len() == spec_shown_menus(all_menus@.take(k as int), reachable@).len(),
            forall|i: int|
                0 <= i < shown@.len() ==> spec_shown_menu_matches(
                    spec_shown_menus(all_menus@.take(k as int), reachable@)[i],
                    #[trigger] shown@[i],
                ),
        decreases all_menus@.len() - k,
    {
        let m = &all_menus[k];
        proof {
            assert(all_menus@.take(k + 1).drop_last() =~= all_menus@.take(k as int));
            assert(all_menus@.take(k + 1).last() == all_menus@[k as int]);
        }
        if menu_shown(reachable, m) {
            shown.push(
                MenuUserList {
                    id: m.id,
                    parent_id: m.parent_id,
                    name: m.menu_name.clone(),
                    path: m.menu_url.clone(),
                    api_url: m.api_url.clone(),
                    menu_type: m.menu_type,
                    icon: m.menu_icon.clone(),
                },
            );
        }
        k = k + 1;
    }
    proof {
        assert(all_menus@.take(all_menus@.len() as int) =~= all_menus@);
    }
    QueryUserMenuData {
        sys_menu: shown,
        btn_menu: btn,
        avatar: "https://gw.alipayobjects.com/zos/antfincdn/XAosXuNZyF/BiazfanxmamNRoxxVxka.png".to_owned(),
        name: user_name.to_owned(),
    }
}

/// The user ids that may actually be deleted: the reserved system user is
/// silently dropped from the request.
pub open spec fn spec_deletable_ids(ids: Seq<i64>) -> Seq<i64>
    decreases ids.len(),
{
    if ids.len() == 0 {
        Seq::empty()
    } else {
        let front = spec_deletable_ids(ids.drop_last());
        if ids.last() != RESERVED_USER_ID {
            front.push(ids.last())
        } else {
            front
        }
    }
}

/// Filters a deletion request: every requested id except the reserved one.
pub fn deletable_user_ids(ids: &Vec<i64>) -> (r: Vec<i64>)
    ensures
        r@ == spec_deletable_ids(ids@),
{
    let mut out: Vec<i64> = Vec::new();
    let mut k: usize = 0;
    proof {
        assert(ids@.take(0) =~= Seq::<i64>::empty());
    }
    while k < ids.len()
        invariant
            k <= ids@.len(),
            out@ == spec_deletable_ids(ids@.take(k as int)),
        decreases ids@.len() - k,
    {
        proof {
            assert(ids@.take(k + 1).drop_last() =~= ids@.take(k as int));
            assert(ids@.take(k + 1).last() == ids@[k as int]);
        }
        if ids[k] != RESERVED_USER_ID {
            out.push(ids[k]);
        }
        k = k + 1;
    }
    proof {
        assert(ids@.take(ids@.len() as int) =~= ids@);
    }
    out
}

/// Whether a user's role assignments may be edited: the reserved system
/// user's may not.
pub fn update_user_role_allowed(user_id: i64) -> (r: bool)
    ensures
        r == (user_id != RESERVED_USER_ID),
{
    user_id != RESERVED_USER_ID
}

/// The assignment rows that give a user exactly the requested roles.
pub fn user_role_rows(user_id: i64, role_ids: &Vec<i64>) -> (r: Vec<SysUserRole>)
    ensures
        r@.len() == role_ids@.len(),
        forall|i: int|
            0 <= i < r@.len() ==> (#[trigger] r@[i]).user_id == user_id && r@[i].role_id
                == role_ids@[i],
{
    let mut out: Vec<SysUserRole> = Vec::new();
    let mut k: usize = 0;
    while k < role_ids.len()
        invariant
            k <= role_ids@.len(),
            out@.len() == k,
            forall|i: int|
                0 <= i < k ==> (#[trigger] out@[i]).user_id == user_id && out@[i].role_id
                    == role_ids@[i],
        decreases role_ids@.len() - k,
    {
        out.push(SysUserRole { user_id, role_id: role_ids[k] });
        k = k + 1;
    }
    out
}

/// The assignment rows that give a role exactly the requested menus.
pub fn role_menu_rows(role_id: i64, menu_ids: &Vec<i64>) -> (r: Vec<SysRoleMenu>)
    ensures
        r@.len() == menu_ids@.len(),
        forall|i: int|
            0 <= i < r@.len() ==> (#[trigger] r@[i]).role_id == role_id && r@[i].menu_id
                == menu_ids@[i],
{
    let mut out: Vec<SysRoleMenu> = Vec::new();
    let mut k: usize = 0;
    while k < menu_ids.len()
        invariant
            k <= menu_ids@.len(),
            out@.len() == k,
            forall|i: int|
                0 <= i < k ==> (#[trigger] out@[i]).role_id == role_id && out@[i].menu_id
                    == menu_ids@[i],
        decreases menu_ids@.len() - k,
    {
        out.push(SysRoleMenu { role_id, menu_id: menu_ids[k] });
        k = k + 1;
    }
    out
}

/// Applies a password change: only when the supplied old password matches
/// the stored salted hash does it yield the row rehashed under the new
/// salt; everything else of the row stays as it was.
pub fn change_password(u: &SysUser, old_pw: &str, new_salt: &str, new_pw: &str) -> (r: Option<
    SysUser,
>)
    ensures
        spec_password_matches(*u, old_pw@) <==> r is Some,
        r is Some ==> {
            let n = r->Some_0;
            &&& n.id == u.id
            &&& n.mobile@ == u.mobile@
            &&& n.user_name@ == u.user_name@
            &&& n.password_salt@ == new_salt@
            &&& n.password_hash@ == spec_password_hash(new_salt@, new_pw@)
            &&& n.status_id == u.status_id
            &&& n.sort == u.sort
            &&& n.remark@ == u.remark@
            &&& n.create_time@ == u.create_time@
            &&& n.update_time@ == u.update_time@
        },
{
    let supplied = hash_password(u.password_salt.as_str(), old_pw);
    if !str_eq(supplied.as_str(), u.password_hash.as_str()) {
        return None;
    }
    Some(
        SysUser {
            id: u.id,
            mobile: u.mobile.clone(),
            user_name: u.user_name.clone(),
            password_salt: new_salt.to_owned(),
            password_hash: hash_password(new_salt, new_pw),
            status_id: u.status_id,
            sort: u.sort,
            remark: u.remark.clone(),
            create_time: u.create_time.clone(),
            update_time: u.update_time.clone(),
        },
    )
}

} // verus!
