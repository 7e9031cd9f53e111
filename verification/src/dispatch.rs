//! Command-level preconditions and registry mutations. Each function checks
//! the preconditions of one CLI verb, performs the in-memory mutation, and
//! reports a violation without touching the registry otherwise.

use vstd::prelude::*;
use crate::registry::Registry;
use crate::strutil::str_eq;
use crate::table::{lemma_kv_map_contains, lemma_kv_map_index, tbl_contains,
    tbl_drop_value, tbl_remove, tbl_upsert};

verus! {

/// A user-level precondition violation; the process reports it and exits
/// nonzero.
#[derive(Debug, PartialEq, Eq, Structural, Clone, Copy)]
pub enum CmdError {
    /// The route already exists and `--force` was not given.
    RouteExists,
    /// No route with the given source domain exists.
    RouteMissing,
    /// The login group file already exists.
    GroupExists,
    /// The login group file does not exist.
    GroupMissing,
    /// The route is already bound to a group and `--force` was not given.
    BindingExists,
    /// No login group is active for the domain.
    BindingMissing,
    /// The login already exists in the group and `--force` was not given.
    LoginExists,
    /// No such login exists in the group.
    LoginMissing,
}

/// True when some element of `v` reads `x`.
pub open spec fn names_has(v: Seq<String>, x: Seq<char>) -> bool {
    exists|i: int| 0 <= i < v.len() && v[i]@ == x
}

/// Membership test on a list of file names.
pub fn names_contain(v: &Vec<String>, x: &str) -> (r: bool)
    ensures
        r == names_has(v@, x@),
{
    let mut i: usize = 0;
    while i < v.len()
        invariant
            i <= v@.len(),
            forall|j: int| 0 <= j < i ==> v@[j]@ != x@,
        decreases v@.len() - i,
    {
        if str_eq(v[i].as_str(), x) {
            return true;
        }
        i += 1;
    }
    false
}

/// `add <domain> <target> [--force]`: upserts a route; refuses an existing
/// route unless forced.
pub fn cmd_add(reg: &mut Registry, domain: String, target: String, force: bool) -> (r: Result<
    (),
    CmdError,
>)
    requires
        old(reg).wf(),
    ensures
        r is Ok <==> (force || !old(reg).routes_map().contains_key(domain@)),
        r is Err ==> *final(reg) == *old(reg) && r == Result::<(), CmdError>::Err(
            CmdError::RouteExists,
        ),
        r is Ok ==> final(reg).wf() && final(reg).routes_map() == old(reg).routes_map().insert(domain@, target@) && final(reg).login_groups@ == old(reg).login_groups@ && final(reg).home == old(reg).home
            && final(reg).acme_redirect_configs == old(reg).acme_redirect_configs,
{
    if !force && tbl_contains(&reg.routes, domain.as_str()) {
        return Err(CmdError::RouteExists);
    }
    tbl_upsert(&mut reg.routes, domain, target);
    Ok(())
}

/// `remove <domain>`: deletes a route that must exist.
pub fn cmd_remove(reg: &mut Registry, domain: &str) -> (r: Result<(), CmdError>)
    requires
        old(reg).wf(),
    ensures
        r is Ok <==> old(reg).routes_map().contains_key(domain@),
        r is Err ==> *final(reg) == *old(reg) && r == Result::<(), CmdError>::Err(
            CmdError::RouteMissing,
        ),
        r is Ok ==> final(reg).wf() && final(reg).routes_map() == old(reg).routes_map().remove(domain@) && final(reg).login_groups@ == old(reg).login_groups@
            && final(reg).home == old(reg).home && final(reg).acme_redirect_configs == old(reg).acme_redirect_configs,
{
    if !tbl_contains(&reg.routes, domain) {
        return Err(CmdError::RouteMissing);
    }
    tbl_remove(&mut reg.routes, domain);
    Ok(())
}

/// `login-group create <g>`: only the precondition; the caller then writes an
/// empty password file.
pub fn cmd_group_create(groups: &Vec<String>, group: &str) -> (r: Result<(), CmdError>)
    ensures
        r is Ok <==> !names_has(groups@, group@),
        r is Err ==> r == Result::<(), CmdError>::Err(CmdError::GroupExists),
{
    if names_contain(groups, group) {
        return Err(CmdError::GroupExists);
    }
    Ok(())
}

/// `login-group remove <g>`: the group file must exist; every binding that
/// referenced the group is purged. The caller then deletes the file.
pub fn cmd_group_remove(reg: &mut Registry, groups: &Vec<String>, group: &str) -> (r: Result<
    (),
    CmdError,
>)
    requires
        old(reg).wf(),
    ensures
        r is Ok <==> names_has(groups@, group@),
        r is Err ==> *final(reg) == *old(reg) && r == Result::<(), CmdError>::Err(
            CmdError::GroupMissing,
        ),
        r is Ok ==> final(reg).wf() && final(reg).routes@ == old(reg).routes@ && final(reg).home == old(reg).home && final(reg).acme_redirect_configs == old(reg).acme_redirect_configs,
        r is Ok ==> forall|k: Seq<char>| #[trigger] final(reg).groups_map().contains_key(k)
            <==> (old(reg).groups_map().contains_key(k) && old(reg).groups_map()[k]
            != group@),
        r is Ok ==> forall|k: Seq<char>| final(reg).groups_map().contains_key(k) ==> final(reg).groups_map()[k] == old(reg).groups_map()[k],
{
    if !names_contain(groups, group) {
        return Err(CmdError::GroupMissing);
    }
    tbl_drop_value(&mut reg.login_groups, group);
    Ok(())
}

/// `login-group apply <domain> <g> [--force]`: the group file and the route
/// must exist; an existing binding yields to `--force` only.
pub fn cmd_apply(
    reg: &mut Registry,
    groups: &Vec<String>,
    domain: String,
    group: String,
    force: bool,
) -> (r: Result<(), CmdError>)
    requires
        old(reg).wf(),
    ensures
        r is Ok <==> (names_has(groups@, group@) && old(reg).routes_map().contains_key(
            domain@,
        ) && (force || !old(reg).groups_map().contains_key(domain@))),
        r is Err ==> *final(reg) == *old(reg),
        r == Result::<(), CmdError>::Err(CmdError::GroupMissing) <==> !names_has(
            groups@,
            group@,
        ),
        r == Result::<(), CmdError>::Err(CmdError::RouteMissing) <==> (names_has(
            groups@,
            group@,
        ) && !old(reg).routes_map().contains_key(domain@)),
        r == Result::<(), CmdError>::Err(CmdError::BindingExists) <==> (names_has(
            groups@,
            group@,
        ) && old(reg).routes_map().contains_key(domain@) && !force && old(
            reg,
        ).groups_map().contains_key(domain@)),
        r is Ok ==> final(reg).wf() && final(reg).groups_map() == old(reg).groups_map().insert(domain@, group@) && final(reg).routes@ == old(reg).routes@
            && final(reg).home == old(reg).home && final(reg).acme_redirect_configs == old(reg).acme_redirect_configs,
{
    if !names_contain(groups, group.as_str()) {
        return Err(CmdError::GroupMissing);
    }
    if !tbl_contains(&reg.routes, domain.as_str()) {
        return Err(CmdError::RouteMissing);
    }
    if !force && tbl_contains(&reg.login_groups, domain.as_str()) {
        return Err(CmdError::BindingExists);
    }
    tbl_upsert(&mut reg.login_groups, domain, group);
    Ok(())
}

/// `login-group disable <domain>`: removes a binding that must exist.
pub fn cmd_disable(reg: &mut Registry, domain: &str) -> (r: Result<(), CmdError>)
    requires
        old(reg).wf(),
    ensures
        r is Ok <==> old(reg).groups_map().contains_key(domain@),
        r is Err ==> *final(reg) == *old(reg) && r == Result::<(), CmdError>::Err(
            CmdError::BindingMissing,
        ),
        r is Ok ==> final(reg).wf() && final(reg).groups_map() == old(reg).groups_map().remove(domain@) && final(reg).routes@ == old(reg).routes@ && final(reg).home == old(reg).home && final(reg).acme_redirect_configs == old(reg).acme_redirect_configs,
{
    if !tbl_contains(&reg.login_groups, domain) {
        return Err(CmdError::BindingMissing);
    }
    tbl_remove(&mut reg.login_groups, domain);
    Ok(())
}

/// True when some entry of the pair list has `x` as its value.
pub open spec fn vals_has(s: Seq<(String, String)>, x: Seq<char>) -> bool {
    exists|j: int| 0 <= j < s.len() && s[j].1@ == x
}

/// Group names referenced by bindings but absent from the password-file
/// directory; the caller creates an empty file for each, healing the registry
/// toward its invariant.
pub fn missing_group_files(reg: &Registry, existing: &Vec<String>) -> (r: Vec<String>)
    ensures
        forall|m: int| 0 <= m < r@.len() ==> !names_has(existing@, #[trigger] r@[m]@)
            && vals_has(reg.login_groups@, r@[m]@),
        forall|j: int| 0 <= j < reg.login_groups@.len() ==> names_has(
            existing@,
            #[trigger] reg.login_groups@[j].1@,
        ) || names_has(r@, reg.login_groups@[j].1@),
{
    let mut r: Vec<String> = Vec::new();
    let mut i: usize = 0;
    while i < reg.login_groups.len()
        invariant
            i <= reg.login_groups@.len(),
            forall|m: int| 0 <= m < r@.len() ==> !names_has(existing@, #[trigger] r@[m]@)
                && vals_has(reg.login_groups@, r@[m]@),
            forall|j: int| 0 <= j < i ==> names_has(
                existing@,
                #[trigger] reg.login_groups@[j].1@,
            ) || names_has(r@, reg.login_groups@[j].1@),
        decreases reg.login_groups@.len() - i,
    {
        let name = &reg.login_groups[i].1;
        if !names_contain(existing, name.as_str()) && !names_contain(&r, name.as_str()) {
            let ghost prev = r@;
            r.push(name.clone());
            proof {
                assert(r@[prev.len() as int]@ == reg.login_groups@[i as int].1@);
                assert(vals_has(reg.login_groups@, r@[prev.len() as int]@));
                assert(forall|m: int| 0 <= m < prev.len() ==> r@[m] == prev[m]);
                assert forall|j: int| 0 <= j < i + 1 implies names_has(
                    existing@,
                    #[trigger] reg.login_groups@[j].1@,
                ) || names_has(r@, reg.login_groups@[j].1@) by {
                    if j < i {
                        if names_has(prev, reg.login_groups@[j].1@) {
                            let m = choose|m: int|
                                0 <= m < prev.len() && prev[m]@ == reg.login_groups@[j].1@;
                            assert(r@[m]@ == reg.login_groups@[j].1@);
                        }
                    } else {
                        assert(r@[prev.len() as int]@ == reg.login_groups@[j].1@);
                    }
                }
            }
        } else {
            proof {
                assert(names_has(existing@, reg.login_groups@[i as int].1@) || names_has(
                    r@,
                    reg.login_groups@[i as int].1@,
                ));
            }
        }
        i += 1;
    }
    r
}

/// After healing, every binding's group name is present among the password
/// files: the old listing plus the files just created.
pub proof fn lemma_after_heal(reg: Registry, existing: Seq<String>, created: Seq<String>)
    requires
        forall|j: int| 0 <= j < reg.login_groups@.len() ==> names_has(
            existing,
            reg.login_groups@[j].1@,
        ) || names_has(created, reg.login_groups@[j].1@),
        reg.wf(),
    ensures
        forall|k: Seq<char>| #[trigger] reg.groups_map().contains_key(k) ==> names_has(
            existing + created,
            reg.groups_map()[k],
        ),
{
    lemma_kv_map_contains(reg.login_groups@);
    assert forall|k: Seq<char>| #[trigger] reg.groups_map().contains_key(k) implies names_has(
        existing + created,
        reg.groups_map()[k],
    ) by {
        let j = choose|j: int| 0 <= j < reg.login_groups@.len() && reg.login_groups@[j].0@
            == k;
        lemma_kv_map_index(reg.login_groups@, j);
        let v = reg.login_groups@[j].1@;
        if names_has(existing, v) {
            let m = choose|m: int| 0 <= m < existing.len() && existing[m]@ == v;
            assert((existing + created)[m]@ == v);
        } else {
            let m = choose|m: int| 0 <= m < created.len() && created[m]@ == v;
            assert((existing + created)[existing.len() + m]@ == v);
        }
    }
}

/// Inserting a fresh route and then removing it restores the route map: the
/// `add D T` / `remove D` round trip.
pub proof fn lemma_add_then_remove(m: Map<Seq<char>, Seq<char>>, d: Seq<char>, t: Seq<char>)
    requires
        !m.contains_key(d),
    ensures
        m.insert(d, t).remove(d) == m,
{
    assert(m.insert(d, t).remove(d) =~= m);
}

/// One line of the `list` output for a route without a binding.
pub fn list_line_plain(source: &str, target: &str) -> (r: String)
    ensures
        r@ == source@ + " => "@ + target@,
{
    let mut r = String::new();
    r.append(source);
    r.append(" => ");
    r.append(target);
    r
}

/// One line of the `list` output for a route gated by a login group.
pub fn list_line_with_group(source: &str, target: &str, group: &str) -> (r: String)
    ensures
        r@ == source@ + " => "@ + target@ + ", login group: "@ + group@,
{
    let mut r = String::new();
    r.append(source);
    r.append(" => ");
    r.append(target);
    r.append(", login group: ");
    r.append(group);
    r
}

} // verus!
