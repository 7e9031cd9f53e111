//! Directory models and the laws of materialization. A directory is a map
//! from entry name to contents; applying a plan to it is a spec-level
//! function, and the lemmas here state what any execution of a plan leaves
//! behind: the web-server directory mirrors the routes, the ACME directory's
//! owned entries mirror the routes while foreign entries stay untouched, and
//! a second materialization of an unchanged registry changes nothing.

use vstd::prelude::*;
use crate::dispatch::names_has;
use crate::plan::{AcmePlan, DirWrite, WebserverPlan, acme_plan_ok, spec_acme_name,
    spec_nginx_name, spec_owned, spec_vhost_for, webserver_plan_ok};
use crate::registry::Registry;
use crate::render::spec_acme_conf;
use crate::strutil::spec_has_prefix;
use crate::table::lemma_kv_map_contains;

verus! {

/// The map a list of file writes denotes (later writes win; names here are
/// in fact unique).
pub open spec fn files_map(s: Seq<DirWrite>) -> Map<Seq<char>, Seq<char>>
    decreases s.len(),
{
    if s.len() == 0 {
        Map::<Seq<char>, Seq<char>>::empty()
    } else {
        files_map(s.drop_last()).insert(s.last().name@, s.last().content@)
    }
}

/// A name is written exactly when some write carries it.
pub proof fn lemma_files_map_contains(s: Seq<DirWrite>)
    ensures
        forall|k: Seq<char>| #[trigger] files_map(s).contains_key(k) <==> (exists|i: int|
            0 <= i < s.len() && s[i].name@ == k),
    decreases s.len(),
{
    if s.len() == 0 {
    } else {
        lemma_files_map_contains(s.drop_last());
        assert forall|k: Seq<char>| #[trigger] files_map(s).contains_key(k) implies (exists|
            i: int,
        | 0 <= i < s.len() && s[i].name@ == k) by {
            if k == s.last().name@ {
                assert(s[s.len() - 1].name@ == k);
            } else {
                assert(files_map(s.drop_last()).contains_key(k));
                let i = choose|i: int|
                    0 <= i < s.drop_last().len() && s.drop_last()[i].name@ == k;
                assert(s.drop_last()[i] == s[i]);
                assert(s[i].name@ == k);
            }
        }
        assert forall|k: Seq<char>| (exists|i: int| 0 <= i < s.len() && s[i].name@ == k)
            implies #[trigger] files_map(s).contains_key(k) by {
            let i = choose|i: int| 0 <= i < s.len() && s[i].name@ == k;
            if i == s.len() - 1 {
                assert(files_map(s).contains_key(s.last().name@));
            } else {
                assert(s.drop_last()[i].name@ == k);
                assert(files_map(s.drop_last()).contains_key(k));
            }
        }
    }
}

/// With unique names, each write's contents are the map's value at its name.
pub proof fn lemma_files_map_index(s: Seq<DirWrite>, i: int)
    requires
        forall|m: int, n: int| 0 <= m < n < s.len() ==> s[m].name@ != s[n].name@,
        0 <= i < s.len(),
    ensures
        files_map(s).contains_key(s[i].name@),
        files_map(s)[s[i].name@] == s[i].content@,
    decreases s.len(),
{
    if i == s.len() - 1 {
    } else {
        lemma_files_map_index(s.drop_last(), i);
        assert(s[i].name@ != s.last().name@);
    }
}

/// Appending the same suffix to different sequences keeps them different.
pub proof fn lemma_concat_inj(a: Seq<char>, s: Seq<char>, t: Seq<char>, b: Seq<char>)
    requires
        a + s + b == a + t + b,
    ensures
        s == t,
{
    assert((a + s + b).len() == a.len() + s.len() + b.len());
    assert((a + t + b).len() == a.len() + t.len() + b.len());
    assert(s.len() == t.len());
    assert(s =~= (a + s + b).subrange(a.len() as int, a.len() as int + s.len()));
    assert(t =~= (a + t + b).subrange(a.len() as int, a.len() as int + t.len()));
}

/// Distinct sources get distinct web-server file names.
pub proof fn lemma_nginx_name_inj(s: Seq<char>, t: Seq<char>)
    requires
        spec_nginx_name(s) == spec_nginx_name(t),
    ensures
        s == t,
{
    assert(Seq::<char>::empty() + s + (".nginx")@ =~= spec_nginx_name(s));
    assert(Seq::<char>::empty() + t + (".nginx")@ =~= spec_nginx_name(t));
    lemma_concat_inj(Seq::<char>::empty(), s, t, (".nginx")@);
}

/// Distinct sources get distinct ACME config names.
pub proof fn lemma_acme_name_inj(s: Seq<char>, t: Seq<char>)
    requires
        spec_acme_name(s) == spec_acme_name(t),
    ensures
        s == t,
{
    lemma_concat_inj(("web-distributor.")@, s, t, (".conf")@);
}

/// Every generated ACME config name is owned by the tool.
pub proof fn lemma_acme_name_owned(s: Seq<char>)
    ensures
        spec_owned(spec_acme_name(s)),
{
    reveal_strlit("web-distributor.");
    reveal_strlit("web-distributor");
    reveal_strlit("web-distributor-old");
    let name = spec_acme_name(s);
    assert(name.subrange(0, 15) =~= ("web-distributor")@);
    assert(spec_has_prefix(name, ("web-distributor")@));
    if spec_has_prefix(name, ("web-distributor-old")@) {
        assert(name[15] == ("web-distributor-old")@[15]);
        assert(name[15] == ("web-distributor.")@[15]);
        assert(false);
    }
}

/// The web-server directory after materialization: exactly one file per
/// route, named `<source>.nginx`, holding that route's rendered block.
pub proof fn lemma_webserver_files(reg: Registry, ts: Seq<char>, p: WebserverPlan)
    requires
        reg.wf(),
        webserver_plan_ok(reg, ts, p),
    ensures
        forall|src: Seq<char>| #[trigger] reg.routes_map().contains_key(src) ==> files_map(
            p.files@,
        ).contains_key(spec_nginx_name(src)) && files_map(p.files@)[spec_nginx_name(src)]
            == spec_vhost_for(reg, src),
        forall|k: Seq<char>| #[trigger] files_map(p.files@).contains_key(k) ==> (exists|
            src: Seq<char>,
        | reg.routes_map().contains_key(src) && k == spec_nginx_name(src)),
        p.files@.len() == reg.routes@.len(),
{
    lemma_files_map_contains(p.files@);
    lemma_kv_map_contains(reg.routes@);
    assert forall|m: int, n: int| 0 <= m < n < p.files@.len() implies p.files@[m].name@
        != p.files@[n].name@ by {
        if p.files@[m].name@ == p.files@[n].name@ {
            lemma_nginx_name_inj(reg.routes@[m].0@, reg.routes@[n].0@);
        }
    }
    assert forall|src: Seq<char>| #[trigger] reg.routes_map().contains_key(src)
        implies files_map(p.files@).contains_key(spec_nginx_name(src)) && files_map(
        p.files@,
    )[spec_nginx_name(src)] == spec_vhost_for(reg, src) by {
        let i = choose|i: int| 0 <= i < reg.routes@.len() && reg.routes@[i].0@ == src;
        assert(p.files@[i].name@ == spec_nginx_name(src));
        lemma_files_map_index(p.files@, i);
    }
    assert forall|k: Seq<char>| #[trigger] files_map(p.files@).contains_key(k) implies (
    exists|src: Seq<char>| reg.routes_map().contains_key(src) && k == spec_nginx_name(
        src,
    )) by {
        let i = choose|i: int| 0 <= i < p.files@.len() && p.files@[i].name@ == k;
        let src = reg.routes@[i].0@;
        assert(reg.routes_map().contains_key(src));
        assert(k == spec_nginx_name(src));
    }
}

/// The names a move list removes from the shared directory.
pub open spec fn moved_names(moves: Seq<String>) -> Set<Seq<char>> {
    Set::new(|n: Seq<char>| names_has(moves, n))
}

/// The shared ACME directory after one materialization: owned entries moved
/// away, then one config written per route.
pub open spec fn apply_acme_plan(
    dir: Map<Seq<char>, Seq<char>>,
    p: AcmePlan,
) -> Map<Seq<char>, Seq<char>> {
    dir.remove_keys(moved_names(p.moves@)).union_prefer_right(files_map(p.files@))
}

/// After the ACME phase: every foreign entry is exactly as it was, and the
/// owned entries are exactly one config per route, with the rendered
/// contents.
pub proof fn lemma_acme_materialization(
    reg: Registry,
    ts: Seq<char>,
    entries: Seq<String>,
    p: AcmePlan,
    dir: Map<Seq<char>, Seq<char>>,
)
    requires
        reg.wf(),
        acme_plan_ok(reg, ts, entries, p),
        forall|k: Seq<char>| #[trigger] dir.contains_key(k) <==> names_has(entries, k),
    ensures
        forall|k: Seq<char>| !spec_owned(k) ==> (#[trigger] apply_acme_plan(
            dir,
            p,
        ).contains_key(k) <==> dir.contains_key(k)),
        forall|k: Seq<char>| !spec_owned(k) && dir.contains_key(k)
            ==> #[trigger] apply_acme_plan(dir, p)[k] == dir[k],
        forall|k: Seq<char>| spec_owned(k) ==> (#[trigger] apply_acme_plan(
            dir,
            p,
        ).contains_key(k) <==> (exists|src: Seq<char>| reg.routes_map().contains_key(src)
            && k == spec_acme_name(src))),
        forall|src: Seq<char>| #[trigger] reg.routes_map().contains_key(src)
            ==> apply_acme_plan(dir, p).contains_key(spec_acme_name(src))
            && apply_acme_plan(dir, p)[spec_acme_name(src)] == spec_acme_conf(src),
{
    let out = apply_acme_plan(dir, p);
    lemma_files_map_contains(p.files@);
    lemma_kv_map_contains(reg.routes@);
    assert forall|m: int, n: int| 0 <= m < n < p.files@.len() implies p.files@[m].name@
        != p.files@[n].name@ by {
        if p.files@[m].name@ == p.files@[n].name@ {
            lemma_acme_name_inj(reg.routes@[m].0@, reg.routes@[n].0@);
        }
    }
    // Every written name is owned; every moved name is owned.
    assert forall|k: Seq<char>| #[trigger] files_map(p.files@).contains_key(k)
        implies spec_owned(k) by {
        let i = choose|i: int| 0 <= i < p.files@.len() && p.files@[i].name@ == k;
        lemma_acme_name_owned(reg.routes@[i].0@);
    }
    assert forall|k: Seq<char>| !spec_owned(k) implies (#[trigger] out.contains_key(k)
        <==> dir.contains_key(k)) by {
        assert(!files_map(p.files@).contains_key(k));
        if names_has(p.moves@, k) {
            let m = choose|m: int| 0 <= m < p.moves@.len() && p.moves@[m]@ == k;
            assert(spec_owned(p.moves@[m]@));
            assert(false);
        }
        assert(!moved_names(p.moves@).contains(k));
    }
    assert forall|k: Seq<char>| !spec_owned(k) && dir.contains_key(k) implies #[trigger] out[k]
        == dir[k] by {
        assert(!files_map(p.files@).contains_key(k));
        assert(!moved_names(p.moves@).contains(k));
    }
    assert forall|k: Seq<char>| spec_owned(k) implies (#[trigger] out.contains_key(k) <==> (
    exists|src: Seq<char>| reg.routes_map().contains_key(src) && k == spec_acme_name(src)))
        by {
        if out.contains_key(k) {
            if files_map(p.files@).contains_key(k) {
                let i = choose|i: int| 0 <= i < p.files@.len() && p.files@[i].name@ == k;
                let src = reg.routes@[i].0@;
                assert(reg.routes_map().contains_key(src) && k == spec_acme_name(src));
            } else {
                // an owned survivor of the removal cannot exist
                assert(dir.contains_key(k) && !moved_names(p.moves@).contains(k));
                assert(names_has(entries, k));
                let j = choose|j: int| 0 <= j < entries.len() && entries[j]@ == k;
                assert(spec_owned(entries[j]@));
                assert(names_has(p.moves@, entries[j]@));
                assert(false);
            }
        }
        if exists|src: Seq<char>| reg.routes_map().contains_key(src) && k == spec_acme_name(
            src,
        ) {
            let src = choose|src: Seq<char>| reg.routes_map().contains_key(src) && k
                == spec_acme_name(src);
            let i = choose|i: int| 0 <= i < reg.routes@.len() && reg.routes@[i].0@ == src;
            assert(p.files@[i].name@ == k);
            assert(files_map(p.files@).contains_key(k));
        }
    }
    assert forall|src: Seq<char>| #[trigger] reg.routes_map().contains_key(src)
        implies out.contains_key(spec_acme_name(src)) && out[spec_acme_name(src)]
        == spec_acme_conf(src) by {
        let i = choose|i: int| 0 <= i < reg.routes@.len() && reg.routes@[i].0@ == src;
        assert(p.files@[i].name@ == spec_acme_name(src));
        lemma_files_map_index(p.files@, i);
    }
}

/// Two back-to-back materializations of an unchanged registry leave the
/// web-server directory identical: the second plan writes the same map.
pub proof fn lemma_webserver_idempotent(
    reg: Registry,
    ts1: Seq<char>,
    ts2: Seq<char>,
    p1: WebserverPlan,
    p2: WebserverPlan,
)
    requires
        reg.wf(),
        webserver_plan_ok(reg, ts1, p1),
        webserver_plan_ok(reg, ts2, p2),
    ensures
        files_map(p1.files@) == files_map(p2.files@),
{
    lemma_webserver_files(reg, ts1, p1);
    lemma_webserver_files(reg, ts2, p2);
    assert forall|k: Seq<char>| #[trigger] files_map(p1.files@).contains_key(k)
        implies files_map(p2.files@).contains_key(k) && files_map(p2.files@)[k]
        == files_map(p1.files@)[k] by {
        let src = choose|src: Seq<char>| reg.routes_map().contains_key(src) && k
            == spec_nginx_name(src);
        assert(files_map(p2.files@).contains_key(spec_nginx_name(src)));
    }
    assert forall|k: Seq<char>| #[trigger] files_map(p2.files@).contains_key(k)
        implies files_map(p1.files@).contains_key(k) by {
        let src = choose|src: Seq<char>| reg.routes_map().contains_key(src) && k
            == spec_nginx_name(src);
        assert(files_map(p1.files@).contains_key(spec_nginx_name(src)));
    }
    assert(files_map(p1.files@) =~= files_map(p2.files@));
}

/// A second ACME materialization of an unchanged registry is a no-op on the
/// shared directory.
pub proof fn lemma_acme_idempotent(
    reg: Registry,
    ts1: Seq<char>,
    ts2: Seq<char>,
    entries1: Seq<String>,
    entries2: Seq<String>,
    p1: AcmePlan,
    p2: AcmePlan,
    dir: Map<Seq<char>, Seq<char>>,
)
    requires
        reg.wf(),
        acme_plan_ok(reg, ts1, entries1, p1),
        forall|k: Seq<char>| #[trigger] dir.contains_key(k) <==> names_has(entries1, k),
        acme_plan_ok(reg, ts2, entries2, p2),
        forall|k: Seq<char>| #[trigger] apply_acme_plan(dir, p1).contains_key(k)
            <==> names_has(entries2, k),
    ensures
        apply_acme_plan(apply_acme_plan(dir, p1), p2) == apply_acme_plan(dir, p1),
{
    let out1 = apply_acme_plan(dir, p1);
    let out2 = apply_acme_plan(out1, p2);
    lemma_acme_materialization(reg, ts1, entries1, p1, dir);
    lemma_acme_materialization(reg, ts2, entries2, p2, out1);
    assert forall|k: Seq<char>| #[trigger] out2.contains_key(k) implies out1.contains_key(k)
        && out2[k] == out1[k] by {
        if spec_owned(k) {
            let src = choose|src: Seq<char>| reg.routes_map().contains_key(src) && k
                == spec_acme_name(src);
            assert(out1.contains_key(spec_acme_name(src)));
            assert(out1[k] == spec_acme_conf(src));
            assert(out2[k] == spec_acme_conf(src));
        }
    }
    assert forall|k: Seq<char>| #[trigger] out1.contains_key(k) implies out2.contains_key(k)
        by {
        if spec_owned(k) {
            let src = choose|src: Seq<char>| reg.routes_map().contains_key(src) && k
                == spec_acme_name(src);
            assert(out2.contains_key(spec_acme_name(src)));
        }
    }
    assert(out2 =~= out1);
}


/// A route without a binding renders without the auth directives: once a
/// group's bindings are purged, its routes' virtual hosts carry no
/// `auth_basic`.
pub proof fn lemma_unbound_route_renders_without_auth(reg: Registry, src: Seq<char>)
    requires
        !reg.groups_map().contains_key(src),
    ensures
        spec_vhost_for(reg, src) == crate::render::spec_vhost(
            src,
            reg.routes_map()[src],
            None,
        ),
{
}

/// The three slots of one phase's rolling history.
pub struct HomeSlots {
    pub current: Option<Map<Seq<char>, Seq<char>>>,
    pub backup: Option<Map<Seq<char>, Seq<char>>>,
    pub archive: Option<Map<Seq<char>, Seq<char>>>,
}

/// The two renames at the head of a phase: the backup becomes the archive,
/// the current generation becomes the backup; a missing source leaves the
/// destination empty.
pub open spec fn spec_rotate(s: HomeSlots) -> HomeSlots {
    HomeSlots { current: None, backup: s.current, archive: s.backup }
}

/// The whole web-server phase on the slot model: rotate, then recreate the
/// current directory from the plan.
pub open spec fn apply_webserver_plan(s: HomeSlots, p: WebserverPlan) -> HomeSlots {
    HomeSlots {
        current: Some(files_map(p.files@)),
        backup: spec_rotate(s).backup,
        archive: spec_rotate(s).archive,
    }
}

/// The rolling history never loses a generation: materialization succeeds
/// with the current directory missing, and when both current and backup
/// exist, the backup moves to the archive slot before being replaced.
pub proof fn lemma_rotation(s: HomeSlots, p: WebserverPlan)
    ensures
        apply_webserver_plan(s, p).current == Some(files_map(p.files@)),
        s.backup is Some ==> apply_webserver_plan(s, p).archive == s.backup,
        s.current is Some ==> apply_webserver_plan(s, p).backup == s.current,
        s.current is None ==> apply_webserver_plan(s, p).backup is None,
{
}

} // verus!
