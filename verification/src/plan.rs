//! Output materialization, computed as a plan of filesystem steps. The
//! executor performs, in order: rename backup to archive (ignoring a missing
//! source), rename the current directory to backup (web-server phase) or move
//! each owned entry into the fresh backup (ACME phase), then write the listed
//! files. Everything decided here — paths, ownership, names, contents — is
//! verified; only the raw renames and writes stay outside.

use vstd::prelude::*;
use crate::dispatch::names_has;
use crate::registry::Registry;
use crate::render::{acme_redirect_config_build, nginx_proxy_build, spec_acme_conf,
    spec_vhost};
use crate::strutil::{has_prefix, spec_has_prefix};
use crate::table::{lemma_kv_map_index, tbl_get};

verus! {

/// One file to write: a name inside the phase's directory, and its contents.
pub struct DirWrite {
    pub name: String,
    pub content: String,
}

/// The web-server phase: rotate `<home>/nginx` through `<home>/nginx-old`
/// into `<home>/nginx-old-<ts>`, then recreate the current directory with one
/// file per route.
pub struct WebserverPlan {
    pub current_dir: String,
    pub backup_dir: String,
    pub archive_dir: String,
    pub files: Vec<DirWrite>,
}

/// The ACME phase: rotate the backup into the archive, move every owned entry
/// of the shared directory into the fresh backup, then write one config per
/// route.
pub struct AcmePlan {
    pub backup_dir: String,
    pub archive_dir: String,
    pub moves: Vec<String>,
    pub files: Vec<DirWrite>,
}

/// The login file handed to the renderer for a source domain: the bound
/// group's password file, if a binding exists.
pub open spec fn spec_login_file(reg: Registry, source: Seq<char>) -> Option<Seq<char>> {
    if reg.groups_map().contains_key(source) {
        Some(reg.home@ + ("/login_groups/")@ + reg.groups_map()[source])
    } else {
        None
    }
}

/// The rendered virtual-host contents for a source domain of the registry.
pub open spec fn spec_vhost_for(reg: Registry, source: Seq<char>) -> Seq<char> {
    spec_vhost(source, reg.routes_map()[source], spec_login_file(reg, source))
}

/// The file name of a route in the web-server directory.
pub open spec fn spec_nginx_name(source: Seq<char>) -> Seq<char> {
    source + (".nginx")@
}

/// The file name of a route's config in the shared ACME directory.
pub open spec fn spec_acme_name(source: Seq<char>) -> Seq<char> {
    ("web-distributor.")@ + source + (".conf")@
}

/// The ownership predicate on the shared ACME directory: the tool owns
/// exactly the entries starting with `web-distributor` but not with
/// `web-distributor-old`.
pub open spec fn spec_owned(name: Seq<char>) -> bool {
    spec_has_prefix(name, ("web-distributor")@) && !spec_has_prefix(
        name,
        ("web-distributor-old")@,
    )
}

/// Ownership test on one directory entry.
pub fn acme_owned(name: &str) -> (r: bool)
    ensures
        r == spec_owned(name@),
{
    has_prefix(name, "web-distributor") && !has_prefix(name, "web-distributor-old")
}

/// What the web-server plan promises of its parts.
pub open spec fn webserver_plan_ok(reg: Registry, ts: Seq<char>, p: WebserverPlan) -> bool {
    &&& p.current_dir@ == reg.home@ + ("/nginx")@
    &&& p.backup_dir@ == reg.home@ + ("/nginx-old")@
    &&& p.archive_dir@ == reg.home@ + ("/nginx-old-")@ + ts
    &&& p.files@.len() == reg.routes@.len()
    &&& forall|i: int|
        0 <= i < p.files@.len() ==> (#[trigger] p.files@[i].name@ == spec_nginx_name(
            reg.routes@[i].0@,
        ) && p.files@[i].content@ == spec_vhost_for(reg, reg.routes@[i].0@))
}

/// Computes the web-server phase for a registry and a timestamp string.
pub fn webserver_plan(reg: &Registry, ts: &str) -> (p: WebserverPlan)
    requires
        reg.wf(),
    ensures
        webserver_plan_ok(*reg, ts@, p),
{
    let mut current_dir = String::from_str(reg.home.as_str());
    current_dir.append("/nginx");
    let mut backup_dir = String::from_str(reg.home.as_str());
    backup_dir.append("/nginx-old");
    let mut archive_dir = String::from_str(reg.home.as_str());
    archive_dir.append("/nginx-old-");
    archive_dir.append(ts);
    let mut files: Vec<DirWrite> = Vec::new();
    let mut i: usize = 0;
    while i < reg.routes.len()
        invariant
            i <= reg.routes@.len(),
            reg.wf(),
            files@.len() == i,
            forall|m: int|
                0 <= m < i ==> (#[trigger] files@[m].name@ == spec_nginx_name(
                    reg.routes@[m].0@,
                ) && files@[m].content@ == spec_vhost_for(*reg, reg.routes@[m].0@)),
        decreases reg.routes@.len() - i,
    {
        let source = &reg.routes[i].0;
        let target = &reg.routes[i].1;
        let mut name = String::from_str(source.as_str());
        name.append(".nginx");
        let login_file = match tbl_get(&reg.login_groups, source.as_str()) {
            Some(g) => {
                let mut lf = String::from_str(reg.home.as_str());
                lf.append("/login_groups/");
                lf.append(g.as_str());
                Some(lf)
            },
            None => None,
        };
        let content = nginx_proxy_build(source.as_str(), target.as_str(), login_file);
        proof {
            lemma_kv_map_index(reg.routes@, i as int);
            assert(content@ == spec_vhost_for(*reg, reg.routes@[i as int].0@));
        }
        files.push(DirWrite { name, content });
        i += 1;
    }
    WebserverPlan { current_dir, backup_dir, archive_dir, files }
}

/// What the ACME plan promises of its parts.
pub open spec fn acme_plan_ok(
    reg: Registry,
    ts: Seq<char>,
    entries: Seq<String>,
    p: AcmePlan,
) -> bool {
    &&& p.backup_dir@ == reg.acme_redirect_configs@ + ("/web-distributor-old")@
    &&& p.archive_dir@ == reg.acme_redirect_configs@ + ("/web-distributor-old-")@ + ts
    &&& forall|m: int|
        0 <= m < p.moves@.len() ==> spec_owned(#[trigger] p.moves@[m]@) && names_has(
            entries,
            p.moves@[m]@,
        )
    &&& forall|j: int|
        0 <= j < entries.len() ==> (spec_owned(#[trigger] entries[j]@) ==> names_has(
            p.moves@,
            entries[j]@,
        ))
    &&& p.files@.len() == reg.routes@.len()
    &&& forall|i: int|
        0 <= i < p.files@.len() ==> (#[trigger] p.files@[i].name@ == spec_acme_name(
            reg.routes@[i].0@,
        ) && p.files@[i].content@ == spec_acme_conf(reg.routes@[i].0@))
}

/// Computes the ACME phase for a registry, a timestamp string, and the
/// current listing of the shared directory.
pub fn acme_plan(reg: &Registry, ts: &str, entries: &Vec<String>) -> (p: AcmePlan)
    requires
        reg.wf(),
    ensures
        acme_plan_ok(*reg, ts@, entries@, p),
{
    let mut backup_dir = String::from_str(reg.acme_redirect_configs.as_str());
    backup_dir.append("/web-distributor-old");
    let mut archive_dir = String::from_str(reg.acme_redirect_configs.as_str());
    archive_dir.append("/web-distributor-old-");
    archive_dir.append(ts);
    let mut moves: Vec<String> = Vec::new();
    let mut j: usize = 0;
    while j < entries.len()
        invariant
            j <= entries@.len(),
            forall|m: int|
                0 <= m < moves@.len() ==> spec_owned(#[trigger] moves@[m]@) && names_has(
                    entries@,
                    moves@[m]@,
                ),
            forall|n: int|
                0 <= n < j ==> (spec_owned(#[trigger] entries@[n]@) ==> names_has(
                    moves@,
                    entries@[n]@,
                )),
        decreases entries@.len() - j,
    {
        if acme_owned(entries[j].as_str()) {
            let ghost prev = moves@;
            moves.push(entries[j].clone());
            proof {
                assert(moves@[prev.len() as int]@ == entries@[j as int]@);
                assert(forall|m: int| 0 <= m < prev.len() ==> moves@[m] == prev[m]);
                assert forall|n: int|
                    0 <= n < j + 1 && spec_owned(#[trigger] entries@[n]@)
                    implies names_has(moves@, entries@[n]@) by {
                    if n < j {
                        let m = choose|m: int|
                            0 <= m < prev.len() && prev[m]@ == entries@[n]@;
                        assert(moves@[m]@ == entries@[n]@);
                    } else {
                        assert(moves@[prev.len() as int]@ == entries@[n]@);
                    }
                }
            }
        }
        j += 1;
    }
    let mut files: Vec<DirWrite> = Vec::new();
    let mut i: usize = 0;
    while i < reg.routes.len()
        invariant
            i <= reg.routes@.len(),
            reg.wf(),
            files@.len() == i,
            forall|m: int|
                0 <= m < i ==> (#[trigger] files@[m].name@ == spec_acme_name(
                    reg.routes@[m].0@,
                ) && files@[m].content@ == spec_acme_conf(reg.routes@[m].0@)),
        decreases reg.routes@.len() - i,
    {
        let source = &reg.routes[i].0;
        let mut name = String::from_str("web-distributor.");
        name.append(source.as_str());
        name.append(".conf");
        let content = acme_redirect_config_build(source.as_str());
        files.push(DirWrite { name, content });
        i += 1;
    }
    AcmePlan { backup_dir, archive_dir, moves, files }
}

} // verus!
