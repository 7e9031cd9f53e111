//! The password-file store: one flat file per login group, each line
//! `<name>:<bcrypt-hash>`. A line belongs to a name exactly when it starts
//! with the name followed by `:`, so `alice` never matches an `alice2:` line.

use vstd::prelude::*;
use crate::dispatch::CmdError;
use crate::strutil::{has_prefix, spec_has_prefix};

verus! {

/// The line carries the credentials of `name`.
pub open spec fn line_is_for(line: Seq<char>, name: Seq<char>) -> bool {
    spec_has_prefix(line, name + seq![':'])
}

/// A line survives the removal of `name`: nonempty and not for `name`.
pub open spec fn keep_line(line: Seq<char>, name: Seq<char>) -> bool {
    line.len() > 0 && !line_is_for(line, name)
}

/// The file with every line of `name` (and every empty line) removed.
pub open spec fn spec_keep(lines: Seq<Seq<char>>, name: Seq<char>) -> Seq<Seq<char>>
    decreases lines.len(),
{
    if lines.len() == 0 {
        Seq::<Seq<char>>::empty()
    } else if keep_line(lines.last(), name) {
        spec_keep(lines.drop_last(), name).push(lines.last())
    } else {
        spec_keep(lines.drop_last(), name)
    }
}

/// Some line of the file belongs to `name`.
pub open spec fn some_line_for(lines: Seq<Seq<char>>, name: Seq<char>) -> bool {
    exists|i: int| 0 <= i < lines.len() && line_is_for(lines[i], name)
}

/// At most one line per name: no two lines belong to the same name.
pub open spec fn passwd_wf(lines: Seq<Seq<char>>) -> bool {
    forall|i: int, j: int, n: Seq<char>|
        #![trigger line_is_for(lines[i], n), line_is_for(lines[j], n)]
        0 <= i < j < lines.len() ==> !(line_is_for(lines[i], n) && line_is_for(
            lines[j],
            n,
        ))
}

/// True when some line of the file belongs to `name`.
pub fn passwd_has_login(lines: &Vec<String>, name: &str) -> (r: bool)
    ensures
        r == some_line_for(lines@.map_values(|x: String| x@), name@),
{
    let mut needle = String::from_str(name);
    needle.append(":");
    proof {
        reveal_strlit(":");
        assert(needle@ =~= name@ + seq![':']);
    }
    let ghost views = lines@.map_values(|x: String| x@);
    let mut i: usize = 0;
    while i < lines.len()
        invariant
            i <= lines@.len(),
            views == lines@.map_values(|x: String| x@),
            needle@ == name@ + seq![':'],
            forall|j: int| 0 <= j < i ==> !line_is_for(views[j], name@),
        decreases lines@.len() - i,
    {
        if has_prefix(lines[i].as_str(), needle.as_str()) {
            proof {
                assert(views[i as int] == lines@[i as int]@);
                assert(line_is_for(views[i as int], name@));
            }
            return true;
        }
        i += 1;
    }
    false
}

/// Removes every line of `name`, and every empty line, from the file.
fn keep_lines(lines: &Vec<String>, name: &str) -> (r: Vec<String>)
    ensures
        r@.map_values(|x: String| x@) =~~= spec_keep(
            lines@.map_values(|x: String| x@),
            name@,
        ),
{
    let mut needle = String::from_str(name);
    needle.append(":");
    proof {
        reveal_strlit(":");
        assert(needle@ =~= name@ + seq![':']);
    }
    let ghost views = lines@.map_values(|x: String| x@);
    let mut r: Vec<String> = Vec::new();
    let mut i: usize = 0;
    while i < lines.len()
        invariant
            i <= lines@.len(),
            views == lines@.map_values(|x: String| x@),
            needle@ == name@ + seq![':'],
            r@.map_values(|x: String| x@) =~~= spec_keep(views.take(i as int), name@),
        decreases lines@.len() - i,
    {
        let ghost prev = r@.map_values(|x: String| x@);
        if !lines[i].as_str().is_empty() && !has_prefix(lines[i].as_str(), needle.as_str()) {
            r.push(lines[i].clone());
        }
        proof {
            assert(views.take(i as int + 1).drop_last() =~~= views.take(i as int));
            assert(views.take(i as int + 1).last() == views[i as int]);
            if keep_line(views[i as int], name@) {
                assert(r@.map_values(|x: String| x@) =~~= prev.push(views[i as int]));
            }
        }
        i += 1;
    }
    proof {
        assert(views.take(views.len() as int) =~~= views);
    }
    r
}

/// `login-group add-login <g> <name> [pw] [--force]` on the file contents:
/// refuses an existing login without `--force`; otherwise removes every line
/// of `name` and appends `name:hash`.
pub fn passwd_add_login(lines: &Vec<String>, name: &str, hash: &str, force: bool) -> (r:
    Result<Vec<String>, CmdError>)
    ensures
        r is Err <==> (!force && some_line_for(
            lines@.map_values(|x: String| x@),
            name@,
        )),
        r is Err ==> r == Result::<Vec<String>, CmdError>::Err(CmdError::LoginExists),
        match r {
            Ok(out) => out@.map_values(|x: String| x@) =~~= spec_keep(
                lines@.map_values(|x: String| x@),
                name@,
            ).push(name@ + seq![':'] + hash@),
            Err(e) => true,
        },
{
    if !force && passwd_has_login(lines, name) {
        return Err(CmdError::LoginExists);
    }
    let mut out = keep_lines(lines, name);
    let mut entry = String::from_str(name);
    entry.append(":");
    entry.append(hash);
    proof {
        reveal_strlit(":");
        assert(entry@ =~= name@ + seq![':'] + hash@);
    }
    let ghost kept = out@.map_values(|x: String| x@);
    out.push(entry);
    proof {
        assert(out@.map_values(|x: String| x@) =~~= kept.push(name@ + seq![':'] + hash@));
    }
    Ok(out)
}

/// `login-group revoke-login <g> <name>` on the file contents: the login must
/// exist; every line of `name` is removed.
pub fn passwd_revoke_login(lines: &Vec<String>, name: &str) -> (r: Result<
    Vec<String>,
    CmdError,
>)
    ensures
        r is Err <==> !some_line_for(lines@.map_values(|x: String| x@), name@),
        r is Err ==> r == Result::<Vec<String>, CmdError>::Err(CmdError::LoginMissing),
        match r {
            Ok(out) => out@.map_values(|x: String| x@) =~~= spec_keep(
                lines@.map_values(|x: String| x@),
                name@,
            ),
            Err(e) => true,
        },
{
    if !passwd_has_login(lines, name) {
        return Err(CmdError::LoginMissing);
    }
    Ok(keep_lines(lines, name))
}

/// A stored line `name + ":" + hash` with colon-free parts belongs to `name`
/// and to no other.
pub proof fn lemma_line_for_entry(a: Seq<char>, h: Seq<char>)
    requires
        forall|i: int| 0 <= i < a.len() ==> a[i] != ':',
        forall|i: int| 0 <= i < h.len() ==> h[i] != ':',
    ensures
        forall|n: Seq<char>| #[trigger] line_is_for(a + seq![':'] + h, n) <==> n == a,
{
    let line = a + seq![':'] + h;
    assert forall|n: Seq<char>| #[trigger] line_is_for(line, n) implies n == a by {
        let m = n + seq![':'];
        assert(m.len() <= line.len());
        assert(line.subrange(0, m.len() as int) == m);
        assert(line[n.len() as int] == m[n.len() as int]);
        assert(line[n.len() as int] == ':');
        if n.len() < a.len() {
            assert(line[n.len() as int] == a[n.len() as int]);
            assert(false);
        } else if n.len() > a.len() {
            assert(line[a.len() as int] == ':');
            assert(m[a.len() as int] == ':');
            assert(m[a.len() as int] == n[a.len() as int]);
            assert(n.len() <= line.len() - 1);
            assert(line[n.len() as int] == h[n.len() - a.len() - 1]);
            assert(false);
        } else {
            assert forall|i: int| 0 <= i < a.len() implies n[i] == a[i] by {
                assert(line[i] == m[i]);
                assert(line[i] == a[i]);
                assert(m[i] == n[i]);
            }
            assert(n =~= a);
        }
    }
    assert forall|n: Seq<char>| n == a implies #[trigger] line_is_for(line, n) by {
        assert(line.subrange(0, a.len() as int + 1) =~= a + seq![':']);
    }
}

/// Removal keeps the file well formed, drops every line of `name`, and
/// invents no line for anybody else.
pub proof fn lemma_keep_wf(lines: Seq<Seq<char>>, name: Seq<char>)
    ensures
        passwd_wf(lines) ==> passwd_wf(spec_keep(lines, name)),
        !some_line_for(spec_keep(lines, name), name),
        forall|n: Seq<char>| #[trigger] some_line_for(spec_keep(lines, name), n)
            ==> some_line_for(lines, n),
    decreases lines.len(),
{
    let out = spec_keep(lines, name);
    if lines.len() == 0 {
    } else {
        let dl = lines.drop_last();
        let k = spec_keep(dl, name);
        lemma_keep_wf(dl, name);
        assert forall|n: Seq<char>| #[trigger] some_line_for(dl, n) implies some_line_for(
            lines,
            n,
        ) by {
            let i = choose|i: int| 0 <= i < dl.len() && line_is_for(dl[i], n);
            assert(line_is_for(lines[i], n));
        }
        if passwd_wf(lines) {
            assert(passwd_wf(dl)) by {
                assert forall|i: int, j: int, n: Seq<char>|
                    0 <= i < j < dl.len() implies !(#[trigger] line_is_for(dl[i], n)
                    && #[trigger] line_is_for(dl[j], n)) by {
                    assert(dl[i] == lines[i] && dl[j] == lines[j]);
                }
            }
        }
        if keep_line(lines.last(), name) {
            assert(out == k.push(lines.last()));
            assert forall|n: Seq<char>| #[trigger] some_line_for(out, n)
                implies some_line_for(lines, n) by {
                let i = choose|i: int| 0 <= i < out.len() && line_is_for(out[i], n);
                if i == out.len() - 1 {
                    assert(line_is_for(lines[lines.len() - 1], n));
                } else {
                    assert(line_is_for(k[i], n));
                    assert(some_line_for(k, n));
                }
            }
            assert(!some_line_for(out, name)) by {
                if some_line_for(out, name) {
                    let i = choose|i: int| 0 <= i < out.len() && line_is_for(
                        out[i],
                        name,
                    );
                    if i == out.len() - 1 {
                        assert(!line_is_for(lines.last(), name));
                    } else {
                        assert(line_is_for(k[i], name));
                        assert(some_line_for(k, name));
                    }
                }
            }
            if passwd_wf(lines) {
                assert forall|i: int, j: int, n: Seq<char>|
                    0 <= i < j < out.len() implies !(#[trigger] line_is_for(out[i], n)
                    && #[trigger] line_is_for(out[j], n)) by {
                    if j < out.len() - 1 {
                        assert(out[i] == k[i] && out[j] == k[j]);
                        assert(passwd_wf(k));
                    } else {
                        if line_is_for(out[i], n) && line_is_for(out[j], n) {
                            assert(line_is_for(k[i], n));
                            assert(some_line_for(k, n));
                            assert(some_line_for(dl, n));
                            let m = choose|m: int| 0 <= m < dl.len() && line_is_for(
                                dl[m],
                                n,
                            );
                            assert(line_is_for(lines[m], n));
                            assert(line_is_for(lines[lines.len() - 1], n));
                            assert(m < lines.len() - 1);
                            assert(false);
                        }
                    }
                }
            }
        } else {
            assert(out == k);
        }
    }
}

/// After `add-login`, the file stays well formed and holds exactly one line
/// for the name: the appended entry, last in the file.
pub proof fn lemma_add_login_wf(lines: Seq<Seq<char>>, name: Seq<char>, hash: Seq<char>)
    requires
        passwd_wf(lines),
        forall|i: int| 0 <= i < name.len() ==> name[i] != ':',
        forall|i: int| 0 <= i < hash.len() ==> hash[i] != ':',
    ensures
        passwd_wf(spec_keep(lines, name).push(name + seq![':'] + hash)),
        line_is_for(spec_keep(lines, name).push(name + seq![':'] + hash).last(), name),
        forall|i: int|
            0 <= i < spec_keep(lines, name).len() ==> !line_is_for(
                #[trigger] spec_keep(lines, name)[i],
                name,
            ),
{
    let entry = name + seq![':'] + hash;
    let k = spec_keep(lines, name);
    let out = k.push(entry);
    lemma_keep_wf(lines, name);
    lemma_line_for_entry(name, hash);
    assert(line_is_for(entry, name));
    assert forall|i: int| 0 <= i < k.len() implies !line_is_for(#[trigger] k[i], name) by {
        if line_is_for(k[i], name) {
            assert(some_line_for(k, name));
        }
    }
    assert forall|i: int, j: int, n: Seq<char>|
        0 <= i < j < out.len() implies !(#[trigger] line_is_for(out[i], n)
        && #[trigger] line_is_for(out[j], n)) by {
        if j < out.len() - 1 {
            assert(out[i] == k[i] && out[j] == k[j]);
            assert(passwd_wf(k));
        } else {
            if line_is_for(out[i], n) && line_is_for(out[j], n) {
                assert(line_is_for(entry, n));
                assert(n == name);
                assert(line_is_for(k[i], name));
                assert(false);
            }
        }
    }
}

} // verus!
