//! The registry file format: a small key/value text document with two
//! top-level string fields and two string tables. Serialization and parsing
//! are both defined here against one spec-level grammar, so the round trip
//! is a theorem rather than a convention.

use vstd::prelude::*;
use crate::registry::Registry;
use crate::strutil::{has_prefix, join_lines, spec_has_prefix, spec_join_lines,
    spec_split_lines, split_lines, str_eq};
use crate::table::{kv_map, tbl_upsert};

verus! {

/// The abstract content of a registry document.
pub struct RegModel {
    pub home: Seq<char>,
    pub acme: Seq<char>,
    pub routes: Seq<(Seq<char>, Seq<char>)>,
    pub groups: Seq<(Seq<char>, Seq<char>)>,
}

/// The map denoted by a sequence of abstract pairs (later entries win).
pub open spec fn pairs_map(s: Seq<(Seq<char>, Seq<char>)>) -> Map<Seq<char>, Seq<char>>
    decreases s.len(),
{
    if s.len() == 0 {
        Map::<Seq<char>, Seq<char>>::empty()
    } else {
        pairs_map(s.drop_last()).insert(s.last().0, s.last().1)
    }
}

/// The abstract pairs of a string-pair list.
pub open spec fn pairs_of(s: Seq<(String, String)>) -> Seq<(Seq<char>, Seq<char>)> {
    s.map_values(|p: (String, String)| (p.0@, p.1@))
}

/// The abstract content of a registry value.
pub open spec fn reg_model(reg: Registry) -> RegModel {
    RegModel {
        home: reg.home@,
        acme: reg.acme_redirect_configs@,
        routes: pairs_of(reg.routes@),
        groups: pairs_of(reg.login_groups@),
    }
}

/// A top-level line: the key, ` = `, and the value in quotes.
pub open spec fn ser_top_line(prefix: Seq<char>, v: Seq<char>) -> Seq<char> {
    prefix + v + ("\"")@
}

/// A table line: quoted key, ` = `, quoted value.
pub open spec fn ser_kv_line(k: Seq<char>, v: Seq<char>) -> Seq<char> {
    ("\"")@ + k + ("\" = \"")@ + v + ("\"")@
}

/// The lines of a table: one line per pair.
pub open spec fn ser_kv_lines(s: Seq<(Seq<char>, Seq<char>)>) -> Seq<Seq<char>> {
    s.map_values(|p: (Seq<char>, Seq<char>)| ser_kv_line(p.0, p.1))
}

/// The whole document, as lines: the two top fields, a `[routes]` table and
/// a `[login_groups]` table.
pub open spec fn reg_lines(m: RegModel) -> Seq<Seq<char>> {
    seq![
        ser_top_line(("home = \"")@, m.home),
        ser_top_line(("acme_redirect_configs = \"")@, m.acme),
        Seq::<char>::empty(),
        ("[routes]")@,
    ] + ser_kv_lines(m.routes) + seq![Seq::<char>::empty(), ("[login_groups]")@]
        + ser_kv_lines(m.groups)
}

/// Serializes the registry to its document text.
pub fn serialize_registry(reg: &Registry) -> (r: String)
    ensures
        r@ == spec_join_lines(reg_lines(reg_model(*reg))),
{
    let lines = registry_lines(reg);
    join_lines(&lines)
}

/// The document's lines for a registry value.
fn registry_lines(reg: &Registry) -> (r: Vec<String>)
    ensures
        r@.map_values(|x: String| x@) =~~= reg_lines(reg_model(*reg)),
{
    let mut out: Vec<String> = Vec::new();
    let mut home_line = String::from_str("home = \"");
    home_line.append(reg.home.as_str());
    home_line.append("\"");
    out.push(home_line);
    let mut acme_line = String::from_str("acme_redirect_configs = \"");
    acme_line.append(reg.acme_redirect_configs.as_str());
    acme_line.append("\"");
    out.push(acme_line);
    out.push(String::new());
    out.push(String::from_str("[routes]"));
    let ghost head = seq![
        ser_top_line(("home = \"")@, reg.home@),
        ser_top_line(("acme_redirect_configs = \"")@, reg.acme_redirect_configs@),
        Seq::<char>::empty(),
        ("[routes]")@,
    ];
    proof {
        assert(out@.map_values(|x: String| x@) =~~= head);
    }
    push_kv_lines(&mut out, &reg.routes);
    let ghost mid = head + ser_kv_lines(pairs_of(reg.routes@));
    proof {
        assert(out@.map_values(|x: String| x@) =~~= mid);
    }
    let ghost m1 = out@.map_values(|x: String| x@);
    out.push(String::new());
    proof {
        assert(out@.map_values(|x: String| x@) =~~= m1.push(Seq::<char>::empty()));
    }
    let ghost m2 = out@.map_values(|x: String| x@);
    out.push(String::from_str("[login_groups]"));
    proof {
        assert(out@.map_values(|x: String| x@) =~~= m2.push(("[login_groups]")@));
    }
    let ghost m3 = out@.map_values(|x: String| x@);
    push_kv_lines(&mut out, &reg.login_groups);
    proof {
        assert(out@.map_values(|x: String| x@) =~~= m3 + ser_kv_lines(
            pairs_of(reg.login_groups@),
        ));
        assert(m3 =~~= mid + seq![Seq::<char>::empty(), ("[login_groups]")@]);
        assert(out@.map_values(|x: String| x@) =~~= reg_lines(reg_model(*reg)));
    }
    out
}

/// Appends one table line per pair.
fn push_kv_lines(out: &mut Vec<String>, s: &Vec<(String, String)>)
    ensures
        final(out)@.map_values(|x: String| x@) =~~= old(out)@.map_values(|x: String| x@)
            + ser_kv_lines(pairs_of(s@)),
{
    let mut i: usize = 0;
    while i < s.len()
        invariant
            i <= s@.len(),
            out@.map_values(|x: String| x@) =~~= old(out)@.map_values(|x: String| x@)
                + ser_kv_lines(pairs_of(s@.take(i as int))),
        decreases s@.len() - i,
    {
        let mut line = String::from_str("\"");
        line.append(s[i].0.as_str());
        line.append("\" = \"");
        line.append(s[i].1.as_str());
        line.append("\"");
        proof {
            assert(line@ == ser_kv_line(s@[i as int].0@, s@[i as int].1@));
        }
        let ghost prev_maps = out@.map_values(|x: String| x@);
        out.push(line);
        proof {
            assert(out@.map_values(|x: String| x@) =~~= prev_maps.push(line@));
            assert(ser_kv_lines(pairs_of(s@.take(i as int + 1))) =~~= ser_kv_lines(
                pairs_of(s@.take(i as int)),
            ).push(ser_kv_line(s@[i as int].0@, s@[i as int].1@)));
            assert(out@.map_values(|x: String| x@) =~~= old(out)@.map_values(|x: String| x@)
                + ser_kv_lines(pairs_of(s@.take(i as int + 1))));
        }
        i += 1;
    }
    proof {
        assert(s@.take(s@.len() as int) =~= s@);
    }
}
/// No character of `s` is `c`.
pub open spec fn no_char(s: Seq<char>, c: char) -> bool {
    forall|i: int| 0 <= i < s.len() ==> s[i] != c
}

/// Index of the first occurrence of `c` in `s`, or -1.
pub open spec fn find_char(s: Seq<char>, c: char) -> int
    decreases s.len(),
{
    if s.len() == 0 {
        -1
    } else if s[0] == c {
        0
    } else if find_char(s.drop_first(), c) == -1 {
        -1
    } else {
        find_char(s.drop_first(), c) + 1
    }
}

/// `find_char` finds exactly the first occurrence.
pub proof fn lemma_find_char(s: Seq<char>, c: char)
    ensures
        find_char(s, c) == -1 ==> no_char(s, c),
        find_char(s, c) != -1 ==> 0 <= find_char(s, c) < s.len() && s[find_char(s, c)] == c
            && (forall|j: int| 0 <= j < find_char(s, c) ==> s[j] != c),
        (exists|j: int| 0 <= j < s.len() && s[j] == c) ==> find_char(s, c) != -1,
    decreases s.len(),
{
    if s.len() == 0 {
    } else if s[0] == c {
    } else {
        lemma_find_char(s.drop_first(), c);
        let d = s.drop_first();
        if find_char(d, c) == -1 {
            assert forall|j: int| 0 <= j < s.len() implies s[j] != c by {
                if j > 0 {
                    assert(d[j - 1] == s[j]);
                }
            }
        } else {
            assert forall|j: int| 0 <= j < find_char(s, c) implies s[j] != c by {
                if j > 0 {
                    assert(d[j - 1] == s[j]);
                }
            }
        }
        if exists|j: int| 0 <= j < s.len() && s[j] == c {
            let j = choose|j: int| 0 <= j < s.len() && s[j] == c;
            assert(j > 0);
            assert(d[j - 1] == c);
        }
    }
}

/// The first occurrence is the scan's witness.
pub proof fn lemma_find_char_at(s: Seq<char>, c: char, q: int)
    requires
        0 <= q < s.len(),
        s[q] == c,
        forall|j: int| 0 <= j < q ==> s[j] != c,
    ensures
        find_char(s, c) == q,
{
    lemma_find_char(s, c);
    assert(find_char(s, c) != -1);
    let f = find_char(s, c);
    if f < q {
        assert(s[f] != c);
        assert(false);
    }
    if f > q {
        assert(s[q] != c);
        assert(false);
    }
}

/// Parses `<prefix><value>"`: positional, so the value may hold any
/// character.
pub open spec fn spec_parse_top(line: Seq<char>, prefix: Seq<char>) -> Option<Seq<char>> {
    if spec_has_prefix(line, prefix) && line.len() > prefix.len() && line[line.len() - 1]
        == '"' {
        Some(line.subrange(prefix.len() as int, line.len() - 1))
    } else {
        None
    }
}

/// Parses `"key" = "value"`: the key runs to the first inner quote.
pub open spec fn spec_parse_kv(line: Seq<char>) -> Option<(Seq<char>, Seq<char>)> {
    if line.len() >= 2 && line[0] == '"' {
        let q = find_char(line.drop_first(), '"');
        if q >= 0 && line.len() >= q + 7 && line.subrange(q + 1, q + 6) == ("\" = \"")@
            && line[line.len() - 1] == '"' {
            Some((line.subrange(1, q + 1), line.subrange(q + 6, line.len() - 1)))
        } else {
            None
        }
    } else {
        None
    }
}

/// Parser state: the current section (0 top, 1 routes, 2 login groups),
/// which top fields were seen, and the document so far.
pub struct PState {
    pub sec: int,
    pub seen_home: bool,
    pub seen_acme: bool,
    pub m: RegModel,
}

/// The state the parser starts in.
pub open spec fn init_pstate() -> PState {
    PState {
        sec: 0,
        seen_home: false,
        seen_acme: false,
        m: RegModel {
            home: Seq::<char>::empty(),
            acme: Seq::<char>::empty(),
            routes: Seq::<(Seq<char>, Seq<char>)>::empty(),
            groups: Seq::<(Seq<char>, Seq<char>)>::empty(),
        },
    }
}

/// The document parser, line by line from index `i`: blank lines are
/// skipped, section headers switch tables, anything unparseable fails, and
/// the document is accepted only once both top fields were seen.
pub open spec fn parse_from(lines: Seq<Seq<char>>, i: int, st: PState) -> Option<RegModel>
    decreases lines.len() - i,
    when 0 <= i <= lines.len()
{
    if i >= lines.len() {
        if st.seen_home && st.seen_acme {
            Some(st.m)
        } else {
            None
        }
    } else {
        let line = lines[i];
        if line.len() == 0 {
            parse_from(lines, i + 1, st)
        } else if line == ("[routes]")@ {
            parse_from(lines, i + 1, PState { sec: 1, ..st })
        } else if line == ("[login_groups]")@ {
            parse_from(lines, i + 1, PState { sec: 2, ..st })
        } else if st.sec == 0 {
            match spec_parse_top(line, ("home = \"")@) {
                Some(v) => parse_from(
                    lines,
                    i + 1,
                    PState { seen_home: true, m: RegModel { home: v, ..st.m }, ..st },
                ),
                None => match spec_parse_top(line, ("acme_redirect_configs = \"")@) {
                    Some(v) => parse_from(
                        lines,
                        i + 1,
                        PState { seen_acme: true, m: RegModel { acme: v, ..st.m }, ..st },
                    ),
                    None => None,
                },
            }
        } else {
            match spec_parse_kv(line) {
                Some(p) => if st.sec == 1 {
                    parse_from(
                        lines,
                        i + 1,
                        PState { m: RegModel { routes: st.m.routes.push(p), ..st.m }, ..st },
                    )
                } else {
                    parse_from(
                        lines,
                        i + 1,
                        PState { m: RegModel { groups: st.m.groups.push(p), ..st.m }, ..st },
                    )
                },
                None => None,
            }
        }
    }
}

/// The parse of a whole document text.
pub open spec fn spec_parse_text(t: Seq<char>) -> Option<RegModel> {
    parse_from(spec_split_lines(t), 0, init_pstate())
}

/// The registry file could not be read as the expected document.
#[derive(Debug, PartialEq, Eq, Structural, Clone, Copy)]
pub struct ParseFailure;
/// Parses one top-level line against a prefix such as `home = "`.
fn parse_top_line(line: &str, prefix: &str) -> (r: Option<String>)
    ensures
        (r is Some) == (spec_parse_top(line@, prefix@) is Some),
        r is Some ==> spec_parse_top(line@, prefix@) == Some(r->Some_0@),
{
    let n = line.unicode_len();
    let pl = prefix.unicode_len();
    if has_prefix(line, prefix) && n > pl {
        if line.get_char(n - 1) == '"' {
            let v = line.substring_char(pl, n - 1);
            return Some(String::from_str(v));
        }
    }
    None
}

/// Parses one table line `"key" = "value"`.
fn parse_kv_line(line: &str) -> (r: Option<(String, String)>)
    ensures
        (r is Some) == (spec_parse_kv(line@) is Some),
        r is Some ==> spec_parse_kv(line@) == Some((r->Some_0.0@, r->Some_0.1@)),
{
    let n = line.unicode_len();
    if n < 2 || line.get_char(0) != '"' {
        return None;
    }
    let mut q: usize = 1;
    while q < n && line.get_char(q) != '"'
        invariant
            1 <= q <= n,
            n == line@.len(),
            forall|j: int| 1 <= j < q ==> line@[j] != '"',
        decreases n - q,
    {
        q += 1;
    }
    let ghost d = line@.drop_first();
    if q == n {
        proof {
            lemma_find_char(d, '"');
            if find_char(d, '"') != -1 {
                let f = find_char(d, '"');
                assert(d[f] == line@[f + 1]);
                assert(false);
            }
        }
        return None;
    }
    proof {
        assert(d[q - 1] == line@[q as int]);
        assert forall|j: int| 0 <= j < q - 1 implies d[j] != '"' by {
            assert(d[j] == line@[j + 1]);
        }
        lemma_find_char_at(d, '"', q as int - 1);
    }
    // spec coordinates: the inner quote of the key is at q - 1 in the tail
    if n - q < 6 {
        return None;
    }
    let sep = line.substring_char(q, q + 5);
    if !str_eq(sep, "\" = \"") {
        proof {
            assert(line@.subrange(q as int, q as int + 5) != ("\" = \"")@);
        }
        return None;
    }
    if line.get_char(n - 1) != '"' {
        return None;
    }
    let k = String::from_str(line.substring_char(1, q));
    let v = String::from_str(line.substring_char(q + 5, n - 1));
    proof {
        assert(line@.subrange(1, q as int) == k@);
        assert(line@.subrange(q as int + 5, n as int - 1) == v@);
    }
    Some((k, v))
}

/// Parses the registry document. The result mirrors the spec-level parse:
/// the same texts are accepted, the top fields are taken verbatim, and each
/// table denotes the same map, with unique keys (later entries win).
pub fn parse_registry(text: &str) -> (r: Result<Registry, ParseFailure>)
    ensures
        (r is Ok) == (spec_parse_text(text@) is Some),
        r is Err ==> r == Result::<Registry, ParseFailure>::Err(ParseFailure),
        match r {
            Ok(reg) => {
                let m = spec_parse_text(text@)->Some_0;
                reg.wf() && reg.home@ == m.home && reg.acme_redirect_configs@ == m.acme
                    && reg.routes_map() == pairs_map(m.routes) && reg.groups_map()
                    == pairs_map(m.groups)
            },
            Err(e) => true,
        },
{
    let lines = split_lines(text);
    let ghost lviews = spec_split_lines(text@);
    let mut reg = Registry {
        home: String::new(),
        acme_redirect_configs: String::new(),
        routes: Vec::new(),
        login_groups: Vec::new(),
    };
    let mut sec: u8 = 0;
    let mut seen_home = false;
    let mut seen_acme = false;
    let ghost mut acc_routes: Seq<(Seq<char>, Seq<char>)> = Seq::empty();
    let ghost mut acc_groups: Seq<(Seq<char>, Seq<char>)> = Seq::empty();
    let mut i: usize = 0;
    while i < lines.len()
        invariant
            i <= lines@.len(),
            lviews == spec_split_lines(text@),
            lines@.map_values(|x: String| x@) =~~= lviews,
            sec == 0 || sec == 1 || sec == 2,
            reg.wf(),
            kv_map(reg.routes@) == pairs_map(acc_routes),
            kv_map(reg.login_groups@) == pairs_map(acc_groups),
            parse_from(lviews, 0, init_pstate()) == parse_from(
                lviews,
                i as int,
                PState {
                    sec: sec as int,
                    seen_home: seen_home,
                    seen_acme: seen_acme,
                    m: RegModel {
                        home: reg.home@,
                        acme: reg.acme_redirect_configs@,
                        routes: acc_routes,
                        groups: acc_groups,
                    },
                },
            ),
        decreases lines@.len() - i,
    {
        let ghost line = lviews[i as int];
        let ghost st0 = PState {
            sec: sec as int,
            seen_home: seen_home,
            seen_acme: seen_acme,
            m: RegModel {
                home: reg.home@,
                acme: reg.acme_redirect_configs@,
                routes: acc_routes,
                groups: acc_groups,
            },
        };
        proof {
            assert(line == lines@[i as int]@);
        }
        if lines[i].as_str().is_empty() {
            proof {
                assert(parse_from(lviews, i as int, st0) == parse_from(
                    lviews,
                    i as int + 1,
                    st0,
                ));
            }
            i += 1;
            continue;
        }
        if str_eq(lines[i].as_str(), "[routes]") {
            sec = 1;
            proof {
                assert(parse_from(lviews, i as int, st0) == parse_from(
                    lviews,
                    i as int + 1,
                    PState { sec: 1, ..st0 },
                ));
            }
            i += 1;
            continue;
        }
        if str_eq(lines[i].as_str(), "[login_groups]") {
            sec = 2;
            proof {
                assert(parse_from(lviews, i as int, st0) == parse_from(
                    lviews,
                    i as int + 1,
                    PState { sec: 2, ..st0 },
                ));
            }
            i += 1;
            continue;
        }
        if sec == 0 {
            match parse_top_line(lines[i].as_str(), "home = \"") {
                Some(v) => {
                    reg.home = v;
                    seen_home = true;
                    proof {
                        assert(parse_from(lviews, i as int, st0) == parse_from(
                            lviews,
                            i as int + 1,
                            PState {
                                seen_home: true,
                                m: RegModel { home: reg.home@, ..st0.m },
                                ..st0
                            },
                        ));
                    }
                },
                None => {
                    match parse_top_line(lines[i].as_str(), "acme_redirect_configs = \"") {
                        Some(v) => {
                            reg.acme_redirect_configs = v;
                            seen_acme = true;
                            proof {
                                assert(parse_from(lviews, i as int, st0) == parse_from(
                                    lviews,
                                    i as int + 1,
                                    PState {
                                        seen_acme: true,
                                        m: RegModel {
                                            acme: reg.acme_redirect_configs@,
                                            ..st0.m
                                        },
                                        ..st0
                                    },
                                ));
                            }
                        },
                        None => {
                            proof {
                                assert(parse_from(lviews, i as int, st0) is None);
                                assert(parse_from(lviews, 0, init_pstate()) is None);
                                assert(spec_parse_text(text@) is None);
                            }
                            return Err(ParseFailure);
                        },
                    }
                },
            }
        } else {
            match parse_kv_line(lines[i].as_str()) {
                Some(kv) => {
                    let (k, v) = kv;
                    let ghost p = (k@, v@);
                    if sec == 1 {
                        tbl_upsert(&mut reg.routes, k, v);
                        proof {
                            assert(acc_routes.push(p).drop_last() =~~= acc_routes);
                            acc_routes = acc_routes.push(p);
                            assert(parse_from(lviews, i as int, st0) == parse_from(
                                lviews,
                                i as int + 1,
                                PState {
                                    m: RegModel { routes: acc_routes, ..st0.m },
                                    ..st0
                                },
                            ));
                        }
                    } else {
                        tbl_upsert(&mut reg.login_groups, k, v);
                        proof {
                            assert(acc_groups.push(p).drop_last() =~~= acc_groups);
                            acc_groups = acc_groups.push(p);
                            assert(parse_from(lviews, i as int, st0) == parse_from(
                                lviews,
                                i as int + 1,
                                PState {
                                    m: RegModel { groups: acc_groups, ..st0.m },
                                    ..st0
                                },
                            ));
                        }
                    }
                },
                None => {
                    proof {
                        assert(parse_from(lviews, i as int, st0) is None);
                        assert(parse_from(lviews, 0, init_pstate()) is None);
                        assert(spec_parse_text(text@) is None);
                    }
                    return Err(ParseFailure);
                },
            }
        }
        i += 1;
    }
    if seen_home && seen_acme {
        Ok(reg)
    } else {
        Err(ParseFailure)
    }
}
/// A serialized top-level line parses back to its value.
pub proof fn lemma_parse_top_round_trip(prefix: Seq<char>, v: Seq<char>)
    ensures
        spec_parse_top(ser_top_line(prefix, v), prefix) == Some(v),
{
    reveal_strlit("\"");
    let line = ser_top_line(prefix, v);
    assert(line.len() == prefix.len() + v.len() + 1);
    assert(line.subrange(0, prefix.len() as int) =~= prefix);
    assert(line[line.len() - 1] == '"');
    assert(line.subrange(prefix.len() as int, line.len() - 1) =~= v);
}

/// A serialized table line parses back to its pair, provided the key holds
/// no quote.
pub proof fn lemma_parse_kv_round_trip(k: Seq<char>, v: Seq<char>)
    requires
        no_char(k, '"'),
    ensures
        spec_parse_kv(ser_kv_line(k, v)) == Some((k, v)),
{
    reveal_strlit("\"");
    reveal_strlit("\" = \"");
    let line = ser_kv_line(k, v);
    let d = line.drop_first();
    assert(line.len() == k.len() + v.len() + 7);
    assert(line[0] == '"');
    assert(d =~= k + ("\" = \"")@ + v + ("\"")@);
    assert(d[k.len() as int] == ("\" = \"")@[0]);
    assert(d[k.len() as int] == '"');
    assert forall|j: int| 0 <= j < k.len() implies d[j] != '"' by {
        assert(d[j] == k[j]);
    }
    lemma_find_char_at(d, '"', k.len() as int);
    let q = k.len() as int;
    assert(line.subrange(q + 1, q + 6) =~= ("\" = \"")@);
    assert(line[line.len() - 1] == '"');
    assert(line.subrange(1, q + 1) =~= k);
    assert(line.subrange(q + 6, line.len() - 1) =~= v);
}

/// Inside a table section, a run of serialized pair lines appends exactly
/// those pairs and hands the parse on.
pub proof fn lemma_parse_kv_section(
    lines: Seq<Seq<char>>,
    i: int,
    st: PState,
    rs: Seq<(Seq<char>, Seq<char>)>,
)
    requires
        st.sec == 1 || st.sec == 2,
        0 <= i,
        i + rs.len() <= lines.len(),
        forall|j: int| 0 <= j < rs.len() ==> lines[i + j] == ser_kv_line(
            (#[trigger] rs[j]).0,
            rs[j].1,
        ),
        forall|j: int| 0 <= j < rs.len() ==> no_char((#[trigger] rs[j]).0, '"'),
    ensures
        st.sec == 1 ==> parse_from(lines, i, st) == parse_from(
            lines,
            i + rs.len(),
            PState { m: RegModel { routes: st.m.routes + rs, ..st.m }, ..st },
        ),
        st.sec == 2 ==> parse_from(lines, i, st) == parse_from(
            lines,
            i + rs.len(),
            PState { m: RegModel { groups: st.m.groups + rs, ..st.m }, ..st },
        ),
    decreases rs.len(),
{
    reveal_strlit("\"");
    reveal_strlit("\" = \"");
    reveal_strlit("[routes]");
    reveal_strlit("[login_groups]");
    if rs.len() == 0 {
        assert(st.m.routes + rs =~~= st.m.routes);
        assert(st.m.groups + rs =~~= st.m.groups);
        assert(PState { m: RegModel { routes: st.m.routes + rs, ..st.m }, ..st } == st);
        assert(PState { m: RegModel { groups: st.m.groups + rs, ..st.m }, ..st } == st);
    } else {
        let p = rs[0];
        let line = lines[i];
        assert(line == ser_kv_line(p.0, p.1));
        assert(line.len() == p.0.len() + p.1.len() + 7);
        assert(line[0] == '"');
        assert(line != ("[routes]")@) by {
            assert(("[routes]")@[0] == '[');
        }
        assert(line != ("[login_groups]")@) by {
            assert(("[login_groups]")@[0] == '[');
        }
        lemma_parse_kv_round_trip(p.0, p.1);
        let st1 = if st.sec == 1 {
            PState { m: RegModel { routes: st.m.routes.push(p), ..st.m }, ..st }
        } else {
            PState { m: RegModel { groups: st.m.groups.push(p), ..st.m }, ..st }
        };
        assert(parse_from(lines, i, st) == parse_from(lines, i + 1, st1));
        lemma_parse_kv_section(lines, i + 1, st1, rs.drop_first());
        if st.sec == 1 {
            assert(st.m.routes.push(p) + rs.drop_first() =~~= st.m.routes + rs);
        } else {
            assert(st.m.groups.push(p) + rs.drop_first() =~~= st.m.groups + rs);
        }
    }
}

/// A document model the canonical text encoding can carry: no newlines in
/// any field, and no quotes in table keys.
pub open spec fn reg_encodable(m: RegModel) -> bool {
    &&& no_char(m.home, '\n')
    &&& no_char(m.acme, '\n')
    &&& forall|j: int| 0 <= j < m.routes.len() ==> no_char((#[trigger] m.routes[j]).0, '\n')
        && no_char(m.routes[j].0, '"') && no_char(m.routes[j].1, '\n')
    &&& forall|j: int| 0 <= j < m.groups.len() ==> no_char((#[trigger] m.groups[j]).0, '\n')
        && no_char(m.groups[j].0, '"') && no_char(m.groups[j].1, '\n')
}

/// Parsing the serialized lines restores the document model.
pub proof fn lemma_round_trip_lines(m: RegModel)
    requires
        reg_encodable(m),
    ensures
        parse_from(reg_lines(m), 0, init_pstate()) == Some(m),
{
    reveal_strlit("\"");
    reveal_strlit("home = \"");
    reveal_strlit("acme_redirect_configs = \"");
    reveal_strlit("[routes]");
    reveal_strlit("[login_groups]");
    let lines = reg_lines(m);
    let r = m.routes.len() as int;
    let g = m.groups.len() as int;
    assert(lines.len() == 6 + r + g);
    let st0 = init_pstate();
    // line 0: the home field
    let l0 = lines[0];
    assert(l0 == ser_top_line(("home = \"")@, m.home));
    assert(l0.len() > 0);
    assert(l0[0] == 'h');
    assert(l0 != ("[routes]")@ && l0 != ("[login_groups]")@) by {
        assert(("[routes]")@[0] == '[');
        assert(("[login_groups]")@[0] == '[');
    }
    lemma_parse_top_round_trip(("home = \"")@, m.home);
    let st1 = PState { seen_home: true, m: RegModel { home: m.home, ..st0.m }, ..st0 };
    assert(parse_from(lines, 0, st0) == parse_from(lines, 1, st1));
    // line 1: the acme field; it does not match the home prefix
    let l1 = lines[1];
    assert(l1 == ser_top_line(("acme_redirect_configs = \"")@, m.acme));
    assert(l1.len() > 0);
    assert(l1[0] == 'a');
    assert(l1 != ("[routes]")@ && l1 != ("[login_groups]")@) by {
        assert(("[routes]")@[0] == '[');
        assert(("[login_groups]")@[0] == '[');
    }
    assert(spec_parse_top(l1, ("home = \"")@) is None) by {
        if spec_has_prefix(l1, ("home = \"")@) {
            assert(l1.subrange(0, 8)[0] == ("home = \"")@[0]);
            assert(false);
        }
    }
    lemma_parse_top_round_trip(("acme_redirect_configs = \"")@, m.acme);
    let st2 = PState { seen_acme: true, m: RegModel { acme: m.acme, ..st1.m }, ..st1 };
    assert(parse_from(lines, 1, st1) == parse_from(lines, 2, st2));
    // line 2: blank; line 3: the routes header
    assert(lines[2].len() == 0);
    assert(parse_from(lines, 2, st2) == parse_from(lines, 3, st2));
    assert(lines[3] == ("[routes]")@);
    assert(lines[3].len() != 0);
    let st3 = PState { sec: 1, ..st2 };
    assert(parse_from(lines, 3, st2) == parse_from(lines, 4, st3));
    // the routes table
    assert forall|j: int| 0 <= j < r implies lines[4 + j] == ser_kv_line(
        (#[trigger] m.routes[j]).0,
        m.routes[j].1,
    ) by {
        assert(ser_kv_lines(m.routes)[j] == ser_kv_line(m.routes[j].0, m.routes[j].1));
    }
    lemma_parse_kv_section(lines, 4, st3, m.routes);
    let st4 = PState { m: RegModel { routes: st3.m.routes + m.routes, ..st3.m }, ..st3 };
    assert(parse_from(lines, 4, st3) == parse_from(lines, 4 + r, st4));
    // blank line, then the login-groups header
    assert(lines[4 + r].len() == 0);
    assert(parse_from(lines, 4 + r, st4) == parse_from(lines, 5 + r, st4));
    assert(lines[5 + r] == ("[login_groups]")@);
    assert(lines[5 + r].len() != 0);
    assert(lines[5 + r] != ("[routes]")@) by {
        assert(("[routes]")@.len() == 8);
        assert(("[login_groups]")@.len() == 14);
    }
    let st5 = PState { sec: 2, ..st4 };
    assert(parse_from(lines, 5 + r, st4) == parse_from(lines, 6 + r, st5));
    // the login-groups table
    assert forall|j: int| 0 <= j < g implies lines[6 + r + j] == ser_kv_line(
        (#[trigger] m.groups[j]).0,
        m.groups[j].1,
    ) by {
        assert(ser_kv_lines(m.groups)[j] == ser_kv_line(m.groups[j].0, m.groups[j].1));
    }
    lemma_parse_kv_section(lines, 6 + r, st5, m.groups);
    let st6 = PState { m: RegModel { groups: st5.m.groups + m.groups, ..st5.m }, ..st5 };
    assert(parse_from(lines, 6 + r, st5) == parse_from(lines, 6 + r + g, st6));
    // end of input: both fields seen, the model rebuilt
    assert(parse_from(lines, 6 + r + g, st6) == Some(st6.m));
    assert(st6.m.routes =~~= m.routes);
    assert(st6.m.groups =~~= m.groups);
    assert(st6.m == m);
}

/// No serialized line contains a newline, for an encodable model.
proof fn lemma_reg_lines_no_newline(m: RegModel)
    requires
        reg_encodable(m),
    ensures
        forall|i: int, j: int|
            0 <= i < reg_lines(m).len() && 0 <= j < reg_lines(m)[i].len()
                ==> reg_lines(m)[i][j] != '\n',
{
    reveal_strlit("\"");
    reveal_strlit("\" = \"");
    reveal_strlit("home = \"");
    reveal_strlit("acme_redirect_configs = \"");
    reveal_strlit("[routes]");
    reveal_strlit("[login_groups]");
    let lines = reg_lines(m);
    let r = m.routes.len() as int;
    let g = m.groups.len() as int;
    assert(no_char(("\"")@, '\n'));
    assert(no_char(("\" = \"")@, '\n'));
    assert(no_char(("home = \"")@, '\n'));
    assert(no_char(("acme_redirect_configs = \"")@, '\n'));
    assert(no_char(("[routes]")@, '\n'));
    assert(no_char(("[login_groups]")@, '\n'));
    assert forall|i: int, j: int|
        0 <= i < lines.len() && 0 <= j < lines[i].len() implies lines[i][j] != '\n' by {
        if i >= 4 && i < 4 + r {
            assert(lines[i] == ser_kv_lines(m.routes)[i - 4]);
            assert(lines[i] == ser_kv_line(m.routes[i - 4].0, m.routes[i - 4].1));
        } else if i >= 6 + r {
            assert(lines[i] == ser_kv_lines(m.groups)[i - 6 - r]);
            assert(lines[i] == ser_kv_line(m.groups[i - 6 - r].0, m.groups[i - 6 - r].1));
        }
    }
}

/// The maps of a string table and of its abstract pairs agree.
pub proof fn lemma_pairs_map_of(s: Seq<(String, String)>)
    ensures
        pairs_map(pairs_of(s)) == kv_map(s),
    decreases s.len(),
{
    if s.len() == 0 {
        assert(pairs_map(pairs_of(s)) =~= kv_map(s));
    } else {
        lemma_pairs_map_of(s.drop_last());
        assert(pairs_of(s).drop_last() =~~= pairs_of(s.drop_last()));
        assert(pairs_of(s).last() == (s.last().0@, s.last().1@));
        assert(pairs_map(pairs_of(s)) =~= kv_map(s));
    }
}

/// Serializing a registry and parsing the text restores its document model:
/// the round trip law, for any registry whose fields the encoding carries.
pub proof fn lemma_serialize_parse_round_trip(reg: Registry)
    requires
        reg.wf(),
        reg_encodable(reg_model(reg)),
    ensures
        spec_parse_text(spec_join_lines(reg_lines(reg_model(reg)))) == Some(reg_model(reg)),
        pairs_map(reg_model(reg).routes) == reg.routes_map(),
        pairs_map(reg_model(reg).groups) == reg.groups_map(),
{
    let m = reg_model(reg);
    lemma_reg_lines_no_newline(m);
    crate::strutil::lemma_split_join(reg_lines(m));
    assert(spec_split_lines(spec_join_lines(reg_lines(m))) == reg_lines(m));
    lemma_round_trip_lines(m);
    lemma_pairs_map_of(reg.routes@);
    lemma_pairs_map_of(reg.login_groups@);
}

} // verus!
