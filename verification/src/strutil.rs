//! Character-level string helpers: equality, prefix tests, and splitting or
//! joining newline-separated lines, each verified against a spec-level model.

use vstd::prelude::*;

verus! {

/// True when `p` is a prefix of `s`.
pub open spec fn spec_has_prefix(s: Seq<char>, p: Seq<char>) -> bool {
    p.len() <= s.len() && s.subrange(0, p.len() as int) == p
}

/// Splits a character sequence at every newline; always returns at least one
/// (possibly empty) segment, and `n` newlines yield `n + 1` segments.
pub open spec fn spec_split_lines(s: Seq<char>) -> Seq<Seq<char>>
    decreases s.len(),
{
    if s.len() == 0 {
        seq![Seq::<char>::empty()]
    } else if s[0] == '\n' {
        seq![Seq::<char>::empty()] + spec_split_lines(s.drop_first())
    } else {
        let rest = spec_split_lines(s.drop_first());
        seq![seq![s[0]] + rest[0]] + rest.drop_first()
    }
}

/// Joins segments with a single newline between each adjacent pair.
pub open spec fn spec_join_lines(parts: Seq<Seq<char>>) -> Seq<char>
    decreases parts.len(),
{
    if parts.len() == 0 {
        Seq::<char>::empty()
    } else if parts.len() == 1 {
        parts[0]
    } else {
        parts[0] + seq!['\n'] + spec_join_lines(parts.drop_first())
    }
}

pub proof fn lemma_split_nonempty(s: Seq<char>)
    ensures
        spec_split_lines(s).len() >= 1,
    decreases s.len(),
{
    if s.len() == 0 {
    } else if s[0] == '\n' {
        lemma_split_nonempty(s.drop_first());
    } else {
        lemma_split_nonempty(s.drop_first());
    }
}

/// Splitting a newline-free sequence yields that sequence as the one segment.
pub proof fn lemma_split_no_newline(s: Seq<char>)
    requires
        forall|i: int| 0 <= i < s.len() ==> s[i] != '\n',
    ensures
        spec_split_lines(s) =~~= seq![s],
    decreases s.len(),
{
    if s.len() == 0 {
        assert(spec_split_lines(s) =~~= seq![s]);
    } else {
        lemma_split_no_newline(s.drop_first());
        assert(seq![s[0]] + s.drop_first() =~= s);
        assert(spec_split_lines(s) =~~= seq![s]);
    }
}

/// Splitting `a + '\n' + b` with `a` newline-free peels off `a` as the first
/// segment.
pub proof fn lemma_split_peel(a: Seq<char>, b: Seq<char>)
    requires
        forall|i: int| 0 <= i < a.len() ==> a[i] != '\n',
    ensures
        spec_split_lines(a + seq!['\n'] + b) =~~= seq![a] + spec_split_lines(b),
    decreases a.len(),
{
    let s = a + seq!['\n'] + b;
    if a.len() == 0 {
        assert(s[0] == '\n');
        assert(s.drop_first() =~= b);
        assert(spec_split_lines(s) =~~= seq![a] + spec_split_lines(b));
    } else {
        assert(s[0] == a[0]);
        assert(s[0] != '\n');
        assert(s.drop_first() =~= a.drop_first() + seq!['\n'] + b);
        lemma_split_peel(a.drop_first(), b);
        let rest = spec_split_lines(s.drop_first());
        assert(rest =~~= seq![a.drop_first()] + spec_split_lines(b));
        lemma_split_nonempty(b);
        assert(rest[0] == a.drop_first());
        assert(seq![s[0]] + rest[0] =~= a);
        assert(rest.drop_first() =~~= spec_split_lines(b));
        assert(spec_split_lines(s) =~~= seq![a] + spec_split_lines(b));
    }
}

/// Splitting after joining restores the segments, provided none of them
/// contains a newline.
pub proof fn lemma_split_join(parts: Seq<Seq<char>>)
    requires
        parts.len() >= 1,
        forall|i: int, j: int|
            0 <= i < parts.len() && 0 <= j < parts[i].len() ==> parts[i][j] != '\n',
    ensures
        spec_split_lines(spec_join_lines(parts)) =~~= parts,
    decreases parts.len(),
{
    if parts.len() == 1 {
        assert(spec_join_lines(parts) == parts[0]);
        lemma_split_no_newline(parts[0]);
        assert(spec_split_lines(spec_join_lines(parts)) =~~= parts);
    } else {
        let a = parts[0];
        let rest = parts.drop_first();
        assert(spec_join_lines(parts) == a + seq!['\n'] + spec_join_lines(rest));
        lemma_split_peel(a, spec_join_lines(rest));
        lemma_split_join(rest);
        assert(spec_split_lines(spec_join_lines(parts)) =~~= seq![a] + rest);
        assert(seq![a] + rest =~~= parts);
    }
}

/// Character-by-character string equality.
pub fn str_eq(a: &str, b: &str) -> (r: bool)
    ensures
        r == (a@ == b@),
{
    let alen = a.unicode_len();
    let blen = b.unicode_len();
    if alen != blen {
        return false;
    }
    let mut i: usize = 0;
    while i < alen
        invariant
            i <= alen,
            alen == a@.len(),
            alen == b@.len(),
            forall|j: int| 0 <= j < i ==> a@[j] == b@[j],
        decreases alen - i,
    {
        if a.get_char(i) != b.get_char(i) {
            return false;
        }
        i += 1;
    }
    proof {
        assert(a@ =~= b@);
    }
    true
}

/// True when `p` is a prefix of `s`, per `spec_has_prefix`.
pub fn has_prefix(s: &str, p: &str) -> (r: bool)
    ensures
        r == spec_has_prefix(s@, p@),
{
    let slen = s.unicode_len();
    let plen = p.unicode_len();
    if plen > slen {
        return false;
    }
    let mut i: usize = 0;
    while i < plen
        invariant
            i <= plen,
            plen <= slen,
            plen == p@.len(),
            slen == s@.len(),
            forall|j: int| 0 <= j < i ==> s@[j] == p@[j],
        decreases plen - i,
    {
        if s.get_char(i) != p.get_char(i) {
            proof {
                assert(s@.subrange(0, p@.len() as int)[i as int] != p@[i as int]);
            }
            return false;
        }
        i += 1;
    }
    proof {
        assert(s@.subrange(0, p@.len() as int) =~= p@);
    }
    true
}

/// Splits a string into its newline-separated segments.
pub fn split_lines(s: &str) -> (r: Vec<String>)
    ensures
        r@.map_values(|x: String| x@) =~~= spec_split_lines(s@),
{
    let len = s.unicode_len();
    let mut out: Vec<String> = Vec::new();
    let mut cur = String::new();
    let mut i: usize = 0;
    proof {
        assert(s@.subrange(0, len as int) =~= s@);
        lemma_split_nonempty(s@);
        assert(spec_split_lines(s@) =~~= out@.map_values(|x: String| x@) + (seq![
            cur@ + spec_split_lines(s@)[0],
        ] + spec_split_lines(s@).drop_first()));
    }
    while i < len
        invariant
            i <= len,
            len == s@.len(),
            forall|j: int| 0 <= j < cur@.len() ==> cur@[j] != '\n',
            spec_split_lines(s@) =~~= out@.map_values(|x: String| x@)
                + (seq![cur@ + spec_split_lines(s@.subrange(i as int, len as int))[0]]
                    + spec_split_lines(s@.subrange(i as int, len as int)).drop_first()),
        decreases len - i,
    {
        let ghost tail = s@.subrange(i as int, len as int);
        let ghost tail2 = s@.subrange(i as int + 1, len as int);
        proof {
            assert(tail.len() > 0);
            assert(tail[0] == s@[i as int]);
            assert(tail.drop_first() =~= tail2);
            lemma_split_nonempty(tail2);
        }
        let c = s.get_char(i);
        if c == '\n' {
            let ghost prev_out = out@;
            let ghost prev_cur = cur@;
            out.push(cur);
            cur = String::new();
            proof {
                assert(spec_split_lines(tail) =~~= seq![Seq::<char>::empty()]
                    + spec_split_lines(tail2));
                assert(prev_cur + spec_split_lines(tail)[0] =~= prev_cur);
                assert(out@.map_values(|x: String| x@) =~~= prev_out.map_values(
                    |x: String| x@,
                ).push(prev_cur));
                assert(spec_split_lines(s@) =~~= out@.map_values(|x: String| x@) + (seq![
                    cur@ + spec_split_lines(tail2)[0],
                ] + spec_split_lines(tail2).drop_first()));
            }
        } else {
            let ghost prev_cur = cur@;
            push_char(&mut cur, c);
            proof {
                let rest = spec_split_lines(tail2);
                assert(spec_split_lines(tail) =~~= seq![seq![tail[0]] + rest[0]]
                    + rest.drop_first());
                assert(cur@ =~= prev_cur + seq![c]);
                assert(prev_cur + spec_split_lines(tail)[0] =~= cur@ + rest[0]);
                assert(spec_split_lines(tail).drop_first() =~~= rest.drop_first());
            }
        }
        i += 1;
    }
    proof {
        let ghost tail = s@.subrange(len as int, len as int);
        assert(tail =~= Seq::<char>::empty());
        assert(spec_split_lines(tail) =~~= seq![Seq::<char>::empty()]);
        assert(cur@ + spec_split_lines(tail)[0] =~= cur@);
    }
    let ghost prev_out = out@;
    out.push(cur);
    proof {
        assert(out@.map_values(|x: String| x@) =~~= prev_out.map_values(|x: String| x@).push(
            out@.last()@,
        ));
    }
    out
}

/// Relies on `String::push`: appends exactly one character at the end.
#[verifier::external_body]
fn push_char(s: &mut String, c: char)
    ensures
        final(s)@ == old(s)@.push(c),
{
    s.push(c);
}

/// Joins segments with single newlines.
pub fn join_lines(lines: &Vec<String>) -> (r: String)
    ensures
        r@ =~= spec_join_lines(lines@.map_values(|x: String| x@)),
{
    let mut r = String::new();
    let mut i: usize = 0;
    let ghost parts = lines@.map_values(|x: String| x@);
    while i < lines.len()
        invariant
            i <= lines@.len(),
            parts == lines@.map_values(|x: String| x@),
            r@ =~= spec_join_lines(parts.take(i as int)),
        decreases lines@.len() - i,
    {
        if i > 0 {
            r.append("\n");
        }
        r.append(lines[i].as_str());
        proof {
            lemma_join_push(parts.take(i as int), parts[i as int]);
            assert(parts.take(i as int).push(parts[i as int]) =~= parts.take(i as int + 1));
            reveal_strlit("\n");
        }
        i += 1;
    }
    proof {
        assert(parts.take(parts.len() as int) =~= parts);
    }
    r
}

/// Appending one more segment appends a newline and that segment, once the
/// list is nonempty.
pub proof fn lemma_join_push(parts: Seq<Seq<char>>, x: Seq<char>)
    ensures
        parts.len() == 0 ==> spec_join_lines(parts.push(x)) =~= x,
        parts.len() >= 1 ==> spec_join_lines(parts.push(x)) =~= spec_join_lines(parts)
            + seq!['\n'] + x,
    decreases parts.len(),
{
    if parts.len() == 0 {
        assert(parts.push(x)[0] =~= x);
    } else if parts.len() == 1 {
        assert(parts.push(x).drop_first() =~~= seq![x]);
        assert(parts.push(x)[0] == parts[0]);
        assert(spec_join_lines(seq![x]) == x);
        assert(spec_join_lines(parts.push(x)) =~= parts[0] + seq!['\n'] + x);
    } else {
        assert(parts.push(x).drop_first() =~= parts.drop_first().push(x));
        lemma_join_push(parts.drop_first(), x);
        assert(spec_join_lines(parts.push(x)) =~= parts[0] + seq!['\n'] + (spec_join_lines(
            parts.drop_first(),
        ) + seq!['\n'] + x));
        assert(parts[0] + seq!['\n'] + (spec_join_lines(parts.drop_first()) + seq!['\n'] + x)
            =~= (parts[0] + seq!['\n'] + spec_join_lines(parts.drop_first())) + seq!['\n']
            + x);
    }
}

} // verus!
