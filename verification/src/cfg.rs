//! The cfg protocol: the cfg line grammar, the set-semantics
//! accumulation of cfg values per name, and their rendering into
//! `CARGO_CFG_` environment variables.

use vstd::prelude::*;
use vstd::string::StrSliceExecFns;
use vstd::string::StringExecFns;

use crate::errors::Error;
use crate::kvmap::{gen_keys_distinct, sorted_insert, sorted_lt};
use crate::paths::{find_first, lemma_find_first, str_find};
use crate::text::{lemma_lex_connected, lemma_lex_trans, lex_lt, split_seq, split_string, str_eq, views};

verus! {

/// How one cfg line is read: either a plain name holding neither `=`
/// nor a line break, or `name="value"` where the name is everything
/// before the first `=` (no line break in it) and the quoted value
/// holds neither `"` nor a line break.
pub open spec fn spec_parse_cfg(s: Seq<char>) -> Option<(Seq<char>, Option<Seq<char>>)> {
    match find_first(s, '=') {
        None => if (forall|i: int| 0 <= i < s.len() ==> s[i] != '\n') {
            Some((s, None))
        } else {
            None
        },
        Some(i) => {
            let v = s.subrange(i + 2, s.len() - 1);
            if s.len() >= i + 3 && s[i + 1] == '"' && s.last() == '"' && (forall|j: int|
                0 <= j < i ==> s[j] != '\n') && (forall|j: int|
                0 <= j < v.len() ==> v[j] != '"' && v[j] != '\n') {
                Some((s.take(i), Some(v)))
            } else {
                None
            }
        },
    }
}

/// Reads one cfg line, as [`spec_parse_cfg`] says.
pub fn parse_cfg(s: &str) -> (r: Result<(String, Option<String>), Error>)
    ensures
        match r {
            Ok(p) => spec_parse_cfg(s@) == Some(
                (
                    p.0@,
                    match p.1 {
                        Some(v) => Some(v@),
                        None => None::<Seq<char>>,
                    },
                ),
            ),
            Err(e) => spec_parse_cfg(s@) is None && e == Error::CfgParse,
        },
{
    let n: usize = s.unicode_len();
    match str_find(s, '=') {
        None => {
            let mut j: usize = 0;
            while j < n
                invariant
                    n == s@.len(),
                    j <= n,
                    find_first(s@, '=') is None,
                    forall|i: int| 0 <= i < j ==> s@[i] != '\n',
                decreases n - j,
            {
                if s.get_char(j) == '\n' {
                    proof {
                        if (forall|idx: int| 0 <= idx < s@.len() ==> s@[idx] != '\n') {
                            assert(s@[j as int] != '\n');
                        }
                    }
                    return Err(Error::CfgParse);
                }
                j += 1;
            }
            Ok((s.to_owned(), None))
        },
        Some(i) => {
            proof {
                lemma_find_first(s@, '=');
            }
            if n < 3 || n - i < 3 {
                return Err(Error::CfgParse);
            }
            if s.get_char(i + 1) != '"' || s.get_char(n - 1) != '"' {
                return Err(Error::CfgParse);
            }
            let mut j: usize = 0;
            while j < i
                invariant
                    n == s@.len(),
                    i < n,
                    j <= i,
                    find_first(s@, '=') == Some(i as int),
                    forall|k: int| 0 <= k < j ==> s@[k] != '\n',
                decreases i - j,
            {
                if s.get_char(j) == '\n' {
                    proof {
                        if (forall|idx: int| 0 <= idx < i ==> s@[idx] != '\n') {
                            assert(s@[j as int] != '\n');
                        }
                    }
                    return Err(Error::CfgParse);
                }
                j += 1;
            }
            let ghost v = s@.subrange(i + 2, s@.len() - 1);
            let mut k: usize = i + 2;
            while k < n - 1
                invariant
                    n == s@.len(),
                    i + 3 <= n,
                    v == s@.subrange(i as int + 2, s@.len() - 1),
                    i + 2 <= k <= n - 1,
                    find_first(s@, '=') == Some(i as int),
                    forall|q: int| 0 <= q < k - i - 2 ==> v[q] != '"' && v[q] != '\n',
                decreases n - k,
            {
                let c = s.get_char(k);
                proof {
                    assert(v[k - i - 2] == s@[k as int]);
                }
                if c == '"' || c == '\n' {
                    proof {
                        if (forall|q: int| 0 <= q < v.len() ==> v[q] != '"' && v[q] != '\n') {
                            assert(v[k - i - 2] != '"' && v[k - i - 2] != '\n');
                        }
                    }
                    return Err(Error::CfgParse);
                }
                k += 1;
            }
            let name = s.substring_char(0, i).to_owned();
            let val = s.substring_char(i + 2, n - 1).to_owned();
            proof {
                assert(name@ =~= s@.take(i as int));
                assert(val@ =~= v);
            }
            Ok((name, Some(val)))
        },
    }
}

/// What the compiler's printed default cfg set parses to: each
/// nonempty line read by the cfg grammar; one bad line spoils the
/// whole output.
pub open spec fn spec_cfg_lines(pieces: Seq<Seq<char>>) -> Option<
    Seq<(Seq<char>, Option<Seq<char>>)>,
>
    decreases pieces.len(),
{
    if pieces.len() == 0 {
        Some(Seq::empty())
    } else if pieces[0].len() == 0 {
        spec_cfg_lines(pieces.drop_first())
    } else {
        match (spec_parse_cfg(pieces[0]), spec_cfg_lines(pieces.drop_first())) {
            (Some(p), Some(rest)) => Some(seq![p] + rest),
            _ => None,
        }
    }
}

/// Parsing lines grows one line at a time from the right.
proof fn lemma_cfg_lines_push(pieces: Seq<Seq<char>>, last: Seq<char>)
    ensures
        spec_cfg_lines(pieces.push(last)) == (if last.len() == 0 {
            spec_cfg_lines(pieces)
        } else {
            match (spec_cfg_lines(pieces), spec_parse_cfg(last)) {
                (Some(rest), Some(p)) => Some(rest.push(p)),
                _ => None::<Seq<(Seq<char>, Option<Seq<char>>)>>,
            }
        }),
    decreases pieces.len(),
{
    if pieces.len() == 0 {
        assert(pieces.push(last).drop_first() =~= pieces);
        if last.len() > 0 {
            match (spec_cfg_lines(pieces), spec_parse_cfg(last)) {
                (Some(rest), Some(p)) => {
                    assert(spec_cfg_lines(pieces.push(last)) matches Some(x) && x =~= rest.push(p));
                },
                _ => {},
            }
        }
    } else {
        assert(pieces.push(last).drop_first() =~= pieces.drop_first().push(last));
        assert(pieces.push(last)[0] == pieces[0]);
        lemma_cfg_lines_push(pieces.drop_first(), last);
        if pieces[0].len() == 0 || last.len() == 0 {
        } else {
            match (spec_cfg_lines(pieces), spec_parse_cfg(last), spec_parse_cfg(pieces[0]),
            spec_cfg_lines(pieces.drop_first())) {
                (Some(rest), Some(p), Some(h), Some(r0)) => {
                    assert(rest == seq![h] + r0);
                    assert(spec_cfg_lines(pieces.drop_first().push(last)) == Some(r0.push(p)));
                    assert(spec_cfg_lines(pieces.push(last)) matches Some(x) && x == seq![h]
                        + r0.push(p));
                    assert(seq![h] + r0.push(p) =~= rest.push(p));
                },
                _ => {},
            }
        }
    }
}

/// Reads the compiler's printed cfg set line by line, as
/// [`spec_cfg_lines`] says.
pub fn parse_cfg_output(output: &str) -> (r: Result<Vec<(String, Option<String>)>, Error>)
    ensures
        match r {
            Ok(list) => spec_cfg_lines(split_seq(output@, '\n')) == Some(cfg_input_views(list@)),
            Err(e) => spec_cfg_lines(split_seq(output@, '\n')) is None && e == Error::CfgParse,
        },
{
    let lines = split_string(output, '\n');
    let ghost all = split_seq(output@, '\n');
    let mut out: Vec<(String, Option<String>)> = Vec::new();
    let mut i: usize = 0;
    proof {
        assert(all.take(0) =~= Seq::<Seq<char>>::empty());
        assert(cfg_input_views(out@) =~= Seq::<(Seq<char>, Option<Seq<char>>)>::empty());
    }
    while i < lines.len()
        invariant
            views(lines@) == all,
            all == split_seq(output@, '\n'),
            i <= lines@.len(),
            spec_cfg_lines(all.take(i as int)) == Some(cfg_input_views(out@)),
        decreases lines@.len() - i,
    {
        let line = &lines[i];
        proof {
            assert(all.take(i + 1 as int) =~= all.take(i as int).push(all[i as int]));
            lemma_cfg_lines_push(all.take(i as int), all[i as int]);
            assert(line@ == all[i as int]);
        }
        if line.as_str().unicode_len() > 0 {
            match parse_cfg(line.as_str()) {
                Ok(p) => {
                    let ghost prev = out@;
                    let ghost pv = (
                        p.0@,
                        match &p.1 {
                            Some(v) => Some(v@),
                            None => None::<Seq<char>>,
                        },
                    );
                    out.push(p);
                    proof {
                        assert(cfg_input_views(out@) =~= cfg_input_views(prev).push(pv));
                    }
                },
                Err(e) => {
                    proof {
                        lemma_cfg_lines_none_extends(all, i as int);
                    }
                    return Err(e);
                },
            }
        }
        i += 1;
    }
    proof {
        assert(all.take(all.len() as int) =~= all);
    }
    Ok(out)
}

/// The spec view of a parsed cfg list.
pub open spec fn cfg_input_views(list: Seq<(String, Option<String>)>) -> Seq<
    (Seq<char>, Option<Seq<char>>),
> {
    list.map_values(
        |p: (String, Option<String>)|
            (
                p.0@,
                match p.1 {
                    Some(v) => Some(v@),
                    None => None::<Seq<char>>,
                },
            ),
    )
}

/// A failing line keeps the whole parse failing however far it goes.
proof fn lemma_cfg_lines_none_extends(all: Seq<Seq<char>>, i: int)
    requires
        0 <= i < all.len(),
        all[i].len() > 0,
        spec_parse_cfg(all[i]) is None,
    ensures
        spec_cfg_lines(all) is None,
    decreases all.len(),
{
    if i == 0 {
    } else {
        assert(all.drop_first()[i - 1] == all[i]);
        lemma_cfg_lines_none_extends(all.drop_first(), i - 1);
    }
}


/// The spec view of a cfg accumulation: names with their value sets.
pub open spec fn entries_view(m: Seq<(String, Vec<String>)>) -> Seq<(Seq<char>, Seq<Seq<char>>)> {
    m.map_values(|p: (String, Vec<String>)| (p.0@, views(p.1@)))
}

/// Names distinct, every value list strictly sorted: the accumulation
/// behaves as a map of sets.
pub open spec fn cfg_wf(m: Seq<(String, Vec<String>)>) -> bool {
    &&& gen_keys_distinct(m)
    &&& forall|i: int| 0 <= i < m.len() ==> sorted_lt(views(#[trigger] m[i].1@))
}

/// Insertion into a strictly sorted sequence: before the first entry
/// that is not smaller; an equal entry is left alone.
pub open spec fn view_sorted_insert(s: Seq<Seq<char>>, x: Seq<char>) -> Seq<Seq<char>>
    decreases s.len(),
{
    if s.len() == 0 {
        seq![x]
    } else if lex_lt(s[0], x) {
        seq![s[0]] + view_sorted_insert(s.drop_first(), x)
    } else if s[0] == x {
        s
    } else {
        seq![x] + s
    }
}

/// Sorted insertion keeps the order strict and adds exactly `x`.
pub proof fn lemma_view_sorted_insert_props(s: Seq<Seq<char>>, x: Seq<char>)
    requires
        sorted_lt(s),
    ensures
        sorted_lt(view_sorted_insert(s, x)),
        forall|q: Seq<char>| #[trigger]
            view_sorted_insert(s, x).contains(q) <==> (s.contains(q) || q == x),
    decreases s.len(),
{
    let r = view_sorted_insert(s, x);
    if s.len() == 0 {
        assert forall|q: Seq<char>| #[trigger] r.contains(q) <==> (s.contains(q) || q == x) by {
            if r.contains(q) {
                let w = choose|w: int| 0 <= w < r.len() && r[w] == q;
                assert(q == x);
            }
            if q == x {
                assert(r[0] == q);
            }
        }
    } else if lex_lt(s[0], x) {
        assert(forall|j: int| 0 <= j < s.drop_first().len() ==> #[trigger] s.drop_first()[j] == s[j + 1]);
        lemma_view_sorted_insert_props(s.drop_first(), x);
        let r1 = view_sorted_insert(s.drop_first(), x);
        assert(r =~= seq![s[0]] + r1);
        assert forall|a: int, b: int| 0 <= a < b < r.len() implies lex_lt(r[a], r[b]) by {
            if a == 0 {
                assert(r1.contains(r[b])) by {
                    assert(r1[b - 1] == r[b]);
                }
                if s.drop_first().contains(r[b]) {
                    let w = choose|w: int| 0 <= w < s.drop_first().len() && s.drop_first()[w] == r[b];
                    assert(lex_lt(s[0], s[w + 1]));
                } else {
                    assert(r[b] == x);
                }
            } else {
                assert(r[a] == r1[a - 1] && r[b] == r1[b - 1]);
            }
        }
        assert forall|q: Seq<char>| #[trigger] r.contains(q) <==> (s.contains(q) || q == x) by {
            if r.contains(q) {
                let w = choose|w: int| 0 <= w < r.len() && r[w] == q;
                if w == 0 {
                    assert(s[0] == q);
                    assert(s.contains(q));
                } else {
                    assert(r1[w - 1] == q);
                    assert(r1.contains(q));
                    if s.drop_first().contains(q) {
                        let u = choose|u: int| 0 <= u < s.drop_first().len() && s.drop_first()[u] == q;
                        assert(s[u + 1] == q);
                        assert(s.contains(q));
                    }
                }
            }
            if s.contains(q) {
                let w = choose|w: int| 0 <= w < s.len() && s[w] == q;
                if w == 0 {
                    assert(r[0] == q);
                } else {
                    assert(s.drop_first()[w - 1] == q);
                    assert(s.drop_first().contains(q));
                    assert(r1.contains(q));
                    let u = choose|u: int| 0 <= u < r1.len() && r1[u] == q;
                    assert(r[u + 1] == q);
                }
            }
            if q == x {
                assert(r1.contains(q));
                let u = choose|u: int| 0 <= u < r1.len() && r1[u] == q;
                assert(r[u + 1] == q);
            }
        }
    } else if s[0] == x {
        assert forall|q: Seq<char>| #[trigger] r.contains(q) <==> (s.contains(q) || q == x) by {
            if q == x {
                assert(s[0] == q);
                assert(s.contains(q));
            }
        }
    } else {
        crate::text::lemma_lex_connected(s[0], x);
        assert(lex_lt(x, s[0]));
        assert(r =~= seq![x] + s);
        assert forall|a: int, b: int| 0 <= a < b < r.len() implies lex_lt(r[a], r[b]) by {
            if a == 0 {
                if b == 1 {
                    assert(r[b] == s[0]);
                } else {
                    assert(r[b] == s[b - 1]);
                    assert(lex_lt(s[0], s[b - 1]));
                    crate::text::lemma_lex_trans(x, s[0], s[b - 1]);
                }
            } else {
                assert(r[a] == s[a - 1] && r[b] == s[b - 1]);
            }
        }
        assert forall|q: Seq<char>| #[trigger] r.contains(q) <==> (s.contains(q) || q == x) by {
            if r.contains(q) {
                let w = choose|w: int| 0 <= w < r.len() && r[w] == q;
                if w > 0 {
                    assert(s[w - 1] == q);
                    assert(s.contains(q));
                }
            }
            if s.contains(q) {
                let w = choose|w: int| 0 <= w < s.len() && s[w] == q;
                assert(r[w + 1] == q);
            }
            if q == x {
                assert(r[0] == q);
            }
        }
    }
}

/// Accumulating values for one cfg name is order-independent: two
/// insertion orders of the same values leave the same sorted list.
/// This is the set semantics the environment contract asks for.
pub proof fn lemma_cfg_value_order_insensitive(s: Seq<Seq<char>>, a: Seq<char>, b: Seq<char>)
    requires
        sorted_lt(s),
    ensures
        view_sorted_insert(view_sorted_insert(s, a), b) == view_sorted_insert(
            view_sorted_insert(s, b),
            a,
        ),
{
    lemma_view_sorted_insert_props(s, a);
    lemma_view_sorted_insert_props(view_sorted_insert(s, a), b);
    lemma_view_sorted_insert_props(s, b);
    lemma_view_sorted_insert_props(view_sorted_insert(s, b), a);
    crate::kvmap::lemma_sorted_canonical(
        view_sorted_insert(view_sorted_insert(s, a), b),
        view_sorted_insert(view_sorted_insert(s, b), a),
    );
}

/// One cfg arrives: a fresh name opens its (possibly empty) value
/// set, a value joins an existing name's set, a bare existing name
/// changes nothing.
pub open spec fn view_cfg_add(
    m: Seq<(Seq<char>, Seq<Seq<char>>)>,
    name: Seq<char>,
    val: Option<Seq<char>>,
) -> Seq<(Seq<char>, Seq<Seq<char>>)>
    decreases m.len(),
{
    if m.len() == 0 {
        seq![
            (
                name,
                match val {
                    None => Seq::<Seq<char>>::empty(),
                    Some(v) => seq![v],
                },
            ),
        ]
    } else if m[0].0 == name {
        match val {
            None => m,
            Some(v) => seq![(name, view_sorted_insert(m[0].1, v))] + m.drop_first(),
        }
    } else {
        seq![m[0]] + view_cfg_add(m.drop_first(), name, val)
    }
}

/// The whole accumulation: cfgs arrive one after the other.
pub open spec fn view_cfg_fold(
    m: Seq<(Seq<char>, Seq<Seq<char>>)>,
    inputs: Seq<(Seq<char>, Option<Seq<char>>)>,
) -> Seq<(Seq<char>, Seq<Seq<char>>)>
    decreases inputs.len(),
{
    if inputs.len() == 0 {
        m
    } else {
        view_cfg_fold(view_cfg_add(m, inputs[0].0, inputs[0].1), inputs.drop_first())
    }
}

/// Folding grows one input at a time from the right.
pub proof fn lemma_cfg_fold_push(
    m: Seq<(Seq<char>, Seq<Seq<char>>)>,
    inputs: Seq<(Seq<char>, Option<Seq<char>>)>,
    x: (Seq<char>, Option<Seq<char>>),
)
    ensures
        view_cfg_fold(m, inputs.push(x)) == view_cfg_add(view_cfg_fold(m, inputs), x.0, x.1),
    decreases inputs.len(),
{
    let ip = inputs.push(x);
    if inputs.len() == 0 {
        assert(ip.drop_first() =~= inputs);
        assert(ip[0] == x);
        assert(view_cfg_fold(m, ip) == view_cfg_fold(
            view_cfg_add(m, ip[0].0, ip[0].1),
            ip.drop_first(),
        ));
        assert(view_cfg_fold(view_cfg_add(m, x.0, x.1), inputs) == view_cfg_add(m, x.0, x.1));
    } else {
        assert(ip.drop_first() =~= inputs.drop_first().push(x));
        assert(ip[0] == inputs[0]);
        assert(view_cfg_fold(m, ip) == view_cfg_fold(
            view_cfg_add(m, inputs[0].0, inputs[0].1),
            ip.drop_first(),
        ));
        lemma_cfg_fold_push(view_cfg_add(m, inputs[0].0, inputs[0].1), inputs.drop_first(), x);
        assert(view_cfg_fold(m, inputs) == view_cfg_fold(
            view_cfg_add(m, inputs[0].0, inputs[0].1),
            inputs.drop_first(),
        ));
    }
}

/// Adds one cfg to the accumulation, as [`view_cfg_add`] says.
pub fn cfg_add(m: &mut Vec<(String, Vec<String>)>, name: String, val: Option<String>)
    requires
        cfg_wf(old(m)@),
    ensures
        cfg_wf(final(m)@),
        entries_view(final(m)@) == view_cfg_add(
            entries_view(old(m)@),
            name@,
            match val {
                Some(v) => Some(v@),
                None => None,
            },
        ),
{
    let ghost m0 = old(m)@;
    let ghost ev = entries_view(old(m)@);
    let ghost vv: Option<Seq<char>> = match &val {
        Some(v) => Some(v@),
        None => None,
    };
    let n: usize = m.len();
    let mut i: usize = 0;
    proof {
        assert(ev.take(0) =~= Seq::<(Seq<char>, Seq<Seq<char>>)>::empty());
        assert(ev.skip(0) =~= ev);
        assert(Seq::<(Seq<char>, Seq<Seq<char>>)>::empty() + view_cfg_add(ev, name@, vv)
            =~= view_cfg_add(ev, name@, vv));
    }
    while i < n
        invariant
            n == m@.len(),
            i <= n,
            m@ == m0,
            m0 == old(m)@,
            ev == entries_view(m0),
            vv == (match val {
                Some(v) => Some(v@),
                None => None::<Seq<char>>,
            }),
            cfg_wf(m0),
            forall|j: int| 0 <= j < i ==> m0[j].0@ != name@,
            view_cfg_add(ev, name@, vv) == ev.take(i as int) + view_cfg_add(
                ev.skip(i as int),
                name@,
                vv,
            ),
        decreases n - i,
    {
        proof {
            assert(ev.skip(i as int)[0] == ev[i as int]);
            assert(ev[i as int] == (m0[i as int].0@, views(m0[i as int].1@)));
            assert(ev.skip(i as int).drop_first() =~= ev.skip(i + 1 as int));
        }
        if str_eq(m[i].0.as_str(), name.as_str()) {
            match val {
                None => {
                    proof {
                        assert(view_cfg_add(ev.skip(i as int), name@, vv) == ev.skip(i as int));
                        assert(ev.take(i as int) + ev.skip(i as int) =~= ev);
                    }
                    return ;
                },
                Some(v) => {
                    let ghost gv = v;
                    let (k0, mut vals) = m.remove(i);
                    let ghost vals0 = vals;
                    sorted_insert(&mut vals, v);
                    proof {
                        lemma_view_sorted_insert_props(views(vals0@), gv@);
                        crate::kvmap::lemma_sorted_canonical(
                            views(vals@),
                            view_sorted_insert(views(vals0@), gv@),
                        );
                    }
                    m.insert(i, (k0, vals));
                    proof {
                        assert(forall|j: int| 0 <= j < m0.len() && j != i ==> m@[j] == m0[j]);
                        assert(m@[i as int].0@ == name@);
                        assert(views(m@[i as int].1@) == view_sorted_insert(
                            views(m0[i as int].1@),
                            gv@,
                        ));
                        assert(entries_view(m@) =~= ev.take(i as int) + (seq![
                            (name@, view_sorted_insert(ev[i as int].1, gv@)),
                        ] + ev.skip(i + 1 as int)));
                        assert(view_cfg_add(ev.skip(i as int), name@, vv) =~= seq![
                            (name@, view_sorted_insert(ev[i as int].1, gv@)),
                        ] + ev.skip(i + 1 as int));
                        assert(gen_keys_distinct(m@)) by {
                            assert(forall|a: int|
                                0 <= a < m@.len() ==> m@[a].0@ == m0[a].0@);
                        }
                        assert(cfg_wf(m@)) by {
                            assert(forall|a: int|
                                0 <= a < m@.len() && a != i ==> m@[a] == m0[a]);
                        }
                    }
                    return ;
                },
            }
        }
        proof {
            assert(view_cfg_add(ev.skip(i as int), name@, vv) =~= seq![ev[i as int]]
                + view_cfg_add(ev.skip(i + 1 as int), name@, vv));
            assert(ev.take(i as int) + (seq![ev[i as int]] + view_cfg_add(
                ev.skip(i + 1 as int),
                name@,
                vv,
            )) =~= ev.take(i + 1 as int) + view_cfg_add(ev.skip(i + 1 as int), name@, vv));
        }
        i += 1;
    }
    let ghost gname = name;
    let mut nv: Vec<String> = Vec::new();
    match val {
        None => {},
        Some(v) => {
            nv.push(v);
        },
    }
    let ghost gnv = nv;
    m.push((name, nv));
    proof {
        assert(ev.skip(n as int) =~= Seq::<(Seq<char>, Seq<Seq<char>>)>::empty());
        assert(m@ =~= m0.push((gname, gnv)));
        assert(entries_view(m@) =~= ev.push((gname@, views(gnv@))));
        assert(views(gnv@) =~= (match vv {
            None => Seq::<Seq<char>>::empty(),
            Some(v) => seq![v],
        }));
        assert(view_cfg_add(ev, name@, vv) =~= ev.take(n as int) + seq![(gname@, views(gnv@))]);
        assert(entries_view(m@) =~= view_cfg_add(ev, name@, vv));
        assert(gen_keys_distinct(m@)) by {
            assert(forall|j: int| 0 <= j < m0.len() ==> m@[j] == m0[j]);
        }
        assert(cfg_wf(m@)) by {
            assert(forall|j: int| 0 <= j < m0.len() ==> m@[j] == m0[j]);
            assert(sorted_lt(views(m@[m0.len() as int].1@)));
        }
    }
}


/// How a list of job-supplied cfgs parses: every entry must follow
/// the cfg grammar.
pub open spec fn spec_job_cfgs(list: Seq<Seq<char>>) -> Option<Seq<(Seq<char>, Option<Seq<char>>)>>
    decreases list.len(),
{
    if list.len() == 0 {
        Some(Seq::empty())
    } else {
        match (spec_parse_cfg(list[0]), spec_job_cfgs(list.drop_first())) {
            (Some(p), Some(rest)) => Some(seq![p] + rest),
            _ => None,
        }
    }
}

/// Job cfg parsing grows one entry at a time from the right.
proof fn lemma_job_cfgs_push(list: Seq<Seq<char>>, last: Seq<char>)
    ensures
        spec_job_cfgs(list.push(last)) == (match (spec_job_cfgs(list), spec_parse_cfg(last)) {
            (Some(rest), Some(p)) => Some(rest.push(p)),
            _ => None::<Seq<(Seq<char>, Option<Seq<char>>)>>,
        }),
    decreases list.len(),
{
    let lp = list.push(last);
    if list.len() == 0 {
        assert(lp.drop_first() =~= list);
        assert(lp[0] == last);
        match (spec_job_cfgs(list), spec_parse_cfg(last)) {
            (Some(rest), Some(p)) => {
                assert(spec_job_cfgs(lp) matches Some(x) && x =~= rest.push(p));
            },
            _ => {},
        }
    } else {
        assert(lp.drop_first() =~= list.drop_first().push(last));
        assert(lp[0] == list[0]);
        lemma_job_cfgs_push(list.drop_first(), last);
        match (spec_job_cfgs(list), spec_parse_cfg(last), spec_parse_cfg(list[0]), spec_job_cfgs(
            list.drop_first(),
        )) {
            (Some(rest), Some(p), Some(h), Some(r0)) => {
                assert(rest == seq![h] + r0);
                assert(spec_job_cfgs(lp) matches Some(x) && x == seq![h] + r0.push(p));
                assert(seq![h] + r0.push(p) =~= rest.push(p));
            },
            _ => {},
        }
    }
}

/// A failing entry keeps the whole job cfg parse failing.
proof fn lemma_job_cfgs_none(list: Seq<Seq<char>>, i: int)
    requires
        0 <= i < list.len(),
        spec_parse_cfg(list[i]) is None,
    ensures
        spec_job_cfgs(list) is None,
    decreases list.len(),
{
    if i > 0 {
        assert(list.drop_first()[i - 1] == list[i]);
        lemma_job_cfgs_none(list.drop_first(), i - 1);
    }
}

/// The accumulation every build-script run starts from: the enabled
/// features under the name `feature`, the name present even when no
/// feature is enabled.
pub open spec fn base_cfg_entries(features: Seq<Seq<char>>) -> Seq<(Seq<char>, Seq<Seq<char>>)> {
    view_cfg_fold(
        seq![("feature"@, Seq::<Seq<char>>::empty())],
        features.map_values(|f: Seq<char>| ("feature"@, Some(f))),
    )
}

/// Merges the three cfg sources into one accumulation: the enabled
/// features, the compiler's own default cfg set for the target, and
/// the job-supplied cfgs, in that order, with set semantics per name.
pub fn merge_cfgs(features: &Vec<String>, rustc_cfg_output: &str, job_cfgs: &Vec<String>) -> (r:
    Result<Vec<(String, Vec<String>)>, Error>)
    ensures
        match r {
            Ok(entries) => {
                &&& cfg_wf(entries@)
                &&& spec_cfg_lines(split_seq(rustc_cfg_output@, '\n')) is Some
                &&& spec_job_cfgs(views(job_cfgs@)) is Some
                &&& entries_view(entries@) == view_cfg_fold(
                    view_cfg_fold(
                        base_cfg_entries(views(features@)),
                        spec_cfg_lines(split_seq(rustc_cfg_output@, '\n'))->Some_0,
                    ),
                    spec_job_cfgs(views(job_cfgs@))->Some_0,
                )
            },
            Err(e) => e == Error::CfgParse && (spec_cfg_lines(split_seq(rustc_cfg_output@, '\n'))
                is None || spec_job_cfgs(views(job_cfgs@)) is None),
        },
{
    let mut entries: Vec<(String, Vec<String>)> = Vec::new();
    entries.push(("feature".to_owned(), Vec::new()));
    let ghost finputs = views(features@).map_values(|f: Seq<char>| ("feature"@, Some(f)));
    proof {
        assert(entries_view(entries@) =~~= seq![("feature"@, Seq::<Seq<char>>::empty())]);
        assert(cfg_wf(entries@));
        assert(finputs.take(0) =~= Seq::<(Seq<char>, Option<Seq<char>>)>::empty());
    }
    let mut i: usize = 0;
    while i < features.len()
        invariant
            i <= features@.len(),
            finputs == views(features@).map_values(|f: Seq<char>| ("feature"@, Some(f))),
            cfg_wf(entries@),
            entries_view(entries@) == view_cfg_fold(
                seq![("feature"@, Seq::<Seq<char>>::empty())],
                finputs.take(i as int),
            ),
        decreases features@.len() - i,
    {
        cfg_add(&mut entries, "feature".to_owned(), Some(features[i].clone()));
        proof {
            assert(finputs.take(i + 1 as int) =~= finputs.take(i as int).push(
                finputs[i as int],
            ));
            lemma_cfg_fold_push(
                seq![("feature"@, Seq::<Seq<char>>::empty())],
                finputs.take(i as int),
                finputs[i as int],
            );
            assert(finputs[i as int] == ("feature"@, Some(features@[i as int]@)));
        }
        i += 1;
    }
    proof {
        assert(finputs.take(features@.len() as int) =~= finputs);
    }
    let ghost base = base_cfg_entries(views(features@));
    let rustc_list = match parse_cfg_output(rustc_cfg_output) {
        Ok(list) => list,
        Err(e) => {
            return Err(e);
        },
    };
    let ghost rl = cfg_input_views(rustc_list@);
    let mut j: usize = 0;
    proof {
        assert(rl.take(0) =~= Seq::<(Seq<char>, Option<Seq<char>>)>::empty());
    }
    while j < rustc_list.len()
        invariant
            j <= rustc_list@.len(),
            rl == cfg_input_views(rustc_list@),
            base == base_cfg_entries(views(features@)),
            cfg_wf(entries@),
            entries_view(entries@) == view_cfg_fold(base, rl.take(j as int)),
        decreases rustc_list@.len() - j,
    {
        let (name, val) = (rustc_list[j].0.clone(), match &rustc_list[j].1 {
            Some(v) => Some(v.clone()),
            None => None,
        });
        proof {
            assert(rl[j as int] == (rustc_list@[j as int].0@, match rustc_list@[j as int].1 {
                Some(v) => Some(v@),
                None => None::<Seq<char>>,
            }));
        }
        cfg_add(&mut entries, name, val);
        proof {
            assert(rl.take(j + 1 as int) =~= rl.take(j as int).push(rl[j as int]));
            lemma_cfg_fold_push(base, rl.take(j as int), rl[j as int]);
        }
        j += 1;
    }
    proof {
        assert(rl.take(rustc_list@.len() as int) =~= rl);
    }
    let ghost mid = view_cfg_fold(base, rl);
    let ghost jinputs = views(job_cfgs@);
    let mut k: usize = 0;
    let mut parsed: Vec<(String, Option<String>)> = Vec::new();
    proof {
        assert(jinputs.take(0) =~= Seq::<Seq<char>>::empty());
        assert(cfg_input_views(parsed@) =~= Seq::<(Seq<char>, Option<Seq<char>>)>::empty());
    }
    while k < job_cfgs.len()
        invariant
            k <= job_cfgs@.len(),
            jinputs == views(job_cfgs@),
            spec_job_cfgs(jinputs.take(k as int)) == Some(cfg_input_views(parsed@)),
        decreases job_cfgs@.len() - k,
    {
        proof {
            assert(jinputs.take(k + 1 as int) =~= jinputs.take(k as int).push(jinputs[k as int]));
            lemma_job_cfgs_push(jinputs.take(k as int), jinputs[k as int]);
            assert(jinputs[k as int] == job_cfgs@[k as int]@);
        }
        match parse_cfg(job_cfgs[k].as_str()) {
            Ok(p) => {
                let ghost prev = parsed@;
                let ghost pv = (
                    p.0@,
                    match &p.1 {
                        Some(v) => Some(v@),
                        None => None::<Seq<char>>,
                    },
                );
                parsed.push(p);
                proof {
                    assert(cfg_input_views(parsed@) =~= cfg_input_views(prev).push(pv));
                }
            },
            Err(e) => {
                proof {
                    lemma_job_cfgs_none(jinputs, k as int);
                }
                return Err(e);
            },
        }
        k += 1;
    }
    proof {
        assert(jinputs.take(job_cfgs@.len() as int) =~= jinputs);
    }
    let ghost jl = cfg_input_views(parsed@);
    let mut q: usize = 0;
    proof {
        assert(jl.take(0) =~= Seq::<(Seq<char>, Option<Seq<char>>)>::empty());
    }
    while q < parsed.len()
        invariant
            q <= parsed@.len(),
            jl == cfg_input_views(parsed@),
            mid == view_cfg_fold(base_cfg_entries(views(features@)), cfg_input_views(rustc_list@)),
            cfg_wf(entries@),
            entries_view(entries@) == view_cfg_fold(mid, jl.take(q as int)),
        decreases parsed@.len() - q,
    {
        let (name, val) = (parsed[q].0.clone(), match &parsed[q].1 {
            Some(v) => Some(v.clone()),
            None => None,
        });
        proof {
            assert(jl[q as int] == (parsed@[q as int].0@, match parsed@[q as int].1 {
                Some(v) => Some(v@),
                None => None::<Seq<char>>,
            }));
        }
        cfg_add(&mut entries, name, val);
        proof {
            assert(jl.take(q + 1 as int) =~= jl.take(q as int).push(jl[q as int]));
            lemma_cfg_fold_push(mid, jl.take(q as int), jl[q as int]);
        }
        q += 1;
    }
    proof {
        assert(jl.take(parsed@.len() as int) =~= jl);
    }
    Ok(entries)
}

/// How the accumulated cfg set renders into environment variables:
/// `CARGO_CFG_<NAME>` (ASCII-uppercased) set to the comma-joined
/// sorted value set.
pub open spec fn cfg_env_view(m: Seq<(Seq<char>, Seq<Seq<char>>)>) -> Seq<(Seq<char>, Seq<char>)> {
    m.map_values(
        |e: (Seq<char>, Seq<Seq<char>>)|
            ("CARGO_CFG_"@ + crate::text::upper_seq(e.0), crate::text::join_seqs(e.1, seq![','])),
    )
}

/// Renders the accumulated cfg set into environment pairs, as
/// [`cfg_env_view`] says.
pub fn cfg_env_pairs(entries: &Vec<(String, Vec<String>)>) -> (r: Vec<(String, String)>)
    ensures
        crate::kvmap::pair_views(r@) == cfg_env_view(entries_view(entries@)),
{
    let mut r: Vec<(String, String)> = Vec::new();
    let mut i: usize = 0;
    proof {
        assert(crate::kvmap::pair_views(r@) =~= cfg_env_view(entries_view(entries@)).take(0));
    }
    while i < entries.len()
        invariant
            i <= entries@.len(),
            crate::kvmap::pair_views(r@) == cfg_env_view(entries_view(entries@)).take(i as int),
        decreases entries@.len() - i,
    {
        let mut name = "CARGO_CFG_".to_owned();
        name.append(crate::text::upper_ascii(entries[i].0.as_str()).as_str());
        let val = crate::text::join_strings(&entries[i].1, ",");
        let ghost prev = r@;
        let ghost nv = (name@, val@);
        r.push((name, val));
        proof {
            reveal_strlit(",");
            assert(","@ =~= seq![',']);
            assert(nv == cfg_env_view(entries_view(entries@))[i as int]);
            assert(crate::kvmap::pair_views(r@) =~= crate::kvmap::pair_views(prev).push(nv));
            assert(cfg_env_view(entries_view(entries@)).take(i + 1 as int) =~= cfg_env_view(
                entries_view(entries@),
            ).take(i as int).push(nv));
        }
        i += 1;
    }
    proof {
        assert(cfg_env_view(entries_view(entries@)).take(entries@.len() as int) =~= cfg_env_view(
            entries_view(entries@),
        ));
    }
    r
}

} // verus!


